use binsize::exe::{
    assemble, parse, repair_sizes, ExecutableInfo, ObjSymbolKind, RawSection, RawSymbol, Symbol,
    SymbolKind,
};
use binsize::util::SortOrder;
use object::write::{Object, StandardSection, Symbol as WSymbol, SymbolSection};
use object::{
    Architecture, BinaryFormat, Endianness, SymbolFlags, SymbolKind as OSymbolKind, SymbolScope,
};

fn sym(addr: usize, size: usize) -> Symbol {
    Symbol {
        name: String::from("s"),
        crate_name: String::from("?"),
        size,
        addr,
        kind: SymbolKind::Function,
    }
}

#[test]
fn zero_size_takes_distance_to_next_distinct_address() {
    // Two entries share an address; the repaired size comes from the
    // next entry at a strictly greater address.
    let mut symbols = vec![sym(100, 0), sym(100, 4), sym(150, 0), sym(200, 8)];
    repair_sizes(&mut symbols);
    assert_eq!(symbols[0].size, 50);
    assert_eq!(symbols[1].size, 4);
    assert_eq!(symbols[2].size, 50);
    assert_eq!(symbols[3].size, 8);
}

#[test]
fn repair_never_exceeds_next_distinct_address() {
    let mut symbols = vec![sym(0x1000, 0), sym(0x1010, 0), sym(0x1100, 1)];
    repair_sizes(&mut symbols);
    assert_eq!(symbols[0].size, 0x10);
    assert_eq!(symbols[1].size, 0xF0);
}

#[test]
fn highest_addressed_symbol_keeps_size_zero() {
    let mut symbols = vec![sym(10, 0), sym(20, 0)];
    repair_sizes(&mut symbols);
    assert_eq!(symbols[0].size, 10);
    assert_eq!(symbols[1].size, 0);
}

#[test]
fn no_strictly_greater_address_keeps_size_zero() {
    // Every entry shares one address: no candidate is strictly greater.
    let mut symbols = vec![sym(10, 0), sym(10, 0), sym(10, 0)];
    repair_sizes(&mut symbols);
    assert_eq!(symbols[0].size, 0);
    assert_eq!(symbols[1].size, 0);
    assert_eq!(symbols[2].size, 0);
}

#[test]
fn repair_of_empty_and_single_lists_is_a_noop() {
    let mut symbols: Vec<Symbol> = vec![];
    repair_sizes(&mut symbols);
    assert_eq!(symbols.len(), 0);

    let mut symbols = vec![sym(10, 0)];
    repair_sizes(&mut symbols);
    assert_eq!(symbols[0].size, 0);
}

#[test]
fn sort_symbols_orders_by_size() {
    let mut info = ExecutableInfo {
        symbols: vec![sym(1, 3), sym(2, 1), sym(3, 2)],
        sections: vec![],
        segments: vec![],
    };
    info.sort_symbols(SortOrder::Ascending);
    let sizes: Vec<usize> = info.symbols.iter().map(|s| s.size).collect();
    assert_eq!(sizes, vec![1, 2, 3]);

    info.sort_symbols(SortOrder::Descending);
    let sizes: Vec<usize> = info.symbols.iter().map(|s| s.size).collect();
    assert_eq!(sizes, vec![3, 2, 1]);
}

#[test]
fn assemble_drops_unknown_kinds_and_demangles() {
    let raw_symbols = vec![
        RawSymbol {
            name: Some(String::from("_ZN4core3fmt9Formatter9write_str17h1234567890abcdefE")),
            addr: 0x20,
            size: 8,
            kind: ObjSymbolKind::Text,
        },
        RawSymbol {
            name: Some(String::from("a_file.rs")),
            addr: 0x10,
            size: 0,
            kind: ObjSymbolKind::Other,
        },
        RawSymbol { name: None, addr: 0x10, size: 4, kind: ObjSymbolKind::Data },
    ];
    let raw_sections = vec![
        RawSection { name: Some(String::from(".text")), addr: 0x20, size: 0x100 },
        RawSection { name: None, addr: 0x200, size: 0x10 },
    ];
    let info = assemble(raw_symbols, raw_sections, vec![]);

    // The Other-kind entry is gone; the rest are sorted by address.
    assert_eq!(info.symbols.len(), 2);
    for s in info.symbols.iter() {
        assert!(s.kind == SymbolKind::Function || s.kind == SymbolKind::Data);
    }
    assert_eq!(info.symbols[0].addr, 0x10);
    assert_eq!(info.symbols[0].name, "?");
    assert!(info.symbols[0].kind == SymbolKind::Data);
    assert_eq!(info.symbols[1].addr, 0x20);
    assert_eq!(info.symbols[1].name, "core::fmt::Formatter::write_str");
    assert_eq!(info.symbols[1].crate_name, "core");
    assert!(info.symbols[1].kind == SymbolKind::Function);

    assert_eq!(info.sections.len(), 2);
    assert_eq!(info.sections[0].name, ".text");
    assert_eq!(info.sections[1].name, "?");
    assert_eq!(info.sections[1].addr, 0x200);
}

#[test]
fn parse_reads_symbols_and_sections_from_an_object_file() {
    let mut obj = Object::new(BinaryFormat::Elf, Architecture::X86_64, Endianness::Little);
    let text = obj.section_id(StandardSection::Text);
    obj.append_section_data(text, &[0x90u8; 64], 16);
    obj.add_symbol(WSymbol {
        name: b"_ZN4core3fmt9Formatter9write_str17h1234567890abcdefE".to_vec(),
        value: 0,
        size: 0,
        kind: OSymbolKind::Text,
        scope: SymbolScope::Linkage,
        weak: false,
        section: SymbolSection::Section(text),
        flags: SymbolFlags::None,
    });
    obj.add_symbol(WSymbol {
        name: b"plain_function".to_vec(),
        value: 0x10,
        size: 16,
        kind: OSymbolKind::Text,
        scope: SymbolScope::Linkage,
        weak: false,
        section: SymbolSection::Section(text),
        flags: SymbolFlags::None,
    });
    let bytes = obj.write().unwrap();

    let info = parse(&bytes).unwrap();

    // Retained symbols are Function/Data only, sorted by address, with
    // the zero size of the first repaired from the next address.
    assert_eq!(info.symbols.len(), 2);
    for s in info.symbols.iter() {
        assert!(s.kind == SymbolKind::Function || s.kind == SymbolKind::Data);
    }
    assert_eq!(info.symbols[0].name, "core::fmt::Formatter::write_str");
    assert_eq!(info.symbols[0].crate_name, "core");
    assert_eq!(info.symbols[0].addr, 0);
    assert_eq!(info.symbols[0].size, 0x10);
    assert_eq!(info.symbols[1].name, "plain_function");
    assert_eq!(info.symbols[1].size, 16);

    assert!(info.sections.iter().any(|s| s.name == ".text" && s.size >= 64));
    assert_eq!(info.segments.len(), 0);
}

#[test]
fn parse_rejects_unrecognized_bytes() {
    let r = parse(b"this is no object file at all");
    assert!(r.is_err());
    assert_eq!(r.err().unwrap().message(), "Unrecognized or corrupt object format");
}

#[test]
fn parse_reads_loadable_segments() {
    // A minimal executable ELF64 with a single PT_LOAD program header.
    let mut bytes: Vec<u8> = Vec::new();
    bytes.extend_from_slice(&[0x7f, b'E', b'L', b'F', 2, 1, 1, 0]);
    bytes.extend_from_slice(&[0u8; 8]);
    bytes.extend_from_slice(&2u16.to_le_bytes()); // e_type = EXEC
    bytes.extend_from_slice(&0x3eu16.to_le_bytes()); // e_machine = x86-64
    bytes.extend_from_slice(&1u32.to_le_bytes()); // e_version
    bytes.extend_from_slice(&0x401000u64.to_le_bytes()); // e_entry
    bytes.extend_from_slice(&64u64.to_le_bytes()); // e_phoff
    bytes.extend_from_slice(&0u64.to_le_bytes()); // e_shoff
    bytes.extend_from_slice(&0u32.to_le_bytes()); // e_flags
    bytes.extend_from_slice(&64u16.to_le_bytes()); // e_ehsize
    bytes.extend_from_slice(&56u16.to_le_bytes()); // e_phentsize
    bytes.extend_from_slice(&1u16.to_le_bytes()); // e_phnum
    bytes.extend_from_slice(&64u16.to_le_bytes()); // e_shentsize
    bytes.extend_from_slice(&0u16.to_le_bytes()); // e_shnum
    bytes.extend_from_slice(&0u16.to_le_bytes()); // e_shstrndx
    // PT_LOAD program header
    bytes.extend_from_slice(&1u32.to_le_bytes()); // p_type = LOAD
    bytes.extend_from_slice(&5u32.to_le_bytes()); // p_flags = R+X
    bytes.extend_from_slice(&0u64.to_le_bytes()); // p_offset
    bytes.extend_from_slice(&0x400000u64.to_le_bytes()); // p_vaddr
    bytes.extend_from_slice(&0x400000u64.to_le_bytes()); // p_paddr
    bytes.extend_from_slice(&120u64.to_le_bytes()); // p_filesz
    bytes.extend_from_slice(&0x2000u64.to_le_bytes()); // p_memsz
    bytes.extend_from_slice(&0x1000u64.to_le_bytes()); // p_align

    let info = parse(&bytes).unwrap();
    assert_eq!(info.segments.len(), 1);
    assert_eq!(info.segments[0].addr, 0x400000);
    assert_eq!(info.segments[0].size, 0x2000);
    assert_eq!(info.symbols.len(), 0);
}

#[test]
fn crate_sizes_aggregate_in_first_encounter_order() {
    let mut symbols = vec![sym(1, 5), sym(2, 2), sym(3, 7), sym(4, 1)];
    symbols[0].crate_name = String::from("alpha");
    symbols[1].crate_name = String::from("beta");
    symbols[2].crate_name = String::from("alpha");
    symbols[3].crate_name = String::from("beta");
    let sizes = binsize::exe::crate_sizes(&symbols);
    assert_eq!(sizes.len(), 2);
    assert_eq!(sizes[0], (String::from("alpha"), 12));
    assert_eq!(sizes[1], (String::from("beta"), 3));
}

#[test]
fn crate_sizes_of_no_symbols_is_empty() {
    let sizes = binsize::exe::crate_sizes(&vec![]);
    assert_eq!(sizes.len(), 0);
}
