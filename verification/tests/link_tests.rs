use binsize::exe::Segment;
use binsize::link::MemoryRegion;

#[test]
fn variable_and_region_declaration_parse() {
    let script = "__boot_size = 0x10000;\nMEMORY\n{\n    BOOTLOADER : ORIGIN = 0x8000000, LENGTH = __boot_size\n}\n";
    let regions = MemoryRegion::parse_script(script).unwrap();
    assert_eq!(regions.len(), 1);
    assert_eq!(regions[0].name, "BOOTLOADER");
    assert_eq!(regions[0].origin, 0x8000000);
    assert_eq!(regions[0].length, 65536);
    assert_eq!(regions[0].used, 0);
}

#[test]
fn kilobyte_suffix_scales_the_length() {
    let regions = MemoryRegion::parse_script("RAM : ORIGIN = 0x20000000, LENGTH = 8K").unwrap();
    assert_eq!(regions.len(), 1);
    assert_eq!(regions[0].name, "RAM");
    assert_eq!(regions[0].origin, 0x20000000);
    assert_eq!(regions[0].length, 8192);
}

#[test]
fn megabyte_suffix_and_variable_chain() {
    let script = "a = 16;\nb = a;\nRAM : ORIGIN = b, LENGTH = 2M\n";
    let regions = MemoryRegion::parse_script(script).unwrap();
    assert_eq!(regions.len(), 1);
    assert_eq!(regions[0].origin, 16);
    assert_eq!(regions[0].length, 2 * 1024 * 1024);
}

#[test]
fn keyword_order_may_be_swapped() {
    let regions = MemoryRegion::parse_script("RAM : LENGTH = 4K, ORIGIN = 0x100").unwrap();
    assert_eq!(regions.len(), 1);
    assert_eq!(regions[0].origin, 0x100);
    assert_eq!(regions[0].length, 4096);
}

#[test]
fn unmatched_lines_are_ignored() {
    let script = "MEMORY\n{\n}\nnothing to see here\n";
    let regions = MemoryRegion::parse_script(script).unwrap();
    assert_eq!(regions.len(), 0);
}

#[test]
fn undefined_variable_is_a_descriptive_error() {
    let r = MemoryRegion::parse_script("FLASH : ORIGIN = __base, LENGTH = 64K");
    match r {
        Ok(_) => panic!("parsing should fail on an undefined variable"),
        Err(e) => {
            assert_eq!(e.message(), "Can't find value for variable '__base'");
        }
    }
}

#[test]
fn variable_used_before_assignment_is_an_error() {
    // Variables resolve top to bottom; a later assignment does not help.
    let script = "RAM : ORIGIN = base, LENGTH = 1K\nbase = 0x100;\n";
    assert!(MemoryRegion::parse_script(script).is_err());
}

#[test]
fn correlator_sums_segments_inside_the_window() {
    let mut regions = vec![MemoryRegion::new("RAM", 0x1000, 0x1000)];
    let segments = vec![
        Segment { addr: 0x1000, size: 0x500 },
        Segment { addr: 0x3000, size: 0x100 },
    ];
    MemoryRegion::use_segments_data(&mut regions, &segments);
    assert_eq!(regions[0].used, 0x500);

    // Percentage formula on round numbers: (500 * 100.0) / 1000 = 50.0.
    let mut regions = vec![MemoryRegion::new("RAM", 0x1000, 1000)];
    let segments = vec![Segment { addr: 0x1000, size: 500 }];
    MemoryRegion::use_segments_data(&mut regions, &segments);
    assert_eq!(regions[0].used, 500);
    let percentage = regions[0].used as f32 / (regions[0].length as f32 / 100.0);
    assert_eq!(percentage, 50.0);
}

#[test]
fn correlator_window_is_inclusive_at_both_ends() {
    let mut regions = vec![MemoryRegion::new("R", 0x100, 0x100)];
    let segments = vec![
        Segment { addr: 0x100, size: 1 },
        Segment { addr: 0x200, size: 2 },
        Segment { addr: 0x201, size: 4 },
        Segment { addr: 0xff, size: 8 },
    ];
    MemoryRegion::use_segments_data(&mut regions, &segments);
    assert_eq!(regions[0].used, 3);
}

#[test]
fn overlapping_regions_both_count_a_segment() {
    let mut regions = vec![
        MemoryRegion::new("A", 0x0, 0x1000),
        MemoryRegion::new("B", 0x800, 0x1000),
    ];
    let segments = vec![Segment { addr: 0x900, size: 0x10 }];
    MemoryRegion::use_segments_data(&mut regions, &segments);
    assert_eq!(regions[0].used, 0x10);
    assert_eq!(regions[1].used, 0x10);
}

#[test]
fn zero_length_region_gives_non_finite_percentage() {
    let mut regions = vec![MemoryRegion::new("Z", 0x100, 0)];
    let segments = vec![Segment { addr: 0x100, size: 0x10 }];
    MemoryRegion::use_segments_data(&mut regions, &segments);
    assert_eq!(regions[0].used, 0x10);
    let percentage = regions[0].used as f32 / (regions[0].length as f32 / 100.0);
    assert!(!percentage.is_finite());
}

#[test]
fn bounds_are_origin_and_origin_plus_length() {
    let r = MemoryRegion::new("R", 0x200, 0x80);
    assert_eq!(r.bounds(), (0x200, 0x280));
}

#[test]
fn decimal_values_parse_exactly() {
    let regions = MemoryRegion::parse_script("RAM : ORIGIN = 256, LENGTH = 10").unwrap();
    assert_eq!(regions[0].origin, 256);
    assert_eq!(regions[0].length, 10);
}

#[test]
fn malformed_number_is_a_descriptive_error() {
    // `0x` with no digits behind it is no number, and no fallback to a
    // variable lookup happens for it.
    let r = MemoryRegion::parse_script("RAM : ORIGIN = 0x, LENGTH = 1K");
    match r {
        Ok(_) => panic!("parsing should fail on a malformed number"),
        Err(e) => assert_eq!(e.message(), "Malformed numeric value '0x'"),
    }
}

#[test]
fn overflowing_number_is_an_error() {
    let r = MemoryRegion::parse_script("RAM : ORIGIN = 0, LENGTH = 99999999999999999999999999");
    assert!(r.is_err());
}

#[test]
fn unknown_keyword_is_a_descriptive_error() {
    let r = MemoryRegion::parse_script("RAM : ORIGIN = 1, WIDTH = 2");
    match r {
        Ok(_) => panic!("parsing should fail on an unknown keyword"),
        Err(e) => assert_eq!(e.message(), "Expected ORIGIN or LENGTH, got 'WIDTH'"),
    }
}
