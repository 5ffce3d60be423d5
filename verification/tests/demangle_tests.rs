use binsize::demangle::{crate_name_from_demangled, demangle, DemangledSymbolKind};

#[test]
fn rust_symbol_is_demangled_and_hash_stripped() {
    let d = demangle("_ZN4core3fmt9Formatter9write_str17h1234567890abcdefE");
    assert!(d.kind == DemangledSymbolKind::Rust);
    assert_eq!(d.name, "core::fmt::Formatter::write_str");
}

#[test]
fn rust_symbol_v0_is_demangled() {
    // v0 names carry no `::h<hex>` suffix; the hash strip still cuts
    // from one character before the last `:`, so the final path segment
    // goes with it.
    let d = demangle("_RNvNtCs1234_7mycrate3foo3bar");
    assert!(d.kind == DemangledSymbolKind::Rust);
    assert_eq!(d.name, "mycrate[3c1c0]::foo");
}

#[test]
fn roundtripping_name_is_never_marked_rust() {
    // A name the native scheme leaves unchanged must come back as
    // Raw or as the C++ scheme's result, never as a Rust demangling.
    let d = demangle("main");
    assert!(d.kind != DemangledSymbolKind::Rust);
    assert_eq!(d.name, "main");

    let d = demangle("just_some_symbol");
    assert!(d.kind != DemangledSymbolKind::Rust);
    assert_eq!(d.name, "just_some_symbol");
}

#[test]
fn cpp_symbol_falls_back_to_cpp_demangler() {
    let d = demangle("_Z3foov");
    assert!(d.kind == DemangledSymbolKind::Cpp);
    assert_eq!(d.name, "foo()");
}

#[test]
fn unknown_symbol_is_returned_raw() {
    let d = demangle("@@not-a-mangled-name@@");
    assert!(d.kind == DemangledSymbolKind::Other);
    assert_eq!(d.name, "@@not-a-mangled-name@@");
}

#[test]
fn direct_path_prefix_is_the_unit() {
    assert_eq!(crate_name_from_demangled("core::fmt::Formatter::write_str"), "core");
}

#[test]
fn trait_impl_falls_back_to_the_trait_unit() {
    // The implementing type's path is not capturable as a leading
    // identifier, so the unit after `as` wins.
    assert_eq!(crate_name_from_demangled("<bool as core::fmt::Display>::fmt"), "core");
    assert_eq!(crate_name_from_demangled("<Type as unit::Trait>::method"), "unit");
}

#[test]
fn trait_impl_prefers_the_implementing_type() {
    assert_eq!(
        crate_name_from_demangled("<heapless::vec::Vec<T,_> as core::ops::deref::Deref>::deref"),
        "heapless"
    );
}

#[test]
fn unmatchable_name_yields_question_mark() {
    assert_eq!(crate_name_from_demangled("@@strange symbol@@"), "?");
}
