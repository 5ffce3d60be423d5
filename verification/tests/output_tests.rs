use binsize::output::{
    CrateTableFields, Output, OutputKind, SectionTableFields, SegmentTableFields,
    SymbolTableFields,
};

#[test]
fn nothing_is_enabled_by_default() {
    let out = Output::new();
    assert!(!out.any_enabled());
    assert!(!out.enabled(OutputKind::Symbols));
    // All columns are allowed once a table is enabled.
    assert!(out.field_enabled(OutputKind::Symbols, SymbolTableFields::Name.mask()));
}

#[test]
fn enable_and_disable_toggle_tables() {
    let mut out = Output::new();
    out.enable(OutputKind::Symbols);
    out.enable(OutputKind::Sections);
    assert!(out.enabled(OutputKind::Symbols));
    assert!(out.enabled(OutputKind::Sections));
    assert!(!out.enabled(OutputKind::Segments));
    out.disable(OutputKind::Symbols);
    assert!(!out.enabled(OutputKind::Symbols));
    assert!(out.any_enabled());
}

#[test]
fn field_disable_clears_one_column() {
    let mut out = Output::new();
    out.field_disable(OutputKind::Symbols, SymbolTableFields::Crate.mask());
    assert!(!out.field_enabled(OutputKind::Symbols, SymbolTableFields::Crate.mask()));
    assert!(out.field_enabled(OutputKind::Symbols, SymbolTableFields::Name.mask()));
    // Other tables are untouched.
    assert!(out.field_enabled(OutputKind::Crates, CrateTableFields::Name.mask()));
}

#[test]
fn pattern_with_fields_enables_exactly_those() {
    let mut out = Output::new();
    out.apply_pattern("sections=name,size");
    assert!(out.enabled(OutputKind::Sections));
    assert!(out.field_enabled(OutputKind::Sections, SectionTableFields::Name.mask()));
    assert!(out.field_enabled(OutputKind::Sections, SectionTableFields::Size.mask()));
    assert!(!out.field_enabled(OutputKind::Sections, SectionTableFields::Addr.mask()));
}

#[test]
fn bare_pattern_enables_all_columns() {
    let mut out = Output::new();
    out.apply_pattern("segments");
    assert!(out.enabled(OutputKind::Segments));
    assert!(out.field_enabled(OutputKind::Segments, SegmentTableFields::Percent.mask()));
}

#[test]
fn bang_pattern_disables() {
    let mut out = Output::new();
    out.apply_pattern("symbols");
    assert!(out.enabled(OutputKind::Symbols));
    out.apply_pattern("!symbols");
    assert!(!out.enabled(OutputKind::Symbols));
}

#[test]
fn all_pattern_enables_every_table() {
    let mut out = Output::new();
    out.apply_pattern("all");
    assert!(out.enabled(OutputKind::Symbols));
    assert!(out.enabled(OutputKind::Sections));
    assert!(out.enabled(OutputKind::Segments));
    assert!(out.enabled(OutputKind::Crates));
}

#[test]
fn invalid_patterns_are_rejected_unchanged() {
    let mut out = Output::new();
    assert!(out.try_apply_pattern("bogus").is_err());
    assert!(out.try_apply_pattern("symbols=bogus").is_err());
    assert!(out.try_apply_pattern("all=name").is_err());
    assert!(!out.any_enabled());
    assert_eq!(
        out.try_apply_pattern("bogus").err().unwrap(),
        "Invalid output pattern 'bogus'"
    );
}

#[test]
fn kind_and_field_names_parse() {
    assert!(OutputKind::try_from("sym").unwrap() == OutputKind::Symbols);
    assert!(OutputKind::try_from("crates").unwrap() == OutputKind::Crates);
    assert!(OutputKind::try_from("*").unwrap() == OutputKind::All);
    assert_eq!(OutputKind::try_from("wat").err().unwrap(), "Invalid output type 'wat'");

    assert!(SymbolTableFields::try_from("%").unwrap() == SymbolTableFields::Percent);
    assert_eq!(
        SymbolTableFields::try_from("wat").err().unwrap(),
        "Unknown symbol table output field: 'wat'"
    );
    assert!(SectionTableFields::try_from("a").unwrap() == SectionTableFields::Addr);
    assert!(SegmentTableFields::try_from("used").unwrap() == SegmentTableFields::Used);
    assert!(CrateTableFields::try_from("s").unwrap() == CrateTableFields::Size);
}
