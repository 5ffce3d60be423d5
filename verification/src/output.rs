//! Control over which output tables are shown and which of their columns:
//! a bitmask of enabled tables plus one column bitmask per table, driven
//! by textual patterns such as `sections=name,size` or `!segments`.

use vstd::prelude::*;
use vstd::string::*;
use crate::strutil::{find_char, spec_find, spec_split, split_char, str_eq};

verus! {

/// Bit fields of symbol-table columns.
#[derive(Clone, Copy, Debug, PartialEq, Eq, Structural)]
pub enum SymbolTableFields {
    Size,
    Percent,
    Kind,
    Crate,
    Name,
    All,
}

impl SymbolTableFields {
    pub open spec fn spec_mask(&self) -> u8 {
        match self {
            SymbolTableFields::Size => 1,
            SymbolTableFields::Percent => 2,
            SymbolTableFields::Kind => 4,
            SymbolTableFields::Crate => 8,
            SymbolTableFields::Name => 16,
            SymbolTableFields::All => 0xFF,
        }
    }

    /// The column bit the field occupies in the symbol table's mask.
    pub fn mask(&self) -> (r: u8)
        ensures
            r == self.spec_mask(),
    {
        match self {
            SymbolTableFields::Size => 1,
            SymbolTableFields::Percent => 2,
            SymbolTableFields::Kind => 4,
            SymbolTableFields::Crate => 8,
            SymbolTableFields::Name => 16,
            SymbolTableFields::All => 0xFF,
        }
    }

    pub open spec fn spec_try_from(v: Seq<char>) -> Option<SymbolTableFields> {
        if v == "*"@ || v == "all"@ {
            Some(SymbolTableFields::All)
        } else if v == "s"@ || v == "size"@ {
            Some(SymbolTableFields::Size)
        } else if v == "p"@ || v == "percent"@ || v == "%"@ {
            Some(SymbolTableFields::Percent)
        } else if v == "k"@ || v == "kind"@ {
            Some(SymbolTableFields::Kind)
        } else if v == "c"@ || v == "crate"@ {
            Some(SymbolTableFields::Crate)
        } else if v == "n"@ || v == "name"@ {
            Some(SymbolTableFields::Name)
        } else {
            None
        }
    }

    /// Parses a symbol-table column name.
    pub fn try_from(value: &str) -> (r: Result<SymbolTableFields, String>)
        ensures
            r is Ok <==> Self::spec_try_from(value@) is Some,
            r is Ok ==> r->Ok_0 == Self::spec_try_from(value@)->Some_0,
            r is Err ==> r->Err_0@ == "Unknown symbol table output field: '"@ + value@ + "'"@,
    {
        if str_eq(value, "*") || str_eq(value, "all") {
            Ok(SymbolTableFields::All)
        } else if str_eq(value, "s") || str_eq(value, "size") {
            Ok(SymbolTableFields::Size)
        } else if str_eq(value, "p") || str_eq(value, "percent") || str_eq(value, "%") {
            Ok(SymbolTableFields::Percent)
        } else if str_eq(value, "k") || str_eq(value, "kind") {
            Ok(SymbolTableFields::Kind)
        } else if str_eq(value, "c") || str_eq(value, "crate") {
            Ok(SymbolTableFields::Crate)
        } else if str_eq(value, "n") || str_eq(value, "name") {
            Ok(SymbolTableFields::Name)
        } else {
            Err(
                String::from_str("Unknown symbol table output field: '").concat(value).concat("'"),
            )
        }
    }
}

/// Bit fields of crate-table columns.
#[derive(Clone, Copy, Debug, PartialEq, Eq, Structural)]
pub enum CrateTableFields {
    Name,
    Size,
    All,
}

impl CrateTableFields {
    pub open spec fn spec_mask(&self) -> u8 {
        match self {
            CrateTableFields::Name => 1,
            CrateTableFields::Size => 2,
            CrateTableFields::All => 0xFF,
        }
    }

    /// The column bit the field occupies in the crate table's mask.
    pub fn mask(&self) -> (r: u8)
        ensures
            r == self.spec_mask(),
    {
        match self {
            CrateTableFields::Name => 1,
            CrateTableFields::Size => 2,
            CrateTableFields::All => 0xFF,
        }
    }

    pub open spec fn spec_try_from(v: Seq<char>) -> Option<CrateTableFields> {
        if v == "*"@ || v == "all"@ {
            Some(CrateTableFields::All)
        } else if v == "n"@ || v == "name"@ {
            Some(CrateTableFields::Name)
        } else if v == "s"@ || v == "size"@ {
            Some(CrateTableFields::Size)
        } else {
            None
        }
    }

    /// Parses a crate-table column name.
    pub fn try_from(value: &str) -> (r: Result<CrateTableFields, String>)
        ensures
            r is Ok <==> Self::spec_try_from(value@) is Some,
            r is Ok ==> r->Ok_0 == Self::spec_try_from(value@)->Some_0,
            r is Err ==> r->Err_0@ == "Unknown crate table output field: '"@ + value@ + "'"@,
    {
        if str_eq(value, "*") || str_eq(value, "all") {
            Ok(CrateTableFields::All)
        } else if str_eq(value, "n") || str_eq(value, "name") {
            Ok(CrateTableFields::Name)
        } else if str_eq(value, "s") || str_eq(value, "size") {
            Ok(CrateTableFields::Size)
        } else {
            Err(String::from_str("Unknown crate table output field: '").concat(value).concat("'"))
        }
    }
}

/// Bit fields of section-table columns.
#[derive(Clone, Copy, Debug, PartialEq, Eq, Structural)]
pub enum SectionTableFields {
    Name,
    Addr,
    Size,
    All,
}

impl SectionTableFields {
    pub open spec fn spec_mask(&self) -> u8 {
        match self {
            SectionTableFields::Name => 1,
            SectionTableFields::Addr => 2,
            SectionTableFields::Size => 4,
            SectionTableFields::All => 0xFF,
        }
    }

    /// The column bit the field occupies in the section table's mask.
    pub fn mask(&self) -> (r: u8)
        ensures
            r == self.spec_mask(),
    {
        match self {
            SectionTableFields::Name => 1,
            SectionTableFields::Addr => 2,
            SectionTableFields::Size => 4,
            SectionTableFields::All => 0xFF,
        }
    }

    pub open spec fn spec_try_from(v: Seq<char>) -> Option<SectionTableFields> {
        if v == "*"@ || v == "all"@ {
            Some(SectionTableFields::All)
        } else if v == "n"@ || v == "name"@ {
            Some(SectionTableFields::Name)
        } else if v == "a"@ || v == "addr"@ {
            Some(SectionTableFields::Addr)
        } else if v == "s"@ || v == "size"@ {
            Some(SectionTableFields::Size)
        } else {
            None
        }
    }

    /// Parses a section-table column name.
    pub fn try_from(value: &str) -> (r: Result<SectionTableFields, String>)
        ensures
            r is Ok <==> Self::spec_try_from(value@) is Some,
            r is Ok ==> r->Ok_0 == Self::spec_try_from(value@)->Some_0,
            r is Err ==> r->Err_0@ == "Unknown section table output field: '"@ + value@ + "'"@,
    {
        if str_eq(value, "*") || str_eq(value, "all") {
            Ok(SectionTableFields::All)
        } else if str_eq(value, "n") || str_eq(value, "name") {
            Ok(SectionTableFields::Name)
        } else if str_eq(value, "a") || str_eq(value, "addr") {
            Ok(SectionTableFields::Addr)
        } else if str_eq(value, "s") || str_eq(value, "size") {
            Ok(SectionTableFields::Size)
        } else {
            Err(
                String::from_str("Unknown section table output field: '").concat(value).concat(
                    "'",
                ),
            )
        }
    }
}

/// Bit fields of segment-table columns.
#[derive(Clone, Copy, Debug, PartialEq, Eq, Structural)]
pub enum SegmentTableFields {
    Name,
    Addr,
    Used,
    Size,
    Percent,
    All,
}

impl SegmentTableFields {
    pub open spec fn spec_mask(&self) -> u8 {
        match self {
            SegmentTableFields::Name => 1,
            SegmentTableFields::Addr => 2,
            SegmentTableFields::Used => 4,
            SegmentTableFields::Size => 8,
            SegmentTableFields::Percent => 16,
            SegmentTableFields::All => 0xFF,
        }
    }

    /// The column bit the field occupies in the segment table's mask.
    pub fn mask(&self) -> (r: u8)
        ensures
            r == self.spec_mask(),
    {
        match self {
            SegmentTableFields::Name => 1,
            SegmentTableFields::Addr => 2,
            SegmentTableFields::Used => 4,
            SegmentTableFields::Size => 8,
            SegmentTableFields::Percent => 16,
            SegmentTableFields::All => 0xFF,
        }
    }

    pub open spec fn spec_try_from(v: Seq<char>) -> Option<SegmentTableFields> {
        if v == "*"@ || v == "all"@ {
            Some(SegmentTableFields::All)
        } else if v == "n"@ || v == "name"@ {
            Some(SegmentTableFields::Name)
        } else if v == "a"@ || v == "addr"@ {
            Some(SegmentTableFields::Addr)
        } else if v == "u"@ || v == "used"@ {
            Some(SegmentTableFields::Used)
        } else if v == "s"@ || v == "size"@ {
            Some(SegmentTableFields::Size)
        } else if v == "p"@ || v == "percent"@ || v == "%"@ {
            Some(SegmentTableFields::Percent)
        } else {
            None
        }
    }

    /// Parses a segment-table column name.
    pub fn try_from(value: &str) -> (r: Result<SegmentTableFields, String>)
        ensures
            r is Ok <==> Self::spec_try_from(value@) is Some,
            r is Ok ==> r->Ok_0 == Self::spec_try_from(value@)->Some_0,
            r is Err ==> r->Err_0@ == "Unknown segment table output field: '"@ + value@ + "'"@,
    {
        if str_eq(value, "*") || str_eq(value, "all") {
            Ok(SegmentTableFields::All)
        } else if str_eq(value, "n") || str_eq(value, "name") {
            Ok(SegmentTableFields::Name)
        } else if str_eq(value, "a") || str_eq(value, "addr") {
            Ok(SegmentTableFields::Addr)
        } else if str_eq(value, "u") || str_eq(value, "used") {
            Ok(SegmentTableFields::Used)
        } else if str_eq(value, "s") || str_eq(value, "size") {
            Ok(SegmentTableFields::Size)
        } else if str_eq(value, "p") || str_eq(value, "percent") || str_eq(value, "%") {
            Ok(SegmentTableFields::Percent)
        } else {
            Err(
                String::from_str("Unknown segment table output field: '").concat(value).concat(
                    "'",
                ),
            )
        }
    }
}

/// The output tables. `Nothing` and `All` stand for the empty and the
/// full set and are used for masks only.
#[derive(Clone, Copy, Debug, PartialEq, Eq, Structural, Hash)]
pub enum OutputKind {
    Symbols,
    Sections,
    Segments,
    Crates,
    Nothing,
    All,
}

impl OutputKind {
    pub open spec fn spec_mask(&self) -> u8 {
        match self {
            OutputKind::Symbols => 1,
            OutputKind::Sections => 2,
            OutputKind::Segments => 4,
            OutputKind::Crates => 8,
            OutputKind::Nothing => 0,
            OutputKind::All => 0xFF,
        }
    }

    /// The bit the table occupies in the enabled-outputs mask.
    pub fn mask(&self) -> (r: u8)
        ensures
            r == self.spec_mask(),
    {
        match self {
            OutputKind::Symbols => 1,
            OutputKind::Sections => 2,
            OutputKind::Segments => 4,
            OutputKind::Crates => 8,
            OutputKind::Nothing => 0,
            OutputKind::All => 0xFF,
        }
    }

    /// All real table kinds, without `Nothing` and `All`.
    pub fn all() -> (r: Vec<OutputKind>)
        ensures
            r@ == seq![
                OutputKind::Symbols,
                OutputKind::Sections,
                OutputKind::Segments,
                OutputKind::Crates,
            ],
    {
        let mut v: Vec<OutputKind> = Vec::new();
        v.push(OutputKind::Symbols);
        v.push(OutputKind::Sections);
        v.push(OutputKind::Segments);
        v.push(OutputKind::Crates);
        proof {
            assert(v@ =~= seq![
                OutputKind::Symbols,
                OutputKind::Sections,
                OutputKind::Segments,
                OutputKind::Crates,
            ]);
        }
        v
    }

    pub open spec fn spec_try_from(v: Seq<char>) -> Option<OutputKind> {
        if v == "*"@ || v == "all"@ {
            Some(OutputKind::All)
        } else if v == "sym"@ || v == "symbols"@ {
            Some(OutputKind::Symbols)
        } else if v == "sec"@ || v == "sections"@ {
            Some(OutputKind::Sections)
        } else if v == "seg"@ || v == "segments"@ {
            Some(OutputKind::Segments)
        } else if v == "cr"@ || v == "crates"@ {
            Some(OutputKind::Crates)
        } else {
            None
        }
    }

    /// Parses an output-table name.
    pub fn try_from(value: &str) -> (r: Result<OutputKind, String>)
        ensures
            r is Ok <==> Self::spec_try_from(value@) is Some,
            r is Ok ==> r->Ok_0 == Self::spec_try_from(value@)->Some_0,
            r is Err ==> r->Err_0@ == "Invalid output type '"@ + value@ + "'"@,
    {
        if str_eq(value, "*") || str_eq(value, "all") {
            Ok(OutputKind::All)
        } else if str_eq(value, "sym") || str_eq(value, "symbols") {
            Ok(OutputKind::Symbols)
        } else if str_eq(value, "sec") || str_eq(value, "sections") {
            Ok(OutputKind::Sections)
        } else if str_eq(value, "seg") || str_eq(value, "segments") {
            Ok(OutputKind::Segments)
        } else if str_eq(value, "cr") || str_eq(value, "crates") {
            Ok(OutputKind::Crates)
        } else {
            Err(String::from_str("Invalid output type '").concat(value).concat("'"))
        }
    }
}

/// The column mask a comma-separated field list denotes for a table, or
/// `None` when the table takes no field list (`Nothing`, `All`) or some
/// field does not parse.
/// The column bit one field name denotes for a table, or `None` when it
/// does not parse or the table takes no field list.
pub open spec fn spec_field_of(kind: OutputKind, v: Seq<char>) -> Option<u8> {
    match kind {
        OutputKind::Symbols => match SymbolTableFields::spec_try_from(v) {
            Some(f) => Some(f.spec_mask()),
            None => None,
        },
        OutputKind::Sections => match SectionTableFields::spec_try_from(v) {
            Some(f) => Some(f.spec_mask()),
            None => None,
        },
        OutputKind::Segments => match SegmentTableFields::spec_try_from(v) {
            Some(f) => Some(f.spec_mask()),
            None => None,
        },
        OutputKind::Crates => match CrateTableFields::spec_try_from(v) {
            Some(f) => Some(f.spec_mask()),
            None => None,
        },
        _ => None,
    }
}

pub open spec fn spec_fields_mask(kind: OutputKind, fields: Seq<Seq<char>>) -> Option<u8>
    decreases fields.len(),
{
    if !(kind is Symbols || kind is Sections || kind is Segments || kind is Crates) {
        None
    } else if fields.len() == 0 {
        Some(0)
    } else {
        match (spec_fields_mask(kind, fields.drop_last()), spec_field_of(kind, fields.last())) {
            (Some(acc), Some(b)) => Some(acc | b),
            _ => None,
        }
    }
}

/// A field list with one failing entry yields no mask at all.
proof fn lemma_fields_mask_fail(kind: OutputKind, fields: Seq<Seq<char>>, i: int)
    requires
        0 <= i < fields.len(),
        spec_field_of(kind, fields[i]) is None,
    ensures
        spec_fields_mask(kind, fields) is None,
    decreases fields.len(),
{
    if kind is Symbols || kind is Sections || kind is Segments || kind is Crates {
        if i < fields.len() - 1 {
            assert(fields.drop_last()[i] == fields[i]);
            lemma_fields_mask_fail(kind, fields.drop_last(), i);
        }
    }
}

/// What an output pattern means: whether it enables or disables, which
/// table it speaks of, and the column mask. `None` when the pattern is
/// invalid.
pub open spec fn spec_parse_pattern(p: Seq<char>) -> Option<(bool, OutputKind, u8)> {
    let enable = !(p.len() > 0 && p[0] == '!');
    let q = if p.len() > 0 && p[0] == '!' {
        p.skip(1)
    } else {
        p
    };
    let eq = spec_find(q, '=');
    if eq >= 0 {
        let kind_s = q.take(eq);
        let fields_s = q.skip(eq + 1);
        match OutputKind::spec_try_from(kind_s) {
            None => None,
            Some(kind) => match spec_fields_mask(kind, spec_split(fields_s, ',')) {
                None => None,
                Some(m) => Some((enable, kind, m)),
            },
        }
    } else {
        match OutputKind::spec_try_from(q) {
            None => None,
            Some(kind) => Some((enable, kind, 0xFF)),
        }
    }
}

/// Stores the enabled output tables and their column masks.
pub struct Output {
    /// Bitmask of enabled `OutputKind`s
    outputs: u8,
    f_symbols: u8,
    f_sections: u8,
    f_segments: u8,
    f_crates: u8,
}

impl View for Output {
    type V = (u8, u8, u8, u8, u8);

    closed spec fn view(&self) -> (u8, u8, u8, u8, u8) {
        (self.outputs, self.f_symbols, self.f_sections, self.f_segments, self.f_crates)
    }
}

/// The column mask the output keeps for a table; `None` for `Nothing`
/// and `All`, which have no columns of their own.
pub open spec fn spec_field_slot(v: (u8, u8, u8, u8, u8), kind: OutputKind) -> Option<u8> {
    match kind {
        OutputKind::Symbols => Some(v.1),
        OutputKind::Sections => Some(v.2),
        OutputKind::Segments => Some(v.3),
        OutputKind::Crates => Some(v.4),
        _ => None,
    }
}

impl Default for Output {
    /// By default no table is enabled for output, and every column of
    /// every table is.
    fn default() -> (r: Self)
        ensures
            r@ == (0u8, 0xFFu8, 0xFFu8, 0xFFu8, 0xFFu8),
    {
        Output { outputs: 0, f_symbols: 0xFF, f_sections: 0xFF, f_segments: 0xFF, f_crates: 0xFF }
    }
}

impl Output {
    /// Creates the default output control: nothing enabled, all columns
    /// allowed once a table is.
    pub fn new() -> (r: Self)
        ensures
            r@ == (0u8, 0xFFu8, 0xFFu8, 0xFFu8, 0xFFu8),
    {
        Default::default()
    }

    /// Enables output of the table denoted by `kind`.
    pub fn enable(&mut self, kind: OutputKind)
        ensures
            final(self)@.0 == old(self)@.0 | kind.spec_mask(),
            final(self)@.1 == old(self)@.1,
            final(self)@.2 == old(self)@.2,
            final(self)@.3 == old(self)@.3,
            final(self)@.4 == old(self)@.4,
    {
        self.outputs = self.outputs | kind.mask();
    }

    /// Disables output of the table denoted by `kind`.
    pub fn disable(&mut self, kind: OutputKind)
        ensures
            final(self)@.0 == old(self)@.0 & !kind.spec_mask(),
            final(self)@.1 == old(self)@.1,
            final(self)@.2 == old(self)@.2,
            final(self)@.3 == old(self)@.3,
            final(self)@.4 == old(self)@.4,
    {
        self.outputs = self.outputs & !kind.mask();
    }

    /// Whether the table denoted by `kind` is enabled for output.
    pub fn enabled(&self, kind: OutputKind) -> (r: bool)
        ensures
            r == ((self@.0 & kind.spec_mask()) != 0),
    {
        self.outputs & kind.mask() != 0
    }

    /// Whether any output is enabled.
    pub fn any_enabled(&self) -> (r: bool)
        ensures
            r == (self@.0 != 0),
    {
        self.outputs != 0
    }

    /// Disables the columns of `field` in the table denoted by `kind`;
    /// `Nothing` and `All` have no columns and nothing changes.
    pub fn field_disable(&mut self, kind: OutputKind, field: u8)
        ensures
            final(self)@.0 == old(self)@.0,
            match kind {
                OutputKind::Symbols => final(self)@ == (
                    old(self)@.0,
                    old(self)@.1 & !field,
                    old(self)@.2,
                    old(self)@.3,
                    old(self)@.4,
                ),
                OutputKind::Sections => final(self)@ == (
                    old(self)@.0,
                    old(self)@.1,
                    old(self)@.2 & !field,
                    old(self)@.3,
                    old(self)@.4,
                ),
                OutputKind::Segments => final(self)@ == (
                    old(self)@.0,
                    old(self)@.1,
                    old(self)@.2,
                    old(self)@.3 & !field,
                    old(self)@.4,
                ),
                OutputKind::Crates => final(self)@ == (
                    old(self)@.0,
                    old(self)@.1,
                    old(self)@.2,
                    old(self)@.3,
                    old(self)@.4 & !field,
                ),
                _ => final(self)@ == old(self)@,
            },
    {
        match kind {
            OutputKind::Symbols => {
                self.f_symbols = self.f_symbols & !field;
            }
            OutputKind::Sections => {
                self.f_sections = self.f_sections & !field;
            }
            OutputKind::Segments => {
                self.f_segments = self.f_segments & !field;
            }
            OutputKind::Crates => {
                self.f_crates = self.f_crates & !field;
            }
            _ => {}
        }
    }

    /// Whether the columns of `field` in the table denoted by `kind` are
    /// enabled; tables without columns answer no.
    pub fn field_enabled(&self, kind: OutputKind, field: u8) -> (r: bool)
        ensures
            r == match spec_field_slot(self@, kind) {
                Some(m) => (m & field) != 0,
                None => false,
            },
    {
        match kind {
            OutputKind::Symbols => self.f_symbols & field != 0,
            OutputKind::Sections => self.f_sections & field != 0,
            OutputKind::Segments => self.f_segments & field != 0,
            OutputKind::Crates => self.f_crates & field != 0,
            _ => false,
        }
    }

    /// Applies an output pattern such as `sections=name,size`,
    /// `segments`, or `!symbols`; the pattern must be valid (see
    /// `try_apply_pattern` for the checked form).
    pub fn apply_pattern(&mut self, pattern: &str)
        requires
            spec_parse_pattern(pattern@) is Some,
        ensures
            spec_pattern_applied(old(self)@, final(self)@, spec_parse_pattern(pattern@)->Some_0),
    {
        let r = self.try_apply_pattern(pattern);
        proof {
            assert(r is Ok);
        }
    }

    /// Applies an output pattern, rejecting invalid ones and leaving the
    /// output control unchanged for them.
    pub fn try_apply_pattern(&mut self, pattern: &str) -> (r: Result<(), String>)
        ensures
            r is Ok <==> spec_parse_pattern(pattern@) is Some,
            r is Ok ==> spec_pattern_applied(
                old(self)@,
                final(self)@,
                spec_parse_pattern(pattern@)->Some_0,
            ),
            r is Err ==> *final(self) == *old(self) && r->Err_0@ == "Invalid output pattern '"@
                + pattern@ + "'"@,
    {
        let n = pattern.unicode_len();
        let bang = n > 0 && pattern.get_char(0) == '!';
        let enable = !bang;
        let q = if bang {
            pattern.substring_char(1, n)
        } else {
            pattern
        };
        proof {
            if bang {
                assert(q@ =~= pattern@.skip(1));
            }
        }
        let qn = q.unicode_len();
        let output_kind: OutputKind;
        let mut field_mask: u8 = 0;
        match find_char(q, '=') {
            Some(eq) => {
                proof {
                    crate::strutil::lemma_find_bounds(q@, '=');
                }
                let kind_s = q.substring_char(0, eq);
                let fields_s = q.substring_char(eq + 1, qn);
                proof {
                    assert(kind_s@ =~= q@.take(eq as int));
                    assert(fields_s@ =~= q@.skip(eq + 1));
                }
                output_kind = match OutputKind::try_from(kind_s) {
                    Ok(k) => k,
                    Err(_) => {
                        return Err(
                            String::from_str("Invalid output pattern '").concat(pattern).concat(
                                "'",
                            ),
                        );
                    }
                };
                let is_table = matches!(
                    output_kind,
                    OutputKind::Symbols | OutputKind::Sections | OutputKind::Segments
                        | OutputKind::Crates
                );
                if !is_table {
                    return Err(
                        String::from_str("Invalid output pattern '").concat(pattern).concat("'"),
                    );
                }
                let fields = split_char(fields_s, ',');
                let ghost fmodel = spec_split(fields_s@, ',');
                let fn_count = fields.len();
                let mut fi: usize = 0;
                proof {
                    assert(fmodel.take(0) =~= Seq::<Seq<char>>::empty());
                }
                while fi < fn_count
                    invariant
                        fn_count == fields@.len(),
                        fmodel == fields.deep_view(),
                        fmodel.len() == fn_count,
                        0 <= fi <= fn_count,
                        output_kind is Symbols || output_kind is Sections || output_kind
                            is Segments || output_kind is Crates,
                        spec_fields_mask(output_kind, fmodel.take(fi as int)) == Some(field_mask),
                        spec_parse_pattern(pattern@) == match spec_fields_mask(
                            output_kind,
                            fmodel,
                        ) {
                            None => None,
                            Some(m) => Some((enable, output_kind, m)),
                        },
                    decreases fn_count - fi,
                {
                    proof {
                        assert(fmodel.take(fi + 1).drop_last() =~= fmodel.take(fi as int));
                        assert(fmodel.take(fi + 1).last() == fmodel[fi as int]);
                        assert(fmodel[fi as int] == fields@[fi as int]@);
                    }
                    let field = fields[fi].as_str();
                    let m: u8 = match output_kind {
                        OutputKind::Symbols => match SymbolTableFields::try_from(field) {
                            Ok(f) => f.mask(),
                            Err(_) => {
                                proof {
                                    lemma_fields_mask_fail(output_kind, fmodel, fi as int);
                                }
                                return Err(
                                    String::from_str("Invalid output pattern '").concat(
                                        pattern,
                                    ).concat("'"),
                                );
                            }
                        },
                        OutputKind::Sections => match SectionTableFields::try_from(field) {
                            Ok(f) => f.mask(),
                            Err(_) => {
                                proof {
                                    lemma_fields_mask_fail(output_kind, fmodel, fi as int);
                                }
                                return Err(
                                    String::from_str("Invalid output pattern '").concat(
                                        pattern,
                                    ).concat("'"),
                                );
                            }
                        },
                        OutputKind::Segments => match SegmentTableFields::try_from(field) {
                            Ok(f) => f.mask(),
                            Err(_) => {
                                proof {
                                    lemma_fields_mask_fail(output_kind, fmodel, fi as int);
                                }
                                return Err(
                                    String::from_str("Invalid output pattern '").concat(
                                        pattern,
                                    ).concat("'"),
                                );
                            }
                        },
                        OutputKind::Crates => match CrateTableFields::try_from(field) {
                            Ok(f) => f.mask(),
                            Err(_) => {
                                proof {
                                    lemma_fields_mask_fail(output_kind, fmodel, fi as int);
                                }
                                return Err(
                                    String::from_str("Invalid output pattern '").concat(
                                        pattern,
                                    ).concat("'"),
                                );
                            }
                        },
                        _ => 0,
                    };
                    field_mask = field_mask | m;
                    fi += 1;
                }
                proof {
                    assert(fmodel.take(fn_count as int) =~= fmodel);
                }
            }
            None => {
                output_kind = match OutputKind::try_from(q) {
                    Ok(k) => k,
                    Err(_) => {
                        return Err(
                            String::from_str("Invalid output pattern '").concat(pattern).concat(
                                "'",
                            ),
                        );
                    }
                };
                field_mask = 0xFF;
            }
        }
        if enable {
            self.enable(output_kind);
        } else {
            self.disable(output_kind);
        }
        match output_kind {
            OutputKind::Symbols => {
                self.f_symbols = if enable {
                    field_mask
                } else {
                    !field_mask
                };
            }
            OutputKind::Sections => {
                self.f_sections = if enable {
                    field_mask
                } else {
                    !field_mask
                };
            }
            OutputKind::Segments => {
                self.f_segments = if enable {
                    field_mask
                } else {
                    !field_mask
                };
            }
            OutputKind::Crates => {
                self.f_crates = if enable {
                    field_mask
                } else {
                    !field_mask
                };
            }
            _ => {}
        }
        Ok(())
    }
}

/// How applying a parsed pattern (enable, kind, mask) changes the output
/// state: the table's bit is set or cleared, and for a real table its
/// column mask becomes `mask` (enabling) or its complement (disabling).
pub open spec fn spec_pattern_applied(
    before: (u8, u8, u8, u8, u8),
    after: (u8, u8, u8, u8, u8),
    p: (bool, OutputKind, u8),
) -> bool {
    let outs = if p.0 {
        before.0 | p.1.spec_mask()
    } else {
        before.0 & !p.1.spec_mask()
    };
    let slot = if p.0 {
        p.2
    } else {
        !p.2
    };
    match p.1 {
        OutputKind::Symbols => after == (outs, slot, before.2, before.3, before.4),
        OutputKind::Sections => after == (outs, before.1, slot, before.3, before.4),
        OutputKind::Segments => after == (outs, before.1, before.2, slot, before.4),
        OutputKind::Crates => after == (outs, before.1, before.2, before.3, slot),
        _ => after == (outs, before.1, before.2, before.3, before.4),
    }
}

} // verus!
