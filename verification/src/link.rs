//! Linker memory-region parser and region-usage correlator.
//!
//! The parser reads a small declarative subset of linker-script syntax:
//! variable assignments (`name = value ;`) and memory-region declarations
//! (`NAME : ORIGIN = value , LENGTH = value`, in either keyword order).
//! Values are hexadecimal (`0x` prefix) or decimal literals, decimal
//! literals suffixed `K` (x1024) or `M` (x1048576), or references to
//! variables assigned on earlier lines. Every other line is ignored.

use vstd::prelude::*;
use vstd::string::*;
use crate::exe::Segment;
use crate::rex::{regex_captures, spec_captures};
use crate::strutil::{parse_radix, spec_parse_radix_ok, spec_radix_val, str_eq};

verus! {

/// A memory region declared in a linker script, together with the usage
/// data the correlator later fills in.
pub struct MemoryRegion {
    /// Region name
    pub name: String,
    /// Base (start address) of the region
    pub origin: usize,
    /// Size of the region
    pub length: usize,
    /// How much of the region the loadable segments use
    pub used: usize,
}

/// Why parsing a linker script failed.
#[derive(Debug)]
pub enum LinkError {
    /// A numeric literal is malformed or does not fit in `usize`.
    BadNumber(String),
    /// A value refers to a variable no earlier line assigned.
    UnknownVariable(String),
    /// A keyword slot held something other than `ORIGIN` or `LENGTH`.
    BadKeyword(String),
    /// A capture group the grammar relies on is missing.
    MissingCapture,
}

/// Specification-level mirror of `LinkError`.
pub enum LinkErr {
    BadNumber(Seq<char>),
    UnknownVariable(Seq<char>),
    BadKeyword(Seq<char>),
    MissingCapture,
}

impl View for LinkError {
    type V = LinkErr;

    open spec fn view(&self) -> LinkErr {
        match self {
            LinkError::BadNumber(s) => LinkErr::BadNumber(s@),
            LinkError::UnknownVariable(s) => LinkErr::UnknownVariable(s@),
            LinkError::BadKeyword(s) => LinkErr::BadKeyword(s@),
            LinkError::MissingCapture => LinkErr::MissingCapture,
        }
    }
}

impl LinkError {
    /// A readable description of the failure.
    pub fn message(&self) -> (r: String)
        ensures
            match self {
                LinkError::BadNumber(s) => r@ == "Malformed numeric value '"@ + s@ + "'"@,
                LinkError::UnknownVariable(s) => r@ == "Can't find value for variable '"@ + s@
                    + "'"@,
                LinkError::BadKeyword(s) => r@ == "Expected ORIGIN or LENGTH, got '"@ + s@ + "'"@,
                LinkError::MissingCapture => r@ == "Expected a capture group"@,
            },
    {
        match self {
            LinkError::BadNumber(s) => String::from_str("Malformed numeric value '").concat(
                s.as_str(),
            ).concat("'"),
            LinkError::UnknownVariable(s) => String::from_str(
                "Can't find value for variable '",
            ).concat(s.as_str()).concat("'"),
            LinkError::BadKeyword(s) => String::from_str("Expected ORIGIN or LENGTH, got '")
                .concat(s.as_str()).concat("'"),
            LinkError::MissingCapture => String::from_str("Expected a capture group"),
        }
    }
}

/// One resolved variable assignment.
struct VarEntry {
    name: String,
    value: usize,
}

/// The model of a variable table: assignments in the order they were made.
spec fn vars_view(vars: Seq<VarEntry>) -> Seq<(Seq<char>, usize)> {
    vars.map_values(|e: VarEntry| (e.name@, e.value))
}

/// The model of a region list: (name, origin, length) per region.
pub open spec fn regions_model(rs: Seq<MemoryRegion>) -> Seq<(Seq<char>, usize, usize)> {
    rs.map_values(|m: MemoryRegion| (m.name@, m.origin, m.length))
}

/// The value of `name` in the variable table: the latest assignment wins.
pub open spec fn spec_lookup(vars: Seq<(Seq<char>, usize)>, name: Seq<char>) -> Option<usize>
    decreases vars.len(),
{
    if vars.len() == 0 {
        None
    } else if vars.last().0 == name {
        Some(vars.last().1)
    } else {
        spec_lookup(vars.drop_last(), name)
    }
}

/// The value grammar: hexadecimal after `0x`, decimal with optional `K` or
/// `M` suffix, bare decimal, else a variable reference.
pub open spec fn spec_value(vars: Seq<(Seq<char>, usize)>, val: Seq<char>) -> Result<
    usize,
    LinkErr,
> {
    if val.len() >= 2 && val[0] == '0' && val[1] == 'x' {
        let d = val.skip(2);
        if spec_parse_radix_ok(d, 16) {
            Ok(spec_radix_val(d, 16) as usize)
        } else {
            Err(LinkErr::BadNumber(val))
        }
    } else if val.len() >= 1 && val[val.len() - 1] == 'K' {
        let d = val.take(val.len() - 1);
        if spec_parse_radix_ok(d, 10) && spec_radix_val(d, 10) * 1024 <= usize::MAX as int {
            Ok((spec_radix_val(d, 10) * 1024) as usize)
        } else {
            Err(LinkErr::BadNumber(val))
        }
    } else if val.len() >= 1 && val[val.len() - 1] == 'M' {
        let d = val.take(val.len() - 1);
        if spec_parse_radix_ok(d, 10) && spec_radix_val(d, 10) * 1048576 <= usize::MAX as int {
            Ok((spec_radix_val(d, 10) * 1048576) as usize)
        } else {
            Err(LinkErr::BadNumber(val))
        }
    } else if spec_parse_radix_ok(val, 10) {
        Ok(spec_radix_val(val, 10) as usize)
    } else {
        match spec_lookup(vars, val) {
            Some(v) => Ok(v),
            None => Err(LinkErr::UnknownVariable(val)),
        }
    }
}

/// Looks a variable up; the latest assignment of a name wins.
fn lookup(vars: &Vec<VarEntry>, name: &str) -> (r: Option<usize>)
    ensures
        r == spec_lookup(vars_view(vars@), name@),
{
    let mut i: usize = vars.len();
    proof {
        assert(vars_view(vars@).take(i as int) =~= vars_view(vars@));
    }
    while i > 0
        invariant
            i <= vars@.len(),
            spec_lookup(vars_view(vars@), name@) == spec_lookup(
                vars_view(vars@).take(i as int),
                name@,
            ),
        decreases i,
    {
        i -= 1;
        proof {
            assert(vars_view(vars@).take(i + 1).drop_last() =~= vars_view(vars@).take(i as int));
            assert(vars_view(vars@).take(i + 1).last() == vars_view(vars@)[i as int]);
        }
        if str_eq(vars[i].name.as_str(), name) {
            return Some(vars[i].value);
        }
    }
    proof {
        assert(vars_view(vars@).take(0) =~= Seq::<(Seq<char>, usize)>::empty());
    }
    None
}

/// Parses a single value under the grammar of `spec_value`.
fn parse_value(vars: &Vec<VarEntry>, val: &str) -> (r: Result<usize, LinkError>)
    ensures
        r is Ok ==> spec_value(vars_view(vars@), val@) == Result::<usize, LinkErr>::Ok(r->Ok_0),
        r is Err ==> spec_value(vars_view(vars@), val@) == Result::<usize, LinkErr>::Err(
            r->Err_0@,
        ),
{
    let n = val.unicode_len();
    if n >= 2 && val.get_char(0) == '0' && val.get_char(1) == 'x' {
        let d = val.substring_char(2, n);
        proof {
            assert(d@ =~= val@.skip(2));
        }
        match parse_radix(d, 16) {
            Some(x) => Ok(x),
            None => Err(LinkError::BadNumber(String::from_str(val))),
        }
    } else if n >= 1 && val.get_char(n - 1) == 'K' {
        let d = val.substring_char(0, n - 1);
        proof {
            assert(d@ =~= val@.take(n - 1));
        }
        match parse_radix(d, 10) {
            Some(x) => {
                if x <= usize::MAX / 1024 {
                    proof {
                        assert(x * 1024 <= usize::MAX as int) by (nonlinear_arith)
                            requires x >= 0 && x <= usize::MAX as int / 1024;
                    }
                    Ok(x * 1024)
                } else {
                    proof {
                        assert(x * 1024 > usize::MAX as int) by (nonlinear_arith)
                            requires x > usize::MAX as int / 1024;
                    }
                    Err(LinkError::BadNumber(String::from_str(val)))
                }
            }
            None => Err(LinkError::BadNumber(String::from_str(val))),
        }
    } else if n >= 1 && val.get_char(n - 1) == 'M' {
        let d = val.substring_char(0, n - 1);
        proof {
            assert(d@ =~= val@.take(n - 1));
        }
        match parse_radix(d, 10) {
            Some(x) => {
                if x <= usize::MAX / 1048576 {
                    proof {
                        assert(x * 1048576 <= usize::MAX as int) by (nonlinear_arith)
                            requires x >= 0 && x <= usize::MAX as int / 1048576;
                    }
                    Ok(x * 1048576)
                } else {
                    proof {
                        assert(x * 1048576 > usize::MAX as int) by (nonlinear_arith)
                            requires x > usize::MAX as int / 1048576;
                    }
                    Err(LinkError::BadNumber(String::from_str(val)))
                }
            }
            None => Err(LinkError::BadNumber(String::from_str(val))),
        }
    } else {
        match parse_radix(val, 10) {
            Some(x) => Ok(x),
            None => {
                match lookup(vars, val) {
                    Some(v) => Ok(v),
                    None => Err(LinkError::UnknownVariable(String::from_str(val))),
                }
            }
        }
    }
}

/// Pattern for memory-region declarations under `MEMORY` in a linker
/// script: name, then two keyword/value pairs.
pub open spec fn spec_region_pattern() -> Seq<char> {
    "^\\s*(\\w+)\\s*:\\s*(\\w+)\\s*=\\s*(\\w+),\\s*(\\w+)\\s*=\\s*(\\w+)"@
}

fn region_pattern() -> (r: &'static str)
    ensures
        r@ == spec_region_pattern(),
{
    "^\\s*(\\w+)\\s*:\\s*(\\w+)\\s*=\\s*(\\w+),\\s*(\\w+)\\s*=\\s*(\\w+)"
}

/// Pattern for variable assignments in a linker script.
pub open spec fn spec_var_pattern() -> Seq<char> {
    "^\\s*(\\w+)\\s*?=\\s*(\\w+)\\s*;"@
}

fn var_pattern() -> (r: &'static str)
    ensures
        r@ == spec_var_pattern(),
{
    "^\\s*(\\w+)\\s*?=\\s*(\\w+)\\s*;"
}

/// Capture group `i`, or `None` when it is out of range or did not
/// participate in the match.
pub open spec fn spec_group(caps: Seq<Option<Seq<char>>>, i: int) -> Option<Seq<char>> {
    if 0 <= i < caps.len() {
        caps[i]
    } else {
        None
    }
}

/// One keyword/value pair of a region declaration: group `i` names
/// `ORIGIN` or `LENGTH` and group `i + 1` holds its value.
pub open spec fn spec_region_kv(
    caps: Seq<Option<Seq<char>>>,
    vars: Seq<(Seq<char>, usize)>,
    i: int,
    origin: usize,
    length: usize,
) -> Result<(usize, usize), LinkErr> {
    match spec_group(caps, i) {
        None => Err(LinkErr::MissingCapture),
        Some(kw) => if kw == "ORIGIN"@ {
            match spec_group(caps, i + 1) {
                None => Err(LinkErr::MissingCapture),
                Some(v) => match spec_value(vars, v) {
                    Ok(x) => Ok((x, length)),
                    Err(e) => Err(e),
                },
            }
        } else if kw == "LENGTH"@ {
            match spec_group(caps, i + 1) {
                None => Err(LinkErr::MissingCapture),
                Some(v) => match spec_value(vars, v) {
                    Ok(x) => Ok((origin, x)),
                    Err(e) => Err(e),
                },
            }
        } else {
            Err(LinkErr::BadKeyword(kw))
        },
    }
}

/// A whole region declaration: name from group 1, then the pairs at
/// groups 2/3 and 4/5, in whichever order the keywords appear.
pub open spec fn spec_region(caps: Seq<Option<Seq<char>>>, vars: Seq<(Seq<char>, usize)>) -> Result<
    (Seq<char>, usize, usize),
    LinkErr,
> {
    match spec_group(caps, 1) {
        None => Err(LinkErr::MissingCapture),
        Some(name) => match spec_region_kv(caps, vars, 2, 0, 0) {
            Err(e) => Err(e),
            Ok(st1) => match spec_region_kv(caps, vars, 4, st1.0, st1.1) {
                Err(e) => Err(e),
                Ok(st2) => Ok((name, st2.0, st2.1)),
            },
        },
    }
}

/// A variable assignment line: name from group 1, value from group 2,
/// resolved against the table so far and appended to it.
pub open spec fn spec_var_line(vars: Seq<(Seq<char>, usize)>, caps: Seq<Option<Seq<char>>>) -> Result<
    Seq<(Seq<char>, usize)>,
    LinkErr,
> {
    match spec_group(caps, 1) {
        None => Err(LinkErr::MissingCapture),
        Some(name) => match spec_group(caps, 2) {
            None => Err(LinkErr::MissingCapture),
            Some(v) => match spec_value(vars, v) {
                Err(e) => Err(e),
                Ok(x) => Ok(vars.push((name, x))),
            },
        },
    }
}

/// One line of script: a matching variable assignment extends the table,
/// then a matching region declaration appends a region; lines matching
/// neither pattern are ignored.
pub open spec fn spec_line(
    vars: Seq<(Seq<char>, usize)>,
    regions: Seq<(Seq<char>, usize, usize)>,
    line: Seq<char>,
) -> Result<(Seq<(Seq<char>, usize)>, Seq<(Seq<char>, usize, usize)>), LinkErr> {
    let vars1r = match spec_captures(spec_var_pattern(), line) {
        None => Ok(vars),
        Some(caps) => spec_var_line(vars, caps),
    };
    match vars1r {
        Err(e) => Err(e),
        Ok(vars1) => match spec_captures(spec_region_pattern(), line) {
            None => Ok((vars1, regions)),
            Some(caps) => match spec_region(caps, vars1) {
                Err(e) => Err(e),
                Ok(r) => Ok((vars1, regions.push(r))),
            },
        },
    }
}

/// Folds `spec_line` over the remaining lines, top to bottom.
pub open spec fn spec_script_from(
    vars: Seq<(Seq<char>, usize)>,
    regions: Seq<(Seq<char>, usize, usize)>,
    lines: Seq<Seq<char>>,
) -> Result<(Seq<(Seq<char>, usize)>, Seq<(Seq<char>, usize, usize)>), LinkErr>
    decreases lines.len(),
{
    if lines.len() == 0 {
        Ok((vars, regions))
    } else {
        match spec_line(vars, regions, lines[0]) {
            Err(e) => Err(e),
            Ok(st) => spec_script_from(st.0, st.1, lines.drop_first()),
        }
    }
}

/// The regions a whole script yields, or the first error, line by line.
pub open spec fn spec_parse_script(text: Seq<char>) -> Result<
    Seq<(Seq<char>, usize, usize)>,
    LinkErr,
> {
    match spec_script_from(
        Seq::empty(),
        Seq::empty(),
        crate::strutil::spec_split(text, '\n'),
    ) {
        Ok(st) => Ok(st.1),
        Err(e) => Err(e),
    }
}

/// Clones capture group `i`, `None` when absent.
fn group_clone(caps: &Vec<Option<String>>, i: usize) -> (r: Option<String>)
    ensures
        r.deep_view() == spec_group(caps.deep_view(), i as int),
{
    if i < caps.len() {
        proof {
            assert(caps.deep_view()[i as int] == caps@[i as int].deep_view());
        }
        match &caps[i] {
            Some(v) => Some(v.clone()),
            None => None,
        }
    } else {
        None
    }
}

/// Parses one keyword/value pair of a region declaration.
fn parse_region_kv(
    caps: &Vec<Option<String>>,
    vars: &Vec<VarEntry>,
    i: usize,
    origin: usize,
    length: usize,
) -> (r: Result<(usize, usize), LinkError>)
    requires
        i < usize::MAX,
    ensures
        r is Ok ==> spec_region_kv(caps.deep_view(), vars_view(vars@), i as int, origin, length)
            == Result::<(usize, usize), LinkErr>::Ok(r->Ok_0),
        r is Err ==> spec_region_kv(caps.deep_view(), vars_view(vars@), i as int, origin, length)
            == Result::<(usize, usize), LinkErr>::Err(r->Err_0@),
{
    match group_clone(caps, i) {
        None => Err(LinkError::MissingCapture),
        Some(kw) => {
            if str_eq(kw.as_str(), "ORIGIN") {
                match group_clone(caps, i + 1) {
                    None => Err(LinkError::MissingCapture),
                    Some(v) => match parse_value(vars, v.as_str()) {
                        Ok(x) => Ok((x, length)),
                        Err(e) => Err(e),
                    },
                }
            } else if str_eq(kw.as_str(), "LENGTH") {
                match group_clone(caps, i + 1) {
                    None => Err(LinkError::MissingCapture),
                    Some(v) => match parse_value(vars, v.as_str()) {
                        Ok(x) => Ok((origin, x)),
                        Err(e) => Err(e),
                    },
                }
            } else {
                Err(LinkError::BadKeyword(kw))
            }
        }
    }
}

/// Parses a whole region declaration out of its capture groups.
fn parse_region(caps: &Vec<Option<String>>, vars: &Vec<VarEntry>) -> (r: Result<
    MemoryRegion,
    LinkError,
>)
    ensures
        r is Ok ==> spec_region(caps.deep_view(), vars_view(vars@))
            == Result::<(Seq<char>, usize, usize), LinkErr>::Ok(
            (r->Ok_0.name@, r->Ok_0.origin, r->Ok_0.length),
        ) && r->Ok_0.used == 0,
        r is Err ==> spec_region(caps.deep_view(), vars_view(vars@))
            == Result::<(Seq<char>, usize, usize), LinkErr>::Err(r->Err_0@),
{
    match group_clone(caps, 1) {
        None => Err(LinkError::MissingCapture),
        Some(name) => match parse_region_kv(caps, vars, 2, 0, 0) {
            Err(e) => Err(e),
            Ok(st1) => match parse_region_kv(caps, vars, 4, st1.0, st1.1) {
                Err(e) => Err(e),
                Ok(st2) => Ok(MemoryRegion::new(name.as_str(), st2.0, st2.1)),
            },
        },
    }
}

impl MemoryRegion {
    /// Creates a memory region from data parsed out of a linker script;
    /// nothing of it is used yet.
    pub fn new(name: &str, origin: usize, length: usize) -> (r: Self)
        ensures
            r.name@ == name@,
            r.origin == origin,
            r.length == length,
            r.used == 0,
    {
        Self { name: String::from_str(name), origin, length, used: 0 }
    }

    /// Lower and upper bound (addresses) of the region; both ends are
    /// inclusive when segments are tested against them.
    pub fn bounds(&self) -> (r: (usize, usize))
        requires
            self.origin + self.length <= usize::MAX,
        ensures
            r.0 == self.origin,
            r.1 == self.origin + self.length,
    {
        (self.origin, self.origin + self.length)
    }

    /// Parses memory-region declarations from the text of a linker script.
    ///
    /// Variable assignments and region declarations are collected top to
    /// bottom; every line matching neither pattern is ignored. The first
    /// unresolved variable, malformed number, bad keyword or missing
    /// capture aborts the whole parse with that error and no regions.
    pub fn parse_script(text: &str) -> (r: Result<Vec<MemoryRegion>, LinkError>)
        ensures
            r is Ok ==> spec_parse_script(text@) == Result::<
                Seq<(Seq<char>, usize, usize)>,
                LinkErr,
            >::Ok(regions_model(r->Ok_0@)),
            r is Ok ==> forall|i: int| 0 <= i < r->Ok_0@.len() ==> (#[trigger] r->Ok_0@[i]).used
                == 0,
            r is Err ==> spec_parse_script(text@) == Result::<
                Seq<(Seq<char>, usize, usize)>,
                LinkErr,
            >::Err(r->Err_0@),
    {
        let lines = crate::strutil::split_char(text, '\n');
        let ghost all = lines.deep_view();
        let mut vars: Vec<VarEntry> = Vec::new();
        let mut regions: Vec<MemoryRegion> = Vec::new();
        proof {
            assert(vars_view(vars@) =~= Seq::<(Seq<char>, usize)>::empty());
            assert(regions_model(regions@) =~= Seq::<(Seq<char>, usize, usize)>::empty());
            assert(all.skip(0) =~= all);
        }
        let n = lines.len();
        let mut i: usize = 0;
        while i < n
            invariant
                n == lines@.len(),
                all == lines.deep_view(),
                all == crate::strutil::spec_split(text@, '\n'),
                all.len() == n,
                0 <= i <= n,
                forall|k: int| 0 <= k < regions@.len() ==> (#[trigger] regions@[k]).used == 0,
                spec_script_from(Seq::empty(), Seq::empty(), all) == spec_script_from(
                    vars_view(vars@),
                    regions_model(regions@),
                    all.skip(i as int),
                ),
            decreases n - i,
        {
            let ghost pre_vars = vars_view(vars@);
            let ghost pre_regs = regions_model(regions@);
            let line = lines[i].as_str();
            proof {
                assert(line@ == all[i as int]);
                assert(all.skip(i as int)[0] == all[i as int]);
                assert(all.skip(i as int).drop_first() =~= all.skip(i + 1));
                assert(all.skip(i as int).len() > 0);
            }
            match regex_captures(var_pattern(), line) {
                None => {}
                Some(caps) => {
                    match group_clone(&caps, 1) {
                        None => {
                            proof {
                                assert(spec_line(pre_vars, pre_regs, all[i as int])
                                    == Result::<
                                    (Seq<(Seq<char>, usize)>, Seq<(Seq<char>, usize, usize)>),
                                    LinkErr,
                                >::Err(LinkErr::MissingCapture));
                            }
                            return Err(LinkError::MissingCapture);
                        }
                        Some(name) => match group_clone(&caps, 2) {
                            None => {
                                proof {
                                    assert(spec_line(pre_vars, pre_regs, all[i as int])
                                        == Result::<
                                        (Seq<(Seq<char>, usize)>, Seq<(Seq<char>, usize, usize)>),
                                        LinkErr,
                                    >::Err(LinkErr::MissingCapture));
                                }
                                return Err(LinkError::MissingCapture);
                            }
                            Some(v) => match parse_value(&vars, v.as_str()) {
                                Err(e) => {
                                    proof {
                                        assert(spec_line(pre_vars, pre_regs, all[i as int])
                                            == Result::<
                                            (
                                                Seq<(Seq<char>, usize)>,
                                                Seq<(Seq<char>, usize, usize)>,
                                            ),
                                            LinkErr,
                                        >::Err(e@));
                                    }
                                    return Err(e);
                                }
                                Ok(x) => {
                                    let ghost name_view = name@;
                                    vars.push(VarEntry { name, value: x });
                                    proof {
                                        assert(vars_view(vars@) =~= pre_vars.push(
                                            (name_view, x),
                                        ));
                                    }
                                }
                            },
                        },
                    }
                }
            }
            let ghost mid_vars = vars_view(vars@);
            match regex_captures(region_pattern(), line) {
                None => {}
                Some(caps) => match parse_region(&caps, &vars) {
                    Err(e) => {
                        proof {
                            assert(spec_line(pre_vars, pre_regs, all[i as int]) == Result::<
                                (Seq<(Seq<char>, usize)>, Seq<(Seq<char>, usize, usize)>),
                                LinkErr,
                            >::Err(e@));
                        }
                        return Err(e);
                    }
                    Ok(reg) => {
                        let ghost reg_model = (reg.name@, reg.origin, reg.length);
                        regions.push(reg);
                        proof {
                            assert(regions_model(regions@) =~= pre_regs.push(reg_model));
                        }
                    }
                },
            }
            proof {
                assert(spec_line(pre_vars, pre_regs, all[i as int]) == Result::<
                    (Seq<(Seq<char>, usize)>, Seq<(Seq<char>, usize, usize)>),
                    LinkErr,
                >::Ok((vars_view(vars@), regions_model(regions@))));
            }
            i += 1;
        }
        proof {
            assert(all.skip(n as int) =~= Seq::<Seq<char>>::empty());
        }
        Ok(regions)
    }

    /// Whether `s` starts inside the inclusive window of a region.
    pub open spec fn spec_seg_within(origin: usize, length: usize, s: Segment) -> bool {
        origin <= s.addr && s.addr as int <= origin as int + length as int
    }

    /// Total size of the segments whose start address falls inside the
    /// inclusive window `[origin, origin + length]`. A segment is counted
    /// by every region whose window holds its start address.
    pub open spec fn spec_used_sum(segs: Seq<Segment>, origin: usize, length: usize) -> int
        decreases segs.len(),
    {
        if segs.len() == 0 {
            0
        } else {
            Self::spec_used_sum(segs.drop_last(), origin, length) + if Self::spec_seg_within(
                origin,
                length,
                segs.last(),
            ) {
                segs.last().size as int
            } else {
                0
            }
        }
    }

    /// Uses the loadable segments of a parsed binary to fill the regions'
    /// usage data: each region's `used` grows by the sizes of all segments
    /// starting inside its inclusive window.
    pub fn use_segments_data(regions: &mut Vec<MemoryRegion>, segments: &Vec<Segment>)
        requires
            forall|i: int| 0 <= i < old(regions)@.len() ==> (#[trigger] old(regions)@[i]).origin
                + old(regions)@[i].length <= usize::MAX,
            forall|i: int| 0 <= i < old(regions)@.len() ==> (#[trigger] old(regions)@[i]).used
                + Self::spec_used_sum(
                    segments@,
                    old(regions)@[i].origin,
                    old(regions)@[i].length,
                ) <= usize::MAX,
        ensures
            final(regions)@.len() == old(regions)@.len(),
            forall|i: int| 0 <= i < old(regions)@.len() ==> {
                &&& (#[trigger] final(regions)@[i]).name == old(regions)@[i].name
                &&& final(regions)@[i].origin == old(regions)@[i].origin
                &&& final(regions)@[i].length == old(regions)@[i].length
                &&& final(regions)@[i].used == old(regions)@[i].used + Self::spec_used_sum(
                    segments@,
                    old(regions)@[i].origin,
                    old(regions)@[i].length,
                )
            },
    {
        let ghost orig = regions@;
        let n = regions.len();
        let m = segments.len();
        let mut r: usize = 0;
        while r < n
            invariant
                n == regions@.len(),
                n == orig.len(),
                m == segments@.len(),
                0 <= r <= n,
                forall|i: int| 0 <= i < n ==> (#[trigger] orig[i]).origin + orig[i].length
                    <= usize::MAX,
                forall|i: int| 0 <= i < n ==> (#[trigger] orig[i]).used + Self::spec_used_sum(
                    segments@,
                    orig[i].origin,
                    orig[i].length,
                ) <= usize::MAX,
                forall|i: int| 0 <= i < n ==> {
                    &&& (#[trigger] regions@[i]).name == orig[i].name
                    &&& regions@[i].origin == orig[i].origin
                    &&& regions@[i].length == orig[i].length
                },
                forall|i: int| r <= i < n ==> (#[trigger] regions@[i]).used == orig[i].used,
                forall|i: int| 0 <= i < r ==> (#[trigger] regions@[i]).used == orig[i].used
                    + Self::spec_used_sum(segments@, orig[i].origin, orig[i].length),
            decreases n - r,
        {
            let origin = regions[r].origin;
            let length = regions[r].length;
            let end = origin + length;
            let mut acc: usize = regions[r].used;
            let mut j: usize = 0;
            proof {
                assert(segments@.take(0) =~= Seq::<Segment>::empty());
            }
            while j < m
                invariant
                    m == segments@.len(),
                    0 <= j <= m,
                    origin as int + length as int <= usize::MAX,
                    end == origin + length,
                    acc == orig[r as int].used + Self::spec_used_sum(
                        segments@.take(j as int),
                        origin,
                        length,
                    ),
                    orig[r as int].used + Self::spec_used_sum(segments@, origin, length)
                        <= usize::MAX,
                    r < n,
                    origin == orig[r as int].origin,
                    length == orig[r as int].length,
                decreases m - j,
            {
                proof {
                    assert(segments@.take(j + 1).drop_last() =~= segments@.take(j as int));
                    assert(segments@.take(j + 1).last() == segments@[j as int]);
                    Self::lemma_used_sum_take_le(segments@, j + 1, origin, length);
                }
                let addr = segments[j].addr;
                if origin <= addr && addr <= end {
                    acc = acc + segments[j].size;
                }
                j += 1;
            }
            proof {
                assert(segments@.take(m as int) =~= segments@);
            }
            regions[r].used = acc;
            r += 1;
        }
    }

    /// The usage sum over a prefix of the segments never exceeds the sum
    /// over all of them.
    proof fn lemma_used_sum_take_le(segs: Seq<Segment>, j: int, origin: usize, length: usize)
        requires
            0 <= j <= segs.len(),
        ensures
            Self::spec_used_sum(segs.take(j), origin, length) <= Self::spec_used_sum(
                segs,
                origin,
                length,
            ),
            Self::spec_used_sum(segs.take(j), origin, length) >= 0,
        decreases segs.len() - j,
    {
        Self::lemma_used_sum_nonneg(segs.take(j), origin, length);
        if j == segs.len() {
            assert(segs.take(j) =~= segs);
        } else {
            Self::lemma_used_sum_take_le(segs, j + 1, origin, length);
            assert(segs.take(j + 1).drop_last() =~= segs.take(j));
        }
    }

    proof fn lemma_used_sum_nonneg(segs: Seq<Segment>, origin: usize, length: usize)
        ensures
            Self::spec_used_sum(segs, origin, length) >= 0,
        decreases segs.len(),
    {
        if segs.len() > 0 {
            Self::lemma_used_sum_nonneg(segs.drop_last(), origin, length);
        }
    }
}

} // verus!
