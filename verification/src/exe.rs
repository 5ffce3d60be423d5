//! Executable-model extraction: the symbols, sections and loadable
//! segments of one parsed binary, the zero-size repair pass for object
//! formats that omit symbol sizes, sorting of symbols by size, per-crate
//! size totals, and the parser that builds the model from the bytes of an
//! object file.

use vstd::prelude::*;
use vstd::string::*;
use object::{Object, ObjectSection, ObjectSegment, ObjectSymbol};
use crate::demangle::{
    crate_name_from_demangled, demangle, spec_cpp_demangled, spec_crate_guess, spec_rust_demangled,
    spec_strip_hash,
};
use crate::util::SortOrder;

verus! {

broadcast use vstd::seq_lib::group_to_multiset_ensures;

/// Kind of a symbol-table entry after classification.
#[derive(PartialEq, Eq, Structural, Clone, Copy, Debug)]
pub enum SymbolKind {
    Unknown,
    Function,
    Data,
}

impl SymbolKind {
    /// Short fixed-width label, as shown in symbol tables.
    pub fn label(&self) -> (r: &'static str)
        ensures
            *self is Unknown ==> r@ == "UNK "@,
            *self is Function ==> r@ == "FUNC"@,
            *self is Data ==> r@ == "DATA"@,
    {
        match self {
            SymbolKind::Unknown => "UNK ",
            SymbolKind::Function => "FUNC",
            SymbolKind::Data => "DATA",
        }
    }
}

/// A symbol (function or data object) extracted from an executable.
pub struct Symbol {
    /// Symbol name (demangled)
    pub name: String,
    /// Crate name (guessed)
    pub crate_name: String,
    /// Symbol size
    pub size: usize,
    /// Symbol address
    pub addr: usize,
    /// Symbol kind
    pub kind: SymbolKind,
}

/// A section in an executable (`.text`/`.data`/etc.)
pub struct Section {
    /// Section name
    pub name: String,
    /// Section address
    pub addr: usize,
    /// Section size
    pub size: usize,
}

/// A loadable program header (segment).
pub struct Segment {
    /// Address of segment
    pub addr: usize,
    /// Size of loaded data
    pub size: usize,
}

/// The normalized model of one parsed executable.
pub struct ExecutableInfo {
    pub symbols: Vec<Symbol>,
    pub sections: Vec<Section>,
    pub segments: Vec<Segment>,
}

impl Default for ExecutableInfo {
    fn default() -> (r: Self)
        ensures
            r.symbols@ == Seq::<Symbol>::empty(),
            r.sections@ == Seq::<Section>::empty(),
            r.segments@ == Seq::<Segment>::empty(),
    {
        Self { symbols: Vec::new(), sections: Vec::new(), segments: Vec::new() }
    }
}

/// The symbol type a raw symbol-table entry carries, as the underlying
/// object format reports it: executable code, a data object, or anything
/// else.
#[derive(PartialEq, Eq, Structural, Clone, Copy, Debug)]
pub enum ObjSymbolKind {
    Text,
    Data,
    Other,
}

/// A raw symbol-table entry as the object container holds it, before
/// demangling and classification.
pub struct RawSymbol {
    /// Name as stored, `None` when unreadable
    pub name: Option<String>,
    /// Address as stored
    pub addr: usize,
    /// Size as stored (0 in formats that omit sizes)
    pub size: usize,
    /// Raw symbol type
    pub kind: ObjSymbolKind,
}

/// A raw section header as the object container holds it.
pub struct RawSection {
    /// Name as stored, `None` when unreadable
    pub name: Option<String>,
    /// Address as stored
    pub addr: usize,
    /// Size as stored
    pub size: usize,
}

/// Whether `object::File::parse` recognizes the bytes as a supported
/// object container.
pub uninterp spec fn spec_object_parses(data: Seq<u8>) -> bool;

/// The (address, size) of each loadable segment of the container.
pub uninterp spec fn spec_object_segments(data: Seq<u8>) -> Seq<(usize, usize)>;

/// The (name, address, size) of each section of the container.
pub uninterp spec fn spec_object_sections(data: Seq<u8>) -> Seq<(Option<Seq<char>>, usize, usize)>;

/// The (name, address, size, type) of each symbol-table entry of the
/// container.
pub uninterp spec fn spec_object_symbols(data: Seq<u8>) -> Seq<
    (Option<Seq<char>>, usize, usize, ObjSymbolKind),
>;

/// Relies on object::File::parse and Object::segments: both are pure
/// functions of the bytes, and every supported container yields one entry
/// per loadable program header.
#[verifier::external_body]
fn object_segments(data: &[u8]) -> (r: Option<Vec<Segment>>)
    ensures
        r is Some <==> spec_object_parses(data@),
        r is Some ==> r->Some_0@.map_values(|s: Segment| (s.addr, s.size))
            == spec_object_segments(data@),
{
    let exe = object::File::parse(data).ok()?;
    Some(exe.segments().map(|s| Segment {
        addr: s.address() as usize,
        size: s.size() as usize,
    }).collect())
}

/// Relies on object::File::parse and Object::sections: both are pure
/// functions of the bytes; a section name is `None` when the container
/// cannot hand it out.
#[verifier::external_body]
fn object_sections(data: &[u8]) -> (r: Option<Vec<RawSection>>)
    ensures
        r is Some <==> spec_object_parses(data@),
        r is Some ==> r->Some_0@.map_values(
            |s: RawSection| (s.name.deep_view(), s.addr, s.size),
        ) == spec_object_sections(data@),
{
    let exe = object::File::parse(data).ok()?;
    Some(exe.sections().map(|s| RawSection {
        name: s.name().ok().map(|n| n.to_string()),
        addr: s.address() as usize,
        size: s.size() as usize,
    }).collect())
}

/// Relies on object::File::parse, Object::symbols and
/// object::SymbolKind: all pure functions of the bytes. Entries the format
/// marks as code map to `Text`, data objects to `Data`, everything else to
/// `Other`; a name is `None` when the container cannot hand it out.
#[verifier::external_body]
fn object_symbols(data: &[u8]) -> (r: Option<Vec<RawSymbol>>)
    ensures
        r is Some <==> spec_object_parses(data@),
        r is Some ==> r->Some_0@.map_values(
            |s: RawSymbol| (s.name.deep_view(), s.addr, s.size, s.kind),
        ) == spec_object_symbols(data@),
{
    let exe = object::File::parse(data).ok()?;
    Some(exe.symbols().map(|s| RawSymbol {
        name: s.name().ok().map(|n| n.to_string()),
        addr: s.address() as usize,
        size: s.size() as usize,
        kind: match s.kind() {
            object::SymbolKind::Text => ObjSymbolKind::Text,
            object::SymbolKind::Data => ObjSymbolKind::Data,
            _ => ObjSymbolKind::Other,
        },
    }).collect())
}

/// Symbol order used while repairing sizes: ascending by address.
pub open spec fn spec_sorted_by_addr(s: Seq<Symbol>) -> bool {
    forall|i: int, j: int| 0 <= i < j < s.len() ==> s[i].addr <= s[j].addr
}

/// `a` comes no later than `b` under the given size order.
pub open spec fn spec_size_le(a: Symbol, b: Symbol, order: SortOrder) -> bool {
    match order {
        SortOrder::Ascending => a.size <= b.size,
        SortOrder::Descending => a.size >= b.size,
    }
}

/// Symbols sorted by size under the given order.
pub open spec fn spec_sorted_by_size(s: Seq<Symbol>, order: SortOrder) -> bool {
    forall|i: int, j: int| 0 <= i < j < s.len() ==> spec_size_le(s[i], s[j], order)
}

/// Index of the first entry after `i` whose address differs from `s[i]`'s,
/// or `s.len()` when every later entry shares it.
pub open spec fn spec_next_distinct(s: Seq<Symbol>, i: int, j: int) -> int
    decreases s.len() - j,
{
    if j < 0 || j >= s.len() {
        s.len() as int
    } else if s[j].addr != s[i].addr {
        j
    } else {
        spec_next_distinct(s, i, j + 1)
    }
}

/// The size entry `i` holds after the zero-size repair pass.
///
/// A zero-size entry that is not the last takes the distance to the next
/// entry at a strictly greater address; it stays 0 when there is no such
/// entry. Nonzero sizes and the last entry are left untouched.
pub open spec fn spec_repaired_size(s: Seq<Symbol>, i: int) -> usize {
    if 0 <= i < s.len() - 1 && s[i].size == 0 {
        let j = spec_next_distinct(s, i, i + 1);
        if j < s.len() && s[j].addr > s[i].addr {
            (s[j].addr - s[i].addr) as usize
        } else {
            s[i].size
        }
    } else {
        s[i].size
    }
}

proof fn lemma_next_distinct_at(s: Seq<Symbol>, i: int, j0: int, j: int)
    requires
        0 <= i < s.len(),
        0 <= j0 <= j <= s.len(),
        forall|k: int| j0 <= k < j ==> s[k].addr == s[i].addr,
        j < s.len() ==> s[j].addr != s[i].addr,
    ensures
        spec_next_distinct(s, i, j0) == if j < s.len() { j } else { s.len() as int },
    decreases j - j0,
{
    if j0 < j {
        lemma_next_distinct_at(s, i, j0 + 1, j);
    }
}

/// Zero-size symbol repair.
///
/// Some object formats do not store symbol sizes. With the symbols sorted by
/// ascending address, a zero-size entry is given the distance from its
/// address to the next entry at a strictly greater address; entries with no
/// such successor keep size 0. Only sizes change; every other field and the
/// order of entries stay as they were.
pub fn repair_sizes(symbols: &mut Vec<Symbol>)
    requires
        spec_sorted_by_addr(old(symbols)@),
    ensures
        final(symbols)@.len() == old(symbols)@.len(),
        forall|i: int| 0 <= i < old(symbols)@.len() ==> {
            &&& (#[trigger] final(symbols)@[i]).name == old(symbols)@[i].name
            &&& final(symbols)@[i].crate_name == old(symbols)@[i].crate_name
            &&& final(symbols)@[i].addr == old(symbols)@[i].addr
            &&& final(symbols)@[i].kind == old(symbols)@[i].kind
            &&& final(symbols)@[i].size == spec_repaired_size(old(symbols)@, i)
        },
{
    let ghost orig = symbols@;
    let n = symbols.len();
    if n == 0 {
        return;
    }
    let mut i: usize = 0;
    while i < n - 1
        invariant
            n == symbols@.len(),
            n == orig.len(),
            n > 0,
            0 <= i <= n - 1,
            spec_sorted_by_addr(orig),
            forall|k: int| 0 <= k < n ==> {
                &&& (#[trigger] symbols@[k]).name == orig[k].name
                &&& symbols@[k].crate_name == orig[k].crate_name
                &&& symbols@[k].addr == orig[k].addr
                &&& symbols@[k].kind == orig[k].kind
            },
            forall|k: int| 0 <= k < i ==> (#[trigger] symbols@[k]).size
                == spec_repaired_size(orig, k),
            forall|k: int| i <= k < n ==> (#[trigger] symbols@[k]).size == orig[k].size,
        decreases n - 1 - i,
    {
        if symbols[i].size == 0 {
            let mut j: usize = i + 1;
            while j < n && symbols[j].addr == symbols[i].addr
                invariant
                    n == symbols@.len(),
                    n == orig.len(),
                    0 <= i < j <= n,
                    forall|k: int| 0 <= k < n ==> (#[trigger] symbols@[k]).addr == orig[k].addr,
                    forall|k: int| i + 1 <= k < j ==> orig[k].addr == orig[i as int].addr,
                decreases n - j,
            {
                j += 1;
            }
            proof {
                lemma_next_distinct_at(orig, i as int, i + 1, j as int);
            }
            if j < n {
                let next_addr = symbols[j].addr;
                let this_addr = symbols[i].addr;
                if next_addr > this_addr {
                    let d = next_addr - this_addr;
                    symbols[i].size = d;
                }
            }
        }
        i += 1;
    }
}

impl ExecutableInfo {
    /// Sorts symbols by size, given a `SortOrder`. The result is a
    /// permutation of the input, sorted ascending or descending by size;
    /// sections and segments are untouched.
    pub fn sort_symbols(&mut self, order: SortOrder)
        ensures
            final(self).symbols@.to_multiset() == old(self).symbols@.to_multiset(),
            spec_sorted_by_size(final(self).symbols@, order),
            final(self).sections == old(self).sections,
            final(self).segments == old(self).segments,
    {
        let mut rest: Vec<Symbol> = Vec::new();
        core::mem::swap(&mut rest, &mut self.symbols);
        let ghost orig = rest@;
        let mut out: Vec<Symbol> = Vec::new();
        while rest.len() > 0
            invariant
                out@.to_multiset().add(rest@.to_multiset()) == orig.to_multiset(),
                spec_sorted_by_size(out@, order),
                forall|p: int, q: int| 0 <= p < out@.len() && 0 <= q < rest@.len()
                    ==> spec_size_le(out@[p], rest@[q], order),
            decreases rest.len(),
        {
            let mut m: usize = 0;
            let mut k: usize = 1;
            while k < rest.len()
                invariant
                    rest@.len() > 0,
                    0 <= m < k <= rest@.len(),
                    forall|q: int| 0 <= q < k ==> spec_size_le(rest@[m as int], rest@[q], order),
                decreases rest@.len() - k,
            {
                let better = match order {
                    SortOrder::Ascending => rest[k].size < rest[m].size,
                    SortOrder::Descending => rest[k].size > rest[m].size,
                };
                if better {
                    m = k;
                }
                k += 1;
            }
            let ghost rest_before = rest@;
            let ghost out_before = out@;
            let x = rest.remove(m);
            out.push(x);
            proof {
                assert(out@.to_multiset() =~= out_before.to_multiset().insert(x));
                assert(rest@.to_multiset() =~= rest_before.to_multiset().remove(x));
                assert(rest_before.to_multiset().count(x) > 0);
                assert(out@.to_multiset().add(rest@.to_multiset())
                    =~= out_before.to_multiset().add(rest_before.to_multiset()));
                assert(forall|q: int| 0 <= q < rest@.len()
                    ==> rest@[q] == rest_before[if q < m { q } else { q + 1 }]);
            }
        }
        self.symbols = out;
    }
}

/// Index of the first entry of `acc` carrying `name`, or -1 when none
/// does.
pub open spec fn spec_bucket_index(acc: Seq<(Seq<char>, int)>, name: Seq<char>) -> int
    decreases acc.len(),
{
    if acc.len() == 0 {
        -1
    } else if acc[0].0 == name {
        0
    } else if spec_bucket_index(acc.drop_first(), name) == -1 {
        -1
    } else {
        1 + spec_bucket_index(acc.drop_first(), name)
    }
}

/// Adds `size` to the bucket of `name`, appending a new bucket for a name
/// not seen before.
pub open spec fn spec_bucket_add(acc: Seq<(Seq<char>, int)>, name: Seq<char>, size: int) -> Seq<
    (Seq<char>, int),
> {
    let i = spec_bucket_index(acc, name);
    if 0 <= i < acc.len() {
        acc.update(i, (name, acc[i].1 + size))
    } else {
        acc.push((name, size))
    }
}

/// The total size of each crate: every symbol's size lands in the bucket
/// of its crate name, buckets in first-encounter order.
pub open spec fn spec_crate_sizes(syms: Seq<Symbol>) -> Seq<(Seq<char>, int)>
    decreases syms.len(),
{
    if syms.len() == 0 {
        Seq::empty()
    } else {
        spec_bucket_add(
            spec_crate_sizes(syms.drop_last()),
            syms.last().crate_name@,
            syms.last().size as int,
        )
    }
}

/// The sum of all symbol sizes.
pub open spec fn spec_size_sum(syms: Seq<Symbol>) -> int
    decreases syms.len(),
{
    if syms.len() == 0 {
        0
    } else {
        spec_size_sum(syms.drop_last()) + syms.last().size
    }
}

/// The sum of all bucket values.
pub open spec fn spec_bucket_sum(acc: Seq<(Seq<char>, int)>) -> int
    decreases acc.len(),
{
    if acc.len() == 0 {
        0
    } else {
        spec_bucket_sum(acc.drop_last()) + acc.last().1
    }
}

proof fn lemma_bucket_index_at(acc: Seq<(Seq<char>, int)>, name: Seq<char>, i: int)
    requires
        0 <= i < acc.len(),
        acc[i].0 == name,
        forall|j: int| 0 <= j < i ==> (#[trigger] acc[j]).0 != name,
    ensures
        spec_bucket_index(acc, name) == i,
    decreases acc.len(),
{
    if i > 0 {
        lemma_bucket_index_at(acc.drop_first(), name, i - 1);
    }
}

proof fn lemma_bucket_index_none(acc: Seq<(Seq<char>, int)>, name: Seq<char>)
    requires
        forall|j: int| 0 <= j < acc.len() ==> (#[trigger] acc[j]).0 != name,
    ensures
        spec_bucket_index(acc, name) == -1,
    decreases acc.len(),
{
    if acc.len() > 0 {
        lemma_bucket_index_none(acc.drop_first(), name);
    }
}

/// Updating one bucket moves the total by the added size.
proof fn lemma_bucket_sum_update(acc: Seq<(Seq<char>, int)>, i: int, name: Seq<char>, size: int)
    requires
        0 <= i < acc.len(),
    ensures
        spec_bucket_sum(acc.update(i, (name, acc[i].1 + size))) == spec_bucket_sum(acc) + size,
    decreases acc.len(),
{
    let upd = acc.update(i, (name, acc[i].1 + size));
    if i == acc.len() - 1 {
        assert(upd.drop_last() =~= acc.drop_last());
    } else {
        assert(upd.drop_last() =~= acc.drop_last().update(i, (name, acc[i].1 + size)));
        assert(acc.drop_last()[i] == acc[i]);
        lemma_bucket_sum_update(acc.drop_last(), i, name, size);
    }
}

/// A bucket never exceeds the total when no bucket is negative.
proof fn lemma_bucket_le_sum(acc: Seq<(Seq<char>, int)>, i: int)
    requires
        0 <= i < acc.len(),
        forall|j: int| 0 <= j < acc.len() ==> (#[trigger] acc[j]).1 >= 0,
    ensures
        acc[i].1 <= spec_bucket_sum(acc),
    decreases acc.len(),
{
    if i == acc.len() - 1 {
        lemma_bucket_sum_nonneg(acc.drop_last());
    } else {
        assert(acc.drop_last()[i] == acc[i]);
        lemma_bucket_le_sum(acc.drop_last(), i);
    }
}

proof fn lemma_bucket_sum_nonneg(acc: Seq<(Seq<char>, int)>)
    requires
        forall|j: int| 0 <= j < acc.len() ==> (#[trigger] acc[j]).1 >= 0,
    ensures
        spec_bucket_sum(acc) >= 0,
    decreases acc.len(),
{
    if acc.len() > 0 {
        lemma_bucket_sum_nonneg(acc.drop_last());
    }
}

/// A prefix of the symbols never out-sums the whole list.
proof fn lemma_size_sum_take_le(syms: Seq<Symbol>, i: int)
    requires
        0 <= i <= syms.len(),
    ensures
        spec_size_sum(syms.take(i)) <= spec_size_sum(syms),
        spec_size_sum(syms.take(i)) >= 0,
    decreases syms.len() - i,
{
    lemma_size_sum_nonneg(syms.take(i));
    if i == syms.len() {
        assert(syms.take(i) =~= syms);
    } else {
        lemma_size_sum_take_le(syms, i + 1);
        assert(syms.take(i + 1).drop_last() =~= syms.take(i));
    }
}

proof fn lemma_size_sum_nonneg(syms: Seq<Symbol>)
    ensures
        spec_size_sum(syms) >= 0,
    decreases syms.len(),
{
    if syms.len() > 0 {
        lemma_size_sum_nonneg(syms.drop_last());
    }
}

/// The model of an aggregated crate-size list.
pub open spec fn crate_sizes_model(r: Seq<(String, usize)>) -> Seq<(Seq<char>, int)> {
    r.map_values(|e: (String, usize)| (e.0@, e.1 as int))
}

/// Sums symbol sizes per crate name: every symbol's size lands in the
/// bucket of its crate-name guess, buckets in first-encounter order.
/// The total of all symbol sizes must fit in `usize`.
pub fn crate_sizes(symbols: &Vec<Symbol>) -> (r: Vec<(String, usize)>)
    requires
        spec_size_sum(symbols@) <= usize::MAX,
    ensures
        crate_sizes_model(r@) == spec_crate_sizes(symbols@),
{
    let n = symbols.len();
    let mut r: Vec<(String, usize)> = Vec::new();
    let mut i: usize = 0;
    proof {
        assert(symbols@.take(0) =~= Seq::<Symbol>::empty());
        assert(crate_sizes_model(r@) =~= spec_crate_sizes(symbols@.take(0)));
    }
    while i < n
        invariant
            n == symbols@.len(),
            0 <= i <= n,
            spec_size_sum(symbols@) <= usize::MAX,
            crate_sizes_model(r@) == spec_crate_sizes(symbols@.take(i as int)),
            spec_bucket_sum(crate_sizes_model(r@)) == spec_size_sum(symbols@.take(i as int)),
        decreases n - i,
    {
        let ghost acc = crate_sizes_model(r@);
        proof {
            assert(symbols@.take(i + 1).drop_last() =~= symbols@.take(i as int));
            assert(symbols@.take(i + 1).last() == symbols@[i as int]);
            assert(forall|j: int| 0 <= j < acc.len() ==> (#[trigger] acc[j]).1 >= 0) by {
                assert(forall|j: int| 0 <= j < acc.len() ==> acc[j] == (
                    r@[j].0@,
                    r@[j].1 as int,
                ));
            }
        }
        let name = &symbols[i].crate_name;
        let size = symbols[i].size;
        let m = r.len();
        let mut k: usize = 0;
        let mut found: Option<usize> = None;
        while k < m
            invariant
                m == r@.len(),
                0 <= k <= m,
                acc == crate_sizes_model(r@),
                found is None ==> forall|j: int| 0 <= j < k ==> (#[trigger] acc[j]).0 != name@,
                found is Some ==> {
                    &&& found->Some_0 < m
                    &&& acc[found->Some_0 as int].0 == name@
                    &&& forall|j: int| 0 <= j < found->Some_0 ==> (#[trigger] acc[j]).0 != name@
                },
                found is Some ==> k == m,
            decreases m - k,
        {
            proof {
                assert(acc[k as int] == (r@[k as int].0@, r@[k as int].1 as int));
            }
            if crate::strutil::str_eq(r[k].0.as_str(), name.as_str()) {
                found = Some(k);
                k = m;
            } else {
                k += 1;
            }
        }
        match found {
            Some(idx) => {
                proof {
                    lemma_bucket_index_at(acc, name@, idx as int);
                    lemma_bucket_le_sum(acc, idx as int);
                    lemma_size_sum_take_le(symbols@, i + 1);
                    assert(spec_size_sum(symbols@.take(i + 1)) == spec_size_sum(
                        symbols@.take(i as int),
                    ) + size);
                    assert(acc[idx as int].1 + size <= usize::MAX);
                    lemma_bucket_sum_update(acc, idx as int, name@, size as int);
                }
                let bumped = r[idx].1 + size;
                r[idx].1 = bumped;
                proof {
                    assert(crate_sizes_model(r@) =~= acc.update(
                        idx as int,
                        (name@, acc[idx as int].1 + size),
                    ));
                }
            }
            None => {
                proof {
                    lemma_bucket_index_none(acc, name@);
                    assert(spec_size_sum(symbols@.take(i + 1)) == spec_size_sum(
                        symbols@.take(i as int),
                    ) + size);
                }
                r.push((name.clone(), size));
                proof {
                    assert(crate_sizes_model(r@) =~= acc.push((name@, size as int)));
                    assert(acc.push((name@, size as int)).drop_last() =~= acc);
                    assert(spec_bucket_sum(acc.push((name@, size as int)))
                        == spec_bucket_sum(acc) + size);
                }
            }
        }
        proof {
            assert(crate_sizes_model(r@) =~= spec_crate_sizes(symbols@.take(i + 1)));
        }
        i += 1;
    }
    proof {
        assert(symbols@.take(n as int) =~= symbols@);
    }
    r
}

/// Why parsing an executable failed.
#[derive(Debug, Clone, Copy, PartialEq, Eq, Structural)]
pub enum ExeError {
    /// The bytes are no object container any supported format recognizes.
    UnrecognizedFormat,
}

impl ExeError {
    /// A readable description of the failure.
    pub fn message(&self) -> (r: String)
        ensures
            r@ == "Unrecognized or corrupt object format"@,
    {
        match self {
            ExeError::UnrecognizedFormat => String::from_str(
                "Unrecognized or corrupt object format",
            ),
        }
    }
}

/// The classification rule for retained symbols: code becomes `Function`,
/// data objects become `Data`, everything else is `Unknown` and dropped.
pub open spec fn spec_classify(k: ObjSymbolKind) -> SymbolKind {
    match k {
        ObjSymbolKind::Text => SymbolKind::Function,
        ObjSymbolKind::Data => SymbolKind::Data,
        ObjSymbolKind::Other => SymbolKind::Unknown,
    }
}

/// A raw name, with `"?"` standing in for an unreadable one.
pub open spec fn spec_raw_name_or_default(n: Option<Seq<char>>) -> Seq<char> {
    match n {
        Some(s) => s,
        None => "?"@,
    }
}

/// The display name a raw symbol name ends up with: the Rust demangling
/// with its hash stripped when that scheme applies, else the C++
/// demangling, else the name itself.
pub open spec fn spec_demangled_name(s: Seq<char>) -> Seq<char> {
    if spec_rust_demangled(s) != s {
        spec_strip_hash(spec_rust_demangled(s))
    } else {
        match spec_cpp_demangled(s) {
            Some(c) => c,
            None => s,
        }
    }
}

/// The (name, crate, size, addr, kind) a retained raw entry turns into.
pub open spec fn spec_symbol_model(r: (Option<Seq<char>>, usize, usize, ObjSymbolKind)) -> (
    Seq<char>,
    Seq<char>,
    usize,
    usize,
    SymbolKind,
) {
    let nm = spec_demangled_name(spec_raw_name_or_default(r.0));
    (nm, spec_crate_guess(nm), r.2, r.1, spec_classify(r.3))
}

/// The view of a built symbol, shaped like `spec_symbol_model`'s result.
pub open spec fn spec_symbol_view(s: Symbol) -> (Seq<char>, Seq<char>, usize, usize, SymbolKind) {
    (s.name@, s.crate_name@, s.size, s.addr, s.kind)
}

pub open spec fn symbols_model(ss: Seq<Symbol>) -> Seq<
    (Seq<char>, Seq<char>, usize, usize, SymbolKind),
> {
    ss.map_values(|s: Symbol| spec_symbol_view(s))
}

pub open spec fn raw_symbols_model(rs: Seq<RawSymbol>) -> Seq<
    (Option<Seq<char>>, usize, usize, ObjSymbolKind),
> {
    rs.map_values(|s: RawSymbol| (s.name.deep_view(), s.addr, s.size, s.kind))
}

pub open spec fn raw_sections_model(rs: Seq<RawSection>) -> Seq<(Option<Seq<char>>, usize, usize)> {
    rs.map_values(|s: RawSection| (s.name.deep_view(), s.addr, s.size))
}

/// The retained symbols of a raw symbol table, in order: entries whose
/// classification is `Unknown` are dropped, the rest are demangled,
/// attributed and classified.
pub open spec fn spec_mapped_symbols(raws: Seq<(Option<Seq<char>>, usize, usize, ObjSymbolKind)>)
    -> Seq<(Seq<char>, Seq<char>, usize, usize, SymbolKind)>
    decreases raws.len(),
{
    if raws.len() == 0 {
        Seq::empty()
    } else {
        spec_mapped_symbols(raws.drop_last()) + if spec_classify(raws.last().3)
            != SymbolKind::Unknown {
            seq![spec_symbol_model(raws.last())]
        } else {
            Seq::empty()
        }
    }
}

/// Everything `assemble` promises of the symbols it builds from a raw
/// symbol table: some intermediate list holds exactly the retained
/// entries, sorted ascending by address, and the result is that list
/// after the zero-size repair pass.
pub open spec fn spec_symbols_built(
    raws: Seq<(Option<Seq<char>>, usize, usize, ObjSymbolKind)>,
    out: Seq<Symbol>,
) -> bool {
    exists|mapped: Seq<Symbol>, mid: Seq<Symbol>| {
        &&& symbols_model(mapped) == spec_mapped_symbols(raws)
        &&& mid.to_multiset() == mapped.to_multiset()
        &&& spec_sorted_by_addr(mid)
        &&& out.len() == mid.len()
        &&& forall|i: int| 0 <= i < mid.len() ==> {
            &&& (#[trigger] out[i]).name == mid[i].name
            &&& out[i].crate_name == mid[i].crate_name
            &&& out[i].addr == mid[i].addr
            &&& out[i].kind == mid[i].kind
            &&& out[i].size == spec_repaired_size(mid, i)
        }
    }
}

/// Sorts symbols ascending by address; the result is a permutation of the
/// input.
fn sort_by_addr(input: Vec<Symbol>) -> (r: Vec<Symbol>)
    ensures
        r@.to_multiset() == input@.to_multiset(),
        spec_sorted_by_addr(r@),
{
    let mut rest = input;
    let ghost orig = rest@;
    let mut out: Vec<Symbol> = Vec::new();
    while rest.len() > 0
        invariant
            out@.to_multiset().add(rest@.to_multiset()) == orig.to_multiset(),
            spec_sorted_by_addr(out@),
            forall|p: int, q: int| 0 <= p < out@.len() && 0 <= q < rest@.len()
                ==> out@[p].addr <= rest@[q].addr,
        decreases rest.len(),
    {
        let mut m: usize = 0;
        let mut k: usize = 1;
        while k < rest.len()
            invariant
                rest@.len() > 0,
                0 <= m < k <= rest@.len(),
                forall|q: int| 0 <= q < k ==> rest@[m as int].addr <= rest@[q].addr,
            decreases rest@.len() - k,
        {
            if rest[k].addr < rest[m].addr {
                m = k;
            }
            k += 1;
        }
        let ghost rest_before = rest@;
        let ghost out_before = out@;
        let x = rest.remove(m);
        out.push(x);
        proof {
            assert(out@.to_multiset() =~= out_before.to_multiset().insert(x));
            assert(rest@.to_multiset() =~= rest_before.to_multiset().remove(x));
            assert(rest_before.to_multiset().count(x) > 0);
            assert(out@.to_multiset().add(rest@.to_multiset())
                =~= out_before.to_multiset().add(rest_before.to_multiset()));
            assert(forall|q: int| 0 <= q < rest@.len()
                ==> rest@[q] == rest_before[if q < m { q } else { q + 1 }]);
        }
    }
    out
}

/// Builds the executable model out of raw records: raw symbols are
/// demangled, attributed, classified and filtered (entries of `Unknown`
/// kind are dropped entirely), then sorted ascending by address and run
/// through the zero-size repair; raw sections get `"?"` for unreadable
/// names; segments pass through. Every retained symbol is a `Function`
/// or `Data` symbol.
pub fn assemble(
    raw_symbols: Vec<RawSymbol>,
    raw_sections: Vec<RawSection>,
    segments: Vec<Segment>,
) -> (r: ExecutableInfo)
    ensures
        r.segments@ == segments@,
        r.sections@.len() == raw_sections@.len(),
        forall|i: int| 0 <= i < raw_sections@.len() ==> {
            &&& (#[trigger] r.sections@[i]).name@ == spec_raw_name_or_default(
                raw_sections_model(raw_sections@)[i].0,
            )
            &&& r.sections@[i].addr == raw_sections@[i].addr
            &&& r.sections@[i].size == raw_sections@[i].size
        },
        spec_symbols_built(raw_symbols_model(raw_symbols@), r.symbols@),
        forall|i: int| 0 <= i < r.symbols@.len() ==> (#[trigger] r.symbols@[i]).kind
            is Function || r.symbols@[i].kind is Data,
{
    let ghost raws = raw_symbols_model(raw_symbols@);
    let n = raw_symbols.len();
    let mut mapped: Vec<Symbol> = Vec::new();
    let mut i: usize = 0;
    proof {
        assert(raws.take(0) =~= Seq::<(Option<Seq<char>>, usize, usize, ObjSymbolKind)>::empty());
    }
    while i < n
        invariant
            n == raw_symbols@.len(),
            raws == raw_symbols_model(raw_symbols@),
            raws.len() == n,
            0 <= i <= n,
            symbols_model(mapped@) == spec_mapped_symbols(raws.take(i as int)),
            forall|k: int| 0 <= k < mapped@.len() ==> (#[trigger] mapped@[k]).kind
                != SymbolKind::Unknown,
        decreases n - i,
    {
        let ghost mapped_before = symbols_model(mapped@);
        proof {
            assert(raws.take(i + 1).drop_last() =~= raws.take(i as int));
            assert(raws.take(i + 1).last() == raws[i as int]);
            assert(raws[i as int] == (
                raw_symbols@[i as int].name.deep_view(),
                raw_symbols@[i as int].addr,
                raw_symbols@[i as int].size,
                raw_symbols@[i as int].kind,
            ));
        }
        let kind = match raw_symbols[i].kind {
            ObjSymbolKind::Text => SymbolKind::Function,
            ObjSymbolKind::Data => SymbolKind::Data,
            ObjSymbolKind::Other => SymbolKind::Unknown,
        };
        if !matches!(kind, SymbolKind::Unknown) {
            let raw_name: String = match &raw_symbols[i].name {
                Some(nm) => nm.clone(),
                None => String::from_str("?"),
            };
            let d = demangle(raw_name.as_str());
            let crate_name = crate_name_from_demangled(d.name.as_str());
            let sym = Symbol {
                name: d.name,
                crate_name,
                size: raw_symbols[i].size,
                addr: raw_symbols[i].addr,
                kind,
            };
            proof {
                assert(spec_symbol_view(sym) == spec_symbol_model(raws[i as int]));
            }
            mapped.push(sym);
            proof {
                assert(symbols_model(mapped@) =~= mapped_before.push(
                    spec_symbol_model(raws[i as int]),
                ));
                assert(symbols_model(mapped@) =~= spec_mapped_symbols(raws.take(i + 1)));
            }
        } else {
            proof {
                assert(symbols_model(mapped@) =~= spec_mapped_symbols(raws.take(i + 1)));
            }
        }
        i += 1;
    }
    proof {
        assert(raws.take(n as int) =~= raws);
    }
    let ghost mapped_model = mapped@;
    let mut symbols = sort_by_addr(mapped);
    let ghost mid = symbols@;
    proof {
        lemma_multiset_kinds(mapped_model, mid);
    }
    repair_sizes(&mut symbols);

    let m = raw_sections.len();
    let mut sections: Vec<Section> = Vec::new();
    let mut j: usize = 0;
    while j < m
        invariant
            m == raw_sections@.len(),
            0 <= j <= m,
            sections@.len() == j,
            forall|k: int| 0 <= k < j ==> {
                &&& (#[trigger] sections@[k]).name@ == spec_raw_name_or_default(
                    raw_sections_model(raw_sections@)[k].0,
                )
                &&& sections@[k].addr == raw_sections@[k].addr
                &&& sections@[k].size == raw_sections@[k].size
            },
        decreases m - j,
    {
        let name: String = match &raw_sections[j].name {
            Some(nm) => nm.clone(),
            None => String::from_str("?"),
        };
        sections.push(
            Section { name, addr: raw_sections[j].addr, size: raw_sections[j].size },
        );
        j += 1;
    }

    let r = ExecutableInfo { symbols, sections, segments };
    proof {
        assert(symbols_model(mapped_model) == spec_mapped_symbols(raws));
        assert(mid.to_multiset() == mapped_model.to_multiset());
        assert(spec_sorted_by_addr(mid));
        assert(r.symbols@.len() == mid.len());
        assert(forall|i: int| 0 <= i < mid.len() ==> {
            &&& (#[trigger] r.symbols@[i]).name == mid[i].name
            &&& r.symbols@[i].crate_name == mid[i].crate_name
            &&& r.symbols@[i].addr == mid[i].addr
            &&& r.symbols@[i].kind == mid[i].kind
            &&& r.symbols@[i].size == spec_repaired_size(mid, i)
        });
        assert(spec_symbols_built(raws, r.symbols@));
        assert(forall|i: int| 0 <= i < r.symbols@.len() ==> (#[trigger] r.symbols@[i]).kind
            != SymbolKind::Unknown);
    }
    r
}

/// Every element of a permutation of a list without `Unknown` kinds is
/// itself not `Unknown`.
proof fn lemma_multiset_kinds(a: Seq<Symbol>, b: Seq<Symbol>)
    requires
        b.to_multiset() == a.to_multiset(),
        forall|k: int| 0 <= k < a.len() ==> (#[trigger] a[k]).kind != SymbolKind::Unknown,
    ensures
        forall|k: int| 0 <= k < b.len() ==> (#[trigger] b[k]).kind != SymbolKind::Unknown,
{
    assert forall|k: int| 0 <= k < b.len() implies (#[trigger] b[k]).kind
        != SymbolKind::Unknown by {
        assert(b.to_multiset().count(b[k]) > 0);
        assert(a.to_multiset().count(b[k]) > 0);
        assert(a.contains(b[k]));
    }
}

/// Parses the bytes of an executable into the normalized model: loadable
/// segments, sections, and the retained (demangled, attributed, repaired)
/// symbols, sorted ascending by address. Bytes no supported object format
/// recognizes yield `UnrecognizedFormat`, and exactly those.
pub fn parse(data: &[u8]) -> (r: Result<ExecutableInfo, ExeError>)
    ensures
        r is Ok <==> spec_object_parses(data@),
        r is Err ==> r->Err_0 is UnrecognizedFormat,
        r is Ok ==> {
            &&& r->Ok_0.segments@.map_values(|s: Segment| (s.addr, s.size))
                == spec_object_segments(data@)
            &&& r->Ok_0.sections@.len() == spec_object_sections(data@).len()
            &&& forall|i: int| 0 <= i < spec_object_sections(data@).len() ==> {
                &&& (#[trigger] r->Ok_0.sections@[i]).name@ == spec_raw_name_or_default(
                    spec_object_sections(data@)[i].0,
                )
                &&& r->Ok_0.sections@[i].addr == spec_object_sections(data@)[i].1
                &&& r->Ok_0.sections@[i].size == spec_object_sections(data@)[i].2
            }
            &&& spec_symbols_built(spec_object_symbols(data@), r->Ok_0.symbols@)
            &&& forall|i: int| 0 <= i < r->Ok_0.symbols@.len() ==> (
            #[trigger] r->Ok_0.symbols@[i]).kind is Function || r->Ok_0.symbols@[i].kind is Data
        },
{
    let segments = match object_segments(data) {
        Some(s) => s,
        None => {
            return Err(ExeError::UnrecognizedFormat);
        }
    };
    let raw_sections = match object_sections(data) {
        Some(s) => s,
        None => {
            return Err(ExeError::UnrecognizedFormat);
        }
    };
    let raw_symbols = match object_symbols(data) {
        Some(s) => s,
        None => {
            return Err(ExeError::UnrecognizedFormat);
        }
    };
    let ghost raws = raw_symbols_model(raw_symbols@);
    let ghost secs = raw_sections_model(raw_sections@);
    let info = assemble(raw_symbols, raw_sections, segments);
    proof {
        assert(info.segments@.map_values(|s: Segment| (s.addr, s.size))
            == spec_object_segments(data@));
        assert(secs == spec_object_sections(data@));
        assert(raws == spec_object_symbols(data@));
    }
    Ok(info)
}

} // verus!
