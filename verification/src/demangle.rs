//! Symbol demangling: converts a mangled symbol name into a readable name
//! and guesses the compilation unit (crate) a symbol originates from.

use vstd::prelude::*;
use vstd::string::*;
use crate::rex::{regex_captures, spec_captures};
use crate::strutil::{rfind_char, spec_rfind, str_eq};

verus! {

/// Kind of demangled symbol by language
#[derive(PartialEq, Eq, Structural, Clone, Copy, Debug)]
pub enum DemangledSymbolKind {
    Rust,
    Cpp,
    Other,
}

/// Demangled symbol
pub struct DemangledSymbol {
    pub kind: DemangledSymbolKind,
    pub name: String,
}

/// What `rustc_demangle` makes of a symbol name: the demangled form when
/// the name is mangled, the name itself otherwise.
pub uninterp spec fn spec_rust_demangled(s: Seq<char>) -> Seq<char>;

/// What C++-style demangling makes of a symbol name, or `None` when the
/// name is no valid C++ mangled symbol.
pub uninterp spec fn spec_cpp_demangled(s: Seq<char>) -> Option<Seq<char>>;

/// Relies on rustc_demangle::demangle: the demangled form is a pure
/// function of the symbol name, and a name that is not mangled under the
/// Rust scheme is returned unchanged.
#[verifier::external_body]
fn demangle_rust_raw(s: &str) -> (r: String)
    ensures
        r@ == spec_rust_demangled(s@),
{
    rustc_demangle::demangle(s).to_string()
}

/// Relies on cpp_demangle::Symbol::new and cpp_demangle::Symbol::demangle:
/// parsing and demangling are pure functions of the symbol name; either
/// step failing means the name is no C++ mangled symbol.
#[verifier::external_body]
fn demangle_cpp_raw(s: &str) -> (r: Option<String>)
    ensures
        r.deep_view() == spec_cpp_demangled(s@),
{
    match cpp_demangle::Symbol::new(s) {
        Ok(sym) => sym.demangle().ok(),
        Err(_) => None,
    }
}

/// A successfully demangled Rust name with its trailing disambiguation hash
/// removed: everything from one character before the last `:` on is cut.
/// Names whose last `:` is at the very start, or that hold no `:` at all,
/// pass through unchanged.
pub open spec fn spec_strip_hash(n: Seq<char>) -> Seq<char> {
    let p = spec_rfind(n, ':');
    if p >= 1 {
        n.take(p - 1)
    } else {
        n
    }
}

/// Demangles a symbol using the Rust scheme and removes the trailing hash
/// that `rustc` adds. If the name is not mangled under the Rust scheme, a
/// C++-style demangler is tried, and if that also fails the name is
/// returned as-is. A name the Rust scheme leaves unchanged is never marked
/// `Rust`.
pub fn demangle(s: &str) -> (r: DemangledSymbol)
    ensures
        spec_rust_demangled(s@) != s@ ==> {
            &&& r.kind is Rust
            &&& r.name@ == spec_strip_hash(spec_rust_demangled(s@))
        },
        spec_rust_demangled(s@) == s@ ==> !(r.kind is Rust),
        spec_rust_demangled(s@) == s@ && spec_cpp_demangled(s@) is Some ==> {
            &&& r.kind is Cpp
            &&& r.name@ == spec_cpp_demangled(s@)->Some_0
        },
        spec_rust_demangled(s@) == s@ && spec_cpp_demangled(s@) is None ==> {
            &&& r.kind is Other
            &&& r.name@ == s@
        },
{
    let name = demangle_rust_raw(s);

    if !str_eq(name.as_str(), s) {
        // Remove the hash that rustc adds at the end of every symbol
        let stripped = match rfind_char(name.as_str(), ':') {
            Some(p) => {
                if p >= 1 {
                    proof {
                        crate::strutil::lemma_rfind_bounds(name@, ':');
                    }
                    String::from_str(name.as_str().substring_char(0, p - 1))
                } else {
                    name
                }
            }
            None => name,
        };
        DemangledSymbol { kind: DemangledSymbolKind::Rust, name: stripped }
    } else {
        match demangle_cpp_raw(s) {
            Some(val) => DemangledSymbol { kind: DemangledSymbolKind::Cpp, name: val },
            None => DemangledSymbol { kind: DemangledSymbolKind::Other, name: String::from_str(s) },
        }
    }
}

/// The pattern behind the crate-name guess. It skips leading `<`, `&`, `*`,
/// `mut `, `const ` and `dyn ` tokens, then captures either a leading
/// `identifier::` path prefix (group 5) or the identifier after `as ` in a
/// trait-impl path (group 7).
pub open spec fn spec_crate_pattern() -> Seq<char> {
    "^<?[&*]?(mut )?(const )?(dyn )?((\\w+):)?(.*as (\\w+):)?"@
}

fn crate_pattern() -> (r: &'static str)
    ensures
        r@ == spec_crate_pattern(),
{
    "^<?[&*]?(mut )?(const )?(dyn )?((\\w+):)?(.*as (\\w+):)?"
}

/// The group of `caps` at index `i`, taken as empty when the group is
/// absent or did not participate.
pub open spec fn spec_group_or_empty(caps: Seq<Option<Seq<char>>>, i: int) -> Seq<char> {
    if 0 <= i < caps.len() && caps[i] is Some {
        caps[i]->Some_0
    } else {
        Seq::empty()
    }
}

/// The crate-name guess for a (demangled) symbol name: the direct path
/// prefix when the pattern captures one, else the trait-impl unit, else
/// `"?"`.
pub open spec fn spec_crate_guess(s: Seq<char>) -> Seq<char> {
    match spec_captures(spec_crate_pattern(), s) {
        None => "?"@,
        Some(caps) => {
            let g5 = spec_group_or_empty(caps, 5);
            let g7 = spec_group_or_empty(caps, 7);
            if g5.len() > 0 {
                g5
            } else if g7.len() > 0 {
                g7
            } else {
                "?"@
            }
        },
    }
}

/// Tries to guess a crate from a demangled symbol name.
///
/// The heuristic prefers the leading `identifier::` segment (`core` in
/// `core::fmt::Formatter::write_str`); for trait-impl paths such as
/// `<T as unit::Trait>::method` it falls back to the unit after `as `.
/// Symbols matching neither way yield `"?"`. Known imprecision: for trait
/// impls on foreign or primitive types this attributes the trait's unit,
/// not the implementing type's.
pub fn crate_name_from_demangled(s: &str) -> (r: String)
    ensures
        r@ == spec_crate_guess(s@),
{
    match regex_captures(crate_pattern(), s) {
        None => String::from_str("?"),
        Some(caps) => {
            proof {
                assert(caps.deep_view() == spec_captures(spec_crate_pattern(), s@)->Some_0);
            }
            let name1 = group_or_empty(&caps, 5);
            let name2 = group_or_empty(&caps, 7);
            if !name1.as_str().is_empty() {
                name1
            } else if !name2.as_str().is_empty() {
                name2
            } else {
                String::from_str("?")
            }
        },
    }
}

/// Clones the capture group at `i`, or gives the empty string when it is
/// absent or did not participate.
fn group_or_empty(caps: &Vec<Option<String>>, i: usize) -> (r: String)
    ensures
        r@ == spec_group_or_empty(caps.deep_view(), i as int),
{
    if i < caps.len() {
        match &caps[i] {
            Some(v) => {
                proof {
                    assert(caps.deep_view()[i as int] == caps@[i as int].deep_view());
                }
                v.clone()
            }
            None => {
                proof {
                    assert(caps.deep_view()[i as int] == caps@[i as int].deep_view());
                }
                String::new()
            }
        }
    } else {
        String::new()
    }
}

} // verus!
