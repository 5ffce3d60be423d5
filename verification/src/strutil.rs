//! Verified helpers for working with `&str` / `String` values at the
//! character level: search, comparison, splitting and integer parsing.

use vstd::prelude::*;
use vstd::string::*;

verus! {

/// Index of the first occurrence of `c` in `s`, or -1 when absent.
pub open spec fn spec_find(s: Seq<char>, c: char) -> int
    decreases s.len(),
{
    if s.len() == 0 {
        -1
    } else if s[0] == c {
        0
    } else if spec_find(s.drop_first(), c) == -1 {
        -1
    } else {
        1 + spec_find(s.drop_first(), c)
    }
}

/// Index of the last occurrence of `c` in `s`, or -1 when absent.
pub open spec fn spec_rfind(s: Seq<char>, c: char) -> int
    decreases s.len(),
{
    if s.len() == 0 {
        -1
    } else if s[s.len() - 1] == c {
        s.len() - 1
    } else {
        spec_rfind(s.drop_last(), c)
    }
}

pub proof fn lemma_find_bounds(s: Seq<char>, c: char)
    ensures
        spec_find(s, c) == -1 ==> forall|j: int| 0 <= j < s.len() ==> s[j] != c,
        spec_find(s, c) != -1 ==> {
            &&& 0 <= spec_find(s, c) < s.len()
            &&& s[spec_find(s, c)] == c
            &&& forall|j: int| 0 <= j < spec_find(s, c) ==> s[j] != c
        },
    decreases s.len(),
{
    if s.len() > 0 && s[0] != c {
        lemma_find_bounds(s.drop_first(), c);
        assert(forall|j: int| 1 <= j < s.len() ==> #[trigger] s[j] == s.drop_first()[j - 1]);
    }
}

pub proof fn lemma_find_at(s: Seq<char>, c: char, i: int)
    requires
        0 <= i < s.len(),
        s[i] == c,
        forall|j: int| 0 <= j < i ==> s[j] != c,
    ensures
        spec_find(s, c) == i,
    decreases s.len(),
{
    if i > 0 {
        lemma_find_at(s.drop_first(), c, i - 1);
    }
}

pub proof fn lemma_find_none(s: Seq<char>, c: char)
    requires
        forall|j: int| 0 <= j < s.len() ==> s[j] != c,
    ensures
        spec_find(s, c) == -1,
    decreases s.len(),
{
    if s.len() > 0 {
        lemma_find_none(s.drop_first(), c);
    }
}

pub proof fn lemma_rfind_bounds(s: Seq<char>, c: char)
    ensures
        spec_rfind(s, c) == -1 ==> forall|j: int| 0 <= j < s.len() ==> s[j] != c,
        spec_rfind(s, c) != -1 ==> {
            &&& 0 <= spec_rfind(s, c) < s.len()
            &&& s[spec_rfind(s, c)] == c
            &&& forall|j: int| spec_rfind(s, c) < j < s.len() ==> s[j] != c
        },
    decreases s.len(),
{
    if s.len() > 0 && s[s.len() - 1] != c {
        lemma_rfind_bounds(s.drop_last(), c);
        assert(forall|j: int| 0 <= j < s.len() - 1 ==> #[trigger] s[j] == s.drop_last()[j]);
    }
}

pub proof fn lemma_rfind_at(s: Seq<char>, c: char, i: int)
    requires
        0 <= i < s.len(),
        s[i] == c,
        forall|j: int| i < j < s.len() ==> s[j] != c,
    ensures
        spec_rfind(s, c) == i,
    decreases s.len(),
{
    if i < s.len() - 1 {
        lemma_rfind_at(s.drop_last(), c, i);
    }
}

/// Finds the first occurrence of `c` in `s`.
pub fn find_char(s: &str, c: char) -> (r: Option<usize>)
    ensures
        r is Some ==> spec_find(s@, c) == r->Some_0 as int,
        r is None ==> spec_find(s@, c) == -1,
{
    let n = s.unicode_len();
    let mut i: usize = 0;
    while i < n
        invariant
            n == s@.len(),
            0 <= i <= n,
            forall|j: int| 0 <= j < i ==> s@[j] != c,
        decreases n - i,
    {
        if s.get_char(i) == c {
            proof {
                lemma_find_at(s@, c, i as int);
            }
            return Some(i);
        }
        i += 1;
    }
    proof {
        lemma_find_none(s@, c);
    }
    None
}

/// Finds the last occurrence of `c` in `s`.
pub fn rfind_char(s: &str, c: char) -> (r: Option<usize>)
    ensures
        r is Some ==> spec_rfind(s@, c) == r->Some_0 as int,
        r is None ==> spec_rfind(s@, c) == -1,
{
    let n = s.unicode_len();
    let mut i: usize = n;
    while i > 0
        invariant
            n == s@.len(),
            0 <= i <= n,
            forall|j: int| i <= j < n ==> s@[j] != c,
        decreases i,
    {
        i -= 1;
        if s.get_char(i) == c {
            proof {
                lemma_rfind_at(s@, c, i as int);
            }
            return Some(i);
        }
    }
    proof {
        if s@.len() > 0 && spec_rfind(s@, c) != -1 {
            lemma_rfind_bounds(s@, c);
        }
    }
    None
}

/// Character-wise equality of two string slices.
pub fn str_eq(a: &str, b: &str) -> (r: bool)
    ensures
        r == (a@ == b@),
{
    let na = a.unicode_len();
    let nb = b.unicode_len();
    if na != nb {
        return false;
    }
    let mut i: usize = 0;
    while i < na
        invariant
            na == a@.len(),
            na == b@.len(),
            0 <= i <= na,
            forall|j: int| 0 <= j < i ==> a@[j] == b@[j],
        decreases na - i,
    {
        if a.get_char(i) != b.get_char(i) {
            return false;
        }
        i += 1;
    }
    proof {
        assert(a@ =~= b@);
    }
    true
}

/// The characters of `s` split on `sep`; the separators themselves are dropped.
pub open spec fn spec_split(s: Seq<char>, sep: char) -> Seq<Seq<char>>
    decreases s.len(),
{
    let i = spec_find(s, sep);
    if i < 0 || i >= s.len() {
        seq![s]
    } else {
        seq![s.take(i)] + spec_split(s.skip(i + 1), sep)
    }
}

/// Splits `s` on `sep`, mirroring `spec_split`.
pub fn split_char(s: &str, sep: char) -> (r: Vec<String>)
    ensures
        r.deep_view() == spec_split(s@, sep),
        r.len() > 0,
    decreases s@.len(),
{
    let mut r: Vec<String> = Vec::new();
    match find_char(s, sep) {
        None => {
            r.push(String::from_str(s));
            proof {
                assert(r.deep_view() =~= spec_split(s@, sep));
            }
        }
        Some(i) => {
            proof {
                lemma_find_bounds(s@, sep);
            }
            let n = s.unicode_len();
            let head = s.substring_char(0, i);
            let tail = s.substring_char(i + 1, n);
            proof {
                assert(head@ =~= s@.take(i as int));
                assert(tail@ =~= s@.skip(i + 1));
            }
            r.push(String::from_str(head));
            let rest = split_char(tail, sep);
            proof {
                assert(r.deep_view() =~= seq![s@.take(spec_find(s@, sep))]
                    + rest.deep_view().take(0));
            }
            let mut k: usize = 0;
            let m = rest.len();
            while k < m
                invariant
                    m == rest.len(),
                    0 <= k <= m,
                    r.deep_view() =~= seq![s@.take(spec_find(s@, sep))]
                        + rest.deep_view().take(k as int),
                decreases m - k,
            {
                let ghost prev = r.deep_view();
                let item = rest[k].clone();
                r.push(item);
                proof {
                    assert(r.deep_view() =~= prev.push(rest.deep_view()[k as int]));
                    assert(rest.deep_view().take(k + 1) =~= rest.deep_view().take(k as int)
                        + seq![rest.deep_view()[k as int]]);
                    assert(r.deep_view() =~= seq![s@.take(spec_find(s@, sep))]
                        + rest.deep_view().take(k + 1));
                }
                k += 1;
            }
            proof {
                assert(rest.deep_view().take(m as int) =~= rest.deep_view());
                assert(r.deep_view() =~= spec_split(s@, sep));
            }
        }
    }
    r
}

/// The pieces of `v` glued together with `sep` between each two.
pub open spec fn spec_join(v: Seq<Seq<char>>, sep: Seq<char>) -> Seq<char>
    decreases v.len(),
{
    if v.len() == 0 {
        Seq::empty()
    } else if v.len() == 1 {
        v[0]
    } else {
        spec_join(v.drop_last(), sep) + sep + v.last()
    }
}

/// Joins strings with a separator, mirroring `spec_join`.
pub fn join_strings(v: &Vec<String>, sep: &str) -> (r: String)
    ensures
        r@ == spec_join(v.deep_view(), sep@),
{
    let n = v.len();
    let mut out = String::new();
    let mut i: usize = 0;
    proof {
        assert(v.deep_view().take(0) =~= Seq::<Seq<char>>::empty());
    }
    while i < n
        invariant
            n == v@.len(),
            0 <= i <= n,
            out@ == spec_join(v.deep_view().take(i as int), sep@),
        decreases n - i,
    {
        proof {
            assert(v.deep_view().take(i + 1).drop_last() =~= v.deep_view().take(i as int));
            assert(v.deep_view().take(i + 1).last() == v.deep_view()[i as int]);
            assert(v.deep_view()[i as int] == v@[i as int]@);
        }
        if i > 0 {
            out.append(sep);
        }
        out.append(v[i].as_str());
        proof {
            assert(out@ =~= spec_join(v.deep_view().take(i + 1), sep@));
        }
        i += 1;
    }
    proof {
        assert(v.deep_view().take(n as int) =~= v.deep_view());
    }
    out
}

/// Numeric value of an ASCII digit under `radix`, or -1 when the character
/// is no digit of that radix.
pub open spec fn spec_digit(c: char, radix: int) -> int {
    let v = if '0' <= c && c <= '9' {
        c as int - '0' as int
    } else if 'a' <= c && c <= 'z' {
        c as int - 'a' as int + 10
    } else if 'A' <= c && c <= 'Z' {
        c as int - 'A' as int + 10
    } else {
        -1
    };
    if 0 <= v && v < radix {
        v
    } else {
        -1
    }
}

/// Whether every character of `s` is a digit of `radix` and `s` is nonempty.
pub open spec fn spec_all_digits(s: Seq<char>, radix: int) -> bool {
    s.len() > 0 && forall|j: int| 0 <= j < s.len() ==> spec_digit(s[j], radix) >= 0
}

/// The integer value of the digit string `s` under `radix`.
pub open spec fn spec_radix_val(s: Seq<char>, radix: int) -> int
    decreases s.len(),
{
    if s.len() == 0 {
        0
    } else {
        spec_radix_val(s.drop_last(), radix) * radix + spec_digit(s[s.len() - 1], radix)
    }
}

/// Parses an unsigned integer in the given radix. Accepts exactly the
/// nonempty all-digit strings whose value fits in `usize`.
pub open spec fn spec_parse_radix_ok(s: Seq<char>, radix: int) -> bool {
    spec_all_digits(s, radix) && spec_radix_val(s, radix) <= usize::MAX as int
}

proof fn lemma_radix_val_nonneg(s: Seq<char>, radix: int)
    requires
        radix > 1,
        forall|j: int| 0 <= j < s.len() ==> spec_digit(s[j], radix) >= 0,
    ensures
        spec_radix_val(s, radix) >= 0,
    decreases s.len(),
{
    if s.len() > 0 {
        lemma_radix_val_nonneg(s.drop_last(), radix);
        let p = spec_radix_val(s.drop_last(), radix);
        assert(p * radix >= 0) by (nonlinear_arith)
            requires p >= 0 && radix > 1;
    }
}

/// Exact-behaviour parser for digit strings: returns the value when `s` is a
/// nonempty string of digits of `radix` whose value fits in `usize`, `None`
/// otherwise.
pub fn parse_radix(s: &str, radix: usize) -> (r: Option<usize>)
    requires
        2 <= radix <= 36,
    ensures
        r is Some ==> spec_parse_radix_ok(s@, radix as int) && r->Some_0
            == spec_radix_val(s@, radix as int),
        r is None ==> !spec_parse_radix_ok(s@, radix as int),
{
    let n = s.unicode_len();
    if n == 0 {
        return None;
    }
    let mut acc: usize = 0;
    let mut i: usize = 0;
    while i < n
        invariant
            2 <= radix <= 36,
            n == s@.len(),
            0 <= i <= n,
            forall|j: int| 0 <= j < i ==> spec_digit(s@[j], radix as int) >= 0,
            acc == spec_radix_val(s@.take(i as int), radix as int),
        decreases n - i,
    {
        let c = s.get_char(i);
        let d: usize = if c >= '0' && c <= '9' {
            (c as usize) - ('0' as usize)
        } else if c >= 'a' && c <= 'z' {
            (c as usize) - ('a' as usize) + 10
        } else if c >= 'A' && c <= 'Z' {
            (c as usize) - ('A' as usize) + 10
        } else {
            proof {
                lemma_take_digits_imply_fail(s@, radix as int, i as int);
            }
            return None;
        };
        if d >= radix {
            proof {
                lemma_take_digits_imply_fail(s@, radix as int, i as int);
            }
            return None;
        }
        if acc > (usize::MAX - d) / radix {
            proof {
                lemma_prefix_val_overflow(s@, radix as int, i as int);
            }
            return None;
        }
        proof {
            let p = acc as int;
            let r = radix as int;
            let dd = d as int;
            assert(p * r + dd <= usize::MAX as int) by (nonlinear_arith)
                requires p >= 0 && r >= 2 && 0 <= dd < r && p <= (usize::MAX as int - dd) / r;
        }
        acc = acc * radix + d;
        proof {
            assert(s@.take(i + 1).drop_last() =~= s@.take(i as int));
            assert(s@.take(i + 1)[i as int] == s@[i as int]);
        }
        i += 1;
    }
    proof {
        assert(s@.take(n as int) =~= s@);
    }
    Some(acc)
}

/// When the prefix up to `i` is all digits but `s[i]` is not, the whole
/// string cannot parse.
proof fn lemma_take_digits_imply_fail(s: Seq<char>, radix: int, i: int)
    requires
        0 <= i < s.len(),
        spec_digit(s[i], radix) < 0,
    ensures
        !spec_parse_radix_ok(s, radix),
{
}

/// When the value of the digits before `i` already exceeds what one more
/// digit could keep within `usize`, the whole string cannot parse.
proof fn lemma_prefix_val_overflow(s: Seq<char>, radix: int, i: int)
    requires
        2 <= radix <= 36,
        0 <= i < s.len(),
        forall|j: int| 0 <= j <= i ==> spec_digit(s[j], radix) >= 0,
        spec_radix_val(s.take(i), radix) > (usize::MAX as int - spec_digit(s[i], radix)) / radix,
    ensures
        !spec_parse_radix_ok(s, radix),
{
    if spec_all_digits(s, radix) {
        let p = spec_radix_val(s.take(i), radix);
        let d = spec_digit(s[i], radix);
        assert(forall|j: int| 0 <= j < s.take(i).len() ==> spec_digit(s.take(i)[j], radix) >= 0);
        lemma_radix_val_nonneg(s.take(i), radix);
        assert(p * radix + d > usize::MAX as int) by (nonlinear_arith)
            requires p >= 0 && radix >= 2 && 0 <= d < radix && p > (usize::MAX as int - d) / radix;
        assert(s.take(i + 1).drop_last() =~= s.take(i));
        assert(s.take(i + 1)[i] == s[i]);
        assert(spec_radix_val(s.take(i + 1), radix) == p * radix + d);
        lemma_val_monotone(s, radix, i + 1);
    }
}

/// The value of a digit string is at least the value of any of its prefixes.
proof fn lemma_val_monotone(s: Seq<char>, radix: int, i: int)
    requires
        2 <= radix <= 36,
        0 <= i <= s.len(),
        forall|j: int| 0 <= j < s.len() ==> spec_digit(s[j], radix) >= 0,
    ensures
        spec_radix_val(s, radix) >= spec_radix_val(s.take(i), radix),
    decreases s.len() - i,
{
    if i < s.len() {
        lemma_val_monotone(s, radix, i + 1);
        let p = spec_radix_val(s.take(i), radix);
        let d = spec_digit(s[i], radix);
        assert(s.take(i + 1).drop_last() =~= s.take(i));
        assert(s.take(i + 1)[i] == s[i]);
        assert(forall|j: int| 0 <= j < s.take(i).len() ==> spec_digit(s.take(i)[j], radix) >= 0);
        lemma_radix_val_nonneg(s.take(i), radix);
        assert(p * radix + d >= p) by (nonlinear_arith)
            requires p >= 0 && radix >= 2 && d >= 0;
    } else {
        assert(s.take(i) =~= s);
    }
}

} // verus!
