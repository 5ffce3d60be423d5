//! A simple command-line argument parser: flags, valued arguments, and a
//! policy for tokens nothing declared.

use vstd::prelude::*;
use vstd::string::*;
use crate::strutil::str_eq;
use crate::table::{Padding, Row, Table};
use crate::attr_str::AttributeString;

verus! {

/// Argument types: a bare flag, or a flag followed by values.
#[derive(PartialEq, Eq, Structural, Clone, Copy, Debug)]
pub enum ArgumentKind {
    /// Flag without trailing value
    Flag,
    /// Flag with values
    Value,
}

/// Metadata of one declarable argument.
pub struct Argument {
    /// Name used after parsing to distinguish parsed arguments
    name: String,
    /// Either a bare flag or one that takes values
    kind: ArgumentKind,
    /// The keys this argument answers to (e.g. `--flag`, `-f`)
    keys: Vec<String>,
    /// The names of the values it consumes (e.g. `PROFILE`)
    values: Vec<String>,
    /// Description shown in the help table
    description: String,
}

impl View for Argument {
    type V = (Seq<char>, ArgumentKind, Seq<Seq<char>>, Seq<Seq<char>>, Seq<char>);

    closed spec fn view(&self) -> (Seq<char>, ArgumentKind, Seq<Seq<char>>, Seq<Seq<char>>, Seq<
        char,
    >) {
        (self.name@, self.kind, self.keys.deep_view(), self.values.deep_view(), self.description@)
    }
}

/// Copies a pack of string slices.
fn strs_to_strings(xs: &[&str]) -> (r: Vec<String>)
    ensures
        r.deep_view() == xs.deep_view(),
{
    let n = xs.len();
    let mut r: Vec<String> = Vec::new();
    let mut i: usize = 0;
    while i < n
        invariant
            n == xs@.len(),
            0 <= i <= n,
            r.deep_view() =~= xs.deep_view().take(i as int),
        decreases n - i,
    {
        let ghost r_before = r.deep_view();
        let s = String::from_str(xs[i]);
        proof {
            assert(s@ == xs@[i as int]@);
            assert(xs.deep_view()[i as int] == xs@[i as int].deep_view());
            assert(xs@[i as int].deep_view() == xs@[i as int]@);
        }
        r.push(s);
        proof {
            assert(r.deep_view() =~= r_before.push(s@));
            assert(r.deep_view() =~= xs.deep_view().take(i + 1));
        }
        i += 1;
    }
    proof {
        assert(xs.deep_view().take(n as int) =~= xs.deep_view());
    }
    r
}

impl Argument {
    /// Creates a new argument.
    pub fn new(name: &str, kind: ArgumentKind, keys: &[&str], values: &[&str], description: &str)
        -> (r: Self)
        ensures
            r@ == (name@, kind, keys.deep_view(), values.deep_view(), description@),
    {
        Self {
            name: String::from_str(name),
            kind,
            keys: strs_to_strings(keys),
            values: strs_to_strings(values),
            description: String::from_str(description),
        }
    }

    /// Creates a new flag, omitting the arguments `new` does not need for
    /// one.
    pub fn new_flag(name: &str, keys: &[&str], description: &str) -> (r: Self)
        ensures
            r@ == (
                name@,
                ArgumentKind::Flag,
                keys.deep_view(),
                Seq::<Seq<char>>::empty(),
                description@,
            ),
    {
        let r = Self::new(name, ArgumentKind::Flag, keys, &[], description);
        proof {
            let e: &[&str] = &[];
            assert(e.deep_view() =~= Seq::<Seq<char>>::empty());
        }
        r
    }

    /// Creates a new argument with values, omitting what `new` does not
    /// need for one.
    pub fn new_value(name: &str, keys: &[&str], values: &[&str], description: &str) -> (r: Self)
        ensures
            r@ == (name@, ArgumentKind::Value, keys.deep_view(), values.deep_view(), description@),
    {
        Self::new(name, ArgumentKind::Value, keys, values, description)
    }
}

/// A parsed argument.
pub struct ParsedArgument {
    /// The declared argument's name
    pub name: String,
    /// Parsed values (empty for a flag)
    pub values: Vec<String>,
}

/// The parsed argument list, together with unrecognized tokens.
pub struct ParsedArguments {
    /// Parsed arguments
    pub args: Vec<ParsedArgument>,
    /// Unrecognized tokens (with the `Save` policy)
    pub leftover: Vec<String>,
}

/// Policy on encountering an undeclared token.
#[derive(Clone, Copy, PartialEq, Eq, Structural, Debug)]
pub enum UnexpectedArgumentPolicy {
    /// Ignore the token
    Ignore,
    /// Save it into the leftover list
    Save,
    /// Refuse to parse; the outer layer treats this as fatal
    Crash,
}

pub open spec fn parsed_model(s: Seq<ParsedArgument>) -> Seq<(Seq<char>, Seq<Seq<char>>)> {
    s.map_values(|p: ParsedArgument| (p.name@, p.values.deep_view()))
}

/// The name of the last declared argument listing `key` among its keys,
/// as a key map built front to back would resolve it.
pub open spec fn spec_find_key(
    args: Seq<(Seq<char>, ArgumentKind, Seq<Seq<char>>, Seq<Seq<char>>, Seq<char>)>,
    key: Seq<char>,
) -> Option<Seq<char>>
    decreases args.len(),
{
    if args.len() == 0 {
        None
    } else if args.last().2.contains(key) {
        Some(args.last().0)
    } else {
        spec_find_key(args.drop_last(), key)
    }
}

/// The last declared argument of the given name, as a map from names to
/// arguments built front to back would resolve it.
pub open spec fn spec_find_name(
    args: Seq<(Seq<char>, ArgumentKind, Seq<Seq<char>>, Seq<Seq<char>>, Seq<char>)>,
    name: Seq<char>,
) -> Option<(Seq<char>, ArgumentKind, Seq<Seq<char>>, Seq<Seq<char>>, Seq<char>)>
    decreases args.len(),
{
    if args.len() == 0 {
        None
    } else if args.last().0 == name {
        Some(args.last())
    } else {
        spec_find_name(args.drop_last(), name)
    }
}

/// A found key always resolves to a declared argument.
pub proof fn lemma_find_key_resolves(
    args: Seq<(Seq<char>, ArgumentKind, Seq<Seq<char>>, Seq<Seq<char>>, Seq<char>)>,
    key: Seq<char>,
)
    requires
        spec_find_key(args, key) is Some,
    ensures
        spec_find_name(args, spec_find_key(args, key)->Some_0) is Some,
    decreases args.len(),
{
    if args.len() > 0 && !args.last().2.contains(key) {
        lemma_find_key_resolves(args.drop_last(), key);
        let name = spec_find_key(args.drop_last(), key)->Some_0;
        if args.last().0 != name {
            assert(spec_find_name(args, name) == spec_find_name(args.drop_last(), name));
        }
    }
}

/// What parsing a token list yields: the recognized arguments with their
/// consumed values, in order, and the unrecognized tokens the `Save`
/// policy keeps. `None` when parsing cannot finish: an undeclared token
/// under the `Crash` policy, or a valued argument with too few tokens
/// left. The outer layer treats both as fatal.
pub open spec fn spec_parse(
    args: Seq<(Seq<char>, ArgumentKind, Seq<Seq<char>>, Seq<Seq<char>>, Seq<char>)>,
    policy: UnexpectedArgumentPolicy,
    input: Seq<Seq<char>>,
) -> Option<(Seq<(Seq<char>, Seq<Seq<char>>)>, Seq<Seq<char>>)>
    decreases input.len(),
{
    if input.len() == 0 {
        Some((Seq::empty(), Seq::empty()))
    } else {
        let tok = input[0];
        match spec_find_key(args, tok) {
            Some(name) => match spec_find_name(args, name) {
                None => None,
                Some(a) => match a.1 {
                    ArgumentKind::Flag => match spec_parse(args, policy, input.drop_first()) {
                        None => None,
                        Some(rest) => Some(
                            (seq![(a.0, Seq::<Seq<char>>::empty())] + rest.0, rest.1),
                        ),
                    },
                    ArgumentKind::Value => {
                        let cnt = a.3.len() as int;
                        if input.len() - 1 < cnt {
                            None
                        } else {
                            match spec_parse(args, policy, input.skip(1 + cnt)) {
                                None => None,
                                Some(rest) => Some(
                                    (seq![(a.0, input.subrange(1, 1 + cnt))] + rest.0, rest.1),
                                ),
                            }
                        }
                    },
                },
            },
            None => match policy {
                UnexpectedArgumentPolicy::Ignore => spec_parse(args, policy, input.drop_first()),
                UnexpectedArgumentPolicy::Save => match spec_parse(
                    args,
                    policy,
                    input.drop_first(),
                ) {
                    None => None,
                    Some(rest) => Some((rest.0, seq![tok] + rest.1)),
                },
                UnexpectedArgumentPolicy::Crash => None,
            },
        }
    }
}

/// Argument-parser context: the declared arguments and the policy on
/// undeclared tokens.
pub struct ArgumentParser {
    /// Argument metadata, in declaration order
    args: Vec<Argument>,
    /// Policy on unknown/unrecognized tokens
    unknown_argument_policy: UnexpectedArgumentPolicy,
}

impl ArgumentParser {
    pub closed spec fn spec_args(&self) -> Seq<
        (Seq<char>, ArgumentKind, Seq<Seq<char>>, Seq<Seq<char>>, Seq<char>),
    > {
        self.args@.map_values(|a: Argument| a@)
    }

    pub closed spec fn spec_policy(&self) -> UnexpectedArgumentPolicy {
        self.unknown_argument_policy
    }

    /// Creates a new `ArgumentParser`.
    pub fn new(args: Vec<Argument>, unknown_argument_policy: UnexpectedArgumentPolicy) -> (r: Self)
        ensures
            r.spec_args() == args@.map_values(|a: Argument| a@),
            r.spec_policy() == unknown_argument_policy,
    {
        Self { args, unknown_argument_policy }
    }

    /// Whether `keys` lists `key`.
    fn keys_contain(keys: &Vec<String>, key: &str) -> (r: bool)
        ensures
            r == keys.deep_view().contains(key@),
    {
        let n = keys.len();
        let mut i: usize = 0;
        while i < n
            invariant
                n == keys@.len(),
                0 <= i <= n,
                forall|j: int| 0 <= j < i ==> keys.deep_view()[j] != key@,
            decreases n - i,
        {
            proof {
                assert(keys.deep_view()[i as int] == keys@[i as int]@);
            }
            if str_eq(keys[i].as_str(), key) {
                return true;
            }
            i += 1;
        }
        false
    }

    /// The name the key map resolves `key` to, if any.
    fn find_by_key(&self, key: &str) -> (r: Option<String>)
        ensures
            r.deep_view() == spec_find_key(self.spec_args(), key@),
    {
        let mut i: usize = self.args.len();
        proof {
            assert(self.spec_args().take(i as int) =~= self.spec_args());
        }
        while i > 0
            invariant
                i <= self.args@.len(),
                spec_find_key(self.spec_args(), key@) == spec_find_key(
                    self.spec_args().take(i as int),
                    key@,
                ),
            decreases i,
        {
            i -= 1;
            proof {
                assert(self.spec_args().take(i + 1).drop_last() =~= self.spec_args().take(
                    i as int,
                ));
                assert(self.spec_args().take(i + 1).last() == self.spec_args()[i as int]);
                assert(self.spec_args()[i as int] == self.args@[i as int]@);
            }
            if Self::keys_contain(&self.args[i].keys, key) {
                return Some(self.args[i].name.clone());
            }
        }
        proof {
            assert(self.spec_args().take(0) =~= Seq::<
                (Seq<char>, ArgumentKind, Seq<Seq<char>>, Seq<Seq<char>>, Seq<char>),
            >::empty());
        }
        None
    }

    /// The index of the last declared argument of the given name, if any.
    fn find_by_name(&self, name: &str) -> (r: Option<usize>)
        ensures
            r is None ==> spec_find_name(self.spec_args(), name@) is None,
            r is Some ==> r->Some_0 < self.args@.len() && spec_find_name(self.spec_args(), name@)
                == Some(self.args@[r->Some_0 as int]@),
    {
        let mut i: usize = self.args.len();
        proof {
            assert(self.spec_args().take(i as int) =~= self.spec_args());
        }
        while i > 0
            invariant
                i <= self.args@.len(),
                spec_find_name(self.spec_args(), name@) == spec_find_name(
                    self.spec_args().take(i as int),
                    name@,
                ),
            decreases i,
        {
            i -= 1;
            proof {
                assert(self.spec_args().take(i + 1).drop_last() =~= self.spec_args().take(
                    i as int,
                ));
                assert(self.spec_args().take(i + 1).last() == self.spec_args()[i as int]);
                assert(self.spec_args()[i as int] == self.args@[i as int]@);
            }
            if str_eq(self.args[i].name.as_str(), name) {
                return Some(i);
            }
        }
        proof {
            assert(self.spec_args().take(0) =~= Seq::<
                (Seq<char>, ArgumentKind, Seq<Seq<char>>, Seq<Seq<char>>, Seq<char>),
            >::empty());
        }
        None
    }

    /// Whether `parse` can finish on this token list; callers check this
    /// before parsing and fail where it cannot.
    pub fn can_parse(&self, args: &Vec<String>) -> (r: bool)
        ensures
            r == (spec_parse(self.spec_args(), self.spec_policy(), args.deep_view()) is Some),
    {
        let ghost input = args.deep_view();
        let n = args.len();
        let mut i: usize = 0;
        proof {
            assert(input.skip(0) =~= input);
        }
        while i < n
            invariant
                n == args@.len(),
                input == args.deep_view(),
                input.len() == n,
                0 <= i <= n,
                spec_parse(self.spec_args(), self.spec_policy(), input) is Some <==> spec_parse(
                    self.spec_args(),
                    self.spec_policy(),
                    input.skip(i as int),
                ) is Some,
            decreases n - i,
        {
            proof {
                assert(input.skip(i as int)[0] == input[i as int]);
                assert(input.skip(i as int).drop_first() =~= input.skip(i + 1));
                assert(input[i as int] == args@[i as int]@);
            }
            let tok = args[i].as_str();
            match self.find_by_key(tok) {
                Some(name) => {
                    proof {
                        lemma_find_key_resolves(self.spec_args(), tok@);
                    }
                    let idx = match self.find_by_name(name.as_str()) {
                        Some(idx) => idx,
                        None => {
                            return false;
                        }
                    };
                    match self.args[idx].kind {
                        ArgumentKind::Flag => {
                            i += 1;
                        }
                        ArgumentKind::Value => {
                            let cnt = self.args[idx].values.len();
                            if n - i - 1 < cnt {
                                return false;
                            }
                            proof {
                                assert(input.skip(i as int).skip(1 + cnt) =~= input.skip(
                                    i + 1 + cnt,
                                ));
                            }
                            i = i + 1 + cnt;
                        }
                    }
                }
                None => {
                    match self.unknown_argument_policy {
                        UnexpectedArgumentPolicy::Ignore => {
                            i += 1;
                        }
                        UnexpectedArgumentPolicy::Save => {
                            i += 1;
                        }
                        UnexpectedArgumentPolicy::Crash => {
                            return false;
                        }
                    }
                }
            }
        }
        proof {
            assert(input.skip(n as int) =~= Seq::<Seq<char>>::empty());
        }
        true
    }

    /// Builds the help table: one row per declared argument, holding an
    /// indent, the argument's keys and value names, a dash, and its
    /// description. The printing layer renders it.
    pub fn help_table(&self) -> (r: Table)
        ensures
            r.spec_rows().len() == self.spec_args().len(),
            forall|i: int| 0 <= i < self.spec_args().len() ==> {
                let a = self.spec_args()[i];
                let row = (#[trigger] r.spec_rows()[i])@;
                &&& row.len() == 4
                &&& row[0]@.0 == "    "@
                &&& row[1]@.0 == crate::strutil::spec_join(a.2, ", "@) + " "@
                    + crate::strutil::spec_join(a.3, " "@)
                &&& row[2]@.0 == " - "@
                &&& row[3]@.0 == a.4
            },
            r.spec_header().len() == 4,
            r.spec_padding() == seq![Padding::Plain, Padding::Left, Padding::Plain, Padding::Left],
    {
        let mut padding: Vec<Padding> = Vec::new();
        padding.push(Padding::Plain);
        padding.push(Padding::Left);
        padding.push(Padding::Plain);
        padding.push(Padding::Left);
        proof {
            assert(padding@ =~= seq![
                Padding::Plain,
                Padding::Left,
                Padding::Plain,
                Padding::Left,
            ]);
        }
        let mut table = Table::with_empty_header_and_padding(padding);
        let n = self.args.len();
        let mut i: usize = 0;
        while i < n
            invariant
                n == self.args@.len(),
                0 <= i <= n,
                table.spec_header().len() == 4,
                table.spec_widths().len() == 4,
                table.spec_padding() == seq![
                    Padding::Plain,
                    Padding::Left,
                    Padding::Plain,
                    Padding::Left,
                ],
                table.spec_rows().len() == i,
                forall|k: int| 0 <= k < i ==> {
                    let a = self.spec_args()[k];
                    let row = (#[trigger] table.spec_rows()[k])@;
                    &&& row.len() == 4
                    &&& row[0]@.0 == "    "@
                    &&& row[1]@.0 == crate::strutil::spec_join(a.2, ", "@) + " "@
                        + crate::strutil::spec_join(a.3, " "@)
                    &&& row[2]@.0 == " - "@
                    &&& row[3]@.0 == a.4
                },
            decreases n - i,
        {
            let arg = &self.args[i];
            // Joined argument keys and value names form a single column.
            let keys_and_values = crate::strutil::join_strings(&arg.keys, ", ").concat(" ").concat(
                crate::strutil::join_strings(&arg.values, " ").as_str(),
            );
            let mut row = Row::default();
            row.push(AttributeString::from("    "));
            row.push(AttributeString::from(keys_and_values.as_str()));
            row.push(AttributeString::from(" - "));
            row.push(AttributeString::from(arg.description.as_str()));
            let res = table.push_row(row);
            proof {
                assert(res is Ok);
                assert(self.spec_args()[i as int] == self.args@[i as int]@);
            }
            i += 1;
        }
        table
    }

    /// Parses the given tokens against the declared arguments. The token
    /// list must be parseable (see `can_parse`); the outer layer checks
    /// that first and fails where it cannot.
    pub fn parse(&self, args: Vec<String>) -> (r: ParsedArguments)
        requires
            spec_parse(self.spec_args(), self.spec_policy(), args.deep_view()) is Some,
        ensures
            parsed_model(r.args@) == spec_parse(
                self.spec_args(),
                self.spec_policy(),
                args.deep_view(),
            )->Some_0.0,
            r.leftover.deep_view() == spec_parse(
                self.spec_args(),
                self.spec_policy(),
                args.deep_view(),
            )->Some_0.1,
    {
        let ghost input = args.deep_view();
        let ghost whole = spec_parse(self.spec_args(), self.spec_policy(), input)->Some_0;
        let mut result = ParsedArguments { args: Vec::new(), leftover: Vec::new() };
        let n = args.len();
        let mut i: usize = 0;
        proof {
            assert(input.skip(0) =~= input);
            assert(parsed_model(result.args@) =~= Seq::<(Seq<char>, Seq<Seq<char>>)>::empty());
            assert(result.leftover.deep_view() =~= Seq::<Seq<char>>::empty());
        }
        while i < n
            invariant
                n == args@.len(),
                input == args.deep_view(),
                input.len() == n,
                0 <= i <= n,
                whole == spec_parse(self.spec_args(), self.spec_policy(), input)->Some_0,
                spec_parse(self.spec_args(), self.spec_policy(), input) is Some,
                spec_parse(self.spec_args(), self.spec_policy(), input.skip(i as int)) is Some,
                whole.0 =~~= parsed_model(result.args@) + spec_parse(
                    self.spec_args(),
                    self.spec_policy(),
                    input.skip(i as int),
                )->Some_0.0,
                whole.1 =~~= result.leftover.deep_view() + spec_parse(
                    self.spec_args(),
                    self.spec_policy(),
                    input.skip(i as int),
                )->Some_0.1,
            decreases n - i,
        {
            proof {
                assert(input.skip(i as int)[0] == input[i as int]);
                assert(input.skip(i as int).drop_first() =~= input.skip(i + 1));
                assert(input[i as int] == args@[i as int]@);
            }
            let tok = args[i].as_str();
            match self.find_by_key(tok) {
                Some(name) => {
                    proof {
                        lemma_find_key_resolves(self.spec_args(), tok@);
                    }
                    let idx = match self.find_by_name(name.as_str()) {
                        Some(idx) => idx,
                        None => {
                            proof {
                                assert(false);
                            }
                            return result;
                        }
                    };
                    let ghost a = self.args@[idx as int]@;
                    match self.args[idx].kind {
                        ArgumentKind::Flag => {
                            let ghost parsed_before = parsed_model(result.args@);
                            result.args.push(
                                ParsedArgument {
                                    name: self.args[idx].name.clone(),
                                    values: Vec::new(),
                                },
                            );
                            proof {
                                assert(parsed_model(result.args@) =~~= parsed_before.push(
                                    (a.0, Seq::<Seq<char>>::empty()),
                                ));
                            }
                            i += 1;
                        }
                        ArgumentKind::Value => {
                            let cnt = self.args[idx].values.len();
                            proof {
                                assert(input.skip(i as int).len() - 1 >= cnt);
                                assert(input.skip(i as int).skip(1 + cnt) =~= input.skip(
                                    i + 1 + cnt,
                                ));
                            }
                            let mut values: Vec<String> = Vec::new();
                            let mut v: usize = 0;
                            while v < cnt
                                invariant
                                    0 <= v <= cnt,
                                    i + 1 + cnt <= n,
                                    n == args@.len(),
                                    input == args.deep_view(),
                                    values.deep_view() =~~= input.subrange(
                                        i + 1,
                                        i + 1 + v,
                                    ),
                                decreases cnt - v,
                            {
                                let ghost vals_before = values.deep_view();
                                let item = args[i + 1 + v].clone();
                                proof {
                                    assert(item@ == args@[i + 1 + v]@);
                                    assert(input[i + 1 + v] == args@[i + 1 + v]@);
                                }
                                values.push(item);
                                proof {
                                    assert(values.deep_view() =~~= vals_before.push(
                                        input[i + 1 + v],
                                    ));
                                    assert(values.deep_view() =~~= input.subrange(
                                        i + 1,
                                        i + 1 + v + 1,
                                    ));
                                }
                                v += 1;
                            }
                            let ghost parsed_before = parsed_model(result.args@);
                            result.args.push(
                                ParsedArgument { name: self.args[idx].name.clone(), values },
                            );
                            proof {
                                assert(input.skip(i as int).subrange(1, 1 + cnt) =~~= input
                                    .subrange(i + 1, i + 1 + cnt));
                                assert(parsed_model(result.args@) =~~= parsed_before.push(
                                    (a.0, input.subrange(i + 1, i + 1 + cnt)),
                                ));
                            }
                            i = i + 1 + cnt;
                        }
                    }
                }
                None => {
                    match self.unknown_argument_policy {
                        UnexpectedArgumentPolicy::Ignore => {
                            i += 1;
                        }
                        UnexpectedArgumentPolicy::Save => {
                            let ghost left_before = result.leftover.deep_view();
                            result.leftover.push(args[i].clone());
                            proof {
                                assert(result.leftover.deep_view() =~= left_before.push(
                                    input[i as int],
                                ));
                            }
                            i += 1;
                        }
                        UnexpectedArgumentPolicy::Crash => {
                            proof {
                                assert(false);
                            }
                            return result;
                        }
                    }
                }
            }
        }
        proof {
            assert(input.skip(n as int) =~= Seq::<Seq<char>>::empty());
        }
        result
    }
}

} // verus!
