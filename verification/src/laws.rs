//! What holds of every command line, proved from the definition of parsing.

use crate::arg::{ArgKind, ArgView};
use crate::error::ErrorView;
use crate::group::{GroupKind, GroupView};
use crate::number::{i32_value, is_float_literal};
use crate::scan::{
    answers_to, first_group_error, first_missing, given_among, group_error, is_help, is_option,
    lookup, lookup_from, parse_outcome, scan, scan_from, step, Scan, Step,
};
use crate::text::without_dashes;
use vstd::prelude::*;

verus! {

/// Whether no two of `args` have the same name.
pub open spec fn distinct_names(args: Seq<ArgView>) -> bool {
    forall|i: int, j: int|
        0 <= i < j < args.len() ==> (#[trigger] args[i]).name != (#[trigger] args[j]).name
}

/// Whether reading options from index `from` on comes to read one at index
/// `at`: every option in between was accepted, and none of them took the
/// token at `at` as its value.
pub open spec fn reaches(args: Seq<ArgView>, tokens: Seq<Seq<char>>, from: int, at: int) -> bool
    decreases tokens.len() - from,
{
    if from == at {
        true
    } else if from < 0 || from >= tokens.len() || from > at {
        false
    } else {
        match step(args, tokens, from) {
            Step::Stop(_) => false,
            Step::Bind { next, .. } => reaches(args, tokens, next, at),
        }
    }
}

/// Whether the token at index `at` is read as an option.
pub open spec fn option_at(args: Seq<ArgView>, tokens: Seq<Seq<char>>, at: int) -> bool {
    0 <= at < tokens.len() && reaches(args, tokens, 0, at)
}

/// Whether the token at index `at` is read as an option that gives
/// argument number `arg` the value `value`.
pub open spec fn gives(
    args: Seq<ArgView>,
    tokens: Seq<Seq<char>>,
    at: int,
    arg: int,
    value: Seq<char>,
) -> bool {
    option_at(args, tokens, at) && (step(args, tokens, at) matches Step::Bind {
        arg: a,
        value: v,
        ..
    } && a == arg && v == value)
}

/// Whether argument number `arg` is given somewhere on the command line.
pub open spec fn is_given(args: Seq<ArgView>, tokens: Seq<Seq<char>>, arg: int) -> bool {
    exists|at: int, value: Seq<char>| gives(args, tokens, at, arg, value)
}

/// Whether `value` is fit to be the value of an argument of type `kind`.
pub open spec fn fits(kind: ArgKind, value: Seq<char>) -> bool {
    match kind {
        ArgKind::String => !is_option(value),
        ArgKind::Integer => i32_value(value) is Some,
        ArgKind::Float => is_float_literal(value),
        ArgKind::Boolean => value == "true"@,
    }
}

/// Whether the arguments that were given are as `group` wants them.
///
/// An exclusive group wants at most one of its members given, and exactly
/// one when it is required. A conditional group wants one of its parents
/// given whenever one of its members is, and one of its members given when
/// it is required.
pub open spec fn group_holds(args: Seq<ArgView>, seen: Seq<bool>, group: GroupView) -> bool {
    let members = given_among(args, seen, group.members, args.len() as int);
    let parents = given_among(args, seen, group.parents, args.len() as int);
    match group.kind {
        GroupKind::Exclusive => members <= 1 && (group.required ==> members == 1),
        GroupKind::OnlyWhen => (group.required ==> members > 0) && (members > 0 ==> parents > 0),
    }
}

// ---------------------------------------------------------------------
// Looking an option up.

proof fn lemma_lookup_from(args: Seq<ArgView>, candidate: Seq<char>, from: int)
    requires
        0 <= from,
    ensures
        match lookup_from(args, candidate, from) {
            Some(arg) => from <= arg < args.len() && answers_to(args[arg], candidate)
                && forall|k: int| from <= k < arg ==> !answers_to(args[k], candidate),
            None => forall|k: int|
                from <= k < args.len() ==> !answers_to(args[k], candidate),
        },
    decreases args.len() - from,
{
    if from < args.len() && !answers_to(args[from], candidate) {
        lemma_lookup_from(args, candidate, from + 1);
    }
}

/// An option that is accepted means one of the declared arguments, and its
/// value is fit for it; the next option stands one or two tokens further.
proof fn lemma_step(args: Seq<ArgView>, tokens: Seq<Seq<char>>, at: int)
    requires
        0 <= at < tokens.len(),
    ensures
        step(args, tokens, at) matches Step::Bind { arg, value, next } ==> {
            &&& 0 <= arg < args.len()
            &&& lookup(args, without_dashes(tokens[at])) == Some(arg)
            &&& fits(args[arg].kind, value)
            &&& at < next <= tokens.len()
            &&& args[arg].kind == ArgKind::Boolean ==> next == at + 1
            &&& args[arg].kind != ArgKind::Boolean ==> next == at + 2 && value == tokens[at + 1]
        },
{
    lemma_lookup_from(args, without_dashes(tokens[at]), 0);
}

// ---------------------------------------------------------------------
// Reading the options.

/// Reading on from an accepted option reaches what reading from the next
/// one reaches, and the option itself.
proof fn lemma_reaches_next(args: Seq<ArgView>, tokens: Seq<Seq<char>>, from: int, at: int)
    requires
        0 <= from < tokens.len(),
        step(args, tokens, from) is Bind,
        reaches(args, tokens, step(args, tokens, from)->next, at),
    ensures
        reaches(args, tokens, from, at),
{
}

/// Reading never goes back, nor past the end.
proof fn lemma_reaches_only_later(args: Seq<ArgView>, tokens: Seq<Seq<char>>, from: int, at: int)
    requires
        reaches(args, tokens, from, at),
    ensures
        from <= at,
        0 <= from <= tokens.len() ==> at <= tokens.len(),
    decreases tokens.len() - from,
{
    if from != at {
        lemma_reaches_only_later(args, tokens, step(args, tokens, from)->next, at);
    }
}

/// What a completed reading leaves: all that was there before, and
/// something for every option that was read.
proof fn lemma_scan_ok(args: Seq<ArgView>, tokens: Seq<Seq<char>>, from: int, state: Scan)
    requires
        0 <= from,
        state.seen.len() == args.len(),
        scan_from(args, tokens, from, state) is Ok,
    ensures
        ({
            let out = scan_from(args, tokens, from, state)->Ok_0;
            &&& out.seen.len() == args.len()
            &&& forall|j: int| 0 <= j < args.len() && state.seen[j] ==> out.seen[j]
            &&& forall|key: Seq<char>| #[trigger]
                state.values.contains_key(key) ==> out.values.contains_key(key)
            &&& forall|at: int|
                from <= at < tokens.len() && #[trigger] reaches(args, tokens, from, at) ==> {
                    &&& step(args, tokens, at) is Bind
                    &&& out.seen[step(args, tokens, at)->arg]
                    &&& out.values.contains_key(args[step(args, tokens, at)->arg].name)
                }
        }),
    decreases tokens.len() - from,
{
    if from < tokens.len() {
        lemma_step(args, tokens, from);
        let arg = step(args, tokens, from)->arg;
        let value = step(args, tokens, from)->value;
        let next = step(args, tokens, from)->next;
        let after = state.bind(arg, args[arg].name, value);
        lemma_scan_ok(args, tokens, next, after);
        let out = scan_from(args, tokens, from, state)->Ok_0;
        assert(after.values.contains_key(args[arg].name));
        assert forall|key: Seq<char>| #[trigger]
            state.values.contains_key(key) implies out.values.contains_key(key) by {
            assert(after.values.contains_key(key));
        }
        assert forall|at: int|
            from <= at < tokens.len() && #[trigger] reaches(args, tokens, from, at) implies {
            &&& step(args, tokens, at) is Bind
            &&& out.seen[step(args, tokens, at)->arg]
            &&& out.values.contains_key(args[step(args, tokens, at)->arg].name)
        } by {
            if at != from {
                assert(reaches(args, tokens, next, at));
            }
        }
    }
}

/// The first option that is not accepted ends the reading.
proof fn lemma_scan_stops(
    args: Seq<ArgView>,
    tokens: Seq<Seq<char>>,
    from: int,
    state: Scan,
    at: int,
)
    requires
        0 <= from <= at < tokens.len(),
        reaches(args, tokens, from, at),
        step(args, tokens, at) is Stop,
    ensures
        scan_from(args, tokens, from, state) == Err::<Scan, ErrorView>(
            step(args, tokens, at)->Stop_0,
        ),
    decreases tokens.len() - from,
{
    if from != at {
        let arg = step(args, tokens, from)->arg;
        let value = step(args, tokens, from)->value;
        let next = step(args, tokens, from)->next;
        lemma_scan_stops(args, tokens, next, state.bind(arg, args[arg].name, value), at);
    }
}

/// A reading that fails fails at an option that it reached.
proof fn lemma_scan_err(args: Seq<ArgView>, tokens: Seq<Seq<char>>, from: int, state: Scan)
    requires
        0 <= from,
        scan_from(args, tokens, from, state) is Err,
    ensures
        exists|at: int|
            from <= at < tokens.len() && #[trigger] reaches(args, tokens, from, at) && step(
                args,
                tokens,
                at,
            ) == Step::Stop(scan_from(args, tokens, from, state)->Err_0),
    decreases tokens.len() - from,
{
    match step(args, tokens, from) {
        Step::Stop(_) => {
            assert(reaches(args, tokens, from, from));
        },
        Step::Bind { arg, value, next } => {
            lemma_scan_err(args, tokens, next, state.bind(arg, args[arg].name, value));
            let at = choose|at: int|
                next <= at < tokens.len() && #[trigger] reaches(args, tokens, next, at) && step(
                    args,
                    tokens,
                    at,
                ) == Step::Stop(scan_from(args, tokens, from, state)->Err_0);
            lemma_reaches_next(args, tokens, from, at);
        },
    }
}

/// Whatever a completed reading marks as given, or stores, was there
/// before or comes from an option that was read.
proof fn lemma_scan_origin(args: Seq<ArgView>, tokens: Seq<Seq<char>>, from: int, state: Scan)
    requires
        0 <= from,
        state.seen.len() == args.len(),
        scan_from(args, tokens, from, state) is Ok,
    ensures
        ({
            let out = scan_from(args, tokens, from, state)->Ok_0;
            &&& forall|j: int|
                0 <= j < args.len() && #[trigger] out.seen[j] ==> state.seen[j] || exists|at: int|
                    from <= at < tokens.len() && #[trigger] reaches(args, tokens, from, at) && step(
                        args,
                        tokens,
                        at,
                    )->arg == j
            &&& forall|key: Seq<char>| #[trigger]
                out.values.contains_key(key) ==> (state.values.contains_key(key)
                    && out.values[key] == state.values[key]) || exists|at: int|
                    from <= at < tokens.len() && #[trigger] reaches(args, tokens, from, at)
                        && args[step(args, tokens, at)->arg].name == key && step(
                        args,
                        tokens,
                        at,
                    )->value == out.values[key]
        }),
    decreases tokens.len() - from,
{
    if from < tokens.len() {
        lemma_step(args, tokens, from);
        let arg = step(args, tokens, from)->arg;
        let value = step(args, tokens, from)->value;
        let next = step(args, tokens, from)->next;
        let after = state.bind(arg, args[arg].name, value);
        lemma_scan_origin(args, tokens, next, after);
        let out = scan_from(args, tokens, from, state)->Ok_0;
        assert(reaches(args, tokens, from, from));
        assert forall|j: int| 0 <= j < args.len() && #[trigger] out.seen[j] implies state.seen[j]
            || exists|at: int|
            from <= at < tokens.len() && #[trigger] reaches(args, tokens, from, at) && step(
                args,
                tokens,
                at,
            )->arg == j by {
            if !after.seen[j] {
                let at = choose|at: int|
                    next <= at < tokens.len() && #[trigger] reaches(args, tokens, next, at) && step(
                        args,
                        tokens,
                        at,
                    )->arg == j;
                lemma_reaches_next(args, tokens, from, at);
            }
        }
        assert forall|key: Seq<char>| #[trigger] out.values.contains_key(key) implies (
        state.values.contains_key(key) && out.values[key] == state.values[key]) || exists|at: int|
            from <= at < tokens.len() && #[trigger] reaches(args, tokens, from, at)
                && args[step(args, tokens, at)->arg].name == key && step(args, tokens, at)->value
                == out.values[key] by {
            if !(after.values.contains_key(key) && out.values[key] == after.values[key]) {
                let at = choose|at: int|
                    next <= at < tokens.len() && #[trigger] reaches(args, tokens, next, at)
                        && args[step(args, tokens, at)->arg].name == key && step(
                        args,
                        tokens,
                        at,
                    )->value == out.values[key];
                lemma_reaches_next(args, tokens, from, at);
            }
        }
    }
}

/// The value that an option gives stays, unless a later option gives
/// another to an argument of the same name.
proof fn lemma_last_wins(
    args: Seq<ArgView>,
    tokens: Seq<Seq<char>>,
    from: int,
    state: Scan,
    at: int,
)
    requires
        0 <= from <= at < tokens.len(),
        state.seen.len() == args.len(),
        reaches(args, tokens, from, at),
        step(args, tokens, at) is Bind,
        scan_from(args, tokens, from, state) is Ok,
        forall|later: int|
            at < later < tokens.len() && #[trigger] reaches(args, tokens, from, later)
                ==> args[step(args, tokens, later)->arg].name != args[step(
                args,
                tokens,
                at,
            )->arg].name,
    ensures
        ({
            let out = scan_from(args, tokens, from, state)->Ok_0;
            let name = args[step(args, tokens, at)->arg].name;
            out.values.contains_key(name) && out.values[name] == step(args, tokens, at)->value
        }),
    decreases tokens.len() - from,
{
    lemma_step(args, tokens, from);
    let arg = step(args, tokens, from)->arg;
    let value = step(args, tokens, from)->value;
    let next = step(args, tokens, from)->next;
    let after = state.bind(arg, args[arg].name, value);
    let out = scan_from(args, tokens, from, state)->Ok_0;
    let name = args[step(args, tokens, at)->arg].name;
    if from == at {
        lemma_scan_ok(args, tokens, next, after);
        lemma_scan_origin(args, tokens, next, after);
        assert(after.values.contains_key(name));
        if out.values[name] != after.values[name] {
            let later = choose|later: int|
                next <= later < tokens.len() && #[trigger] reaches(args, tokens, next, later)
                    && args[step(args, tokens, later)->arg].name == name && step(
                    args,
                    tokens,
                    later,
                )->value == out.values[name];
            lemma_reaches_next(args, tokens, from, later);
        }
    } else {
        assert forall|later: int|
            at < later < tokens.len() && #[trigger] reaches(
                args,
                tokens,
                next,
                later,
            ) implies args[step(args, tokens, later)->arg].name != name by {
            lemma_reaches_next(args, tokens, from, later);
        }
        lemma_last_wins(args, tokens, next, after, at);
    }
}

// ---------------------------------------------------------------------
// Holding what was given against the groups and the required arguments.

/// For each argument, by its index, whether it is given on the command line.
pub open spec fn given_flags(args: Seq<ArgView>, tokens: Seq<Seq<char>>) -> Seq<bool> {
    Seq::new(args.len(), |arg: int| is_given(args, tokens, arg))
}

/// How many of the arguments named in `names` are given on the command line.
pub open spec fn given_count(args: Seq<ArgView>, tokens: Seq<Seq<char>>, names: Seq<Seq<char>>)
    -> nat {
    given_among(args, given_flags(args, tokens), names, args.len() as int)
}

/// The first objection is that of the first group that has one.
proof fn lemma_first_group_error(
    args: Seq<ArgView>,
    seen: Seq<bool>,
    groups: Seq<GroupView>,
    from: int,
)
    requires
        0 <= from,
    ensures
        match first_group_error(args, seen, groups, from) {
            None => forall|g: int|
                from <= g < groups.len() ==> group_holds(args, seen, #[trigger] groups[g]),
            Some(error) => exists|g: int|
                from <= g < groups.len() && group_error(args, seen, #[trigger] groups[g]) == Some(
                    error,
                ) && forall|k: int| from <= k < g ==> group_holds(args, seen, #[trigger] groups[k]),
        },
    decreases groups.len() - from,
{
    if from < groups.len() && group_error(args, seen, groups[from]) is None {
        lemma_first_group_error(args, seen, groups, from + 1);
    }
}

/// The first missing argument is the first that must be given and was not.
proof fn lemma_first_missing(args: Seq<ArgView>, seen: Seq<bool>, from: int)
    requires
        0 <= from,
    ensures
        match first_missing(args, seen, from) {
            None => forall|j: int|
                from <= j < args.len() && (#[trigger] args[j]).required ==> seen[j],
            Some(arg) => from <= arg < args.len() && args[arg].required && !seen[arg] && forall|
                j: int,
            | from <= j < arg && (#[trigger] args[j]).required ==> seen[j],
        },
    decreases args.len() - from,
{
    if from < args.len() && !(args[from].required && !seen[from]) {
        lemma_first_missing(args, seen, from + 1);
    }
}

/// When every option is accepted, the arguments that the reading marks as
/// given are those that are given on the command line.
proof fn lemma_seen_is_given(args: Seq<ArgView>, tokens: Seq<Seq<char>>)
    requires
        scan(args, tokens) is Ok,
    ensures
        scan(args, tokens)->Ok_0.seen == given_flags(args, tokens),
{
    let start = Scan::start(args.len());
    let out = scan(args, tokens)->Ok_0;
    lemma_scan_ok(args, tokens, 0, start);
    lemma_scan_origin(args, tokens, 0, start);
    assert forall|j: int| 0 <= j < args.len() implies out.seen[j] == is_given(args, tokens, j) by {
        if out.seen[j] {
            let at = choose|at: int|
                0 <= at < tokens.len() && #[trigger] reaches(args, tokens, 0, at) && step(
                    args,
                    tokens,
                    at,
                )->arg == j;
            assert(gives(args, tokens, at, j, step(args, tokens, at)->value));
        }
        if is_given(args, tokens, j) {
            let (at, value) = choose|at: int, value: Seq<char>| gives(args, tokens, at, j, value);
        }
    }
}

// ---------------------------------------------------------------------
// The laws.

/// The first option that is not accepted decides the outcome: whatever
/// stands after it, and whatever the groups say, parsing ends with what
/// that option comes to.
pub proof fn law_first_refusal_decides(
    args: Seq<ArgView>,
    groups: Seq<GroupView>,
    tokens: Seq<Seq<char>>,
    at: int,
)
    requires
        option_at(args, tokens, at),
        step(args, tokens, at) is Stop,
    ensures
        parse_outcome(args, groups, tokens) == Err::<Map<Seq<char>, Seq<char>>, ErrorView>(
            step(args, tokens, at)->Stop_0,
        ),
{
    lemma_scan_stops(args, tokens, 0, Scan::start(args.len()), at);
}

/// A number that is not well written is refused: where an option that is
/// read means an integer or a floating point argument and the token after
/// it is not written as one, parsing fails with `TypeConversionFailure`,
/// which holds that token. Nothing is stored.
pub proof fn law_malformed_number_is_refused(
    args: Seq<ArgView>,
    groups: Seq<GroupView>,
    tokens: Seq<Seq<char>>,
    at: int,
    arg: int,
)
    requires
        option_at(args, tokens, at),
        is_option(tokens[at]),
        !is_help(tokens[at]),
        lookup(args, without_dashes(tokens[at])) == Some(arg),
        args[arg].kind == ArgKind::Integer || args[arg].kind == ArgKind::Float,
        at + 1 < tokens.len(),
        !fits(args[arg].kind, tokens[at + 1]),
    ensures
        parse_outcome(args, groups, tokens) == Err::<Map<Seq<char>, Seq<char>>, ErrorView>(
            ErrorView::TypeConversionFailure {
                value: tokens[at + 1],
                target: if args[arg].kind == ArgKind::Integer {
                    "integer"@
                } else {
                    "floating point number"@
                },
            },
        ),
{
    law_first_refusal_decides(args, groups, tokens, at);
}

/// What is given is stored: when parsing succeeds, the value that an
/// option gave is found under the argument's name, unless a later option
/// gave a value to an argument of that name. For an argument that is no
/// flag the value is the token after the option, as it was written.
pub proof fn law_value_is_stored(
    args: Seq<ArgView>,
    groups: Seq<GroupView>,
    tokens: Seq<Seq<char>>,
    at: int,
    arg: int,
    value: Seq<char>,
)
    requires
        parse_outcome(args, groups, tokens) is Ok,
        gives(args, tokens, at, arg, value),
        forall|later: int, other: int, v: Seq<char>|
            at < later && #[trigger] gives(args, tokens, later, other, v) ==> args[other].name
                != args[arg].name,
    ensures
        parse_outcome(args, groups, tokens)->Ok_0.contains_key(args[arg].name),
        parse_outcome(args, groups, tokens)->Ok_0[args[arg].name] == value,
        args[arg].kind != ArgKind::Boolean ==> at + 1 < tokens.len() && value == tokens[at + 1],
        args[arg].kind == ArgKind::Boolean ==> value == "true"@,
{
    let start = Scan::start(args.len());
    lemma_scan_ok(args, tokens, 0, start);
    assert forall|later: int|
        at < later < tokens.len() && #[trigger] reaches(args, tokens, 0, later) implies args[step(
        args,
        tokens,
        later,
    )->arg].name != args[arg].name by {
        assert(gives(
            args,
            tokens,
            later,
            step(args, tokens, later)->arg,
            step(args, tokens, later)->value,
        ));
    }
    lemma_last_wins(args, tokens, 0, start, at);
}

/// Nothing is stored that was not given: when parsing succeeds, every
/// stored value was given by an option to an argument of that name, and is
/// fit for the type of that argument. A flag has the value `true`, an
/// integer argument a value that is written as a 32-bit integer, a floating
/// point argument one that is written as a floating point number.
pub proof fn law_stored_values_were_given(
    args: Seq<ArgView>,
    groups: Seq<GroupView>,
    tokens: Seq<Seq<char>>,
    name: Seq<char>,
)
    requires
        parse_outcome(args, groups, tokens) is Ok,
        parse_outcome(args, groups, tokens)->Ok_0.contains_key(name),
    ensures
        exists|at: int, arg: int|
            {
                &&& #[trigger] gives(
                    args,
                    tokens,
                    at,
                    arg,
                    parse_outcome(args, groups, tokens)->Ok_0[name],
                )
                &&& 0 <= arg < args.len()
                &&& args[arg].name == name
                &&& fits(args[arg].kind, parse_outcome(args, groups, tokens)->Ok_0[name])
            },
{
    let start = Scan::start(args.len());
    let map = parse_outcome(args, groups, tokens)->Ok_0;
    lemma_scan_origin(args, tokens, 0, start);
    let at = choose|at: int|
        0 <= at < tokens.len() && #[trigger] reaches(args, tokens, 0, at) && args[step(
            args,
            tokens,
            at,
        )->arg].name == name && step(args, tokens, at)->value == map[name];
    lemma_scan_ok(args, tokens, 0, start);
    lemma_step(args, tokens, at);
    assert(gives(args, tokens, at, step(args, tokens, at)->arg, map[name]));
}

/// A flag is stored exactly when it is given, and then as `true`: when
/// parsing succeeds and no two arguments share a name, the name of a flag
/// is found in the result if and only if an option that was read means the
/// flag, by its name or by its alias.
pub proof fn law_flag_is_true_when_given(
    args: Seq<ArgView>,
    groups: Seq<GroupView>,
    tokens: Seq<Seq<char>>,
    flag: int,
)
    requires
        distinct_names(args),
        0 <= flag < args.len(),
        args[flag].kind == ArgKind::Boolean,
        parse_outcome(args, groups, tokens) is Ok,
    ensures
        parse_outcome(args, groups, tokens)->Ok_0.contains_key(args[flag].name) <==> is_given(
            args,
            tokens,
            flag,
        ),
        is_given(args, tokens, flag) ==> parse_outcome(args, groups, tokens)->Ok_0[args[flag].name]
            == "true"@,
{
    let start = Scan::start(args.len());
    let map = parse_outcome(args, groups, tokens)->Ok_0;
    let name = args[flag].name;
    if is_given(args, tokens, flag) {
        let (at, value) = choose|at: int, value: Seq<char>| gives(args, tokens, at, flag, value);
        lemma_scan_ok(args, tokens, 0, start);
    }
    if map.contains_key(name) {
        law_stored_values_were_given(args, groups, tokens, name);
        let (at, arg) = choose|at: int, arg: int|
            {
                &&& #[trigger] gives(args, tokens, at, arg, map[name])
                &&& 0 <= arg < args.len()
                &&& args[arg].name == name
                &&& fits(args[arg].kind, map[name])
            };
        assert(arg == flag);
    }
}

/// Parsing succeeds exactly when every option that is read is accepted,
/// every group finds the given arguments as it wants them, and every
/// argument that must be given is given.
pub proof fn law_success(args: Seq<ArgView>, groups: Seq<GroupView>, tokens: Seq<Seq<char>>)
    ensures
        parse_outcome(args, groups, tokens) is Ok <==> {
            &&& forall|at: int| #[trigger]
                option_at(args, tokens, at) ==> step(args, tokens, at) is Bind
            &&& forall|g: int|
                0 <= g < groups.len() ==> group_holds(
                    args,
                    given_flags(args, tokens),
                    #[trigger] groups[g],
                )
            &&& forall|arg: int|
                0 <= arg < args.len() && (#[trigger] args[arg]).required ==> is_given(
                    args,
                    tokens,
                    arg,
                )
        },
{
    let start = Scan::start(args.len());
    let flags = given_flags(args, tokens);
    if scan(args, tokens) is Ok {
        lemma_scan_ok(args, tokens, 0, start);
        lemma_seen_is_given(args, tokens);
        lemma_first_group_error(args, flags, groups, 0);
        lemma_first_missing(args, flags, 0);
    } else {
        lemma_scan_err(args, tokens, 0, start);
        let at = choose|at: int|
            0 <= at < tokens.len() && #[trigger] reaches(args, tokens, 0, at) && step(
                args,
                tokens,
                at,
            ) == Step::Stop(scan(args, tokens)->Err_0);
        assert(option_at(args, tokens, at));
    }
}

/// The first group that does not find the arguments as it wants them
/// decides the outcome, when every option was accepted: parsing fails with
/// `MissingRequiredGroup` when the group is required and none of its
/// members is given, and with `GroupViolation` otherwise. Either holds the
/// group.
pub proof fn law_first_objection_decides(
    args: Seq<ArgView>,
    groups: Seq<GroupView>,
    tokens: Seq<Seq<char>>,
    g: int,
)
    requires
        forall|at: int| #[trigger] option_at(args, tokens, at) ==> step(args, tokens, at) is Bind,
        0 <= g < groups.len(),
        !group_holds(args, given_flags(args, tokens), groups[g]),
        forall|k: int|
            0 <= k < g ==> group_holds(args, given_flags(args, tokens), #[trigger] groups[k]),
    ensures
        parse_outcome(args, groups, tokens) == Err::<Map<Seq<char>, Seq<char>>, ErrorView>(
            if groups[g].required && given_count(args, tokens, groups[g].members) == 0 {
                ErrorView::MissingRequiredGroup(groups[g])
            } else {
                ErrorView::GroupViolation(groups[g])
            },
        ),
{
    let flags = given_flags(args, tokens);
    lemma_accepted_means_ok(args, tokens);
    lemma_seen_is_given(args, tokens);
    lemma_first_group_error(args, flags, groups, 0);
    assert(first_group_error(args, flags, groups, 0) is Some);
    let first = choose|first: int|
        0 <= first < groups.len() && group_error(args, flags, #[trigger] groups[first])
            == first_group_error(args, flags, groups, 0) && forall|k: int|
            0 <= k < first ==> group_holds(args, flags, #[trigger] groups[k]);
    assert(first == g);
}

/// When every option that is read is accepted, the reading completes.
proof fn lemma_accepted_means_ok(args: Seq<ArgView>, tokens: Seq<Seq<char>>)
    requires
        forall|at: int| #[trigger] option_at(args, tokens, at) ==> step(args, tokens, at) is Bind,
    ensures
        scan(args, tokens) is Ok,
{
    if scan(args, tokens) is Err {
        lemma_scan_err(args, tokens, 0, Scan::start(args.len()));
        let at = choose|at: int|
            0 <= at < tokens.len() && #[trigger] reaches(args, tokens, 0, at) && step(
                args,
                tokens,
                at,
            ) == Step::Stop(scan(args, tokens)->Err_0);
        assert(option_at(args, tokens, at));
    }
}

/// An argument that must be given and is not is named: when every option
/// was accepted and no group objects, parsing fails with `MissingRequired`,
/// which holds the name of the first such argument. The message names it,
/// and the program is to end with a status that is not 0.
pub proof fn law_missing_argument_is_named(
    args: Seq<ArgView>,
    groups: Seq<GroupView>,
    tokens: Seq<Seq<char>>,
    arg: int,
)
    requires
        forall|at: int| #[trigger] option_at(args, tokens, at) ==> step(args, tokens, at) is Bind,
        forall|g: int|
            0 <= g < groups.len() ==> group_holds(
                args,
                given_flags(args, tokens),
                #[trigger] groups[g],
            ),
        0 <= arg < args.len(),
        args[arg].required,
        !is_given(args, tokens, arg),
        forall|j: int|
            0 <= j < arg && (#[trigger] args[j]).required ==> is_given(args, tokens, j),
    ensures
        parse_outcome(args, groups, tokens) == Err::<Map<Seq<char>, Seq<char>>, ErrorView>(
            ErrorView::MissingRequired(args[arg].name),
        ),
        ErrorView::MissingRequired(args[arg].name).message() == "Missing required argument: `"@
            + args[arg].name + "`"@,
        ErrorView::MissingRequired(args[arg].name).exit_code() != 0,
{
    let flags = given_flags(args, tokens);
    lemma_accepted_means_ok(args, tokens);
    lemma_seen_is_given(args, tokens);
    lemma_first_group_error(args, flags, groups, 0);
    lemma_first_missing(args, flags, 0);
    assert(first_group_error(args, flags, groups, 0) is None);
    assert(first_missing(args, flags, 0) == Some(arg));
}

/// Parsing never succeeds without an argument that must be given: when it
/// succeeds, every required argument is given, and its name is found in
/// the result.
pub proof fn law_required_arguments_are_given(
    args: Seq<ArgView>,
    groups: Seq<GroupView>,
    tokens: Seq<Seq<char>>,
    arg: int,
)
    requires
        parse_outcome(args, groups, tokens) is Ok,
        0 <= arg < args.len(),
        args[arg].required,
    ensures
        is_given(args, tokens, arg),
        parse_outcome(args, groups, tokens)->Ok_0.contains_key(args[arg].name),
{
    law_success(args, groups, tokens);
    let (at, value) = choose|at: int, value: Seq<char>| gives(args, tokens, at, arg, value);
    lemma_scan_ok(args, tokens, 0, Scan::start(args.len()));
}

/// Whether nothing but group number `g` can stand in the way of success:
/// every option that is read is accepted, every other group finds the
/// given arguments as it wants them, and every argument that must be given
/// is given.
pub open spec fn nothing_else_wrong(
    args: Seq<ArgView>,
    groups: Seq<GroupView>,
    tokens: Seq<Seq<char>>,
    g: int,
) -> bool {
    &&& forall|at: int| #[trigger] option_at(args, tokens, at) ==> step(args, tokens, at) is Bind
    &&& forall|k: int|
        0 <= k < groups.len() && k != g ==> group_holds(
            args,
            given_flags(args, tokens),
            #[trigger] groups[k],
        )
    &&& forall|arg: int|
        0 <= arg < args.len() && (#[trigger] args[arg]).required ==> is_given(args, tokens, arg)
}

/// An exclusive group lets parsing succeed only with at most one of its
/// members given, and with exactly one when the group is required: with
/// two of them given, or with none where one is required, parsing fails.
/// With a number that the group allows, parsing succeeds, unless something
/// else is wrong.
pub proof fn law_exclusive_group(
    args: Seq<ArgView>,
    groups: Seq<GroupView>,
    tokens: Seq<Seq<char>>,
    g: int,
)
    requires
        0 <= g < groups.len(),
        groups[g].kind == GroupKind::Exclusive,
    ensures
        parse_outcome(args, groups, tokens) is Ok ==> given_count(args, tokens, groups[g].members)
            <= 1,
        parse_outcome(args, groups, tokens) is Ok && groups[g].required ==> given_count(
            args,
            tokens,
            groups[g].members,
        ) == 1,
        nothing_else_wrong(args, groups, tokens, g) && given_count(args, tokens, groups[g].members)
            == 1 ==> parse_outcome(args, groups, tokens) is Ok,
        nothing_else_wrong(args, groups, tokens, g) && given_count(args, tokens, groups[g].members)
            == 0 && !groups[g].required ==> parse_outcome(args, groups, tokens) is Ok,
{
    law_success(args, groups, tokens);
}

/// A conditional group lets parsing succeed only when one of its parents
/// is given along with any of its members, and, when the group is
/// required, only when one of its members is given. With a member and a
/// parent given, parsing succeeds, unless something else is wrong; with no
/// member given it does so when the group is not required.
pub proof fn law_conditional_group(
    args: Seq<ArgView>,
    groups: Seq<GroupView>,
    tokens: Seq<Seq<char>>,
    g: int,
)
    requires
        0 <= g < groups.len(),
        groups[g].kind == GroupKind::OnlyWhen,
    ensures
        parse_outcome(args, groups, tokens) is Ok && given_count(args, tokens, groups[g].members)
            > 0 ==> given_count(args, tokens, groups[g].parents) > 0,
        parse_outcome(args, groups, tokens) is Ok && groups[g].required ==> given_count(
            args,
            tokens,
            groups[g].members,
        ) > 0,
        nothing_else_wrong(args, groups, tokens, g) && given_count(args, tokens, groups[g].members)
            > 0 && given_count(args, tokens, groups[g].parents) > 0 ==> parse_outcome(
            args,
            groups,
            tokens,
        ) is Ok,
        nothing_else_wrong(args, groups, tokens, g) && given_count(args, tokens, groups[g].members)
            == 0 && !groups[g].required ==> parse_outcome(args, groups, tokens) is Ok,
{
    law_success(args, groups, tokens);
}

} // verus!
