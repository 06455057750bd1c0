//! What parsing means: a command line is read from left to right, one
//! option at a time, and what was given is then held against the groups
//! and against the arguments that must be given.
//!
//! The first thing that is wrong decides the outcome.

use crate::arg::{ArgKind, ArgView};
use crate::error::ErrorView;
use crate::group::{GroupKind, GroupView};
use crate::number::{i32_value, is_float_literal};
use crate::text::without_dashes;
use vstd::prelude::*;

verus! {

/// Whether `token` asks for the help page.
pub open spec fn is_help(token: Seq<char>) -> bool {
    token == "--help"@ || token == "-h"@
}

/// Whether `token` is written as an option: it begins with a dash.
pub open spec fn is_option(token: Seq<char>) -> bool {
    token.len() > 0 && token[0] == '-'
}

/// Whether an option written as `candidate`, dashes removed, means `arg`:
/// by its name, or by its alias when `candidate` is a single character.
pub open spec fn answers_to(arg: ArgView, candidate: Seq<char>) -> bool {
    arg.name == candidate || (candidate.len() == 1 && arg.alias == Some(candidate[0]))
}

/// Index of the first argument at or after `from` that answers to `candidate`.
pub open spec fn lookup_from(args: Seq<ArgView>, candidate: Seq<char>, from: int) -> Option<int>
    decreases args.len() - from,
{
    if from < 0 || from >= args.len() {
        None
    } else if answers_to(args[from], candidate) {
        Some(from)
    } else {
        lookup_from(args, candidate, from + 1)
    }
}

/// Index of the first argument that answers to `candidate`.
pub open spec fn lookup(args: Seq<ArgView>, candidate: Seq<char>) -> Option<int> {
    lookup_from(args, candidate, 0)
}

/// What is wrong with `value` as the value of an argument of type `kind`
/// that was written as `option`, if anything.
pub open spec fn value_error(kind: ArgKind, option: Seq<char>, value: Seq<char>) -> Option<
    ErrorView,
> {
    match kind {
        ArgKind::String => if is_option(value) {
            Some(ErrorView::UnexpectedValueShape { option, value })
        } else {
            None
        },
        ArgKind::Integer => if i32_value(value) is None {
            Some(ErrorView::TypeConversionFailure { value, target: "integer"@ })
        } else {
            None
        },
        ArgKind::Float => if !is_float_literal(value) {
            Some(ErrorView::TypeConversionFailure { value, target: "floating point number"@ })
        } else {
            None
        },
        ArgKind::Boolean => None,
    }
}

/// What reading one option comes to.
pub enum Step {
    /// The option means argument number `arg` and gives it `value`; the
    /// next option is expected at `next`.
    Bind { arg: int, value: Seq<char>, next: int },
    /// Parsing ends here with this outcome.
    Stop(ErrorView),
}

/// Reads the option at index `at` of `tokens`.
pub open spec fn step(args: Seq<ArgView>, tokens: Seq<Seq<char>>, at: int) -> Step
    recommends
        0 <= at < tokens.len(),
{
    let token = tokens[at];
    let candidate = without_dashes(token);
    if is_help(token) {
        Step::Stop(ErrorView::HelpRequested)
    } else if !is_option(token) {
        Step::Stop(ErrorView::UnexpectedPositional(token))
    } else {
        match lookup(args, candidate) {
            None => Step::Stop(ErrorView::UnknownArgument(token)),
            Some(arg) => if args[arg].kind == ArgKind::Boolean {
                Step::Bind { arg, value: "true"@, next: at + 1 }
            } else if at + 1 >= tokens.len() {
                Step::Stop(ErrorView::MissingValue(candidate))
            } else {
                match value_error(args[arg].kind, candidate, tokens[at + 1]) {
                    Some(error) => Step::Stop(error),
                    None => Step::Bind { arg, value: tokens[at + 1], next: at + 2 },
                }
            },
        }
    }
}

/// What has been read so far.
pub struct Scan {
    /// The value given last to each argument that was given, by name.
    pub values: Map<Seq<char>, Seq<char>>,
    /// For each argument, by its index, whether it was given.
    pub seen: Seq<bool>,
}

impl Scan {
    /// Nothing read yet, with `count` arguments declared.
    pub open spec fn start(count: nat) -> Scan {
        Scan { values: Map::empty(), seen: Seq::new(count, |i: int| false) }
    }

    /// `self` after argument number `arg`, named `name`, was given `value`.
    pub open spec fn bind(self, arg: int, name: Seq<char>, value: Seq<char>) -> Scan {
        Scan { values: self.values.insert(name, value), seen: self.seen.update(arg, true) }
    }
}

/// Reads the options of `tokens` from index `at` on, starting with `state`.
pub open spec fn scan_from(args: Seq<ArgView>, tokens: Seq<Seq<char>>, at: int, state: Scan)
    -> Result<Scan, ErrorView>
    decreases tokens.len() - at,
{
    if at < 0 || at >= tokens.len() {
        Ok(state)
    } else {
        match step(args, tokens, at) {
            Step::Stop(error) => Err(error),
            Step::Bind { arg, value, next } => scan_from(
                args,
                tokens,
                next,
                state.bind(arg, args[arg].name, value),
            ),
        }
    }
}

/// Reads all of `tokens`.
pub open spec fn scan(args: Seq<ArgView>, tokens: Seq<Seq<char>>) -> Result<Scan, ErrorView> {
    scan_from(args, tokens, 0, Scan::start(args.len()))
}

/// How many of the first `upto` arguments were given and are among `names`.
pub open spec fn given_among(args: Seq<ArgView>, seen: Seq<bool>, names: Seq<Seq<char>>, upto: int)
    -> nat
    decreases upto,
{
    if upto <= 0 {
        0
    } else {
        given_among(args, seen, names, upto - 1) + if seen[upto - 1] && names.contains(
            args[upto - 1].name,
        ) {
            1nat
        } else {
            0nat
        }
    }
}

/// What `group` has to object to the arguments that were given, if anything.
pub open spec fn group_error(args: Seq<ArgView>, seen: Seq<bool>, group: GroupView) -> Option<
    ErrorView,
> {
    let members = given_among(args, seen, group.members, args.len() as int);
    let parents = given_among(args, seen, group.parents, args.len() as int);
    match group.kind {
        GroupKind::Exclusive => if members > 1 {
            Some(ErrorView::GroupViolation(group))
        } else if group.required && members == 0 {
            Some(ErrorView::MissingRequiredGroup(group))
        } else {
            None
        },
        GroupKind::OnlyWhen => if group.required && members == 0 {
            Some(ErrorView::MissingRequiredGroup(group))
        } else if members > 0 && parents == 0 {
            Some(ErrorView::GroupViolation(group))
        } else {
            None
        },
    }
}

/// The objection of the first group at or after `from` that has one.
pub open spec fn first_group_error(
    args: Seq<ArgView>,
    seen: Seq<bool>,
    groups: Seq<GroupView>,
    from: int,
) -> Option<ErrorView>
    decreases groups.len() - from,
{
    if from < 0 || from >= groups.len() {
        None
    } else if group_error(args, seen, groups[from]) is Some {
        group_error(args, seen, groups[from])
    } else {
        first_group_error(args, seen, groups, from + 1)
    }
}

/// Index of the first argument at or after `from` that must be given and was not.
pub open spec fn first_missing(args: Seq<ArgView>, seen: Seq<bool>, from: int) -> Option<int>
    decreases args.len() - from,
{
    if from < 0 || from >= args.len() {
        None
    } else if args[from].required && !seen[from] {
        Some(from)
    } else {
        first_missing(args, seen, from + 1)
    }
}

/// What is wrong with the arguments that were given, taken together:
/// the groups are asked first, in their order, then the required arguments,
/// in theirs.
pub open spec fn validation_error(args: Seq<ArgView>, groups: Seq<GroupView>, seen: Seq<bool>)
    -> Option<ErrorView> {
    match first_group_error(args, seen, groups, 0) {
        Some(error) => Some(error),
        None => match first_missing(args, seen, 0) {
            Some(arg) => Some(ErrorView::MissingRequired(args[arg].name)),
            None => None,
        },
    }
}

/// The outcome of parsing `tokens` against `args` and `groups`: the values
/// by argument name, or the first thing that was wrong.
pub open spec fn parse_outcome(args: Seq<ArgView>, groups: Seq<GroupView>, tokens: Seq<Seq<char>>)
    -> Result<Map<Seq<char>, Seq<char>>, ErrorView> {
    match scan(args, tokens) {
        Err(error) => Err(error),
        Ok(state) => match validation_error(args, groups, state.seen) {
            Some(error) => Err(error),
            None => Ok(state.values),
        },
    }
}

} // verus!
