//! The parser: arguments and groups are registered with it, and it reads a
//! command line against them.

use crate::arg::{arg_views, Arg, ArgKind, ArgView};
use crate::argmap::ArgMap;
use crate::error::{ArgError, ErrorView};
use crate::group::{group_views, has_name, ArgGroup, GroupKind, GroupView};
use crate::number::{is_float, parse_i32};
use crate::render::{help_text, show_help, show_usage, usage_text};
use crate::scan::{
    answers_to, first_group_error, first_missing, given_among, group_error, lookup, lookup_from,
    parse_outcome, scan, scan_from, value_error, Scan,
};
use crate::text::{base_name, chars_of, last_component, leading_dashes, starts_with_dash, texts};
use vstd::prelude::*;

verus! {

/// What an [`ArgParser`] holds.
pub struct ParserView {
    /// The name under which the program was started, without its directory.
    pub executable: Seq<char>,
    /// What the program is for, in a sentence.
    pub description: Seq<char>,
    /// The arguments, in the order in which they were registered.
    pub args: Seq<ArgView>,
    /// The groups, in the order in which they were registered.
    pub groups: Seq<GroupView>,
}

/// Whether `arg` uses the name or the alias that are kept for the help page.
pub open spec fn is_reserved(arg: ArgView) -> bool {
    arg.name == "help"@ || arg.alias == Some('h')
}

/// A parser of command lines.
pub struct ArgParser {
    executable: String,
    description: String,
    args: Vec<Arg>,
    groups: Vec<ArgGroup>,
}

impl View for ArgParser {
    type V = ParserView;

    closed spec fn view(&self) -> ParserView {
        ParserView {
            executable: self.executable@,
            description: self.description@,
            args: arg_views(self.args@),
            groups: group_views(self.groups@),
        }
    }
}

/// Whether the option `candidate` means `arg`. `single` is the character of
/// `candidate` when it has exactly one.
fn answers(arg: &Arg, candidate: &String, single: Option<char>) -> (yes: bool)
    requires
        single == if candidate@.len() == 1 {
            Some(candidate@[0])
        } else {
            None
        },
    ensures
        yes == answers_to(arg@, candidate@),
{
    if *arg.name() == *candidate {
        return true;
    }
    match (single, arg.alias()) {
        (Some(c), Some(alias)) => c == alias,
        _ => false,
    }
}

/// Index of the first of `args` that the option `candidate` means.
fn find(args: &Vec<Arg>, candidate: &String, single: Option<char>) -> (found: Option<usize>)
    requires
        single == if candidate@.len() == 1 {
            Some(candidate@[0])
        } else {
            None
        },
    ensures
        match found {
            Some(index) => lookup(arg_views(args@), candidate@) == Some(index as int) && index
                < args@.len(),
            None => lookup(arg_views(args@), candidate@) is None,
        },
{
    let mut i: usize = 0;
    while i < args.len()
        invariant
            i <= args@.len(),
            single == if candidate@.len() == 1 {
                Some(candidate@[0])
            } else {
                None
            },
            lookup(arg_views(args@), candidate@) == lookup_from(
                arg_views(args@),
                candidate@,
                i as int,
            ),
        decreases args@.len() - i,
    {
        if answers(&args[i], candidate, single) {
            return Some(i);
        }
        i += 1;
    }
    None
}

/// Checks `value` as the value of an argument of type `kind` that was
/// written as `option`.
fn check_value(kind: ArgKind, option: &String, value: &String) -> (out: Result<(), ArgError>)
    ensures
        match out {
            Ok(_) => value_error(kind, option@, value@) is None,
            Err(error) => value_error(kind, option@, value@) == Some(error@),
        },
{
    match kind {
        ArgKind::String => if starts_with_dash(value.as_str()) {
            Err(ArgError::UnexpectedValueShape { option: option.clone(), value: value.clone() })
        } else {
            Ok(())
        },
        ArgKind::Integer => {
            let chars = chars_of(value.as_str());
            if parse_i32(&chars).is_none() {
                Err(
                    ArgError::TypeConversionFailure {
                        value: value.clone(),
                        target: "integer".to_owned(),
                    },
                )
            } else {
                Ok(())
            }
        },
        ArgKind::Float => {
            let chars = chars_of(value.as_str());
            if !is_float(&chars) {
                Err(
                    ArgError::TypeConversionFailure {
                        value: value.clone(),
                        target: "floating point number".to_owned(),
                    },
                )
            } else {
                Ok(())
            }
        },
        ArgKind::Boolean => Ok(()),
    }
}

/// Counts the arguments that were given and whose name is among `names`.
fn count_given(args: &Vec<Arg>, seen: &Vec<bool>, names: &Vec<String>) -> (count: usize)
    requires
        seen@.len() == args@.len(),
    ensures
        count == given_among(arg_views(args@), seen@, texts(names@), args@.len() as int),
{
    let mut count: usize = 0;
    let mut i: usize = 0;
    while i < args.len()
        invariant
            i <= args@.len(),
            seen@.len() == args@.len(),
            count <= i,
            count == given_among(arg_views(args@), seen@, texts(names@), i as int),
        decreases args@.len() - i,
    {
        if seen[i] && has_name(names, args[i].name()) {
            count += 1;
        }
        i += 1;
    }
    count
}

/// Whether `group` objects to the arguments that were given, and if so,
/// whether it is because none of its members was.
fn judge(args: &Vec<Arg>, seen: &Vec<bool>, group: &ArgGroup) -> (verdict: Option<bool>)
    requires
        seen@.len() == args@.len(),
    ensures
        group_error(arg_views(args@), seen@, group@) == match verdict {
            None => None::<ErrorView>,
            Some(true) => Some(ErrorView::MissingRequiredGroup(group@)),
            Some(false) => Some(ErrorView::GroupViolation(group@)),
        },
{
    let members = count_given(args, seen, group.args());
    let parents = count_given(args, seen, group.parents());
    match group.kind() {
        GroupKind::Exclusive => if members > 1 {
            Some(false)
        } else if group.is_required() && members == 0 {
            Some(true)
        } else {
            None
        },
        GroupKind::OnlyWhen => if group.is_required() && members == 0 {
            Some(true)
        } else if members > 0 && parents == 0 {
            Some(false)
        } else {
            None
        },
    }
}

/// As many flags as there are `args`, none of them set.
fn none_seen(args: &Vec<Arg>) -> (seen: Vec<bool>)
    ensures
        seen@ == Scan::start(args@.len()).seen,
{
    let mut seen: Vec<bool> = Vec::new();
    while seen.len() < args.len()
        invariant
            seen@.len() <= args@.len(),
            forall|k: int| 0 <= k < seen@.len() ==> !seen@[k],
        decreases args@.len() - seen@.len(),
    {
        seen.push(false);
    }
    seen
}

/// Reads the options of `tokens` from left to right: the values that they
/// give, and for each of `args` whether it was given.
fn read_options(args: &Vec<Arg>, tokens: &Vec<String>) -> (out: Result<(ArgMap, Vec<bool>), ArgError>)
    ensures
        match out {
            Ok((values, seen)) => seen@.len() == args@.len() && scan(
                arg_views(args@),
                texts(tokens@),
            ) == Ok::<Scan, ErrorView>(Scan { values: values@, seen: seen@ }),
            Err(error) => scan(arg_views(args@), texts(tokens@)) == Err::<Scan, ErrorView>(error@),
        },
{
    let ghost declared = arg_views(args@);
    let ghost words = texts(tokens@);
    let mut seen = none_seen(args);
    let mut values = ArgMap::new();
    let help_long = "--help".to_owned();
    let help_short = "-h".to_owned();
    let mut at: usize = 0;
    while at < tokens.len()
        invariant
            at <= tokens@.len(),
            declared == arg_views(args@),
            words == texts(tokens@),
            seen@.len() == args@.len(),
            help_long@ == "--help"@,
            help_short@ == "-h"@,
            scan(declared, words) == scan_from(
                declared,
                words,
                at as int,
                Scan { values: values@, seen: seen@ },
            ),
        decreases tokens@.len() - at,
    {
        let token = &tokens[at];
        if *token == help_long || *token == help_short {
            return Err(ArgError::HelpRequested);
        }
        let chars = chars_of(token.as_str());
        let dashes = leading_dashes(&chars);
        if dashes == 0 {
            return Err(ArgError::UnexpectedPositional(token.clone()));
        }
        let candidate = token.as_str().substring_char(dashes, chars.len()).to_owned();
        let single = if chars.len() - dashes == 1 {
            Some(chars[dashes])
        } else {
            None
        };
        let index = match find(args, &candidate, single) {
            Some(index) => index,
            None => {
                return Err(ArgError::UnknownArgument(token.clone()));
            },
        };
        let arg = &args[index];
        match arg.kind() {
            ArgKind::Boolean => {
                seen.set(index, true);
                values = values.with(arg.name().clone(), "true".to_owned());
                at += 1;
            },
            kind => {
                if at + 1 >= tokens.len() {
                    return Err(ArgError::MissingValue(candidate));
                }
                let value = &tokens[at + 1];
                match check_value(kind, &candidate, value) {
                    Err(error) => {
                        return Err(error);
                    },
                    Ok(_) => {},
                }
                seen.set(index, true);
                values = values.with(arg.name().clone(), value.clone());
                at += 2;
            },
        }
    }
    Ok((values, seen))
}

/// What the first of `groups` that objects has to say of the arguments
/// that were given.
fn first_objection(args: &Vec<Arg>, seen: &Vec<bool>, groups: Vec<ArgGroup>) -> (out: Option<
    ArgError,
>)
    requires
        seen@.len() == args@.len(),
    ensures
        match out {
            Some(error) => first_group_error(arg_views(args@), seen@, group_views(groups@), 0)
                == Some(error@),
            None => first_group_error(arg_views(args@), seen@, group_views(groups@), 0) is None,
        },
{
    let ghost stated = group_views(groups@);
    let mut rest = groups;
    let mut g: usize = 0;
    while g < rest.len()
        invariant
            g <= rest@.len(),
            seen@.len() == args@.len(),
            stated == group_views(groups@),
            stated == group_views(rest@),
            first_group_error(arg_views(args@), seen@, stated, 0) == first_group_error(
                arg_views(args@),
                seen@,
                stated,
                g as int,
            ),
        decreases rest@.len() - g,
    {
        match judge(args, seen, &rest[g]) {
            None => {},
            Some(missing) => {
                let group = rest.remove(g);
                return Some(
                    if missing {
                        ArgError::MissingRequiredGroup(group)
                    } else {
                        ArgError::GroupViolation(group)
                    },
                );
            },
        }
        g += 1;
    }
    None
}

/// Index of the first of `args` that must be given and was not.
fn find_missing(args: &Vec<Arg>, seen: &Vec<bool>) -> (out: Option<usize>)
    requires
        seen@.len() == args@.len(),
    ensures
        match out {
            Some(index) => first_missing(arg_views(args@), seen@, 0) == Some(index as int) && index
                < args@.len(),
            None => first_missing(arg_views(args@), seen@, 0) is None,
        },
{
    let mut a: usize = 0;
    while a < args.len()
        invariant
            a <= args@.len(),
            seen@.len() == args@.len(),
            first_missing(arg_views(args@), seen@, 0) == first_missing(
                arg_views(args@),
                seen@,
                a as int,
            ),
        decreases args@.len() - a,
    {
        if args[a].is_required() && !seen[a] {
            return Some(a);
        }
        a += 1;
    }
    None
}

impl ArgParser {
    /// A parser without arguments for the program that was started as
    /// `program`, which `description` describes.
    pub fn new(program: &str, description: &str) -> (parser: Self)
        ensures
            parser@ == (ParserView {
                executable: last_component(program@),
                description: description@,
                args: Seq::empty(),
                groups: Seq::empty(),
            }),
    {
        let parser = Self {
            executable: base_name(program),
            description: description.to_owned(),
            args: Vec::new(),
            groups: Vec::new(),
        };
        proof {
            assert(arg_views(parser.args@) =~= Seq::<ArgView>::empty());
            assert(group_views(parser.groups@) =~= Seq::<GroupView>::empty());
        }
        parser
    }

    /// Registers a group, after those that are registered already.
    pub fn add_group(self, group: ArgGroup) -> (parser: Self)
        ensures
            parser@ == (ParserView { groups: self@.groups.push(group@), ..self@ }),
    {
        let mut parser = self;
        parser.groups.push(group);
        proof {
            assert(group_views(parser.groups@) =~= group_views(self.groups@).push(group@));
        }
        parser
    }

    /// Registers an argument, after those that are registered already.
    ///
    /// The name `help` and the alias `h` belong to the help page: an
    /// argument that uses either is dropped, and the parser stays as it was.
    pub fn arg(self, arg: Arg) -> (parser: Self)
        ensures
            parser@ == if is_reserved(arg@) {
                self@
            } else {
                ParserView { args: self@.args.push(arg@), ..self@ }
            },
    {
        let mut parser = self;
        let reserved_alias = match arg.alias() {
            Some(c) => c == 'h',
            None => false,
        };
        if *arg.name() != "help".to_owned() && !reserved_alias {
            parser.args.push(arg);
            proof {
                assert(arg_views(parser.args@) =~= arg_views(self.args@).push(arg@));
            }
        }
        parser
    }

    /// The name of the program, without its directory.
    pub fn executable(&self) -> (name: &String)
        ensures
            name@ == self@.executable,
    {
        &self.executable
    }

    /// What the program is for.
    pub fn description(&self) -> (text: &String)
        ensures
            text@ == self@.description,
    {
        &self.description
    }

    /// The registered arguments, in the order of their registration.
    pub fn args(&self) -> (args: &Vec<Arg>)
        ensures
            arg_views(args@) == self@.args,
    {
        &self.args
    }

    /// The registered groups, in the order of their registration.
    pub fn groups(&self) -> (groups: &Vec<ArgGroup>)
        ensures
            group_views(groups@) == self@.groups,
    {
        &self.groups
    }

    /// The usage line, without a line break at its end.
    pub fn usage(&self) -> (text: String)
        ensures
            text@ == usage_text(self@.executable, self@.args, self@.groups),
    {
        show_usage(&self.executable, &self.args, &self.groups)
    }

    /// The help page, each of its lines ended by a line break.
    pub fn help(&self) -> (text: String)
        ensures
            text@ == help_text(self@.executable, self@.description, self@.args, self@.groups),
    {
        show_help(&self.executable, &self.description, &self.args, &self.groups)
    }

    /// Reads the command line `tokens`, which does not hold the program's name.
    ///
    /// The tokens are read from left to right. Each must be an option: a
    /// dash or more, and then the name of an argument or, as a single
    /// character, its alias. An option that is no flag takes the token after
    /// it as its value. Nothing else may stand on the command line: a token
    /// that is no option and no value is refused, and so is an option that
    /// no argument answers to. `--help` and `-h` end the reading with
    /// `HelpRequested`.
    ///
    /// When all tokens are read, the groups are asked, in the order of their
    /// registration, and then the arguments that must be given, in theirs.
    /// The first thing that is wrong is returned.
    pub fn parse(self, tokens: &Vec<String>) -> (out: Result<ArgMap, ArgError>)
        ensures
            match out {
                Ok(map) => parse_outcome(self@.args, self@.groups, texts(tokens@)) == Ok::<
                    Map<Seq<char>, Seq<char>>,
                    ErrorView,
                >(map@),
                Err(error) => parse_outcome(self@.args, self@.groups, texts(tokens@)) == Err::<
                    Map<Seq<char>, Seq<char>>,
                    ErrorView,
                >(error@),
            },
    {
        let ArgParser { executable: _, description: _, args, groups } = self;
        let (values, seen) = match read_options(&args, tokens) {
            Ok(read) => read,
            Err(error) => {
                return Err(error);
            },
        };
        if let Some(error) = first_objection(&args, &seen, groups) {
            return Err(error);
        }
        match find_missing(&args, &seen) {
            Some(index) => Err(ArgError::MissingRequired(args[index].name().clone())),
            None => Ok(values),
        }
    }
}

} // verus!
