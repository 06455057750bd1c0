//! The ways in which parsing and retrieval fail, and what to tell the user.

use crate::group::{ArgGroup, GroupKind, GroupView};
use crate::text::{join, joined};
use vstd::prelude::*;

verus! {

/// Why a command line was not accepted, or a value not handed out.
#[derive(Debug, PartialEq, Eq)]
pub enum ArgError {
    /// The user asked for the help page with `--help` or `-h`.
    HelpRequested,
    /// An option that no argument answers to; holds the token as written.
    UnknownArgument(String),
    /// A token that is no option, where only options may stand.
    UnexpectedPositional(String),
    /// The command line ended where the value of this option was due.
    MissingValue(String),
    /// `value` is not written as a `target`.
    TypeConversionFailure { value: String, target: String },
    /// The value given to a string option begins with a dash.
    UnexpectedValueShape { option: String, value: String },
    /// Arguments were given in a combination that this group forbids.
    GroupViolation(ArgGroup),
    /// The argument of this name must be given and was not.
    MissingRequired(String),
    /// One argument of this group must be given and none was.
    MissingRequiredGroup(ArgGroup),
    /// No value is stored under this name.
    LookupFailure(String),
}

/// What an [`ArgError`] holds.
pub enum ErrorView {
    HelpRequested,
    UnknownArgument(Seq<char>),
    UnexpectedPositional(Seq<char>),
    MissingValue(Seq<char>),
    TypeConversionFailure { value: Seq<char>, target: Seq<char> },
    UnexpectedValueShape { option: Seq<char>, value: Seq<char> },
    GroupViolation(GroupView),
    MissingRequired(Seq<char>),
    MissingRequiredGroup(GroupView),
    LookupFailure(Seq<char>),
}

impl View for ArgError {
    type V = ErrorView;

    open spec fn view(&self) -> ErrorView {
        match self {
            ArgError::HelpRequested => ErrorView::HelpRequested,
            ArgError::UnknownArgument(token) => ErrorView::UnknownArgument(token@),
            ArgError::UnexpectedPositional(token) => ErrorView::UnexpectedPositional(token@),
            ArgError::MissingValue(option) => ErrorView::MissingValue(option@),
            ArgError::TypeConversionFailure { value, target } => ErrorView::TypeConversionFailure {
                value: value@,
                target: target@,
            },
            ArgError::UnexpectedValueShape { option, value } => ErrorView::UnexpectedValueShape {
                option: option@,
                value: value@,
            },
            ArgError::GroupViolation(group) => ErrorView::GroupViolation(group@),
            ArgError::MissingRequired(name) => ErrorView::MissingRequired(name@),
            ArgError::MissingRequiredGroup(group) => ErrorView::MissingRequiredGroup(group@),
            ArgError::LookupFailure(name) => ErrorView::LookupFailure(name@),
        }
    }
}

/// The names of a group's members, separated by commas.
pub open spec fn member_list(group: GroupView) -> Seq<char> {
    joined(group.members, ", "@)
}

/// The names of a group's parents, separated by commas.
pub open spec fn parent_list(group: GroupView) -> Seq<char> {
    joined(group.parents, ", "@)
}

/// What to tell the user when arguments were combined against `group`.
pub open spec fn violation_text(group: GroupView) -> Seq<char> {
    match group.kind {
        GroupKind::Exclusive => if group.required {
            "Misuse of exclusive argument(s). Only one of the following must be used: ["@
                + member_list(group) + "]"@
        } else {
            "Cannot use the following arguments together: ["@ + member_list(group) + "]"@
        },
        GroupKind::OnlyWhen => if group.required {
            "Missing matching parent argument. Options like ["@ + member_list(group)
                + "] need to be used with: ["@ + parent_list(group) + "]."@
        } else {
            "Missing arguments. Options like ["@ + member_list(group)
                + "] need to be used with: ["@ + parent_list(group) + "]."@
        },
    }
}

/// What to tell the user when none of the arguments of `group` was given.
pub open spec fn missing_group_text(group: GroupView) -> Seq<char> {
    match group.kind {
        GroupKind::Exclusive =>
            "Missing required exclusive argument(s). One of the following must be used: ["@
                + member_list(group) + "]"@,
        GroupKind::OnlyWhen => "Missing matching argument(s). One of the following must be used: ["@
            + member_list(group) + "]"@,
    }
}

impl ErrorView {
    /// The line that tells the user what went wrong.
    pub open spec fn message(self) -> Seq<char> {
        match self {
            ErrorView::HelpRequested => "Help requested."@,
            ErrorView::UnknownArgument(token) => "Unrecognized option `"@ + token + "` passed."@,
            ErrorView::UnexpectedPositional(token) => "Unexpected argument option `"@ + token
                + "` passed."@,
            ErrorView::MissingValue(option) => "Missing value for argument: --"@ + option,
            ErrorView::TypeConversionFailure { value, target } => "Cannot convert `"@ + value
                + "` into "@ + target + "."@,
            ErrorView::UnexpectedValueShape { option, value } => "Unexpected value `"@ + value
                + "` for argument: --"@ + option,
            ErrorView::GroupViolation(group) => violation_text(group),
            ErrorView::MissingRequired(name) => "Missing required argument: `"@ + name + "`"@,
            ErrorView::MissingRequiredGroup(group) => missing_group_text(group),
            ErrorView::LookupFailure(name) => "Inexistent `"@ + name + "` value requested."@,
        }
    }

    /// The status with which a program should end after this outcome.
    pub open spec fn exit_code(self) -> int {
        if self is HelpRequested {
            0
        } else {
            1
        }
    }
}

/// `head`, then the members of `group`, then `tail`.
fn around_members(head: &str, group: &ArgGroup, tail: &str) -> (out: String)
    ensures
        out@ == head@ + member_list(group@) + tail@,
{
    let mut out = head.to_owned();
    out.append(join(group.args(), ", ").as_str());
    out.append(tail);
    out
}

/// `head`, the members of `group`, `middle`, its parents, and `tail`.
fn around_members_and_parents(head: &str, group: &ArgGroup, middle: &str, tail: &str) -> (out:
    String)
    ensures
        out@ == head@ + member_list(group@) + middle@ + parent_list(group@) + tail@,
{
    let mut out = around_members(head, group, middle);
    out.append(join(group.parents(), ", ").as_str());
    out.append(tail);
    out
}

/// `head`, then `body`, then `tail`.
fn around(head: &str, body: &String, tail: &str) -> (out: String)
    ensures
        out@ == head@ + body@ + tail@,
{
    let mut out = head.to_owned();
    out.append(body.as_str());
    out.append(tail);
    out
}

impl ArgError {
    /// The line that tells the user what went wrong.
    pub fn message(&self) -> (text: String)
        ensures
            text@ == self@.message(),
    {
        match self {
            ArgError::HelpRequested => "Help requested.".to_owned(),
            ArgError::UnknownArgument(token) => around("Unrecognized option `", token, "` passed."),
            ArgError::UnexpectedPositional(token) => around(
                "Unexpected argument option `",
                token,
                "` passed.",
            ),
            ArgError::MissingValue(option) => {
                let mut out = "Missing value for argument: --".to_owned();
                out.append(option.as_str());
                out
            },
            ArgError::TypeConversionFailure { value, target } => {
                let mut out = around("Cannot convert `", value, "` into ");
                out.append(target.as_str());
                out.append(".");
                out
            },
            ArgError::UnexpectedValueShape { option, value } => {
                let mut out = around("Unexpected value `", value, "` for argument: --");
                out.append(option.as_str());
                out
            },
            ArgError::GroupViolation(group) => match group.kind() {
                GroupKind::Exclusive => if group.is_required() {
                    around_members(
                        "Misuse of exclusive argument(s). Only one of the following must be used: [",
                        group,
                        "]",
                    )
                } else {
                    around_members("Cannot use the following arguments together: [", group, "]")
                },
                GroupKind::OnlyWhen => if group.is_required() {
                    around_members_and_parents(
                        "Missing matching parent argument. Options like [",
                        group,
                        "] need to be used with: [",
                        "].",
                    )
                } else {
                    around_members_and_parents(
                        "Missing arguments. Options like [",
                        group,
                        "] need to be used with: [",
                        "].",
                    )
                },
            },
            ArgError::MissingRequired(name) => around("Missing required argument: `", name, "`"),
            ArgError::MissingRequiredGroup(group) => match group.kind() {
                GroupKind::Exclusive => around_members(
                    "Missing required exclusive argument(s). One of the following must be used: [",
                    group,
                    "]",
                ),
                GroupKind::OnlyWhen => around_members(
                    "Missing matching argument(s). One of the following must be used: [",
                    group,
                    "]",
                ),
            },
            ArgError::LookupFailure(name) => around("Inexistent `", name, "` value requested."),
        }
    }

    /// The status with which a program should end after this outcome:
    /// 0 after the help page, 1 after any failure.
    pub fn exit_code(&self) -> (code: i32)
        ensures
            code == self@.exit_code(),
    {
        match self {
            ArgError::HelpRequested => 0,
            _ => 1,
        }
    }
}

} // verus!
