//! The usage line and the help page, as text.

use crate::arg::{arg_views, Arg, ArgKind, ArgView};
use crate::group::{group_views, has_name, ArgGroup, GroupKind, GroupView};
use crate::text::{join, joined, pad_right, padded, texts, to_upper, uppercase};
use vstd::prelude::*;

verus! {

/// Number of bytes that `s` takes in UTF-8.
pub open spec fn byte_len(s: Seq<char>) -> nat {
    vstd::utf8::encode_utf8(s).len()
}

/// How a valued argument is shown: its name, and `upper` between angle
/// brackets as the placeholder of its value.
pub open spec fn with_placeholder(name: Seq<char>, upper: Seq<char>) -> Seq<char> {
    name + " <"@ + upper + ">"@
}

/// How `arg` is shown after the two dashes: a flag by its name, any other
/// argument by its name and the placeholder of its value, which is the
/// name in upper case.
pub open spec fn sample(arg: ArgView) -> Seq<char> {
    if arg.kind == ArgKind::Boolean {
        arg.name
    } else {
        with_placeholder(arg.name, uppercase(arg.name))
    }
}

/// What `arg` adds to the usage line: nothing unless it must be given.
pub open spec fn usage_entry(arg: ArgView) -> Seq<char> {
    if arg.required {
        " --"@ + with_placeholder(arg.name, uppercase(arg.name)) + " "@
    } else {
        Seq::empty()
    }
}

/// What the arguments add to the usage line, in their order.
pub open spec fn usage_args(args: Seq<ArgView>) -> Seq<char>
    decreases args.len(),
{
    if args.len() == 0 {
        Seq::empty()
    } else {
        usage_args(args.drop_last()) + usage_entry(args.last())
    }
}

/// What `group` adds to the usage line: its members as alternatives, when
/// exactly one of them must be given.
pub open spec fn usage_choice(group: GroupView) -> Seq<char> {
    if group.required && group.kind == GroupKind::Exclusive {
        "<"@ + joined(group.members, " | "@) + ">"@
    } else {
        Seq::empty()
    }
}

/// What the groups add to the usage line, in their order.
pub open spec fn usage_groups(groups: Seq<GroupView>) -> Seq<char>
    decreases groups.len(),
{
    if groups.len() == 0 {
        Seq::empty()
    } else {
        usage_groups(groups.drop_last()) + usage_choice(groups.last())
    }
}

/// Whether one of `args` need not be given.
pub open spec fn has_optional(args: Seq<ArgView>) -> bool {
    exists|i: int| 0 <= i < args.len() && !(#[trigger] args[i]).required
}

/// The usage line of the program `executable`: the choices that the
/// required exclusive groups leave, then the arguments that must be given.
pub open spec fn usage_text(executable: Seq<char>, args: Seq<ArgView>, groups: Seq<GroupView>)
    -> Seq<char> {
    "Usage: "@ + executable + (if has_optional(args) {
        " [options] "@
    } else {
        " "@
    }) + usage_groups(groups) + usage_args(args)
}

/// Room that `arg` asks for in the column of names on the help page.
pub open spec fn entry_width(arg: ArgView) -> nat {
    if arg.kind == ArgKind::Boolean {
        byte_len(arg.name) + 9
    } else {
        byte_len(arg.name) * 2 + 9
    }
}

/// Width of the column of names on the help page: the most room that one
/// of `args` asks for.
pub open spec fn column_width(args: Seq<ArgView>) -> nat
    decreases args.len(),
{
    if args.len() == 0 {
        0
    } else {
        let before = column_width(args.drop_last());
        if entry_width(args.last()) > before {
            entry_width(args.last())
        } else {
            before
        }
    }
}

/// The alias as the help page shows it; blanks of the same width without one.
pub open spec fn alias_column(alias: Option<char>) -> Seq<char> {
    match alias {
        Some(c) => seq!['-', c, ','],
        None => "   "@,
    }
}

/// A line of the help page: the alias, then `shown` after two dashes and
/// filled up with blanks to `width` characters, then the description.
pub open spec fn help_entry(
    alias: Option<char>,
    shown: Seq<char>,
    description: Seq<char>,
    width: nat,
) -> Seq<char> {
    alias_column(alias) + " --"@ + padded(shown, width as int) + " "@ + description + "\n"@
}

/// The line of the help page that describes `arg`.
pub open spec fn help_line(arg: ArgView, width: nat) -> Seq<char> {
    help_entry(arg.alias, sample(arg), arg.description, width)
}

/// The lines of the help page that describe `args`.
pub open spec fn help_lines(args: Seq<ArgView>, width: nat) -> Seq<char>
    decreases args.len(),
{
    if args.len() == 0 {
        Seq::empty()
    } else {
        help_lines(args.drop_last(), width) + help_line(args.last(), width)
    }
}

/// Those of `args` whose name is among `names`, each as it is written on a
/// command line, in the order of `args`.
pub open spec fn mentions(args: Seq<ArgView>, names: Seq<Seq<char>>) -> Seq<Seq<char>>
    decreases args.len(),
{
    if args.len() == 0 {
        Seq::empty()
    } else if names.contains(args.last().name) {
        mentions(args.drop_last(), names).push("--"@ + sample(args.last()))
    } else {
        mentions(args.drop_last(), names)
    }
}

/// What the help page says of `group`.
pub open spec fn group_note(args: Seq<ArgView>, group: GroupView) -> Seq<char> {
    match group.kind {
        GroupKind::Exclusive =>
            "The following option(s) are mutually exclusive and cannot be used together:\n\t"@
                + joined(mentions(args, group.members), "\n\t"@) + "\n"@,
        GroupKind::OnlyWhen => "The option(s): \n\t"@ + joined(
            mentions(args, group.members),
            "\n\t"@,
        ) + "\nCan only be used in conjunction with: \n\t"@ + joined(
            mentions(args, group.parents),
            "\n\t"@,
        ) + "\n"@,
    }
}

/// What the help page says of `groups`, one after another.
pub open spec fn group_notes(args: Seq<ArgView>, groups: Seq<GroupView>) -> Seq<char>
    decreases groups.len(),
{
    if groups.len() == 0 {
        Seq::empty()
    } else {
        group_notes(args, groups.drop_last()) + group_note(args, groups.last())
    }
}

/// The help page: the description, the usage line, a line for each
/// argument and one for the help option itself, then a note on each group.
pub open spec fn help_text(
    executable: Seq<char>,
    description: Seq<char>,
    args: Seq<ArgView>,
    groups: Seq<GroupView>,
) -> Seq<char> {
    description + "\n"@ + usage_text(executable, args, groups) + "\n\noptions:\n-------\n"@
        + help_lines(args, column_width(args)) + help_entry(
        Some('h'),
        "help"@,
        "Print this help message"@,
        column_width(args),
    ) + if groups.len() == 0 {
        Seq::empty()
    } else {
        "\nNotes on argument groups:\n"@ + group_notes(args, groups)
    }
}

/// Calls `String::push`, which puts `c` at the end of `s`.
#[verifier::external_body]
fn push_char(s: &mut String, c: char)
    ensures
        final(s)@ == old(s)@.push(c),
{
    s.push(c);
}

/// Shows a valued argument: `name`, then `upper` between angle brackets.
pub fn show_with_placeholder(name: &str, upper: &str) -> (out: String)
    ensures
        out@ == with_placeholder(name@, upper@),
{
    let mut out = name.to_owned();
    out.append(" <");
    out.append(upper);
    out.append(">");
    out
}

/// Shows `arg` after the two dashes.
fn show_sample(arg: &Arg) -> (out: String)
    ensures
        out@ == sample(arg@),
{
    match arg.kind() {
        ArgKind::Boolean => arg.name().clone(),
        _ => {
            let upper = to_upper(arg.name().as_str());
            show_with_placeholder(arg.name().as_str(), upper.as_str())
        },
    }
}

/// The part of the usage line that lists the arguments that must be given.
fn show_usage_args(args: &Vec<Arg>) -> (out: String)
    ensures
        out@ == usage_args(arg_views(args@)),
{
    let mut out = String::new();
    let mut i: usize = 0;
    while i < args.len()
        invariant
            i <= args@.len(),
            out@ == usage_args(arg_views(args@).take(i as int)),
        decreases args@.len() - i,
    {
        proof {
            assert(arg_views(args@).take(i + 1).drop_last() =~= arg_views(args@).take(i as int));
        }
        let arg = &args[i];
        if arg.is_required() {
            let upper = to_upper(arg.name().as_str());
            let shown = show_with_placeholder(arg.name().as_str(), upper.as_str());
            out.append(" --");
            out.append(shown.as_str());
            out.append(" ");
        }
        i += 1;
    }
    proof {
        assert(arg_views(args@).take(i as int) =~= arg_views(args@));
    }
    out
}

/// The part of the usage line that lists the choices to be made.
fn show_usage_groups(groups: &Vec<ArgGroup>) -> (out: String)
    ensures
        out@ == usage_groups(group_views(groups@)),
{
    let mut out = String::new();
    let mut i: usize = 0;
    while i < groups.len()
        invariant
            i <= groups@.len(),
            out@ == usage_groups(group_views(groups@).take(i as int)),
        decreases groups@.len() - i,
    {
        proof {
            assert(group_views(groups@).take(i + 1).drop_last() =~= group_views(groups@).take(i as int));
        }
        let group = &groups[i];
        let exclusive = match group.kind() {
            GroupKind::Exclusive => true,
            GroupKind::OnlyWhen => false,
        };
        if group.is_required() && exclusive {
            let choice = join(group.args(), " | ");
            out.append("<");
            out.append(choice.as_str());
            out.append(">");
        }
        i += 1;
    }
    proof {
        assert(group_views(groups@).take(i as int) =~= group_views(groups@));
    }
    out
}

/// Whether one of `args` need not be given.
fn any_optional(args: &Vec<Arg>) -> (found: bool)
    ensures
        found == has_optional(arg_views(args@)),
{
    let mut i: usize = 0;
    while i < args.len()
        invariant
            i <= args@.len(),
            forall|k: int| 0 <= k < i ==> (#[trigger] arg_views(args@)[k]).required,
        decreases args@.len() - i,
    {
        if !args[i].is_required() {
            proof {
                assert(!arg_views(args@)[i as int].required);
            }
            return true;
        }
        i += 1;
    }
    false
}

/// Writes the usage line.
pub(crate) fn show_usage(executable: &String, args: &Vec<Arg>, groups: &Vec<ArgGroup>) -> (out:
    String)
    ensures
        out@ == usage_text(executable@, arg_views(args@), group_views(groups@)),
{
    let mut out = "Usage: ".to_owned();
    out.append(executable.as_str());
    if any_optional(args) {
        out.append(" [options] ");
    } else {
        out.append(" ");
    }
    out.append(show_usage_groups(groups).as_str());
    out.append(show_usage_args(args).as_str());
    out
}

/// Computes the width of the column of names.
fn measure_column(args: &Vec<Arg>) -> (width: u128)
    ensures
        width == column_width(arg_views(args@)),
{
    let mut width: u128 = 0;
    let mut i: usize = 0;
    while i < args.len()
        invariant
            i <= args@.len(),
            width == column_width(arg_views(args@).take(i as int)),
        decreases args@.len() - i,
    {
        proof {
            assert(arg_views(args@).take(i + 1).drop_last() =~= arg_views(args@).take(i as int));
        }
        let arg = &args[i];
        let bytes: u128 = arg.name().as_str().as_bytes().len() as u128;
        let room: u128 = match arg.kind() {
            ArgKind::Boolean => bytes + 9,
            _ => bytes * 2 + 9,
        };
        if room > width {
            width = room;
        }
        i += 1;
    }
    proof {
        assert(arg_views(args@).take(i as int) =~= arg_views(args@));
    }
    width
}

/// Writes a line of the help page: the alias, then `shown` after two
/// dashes and filled up with blanks to `width` characters, then the
/// description.
pub fn show_help_entry(alias: Option<char>, shown: String, description: &str, width: u128) -> (out:
    String)
    ensures
        out@ == help_entry(alias, shown@, description@, width as nat),
{
    let mut out = String::new();
    match alias {
        Some(c) => {
            push_char(&mut out, '-');
            push_char(&mut out, c);
            push_char(&mut out, ',');
        },
        None => {
            out.append("   ");
        },
    }
    out.append(" --");
    out.append(pad_right(shown, width).as_str());
    out.append(" ");
    out.append(description);
    out.append("\n");
    out
}

/// Writes the line of the help page that describes `arg`.
fn show_help_line(arg: &Arg, width: u128) -> (out: String)
    ensures
        out@ == help_line(arg@, width as nat),
{
    show_help_entry(arg.alias(), show_sample(arg), arg.description().as_str(), width)
}

/// Writes, from `args`, those whose name is among `names`.
fn show_mentions(args: &Vec<Arg>, names: &Vec<String>) -> (out: Vec<String>)
    ensures
        texts(out@) == mentions(arg_views(args@), texts(names@)),
{
    let mut out: Vec<String> = Vec::new();
    let mut i: usize = 0;
    while i < args.len()
        invariant
            i <= args@.len(),
            texts(out@) == mentions(arg_views(args@).take(i as int), texts(names@)),
        decreases args@.len() - i,
    {
        proof {
            assert(arg_views(args@).take(i + 1).drop_last() =~= arg_views(args@).take(i as int));
        }
        let arg = &args[i];
        if has_name(names, arg.name()) {
            let mut shown = "--".to_owned();
            shown.append(show_sample(arg).as_str());
            out.push(shown);
        }
        i += 1;
    }
    proof {
        assert(arg_views(args@).take(i as int) =~= arg_views(args@));
    }
    out
}

/// Writes what the help page says of `group`.
fn show_group_note(args: &Vec<Arg>, group: &ArgGroup) -> (out: String)
    ensures
        out@ == group_note(arg_views(args@), group@),
{
    let members = join(&show_mentions(args, group.args()), "\n\t");
    match group.kind() {
        GroupKind::Exclusive => {
            let mut out =
                "The following option(s) are mutually exclusive and cannot be used together:\n\t".to_owned();
            out.append(members.as_str());
            out.append("\n");
            out
        },
        GroupKind::OnlyWhen => {
            let parents = join(&show_mentions(args, group.parents()), "\n\t");
            let mut out = "The option(s): \n\t".to_owned();
            out.append(members.as_str());
            out.append("\nCan only be used in conjunction with: \n\t");
            out.append(parents.as_str());
            out.append("\n");
            out
        },
    }
}

/// Writes the help page.
pub(crate) fn show_help(
    executable: &String,
    description: &String,
    args: &Vec<Arg>,
    groups: &Vec<ArgGroup>,
) -> (out: String)
    ensures
        out@ == help_text(executable@, description@, arg_views(args@), group_views(groups@)),
{
    let ghost arg_specs = arg_views(args@);
    let ghost group_specs = group_views(groups@);
    let width = measure_column(args);
    let mut out = description.clone();
    out.append("\n");
    out.append(show_usage(executable, args, groups).as_str());
    out.append("\n\noptions:\n-------\n");
    let ghost head = out@;

    let mut lines = String::new();
    let mut i: usize = 0;
    while i < args.len()
        invariant
            i <= args@.len(),
            arg_specs == arg_views(args@),
            lines@ == help_lines(arg_specs.take(i as int), width as nat),
        decreases args@.len() - i,
    {
        proof {
            assert(arg_specs.take(i + 1).drop_last() =~= arg_specs.take(i as int));
        }
        lines.append(show_help_line(&args[i], width).as_str());
        i += 1;
    }
    proof {
        assert(arg_specs.take(i as int) =~= arg_specs);
    }
    out.append(lines.as_str());
    out.append(
        show_help_entry(Some('h'), "help".to_owned(), "Print this help message", width).as_str(),
    );

    if groups.len() > 0 {
        let mut notes = String::new();
        let mut g: usize = 0;
        while g < groups.len()
            invariant
                g <= groups@.len(),
                arg_specs == arg_views(args@),
                group_specs == group_views(groups@),
                notes@ == group_notes(arg_specs, group_specs.take(g as int)),
            decreases groups@.len() - g,
        {
            proof {
                assert(group_specs.take(g + 1).drop_last() =~= group_specs.take(g as int));
            }
            notes.append(show_group_note(args, &groups[g]).as_str());
            g += 1;
        }
        proof {
            assert(group_specs.take(g as int) =~= group_specs);
        }
        out.append("\nNotes on argument groups:\n");
        out.append(notes.as_str());
    }
    out
}

} // verus!
