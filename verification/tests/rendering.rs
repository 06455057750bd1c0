use argparser::render::{show_help_entry, show_with_placeholder};
use argparser::text::{base_name, chars_of, join, leading_dashes, pad_right, starts_with_dash};
use argparser::{Arg, ArgGroup, ArgParser};

fn sample_parser() -> ArgParser {
    ArgParser::new("/usr/bin/dupes", "Find duplicate files.")
        .arg(Arg::boolean("verbose", Some('V'), "verbose execution"))
        .arg(Arg::boolean("json", None, "Format output as JSON"))
        .arg(Arg::string("path", Some('f'), true, "Directory to examine"))
        .arg(Arg::integer("count", None, false, "How many"))
}

#[test]
fn usage_lists_required_arguments() {
    assert_eq!(sample_parser().usage(), "Usage: dupes [options]  --path <PATH> ");
}

#[test]
fn usage_of_empty_parser() {
    assert_eq!(ArgParser::new("prog", "").usage(), "Usage: prog ");
}

#[test]
fn usage_without_optional_arguments_has_no_options_note() {
    let parser = ArgParser::new("prog", "")
        .arg(Arg::string("in", None, true, ""))
        .arg(Arg::float("scale", None, true, ""));
    assert_eq!(parser.usage(), "Usage: prog  --in <IN>  --scale <SCALE> ");
}

#[test]
fn usage_with_only_optional_arguments() {
    let parser = ArgParser::new("prog", "").arg(Arg::boolean("v", None, ""));
    assert_eq!(parser.usage(), "Usage: prog [options] ");
}

#[test]
fn usage_shows_choices_of_required_exclusive_groups() {
    let parser = ArgParser::new("prog", "")
        .arg(Arg::boolean("a", None, ""))
        .arg(Arg::boolean("b", None, ""))
        .arg(Arg::string("must", None, true, ""))
        .add_group(ArgGroup::exclusive("one", true, &["a", "b", "c"]))
        .add_group(ArgGroup::exclusive("optional", false, &["x", "y"]))
        .add_group(ArgGroup::allow_when("cond", true, &["a"], &["b"]))
        .add_group(ArgGroup::exclusive("two", true, &["p"]));
    assert_eq!(parser.usage(), "Usage: prog [options] <a | b | c><p> --must <MUST> ");
}

#[test]
fn placeholder_is_the_name_in_upper_case() {
    let parser = ArgParser::new("prog", "").arg(Arg::string("straße-ö", None, true, ""));
    assert_eq!(parser.usage(), "Usage: prog  --straße-ö <STRASSE-Ö> ");
}

#[test]
fn show_with_placeholder_puts_brackets_round_the_second() {
    assert_eq!(show_with_placeholder("path", "PATH"), "path <PATH>");
    assert_eq!(show_with_placeholder("", ""), " <>");
    assert_eq!(show_with_placeholder("a", "b c"), "a <b c>");
}

#[test]
fn help_page_of_sample_parser() {
    // "count" asks for the most room: 5 * 2 + 9.
    let width = 19;
    let expected = format!(
        "Find duplicate files.\n\
         Usage: dupes [options]  --path <PATH> \n\
         \noptions:\n\
         -------\n\
         -V, --{:<width$} verbose execution\n\
         \x20   --{:<width$} Format output as JSON\n\
         -f, --{:<width$} Directory to examine\n\
         \x20   --{:<width$} How many\n\
         -h, --{:<width$} Print this help message\n",
        "verbose",
        "json",
        "path <PATH>",
        "count <COUNT>",
        "help",
        width = width
    );
    assert_eq!(sample_parser().help(), expected);
}

#[test]
fn help_page_of_empty_parser() {
    assert_eq!(
        ArgParser::new("prog", "Does nothing.").help(),
        "Does nothing.\nUsage: prog \n\noptions:\n-------\n-h, --help Print this help message\n"
    );
}

#[test]
fn help_column_is_as_wide_as_the_widest_entry_asks() {
    let parser = ArgParser::new("p", "d").arg(Arg::boolean("ab", Some('a'), "x"));
    // A flag asks for its length and 9.
    assert_eq!(
        parser.help(),
        "d\nUsage: p [options] \n\noptions:\n-------\n-a, --ab          x\n-h, --help        Print this help message\n"
    );
    let parser = ArgParser::new("p", "d").arg(Arg::string("ab", None, false, "x"));
    // A valued argument asks for twice its length and 9.
    assert_eq!(
        parser.help(),
        "d\nUsage: p [options] \n\noptions:\n-------\n    --ab <AB>       x\n-h, --help          Print this help message\n"
    );
}

#[test]
fn help_column_counts_bytes_and_pads_characters() {
    let parser = ArgParser::new("p", "d").arg(Arg::boolean("é", None, "x"));
    // "é" takes two bytes: the column is 11 wide, and ten blanks follow the one character.
    let expected = format!(
        "d\nUsage: p [options] \n\noptions:\n-------\n    --{:<11} x\n-h, --{:<11} Print this help message\n",
        "é", "help"
    );
    assert_eq!(parser.help(), expected);
}

#[test]
fn help_page_notes_groups() {
    let parser = ArgParser::new("prog", "Groups.")
        .arg(Arg::boolean("a", None, "first"))
        .arg(Arg::string("b", None, false, "second"))
        .arg(Arg::boolean("c", None, "third"))
        .add_group(ArgGroup::exclusive("mode", true, &["b", "a", "ghost"]))
        .add_group(ArgGroup::allow_when("family", false, &["c"], &["a", "b"]));
    let expected = format!(
        "Groups.\n\
         Usage: prog [options] <b | a | ghost>\n\
         \noptions:\n\
         -------\n\
         \x20   --{:<11} first\n\
         \x20   --{:<11} second\n\
         \x20   --{:<11} third\n\
         -h, --{:<11} Print this help message\n\
         \nNotes on argument groups:\n\
         The following option(s) are mutually exclusive and cannot be used together:\n\
         \t--a\n\
         \t--b <B>\n\
         The option(s): \n\
         \t--c\n\
         Can only be used in conjunction with: \n\
         \t--a\n\
         \t--b <B>\n",
        "a", "b <B>", "c", "help"
    );
    assert_eq!(parser.help(), expected);
}

#[test]
fn help_page_notes_group_without_declared_members() {
    let parser = ArgParser::new("p", "d").add_group(ArgGroup::exclusive("none", false, &["x"]));
    assert_eq!(
        parser.help(),
        "d\nUsage: p \n\noptions:\n-------\n-h, --help Print this help message\n\
         \nNotes on argument groups:\n\
         The following option(s) are mutually exclusive and cannot be used together:\n\t\n"
    );
}

#[test]
fn base_name_is_what_follows_the_last_separator() {
    assert_eq!(base_name("a/b/c"), "c");
    assert_eq!(base_name("C:\\x\\prog.exe"), "prog.exe");
    assert_eq!(base_name("a\\b/c\\d"), "d");
    assert_eq!(base_name("prog"), "prog");
    assert_eq!(base_name("/"), "");
    assert_eq!(base_name("dir/sub/"), "");
    assert_eq!(base_name(""), "");
    assert_eq!(base_name("été/ñandú"), "ñandú");
}

#[test]
fn join_places_separator_between_neighbours() {
    let none: Vec<String> = vec![];
    assert_eq!(join(&none, ", "), "");
    assert_eq!(join(&vec!["a".to_string()], ", "), "a");
    assert_eq!(join(&vec!["a".to_string(), "b".to_string(), "".to_string()], " | "), "a | b | ");
    let parts = vec!["x".to_string(), "yz".to_string(), "w".to_string()];
    assert_eq!(join(&parts, "\n\t"), parts.join("\n\t"));
}

#[test]
fn pad_right_fills_up_to_width() {
    assert_eq!(pad_right("ab".to_string(), 5), "ab   ");
    assert_eq!(pad_right("ab".to_string(), 2), "ab");
    assert_eq!(pad_right("abc".to_string(), 1), "abc");
    assert_eq!(pad_right(String::new(), 0), "");
    assert_eq!(pad_right(String::new(), 3), "   ");
    assert_eq!(pad_right("éé".to_string(), 4), format!("{:<4}", "éé"));
}

#[test]
fn chars_of_gives_characters_in_order() {
    assert_eq!(chars_of(""), Vec::<char>::new());
    assert_eq!(chars_of("a-é"), vec!['a', '-', 'é']);
}

#[test]
fn leading_dashes_counts_the_front_only() {
    assert_eq!(leading_dashes(&chars_of("")), 0);
    assert_eq!(leading_dashes(&chars_of("a--")), 0);
    assert_eq!(leading_dashes(&chars_of("-a-")), 1);
    assert_eq!(leading_dashes(&chars_of("---")), 3);
    assert_eq!(leading_dashes(&chars_of("--a-b")), 2);
}

#[test]
fn starts_with_dash_looks_at_first_character() {
    assert!(starts_with_dash("-"));
    assert!(starts_with_dash("-x"));
    assert!(!starts_with_dash(""));
    assert!(!starts_with_dash("x-"));
    assert!(!starts_with_dash("–x"));
}

#[test]
fn help_entry_shows_alias_name_and_description() {
    assert_eq!(
        show_help_entry(Some('f'), "path <PATH>".to_string(), "Directory", 17),
        format!("-f, --{:<17} Directory\n", "path <PATH>")
    );
    assert_eq!(show_help_entry(Some('f'), "path".to_string(), "Directory", 6), "-f, --path   Directory\n");
    assert_eq!(show_help_entry(None, "json".to_string(), "As JSON", 6), "    --json   As JSON\n");
}

#[test]
fn help_entry_does_not_cut_what_is_wider_than_the_column() {
    assert_eq!(show_help_entry(None, "verbose".to_string(), "", 3), "    --verbose \n");
    assert_eq!(show_help_entry(Some('é'), String::new(), "d", 0), "-é, -- d\n");
}
