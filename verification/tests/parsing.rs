use argparser::{Arg, ArgError, ArgMap, ArgParser};

fn words(items: &[&str]) -> Vec<String> {
    items.iter().map(|w| w.to_string()).collect()
}

fn sample_parser() -> ArgParser {
    ArgParser::new("/usr/bin/dupes", "Find duplicate files.")
        .arg(Arg::boolean("verbose", Some('V'), "verbose execution"))
        .arg(Arg::boolean("json", None, "Format output as JSON"))
        .arg(Arg::string("path", Some('f'), false, "Directory to examine"))
        .arg(Arg::integer("count", Some('c'), false, "How many"))
        .arg(Arg::float("ratio", Some('r'), false, "How much"))
}

fn parse(items: &[&str]) -> Result<ArgMap, ArgError> {
    sample_parser().parse(&words(items))
}

fn raw(map: &ArgMap, name: &str) -> Option<String> {
    map.get_raw(name).cloned()
}

#[test]
fn empty_command_line_gives_empty_map() {
    let map = parse(&[]).unwrap();
    assert_eq!(map.len(), 0);
    assert!(!map.has_arg("verbose"));
    assert_eq!(map.get_raw("path"), None);
}

#[test]
fn flag_by_name_is_true() {
    let map = parse(&["--verbose"]).unwrap();
    assert_eq!(raw(&map, "verbose"), Some("true".to_string()));
    assert!(map.has_arg("verbose"));
    assert_eq!(map.len(), 1);
}

#[test]
fn flag_by_alias_is_true() {
    let map = parse(&["-V"]).unwrap();
    assert_eq!(raw(&map, "verbose"), Some("true".to_string()));
    assert!(!map.has_arg("V"));
}

#[test]
fn flag_that_is_absent_is_not_in_the_map() {
    let map = parse(&["--json"]).unwrap();
    assert!(!map.has_arg("verbose"));
    assert!(map.has_arg("json"));
}

#[test]
fn flag_takes_no_value() {
    assert_eq!(parse(&["--verbose", "yes"]).err(), Some(ArgError::UnexpectedPositional("yes".to_string())));
}

#[test]
fn string_value_is_stored_as_written() {
    let map = parse(&["--path", "/tmp/some dir"]).unwrap();
    assert_eq!(raw(&map, "path"), Some("/tmp/some dir".to_string()));
}

#[test]
fn integer_value_is_stored_as_written() {
    let map = parse(&["--count", "+007"]).unwrap();
    assert_eq!(raw(&map, "count"), Some("+007".to_string()));
    assert_eq!(map.get::<i32>("count"), Ok(7));
}

#[test]
fn negative_integer_is_a_value() {
    let map = parse(&["-c", "-5"]).unwrap();
    assert_eq!(map.get::<i32>("count"), Ok(-5));
}

#[test]
fn float_value_is_stored_as_written() {
    let map = parse(&["--ratio", "1.5e3"]).unwrap();
    assert_eq!(raw(&map, "ratio"), Some("1.5e3".to_string()));
    assert_eq!(map.get_raw("ratio").unwrap().parse::<f32>(), Ok(1500.0));
}

#[test]
fn negative_float_is_a_value() {
    let map = parse(&["-r", "-.5"]).unwrap();
    assert_eq!(raw(&map, "ratio"), Some("-.5".to_string()));
}

#[test]
fn empty_string_is_a_value() {
    let map = parse(&["--path", ""]).unwrap();
    assert_eq!(raw(&map, "path"), Some(String::new()));
}

#[test]
fn malformed_integer_is_refused() {
    assert_eq!(
        parse(&["--count", "12x"]).err(),
        Some(ArgError::TypeConversionFailure { value: "12x".to_string(), target: "integer".to_string() })
    );
}

#[test]
fn integer_out_of_range_is_refused() {
    assert_eq!(
        parse(&["--count", "2147483648"]).err(),
        Some(ArgError::TypeConversionFailure {
            value: "2147483648".to_string(),
            target: "integer".to_string()
        })
    );
    assert!(parse(&["--count", "2147483647"]).is_ok());
    assert!(parse(&["--count", "-2147483648"]).is_ok());
}

#[test]
fn malformed_float_is_refused() {
    assert_eq!(
        parse(&["--ratio", "1.5.2"]).err(),
        Some(ArgError::TypeConversionFailure {
            value: "1.5.2".to_string(),
            target: "floating point number".to_string()
        })
    );
}

#[test]
fn nothing_is_stored_before_a_refusal_is_returned() {
    // The outcome is the refusal alone: no map comes back.
    assert!(parse(&["--verbose", "--count", "x"]).is_err());
}

#[test]
fn missing_value_names_the_option_as_written() {
    assert_eq!(parse(&["--path"]).err(), Some(ArgError::MissingValue("path".to_string())));
    assert_eq!(parse(&["-f"]).err(), Some(ArgError::MissingValue("f".to_string())));
    assert_eq!(parse(&["-V", "-c"]).err(), Some(ArgError::MissingValue("c".to_string())));
    assert_eq!(parse(&["--ratio"]).err(), Some(ArgError::MissingValue("ratio".to_string())));
}

#[test]
fn string_value_must_not_look_like_an_option() {
    assert_eq!(
        parse(&["--path", "--verbose"]).err(),
        Some(ArgError::UnexpectedValueShape { option: "path".to_string(), value: "--verbose".to_string() })
    );
    assert_eq!(
        parse(&["-f", "-"]).err(),
        Some(ArgError::UnexpectedValueShape { option: "f".to_string(), value: "-".to_string() })
    );
}

#[test]
fn unknown_option_is_refused() {
    assert_eq!(parse(&["--bogus"]).err(), Some(ArgError::UnknownArgument("--bogus".to_string())));
    assert_eq!(parse(&["-x"]).err(), Some(ArgError::UnknownArgument("-x".to_string())));
}

#[test]
fn dashes_alone_are_an_unknown_option() {
    assert_eq!(parse(&["-"]).err(), Some(ArgError::UnknownArgument("-".to_string())));
    assert_eq!(parse(&["--"]).err(), Some(ArgError::UnknownArgument("--".to_string())));
}

#[test]
fn bare_token_is_refused() {
    assert_eq!(parse(&["file.txt"]).err(), Some(ArgError::UnexpectedPositional("file.txt".to_string())));
    assert_eq!(parse(&[""]).err(), Some(ArgError::UnexpectedPositional(String::new())));
}

#[test]
fn any_number_of_dashes_is_stripped() {
    let map = parse(&["-verbose", "---path", "x", "--c", "3"]).unwrap();
    assert!(map.has_arg("verbose"));
    assert_eq!(raw(&map, "path"), Some("x".to_string()));
    assert_eq!(raw(&map, "count"), Some("3".to_string()));
    assert_eq!(map.len(), 3);
}

#[test]
fn alias_answers_only_to_a_single_character() {
    assert_eq!(parse(&["-VV"]).err(), Some(ArgError::UnknownArgument("-VV".to_string())));
    assert_eq!(parse(&["-v"]).err(), Some(ArgError::UnknownArgument("-v".to_string())));
}

#[test]
fn alias_may_be_any_character() {
    let parser = ArgParser::new("p", "").arg(Arg::boolean("ete", Some('é'), "summer"));
    let map = parser.parse(&words(&["-é"])).unwrap();
    assert!(map.has_arg("ete"));
}

#[test]
fn name_of_one_character_answers_too() {
    let parser = ArgParser::new("p", "")
        .arg(Arg::boolean("x", None, "by name"))
        .arg(Arg::boolean("other", Some('x'), "by alias"));
    let map = parser.parse(&words(&["-x"])).unwrap();
    assert!(map.has_arg("x"));
    assert!(!map.has_arg("other"));
}

#[test]
fn first_registered_argument_answers() {
    let parser = ArgParser::new("p", "")
        .arg(Arg::boolean("other", Some('x'), "by alias"))
        .arg(Arg::boolean("x", None, "by name"));
    let map = parser.parse(&words(&["-x"])).unwrap();
    assert!(map.has_arg("other"));
    assert!(!map.has_arg("x"));
}

#[test]
fn later_value_replaces_earlier_one() {
    let map = parse(&["--count", "1", "-c", "2"]).unwrap();
    assert_eq!(raw(&map, "count"), Some("2".to_string()));
    assert_eq!(map.len(), 1);
}

#[test]
fn help_is_requested_by_name_and_alias() {
    assert_eq!(parse(&["--help"]).err(), Some(ArgError::HelpRequested));
    assert_eq!(parse(&["-h"]).err(), Some(ArgError::HelpRequested));
}

#[test]
fn help_wins_over_what_follows() {
    assert_eq!(parse(&["--verbose", "-h", "--bogus"]).err(), Some(ArgError::HelpRequested));
}

#[test]
fn help_wins_over_missing_required_argument() {
    let parser = ArgParser::new("p", "").arg(Arg::string("path", None, true, "where"));
    assert_eq!(parser.parse(&words(&["--help"])).err(), Some(ArgError::HelpRequested));
}

#[test]
fn help_does_not_undo_an_earlier_refusal() {
    assert_eq!(parse(&["--bogus", "--help"]).err(), Some(ArgError::UnknownArgument("--bogus".to_string())));
}

#[test]
fn help_in_the_place_of_a_value_is_a_value() {
    assert_eq!(
        parse(&["--path", "--help"]).err(),
        Some(ArgError::UnexpectedValueShape { option: "path".to_string(), value: "--help".to_string() })
    );
    assert_eq!(
        parse(&["--count", "-h"]).err(),
        Some(ArgError::TypeConversionFailure { value: "-h".to_string(), target: "integer".to_string() })
    );
}

#[test]
fn help_needs_its_exact_spelling() {
    assert_eq!(parse(&["---help"]).err(), Some(ArgError::UnknownArgument("---help".to_string())));
    assert_eq!(parse(&["-help"]).err(), Some(ArgError::UnknownArgument("-help".to_string())));
    assert_eq!(parse(&["--h"]).err(), Some(ArgError::UnknownArgument("--h".to_string())));
}

#[test]
fn first_refusal_is_returned() {
    assert_eq!(
        parse(&["--count", "x", "--bogus", "stray"]).err(),
        Some(ArgError::TypeConversionFailure { value: "x".to_string(), target: "integer".to_string() })
    );
    assert_eq!(parse(&["stray", "--count", "x"]).err(), Some(ArgError::UnexpectedPositional("stray".to_string())));
}

#[test]
fn value_that_names_an_option_is_not_read_as_one() {
    // "-5" is the value of count, not the flag "5".
    let parser = ArgParser::new("p", "")
        .arg(Arg::integer("count", None, false, ""))
        .arg(Arg::boolean("5", None, ""));
    let map = parser.parse(&words(&["--count", "-5"])).unwrap();
    assert_eq!(raw(&map, "count"), Some("-5".to_string()));
    assert!(!map.has_arg("5"));
}

#[test]
fn required_argument_that_is_missing_is_named() {
    let parser = ArgParser::new("p", "").arg(Arg::string("path", None, true, "where"));
    let error = parser.parse(&words(&[])).unwrap_err();
    assert_eq!(error, ArgError::MissingRequired("path".to_string()));
    assert!(error.message().contains("path"));
    assert_eq!(error.message(), "Missing required argument: `path`");
    assert_ne!(error.exit_code(), 0);
}

#[test]
fn first_missing_required_argument_is_named() {
    let parser = ArgParser::new("p", "")
        .arg(Arg::string("a", None, true, ""))
        .arg(Arg::integer("b", None, true, ""))
        .arg(Arg::float("c", None, true, ""));
    assert_eq!(
        parser.parse(&words(&["--a", "x", "--c", "1"])).err(),
        Some(ArgError::MissingRequired("b".to_string()))
    );
}

#[test]
fn required_arguments_given_in_any_order_succeed() {
    let parser = ArgParser::new("p", "")
        .arg(Arg::string("a", None, true, ""))
        .arg(Arg::integer("b", None, true, ""));
    let map = parser.parse(&words(&["--b", "2", "--a", "x"])).unwrap();
    assert_eq!(map.len(), 2);
}

#[test]
fn required_argument_given_by_alias_counts() {
    let parser = ArgParser::new("p", "").arg(Arg::string("path", Some('f'), true, "where"));
    assert!(parser.parse(&words(&["-f", "x"])).is_ok());
}

#[test]
fn end_to_end_flag_and_required_string() {
    let parser = ArgParser::new("prog", "test")
        .arg(Arg::boolean("verbose", Some('V'), "verbose execution"))
        .arg(Arg::string("path", Some('f'), true, "Directory to examine"));
    let map = parser.parse(&words(&["-f", "/tmp", "-V"])).unwrap();
    assert_eq!(raw(&map, "path"), Some("/tmp".to_string()));
    assert_eq!(raw(&map, "verbose"), Some("true".to_string()));
    assert_eq!(map.len(), 2);
}

#[test]
fn end_to_end_failure_mentions_the_argument() {
    let parser = ArgParser::new("prog", "test").arg(Arg::string("path", None, true, "where"));
    let error = parser.parse(&words(&[])).unwrap_err();
    assert!(error.message().contains("path"));
    assert_eq!(error.exit_code(), 1);
}

#[test]
fn round_trip_integer_by_alias() {
    let parser = ArgParser::new("prog", "test").arg(Arg::integer("count", Some('c'), false, "desc"));
    let map = parser.parse(&words(&["-c", "5"])).unwrap();
    assert_eq!(map.get::<i32>("count"), Ok(5));
}

#[test]
fn argument_named_help_is_not_registered() {
    let parser = ArgParser::new("p", "")
        .arg(Arg::boolean("verbose", Some('V'), ""))
        .arg(Arg::string("help", Some('x'), true, "mine"));
    assert_eq!(parser.args().len(), 1);
    assert_eq!(parser.args()[0], Arg::boolean("verbose", Some('V'), ""));
    assert!(parser.parse(&words(&[])).is_ok());
}

#[test]
fn argument_with_alias_h_is_not_registered() {
    let parser = ArgParser::new("p", "")
        .arg(Arg::string("host", Some('h'), true, "mine"))
        .arg(Arg::boolean("verbose", Some('V'), ""));
    assert_eq!(parser.args().len(), 1);
    assert_eq!(parser.args()[0].name(), "verbose");
    assert_eq!(parser.parse(&words(&["--host", "x"])).err(), Some(ArgError::UnknownArgument("--host".to_string())));
}

#[test]
fn dropped_registration_leaves_usage_and_help_alone() {
    let plain = ArgParser::new("p", "d").arg(Arg::boolean("verbose", Some('V'), "v"));
    let tried = ArgParser::new("p", "d")
        .arg(Arg::integer("help", None, true, "x"))
        .arg(Arg::boolean("verbose", Some('V'), "v"))
        .arg(Arg::float("height", Some('h'), true, "y"));
    assert_eq!(plain.usage(), tried.usage());
    assert_eq!(plain.help(), tried.help());
    assert_eq!(plain.args(), tried.args());
}

#[test]
fn argument_named_h_is_registered() {
    let parser = ArgParser::new("p", "").arg(Arg::boolean("h", None, ""));
    assert_eq!(parser.args().len(), 1);
    // "-h" still asks for help.
    assert_eq!(parser.parse(&words(&["-h"])).err(), Some(ArgError::HelpRequested));
}

#[test]
fn new_parser_is_empty() {
    let parser = ArgParser::new("/opt/tools/prog", "what it does");
    assert_eq!(parser.executable(), "prog");
    assert_eq!(parser.description(), "what it does");
    assert!(parser.args().is_empty());
    assert!(parser.groups().is_empty());
}

#[test]
fn program_name_loses_its_directory() {
    assert_eq!(ArgParser::new("C:\\tools\\prog.exe", "").executable(), "prog.exe");
    assert_eq!(ArgParser::new("./a/b\\c/prog", "").executable(), "prog");
    assert_eq!(ArgParser::new("prog", "").executable(), "prog");
    assert_eq!(ArgParser::new("dir/", "").executable(), "");
    assert_eq!(ArgParser::new("", "").executable(), "");
}

#[test]
fn registration_keeps_order() {
    let parser = sample_parser();
    let names: Vec<&str> = parser.args().iter().map(|a| a.name().as_str()).collect();
    assert_eq!(names, vec!["verbose", "json", "path", "count", "ratio"]);
}

#[test]
fn exit_code_is_zero_for_help_only() {
    assert_eq!(ArgError::HelpRequested.exit_code(), 0);
    assert_eq!(ArgError::UnknownArgument("x".to_string()).exit_code(), 1);
    assert_eq!(ArgError::UnexpectedPositional("x".to_string()).exit_code(), 1);
    assert_eq!(ArgError::MissingValue("x".to_string()).exit_code(), 1);
    assert_eq!(ArgError::MissingRequired("x".to_string()).exit_code(), 1);
    assert_eq!(ArgError::LookupFailure("x".to_string()).exit_code(), 1);
    assert_eq!(
        ArgError::TypeConversionFailure { value: "x".to_string(), target: "integer".to_string() }.exit_code(),
        1
    );
    assert_eq!(
        ArgError::UnexpectedValueShape { option: "o".to_string(), value: "-x".to_string() }.exit_code(),
        1
    );
}
