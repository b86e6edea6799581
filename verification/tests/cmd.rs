use giss::cmd::{cmd_has, cmd_read, invalid_arg_text, Command, EXPECTED_OPTS, HELP_TEXT, NO_ARG_TEXT};

fn args(words: &[&str]) -> Vec<String> {
    words.iter().map(|w| String::from(*w)).collect()
}

#[test]
fn commands_are_named_by_their_words() {
    assert!(matches!(Command::from("list"), Some(Command::List)));
    assert!(matches!(Command::from("ls"), Some(Command::List)));
    assert!(matches!(Command::from("add"), Some(Command::Add)));
    assert!(matches!(Command::from("help"), Some(Command::Help)));
}

#[test]
fn any_other_word_is_an_invalid_command() {
    match Command::from("remove") {
        Some(Command::Invalid(word)) => assert_eq!(word, "remove"),
        other => panic!("unexpected {:?}", other),
    }
    match Command::from("") {
        Some(Command::Invalid(word)) => assert_eq!(word, ""),
        other => panic!("unexpected {:?}", other),
    }
    assert!(matches!(Command::from("List"), Some(Command::Invalid(_))));
}

#[test]
fn the_command_stands_behind_the_name_of_the_program() {
    assert!(matches!(Command::parse(&args(&["giss", "add", "list"])), Some(Command::Add)));
    assert!(matches!(Command::parse(&args(&["giss", "x"])), Some(Command::Invalid(_))));
    assert!(Command::parse(&args(&["giss"])).is_none());
    assert!(Command::parse(&args(&[])).is_none());
}

#[test]
fn cmd_has_looks_for_the_whole_argument() {
    let given = args(&["giss", "list", "--all"]);
    assert!(cmd_has(&given, "--all"));
    assert!(cmd_has(&given, "giss"));
    assert!(!cmd_has(&given, "--al"));
    assert!(!cmd_has(&given, "--mine"));
    assert!(!cmd_has(&args(&[]), "--all"));
}

#[test]
fn cmd_read_gives_the_argument_behind_the_key() {
    let given = args(&["giss", "list", "--token=x", "secret", "--repo", "acme/widgets"]);
    assert_eq!(cmd_read(&given, "--repo"), Some(String::from("acme/widgets")));
    assert_eq!(cmd_read(&given, "--token"), Some(String::from("secret")));
    assert_eq!(cmd_read(&given, "list"), Some(String::from("--token=x")));
    assert_eq!(cmd_read(&given, "acme"), None);
    assert_eq!(cmd_read(&given, "--user"), None);
    assert_eq!(cmd_read(&given, ""), Some(String::from("list")));
    assert_eq!(cmd_read(&args(&[]), "--repo"), None);
}

#[test]
fn what_is_printed() {
    assert_eq!(HELP_TEXT, "Help text here");
    assert_eq!(NO_ARG_TEXT, "Expected an argument");
    assert_eq!(EXPECTED_OPTS, "list, add, help");
    assert_eq!(
        invalid_arg_text("remove"),
        "Invalid command 'remove', expected one of: list, add, help"
    );
}
