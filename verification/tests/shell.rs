use rustos::shell::{echo_action, parse_command, trim_line, EchoAction, ShellCommand};

#[test]
fn trim_strips_surrounding_whitespace_only() {
    assert_eq!(trim_line("  hi \n"), "hi");
    assert_eq!(trim_line("cat a b\n"), "cat a b");
    assert_eq!(trim_line("\r\n"), "");
    assert_eq!(trim_line(""), "");
    assert_eq!(trim_line("word"), "word");
}

#[test]
fn bare_commands_parse_exactly() {
    assert!(matches!(parse_command("help"), ShellCommand::Help));
    assert!(matches!(parse_command("exit"), ShellCommand::Exit));
    assert!(matches!(parse_command("shutdown"), ShellCommand::Shutdown));
    assert!(matches!(parse_command("ls"), ShellCommand::Ls));
    assert!(matches!(parse_command("pwd"), ShellCommand::Pwd));
}

#[test]
fn commands_with_arguments_keep_the_rest_of_the_line() {
    assert!(matches!(parse_command("touch notes.txt"), ShellCommand::Touch("notes.txt")));
    assert!(matches!(parse_command("cat a b"), ShellCommand::Cat("a b")));
    assert!(matches!(parse_command("mkdir docs"), ShellCommand::Mkdir("docs")));
    assert!(matches!(parse_command("cd .."), ShellCommand::Cd("..")));
    assert!(matches!(parse_command("echo hello"), ShellCommand::Echo("hello")));
}

#[test]
fn near_misses_are_unknown() {
    assert!(matches!(parse_command("helpp"), ShellCommand::Unknown));
    assert!(matches!(parse_command("touch"), ShellCommand::Unknown));
    assert!(matches!(parse_command("Touch x"), ShellCommand::Unknown));
    assert!(matches!(parse_command(""), ShellCommand::Unknown));
    assert!(matches!(parse_command("list"), ShellCommand::Unknown));
}

#[test]
fn echo_with_one_word_prints_it() {
    assert!(matches!(echo_action("hello"), EchoAction::Print("hello")));
    assert!(matches!(echo_action(""), EchoAction::Print("")));
}

#[test]
fn echo_with_two_words_is_a_usage_error() {
    assert!(matches!(echo_action("a b"), EchoAction::Usage));
}

#[test]
fn echo_with_more_words_writes_all_but_the_last_two_to_the_last() {
    match echo_action("one two three out") {
        EchoAction::WriteTo { file, data } => {
            assert_eq!(file, "out");
            assert_eq!(data, "one two");
        }
        other => panic!("expected a write, got {:?}", discriminant_name(&other)),
    }
    match echo_action("a b c") {
        EchoAction::WriteTo { file, data } => {
            assert_eq!(file, "c");
            assert_eq!(data, "a");
        }
        _ => panic!("expected a write"),
    }
}

fn discriminant_name(a: &EchoAction) -> &'static str {
    match a {
        EchoAction::Print(_) => "Print",
        EchoAction::WriteTo { .. } => "WriteTo",
        EchoAction::Usage => "Usage",
    }
}
