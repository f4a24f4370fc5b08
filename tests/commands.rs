use pro_chat::commands::{is_theme, parse_command, Command};

#[test]
fn commands_split_at_the_first_space() {
    let c = parse_command("/model  gpt-4o");
    assert_eq!(c.command, Command::Model);
    assert_eq!(c.name, "/model");
    assert_eq!(c.argument.as_deref(), Some(" gpt-4o"));
    let c = parse_command("/system be brief please");
    assert_eq!(c.command, Command::System);
    assert_eq!(c.argument.as_deref(), Some("be brief please"));
    let c = parse_command("/tools");
    assert_eq!(c.command, Command::Tools);
    assert_eq!(c.argument, None);
}

#[test]
fn aliases_and_unknown_commands() {
    assert_eq!(parse_command("/q").command, Command::Quit);
    assert_eq!(parse_command("/!").command, Command::Run);
    assert_eq!(parse_command("/ctx").command, Command::Context);
    assert_eq!(parse_command("/r").command, Command::Resume);
    let c = parse_command("/bogus x");
    assert_eq!(c.command, Command::Unknown);
    assert_eq!(c.name, "/bogus");
}

#[test]
fn themes_are_known_by_name() {
    assert!(is_theme("gruvbox"));
    assert!(is_theme("tokyo-night"));
    assert!(!is_theme("solarized"));
}
