use token_queue::commands::Commands;

#[test]
fn parse_recognizes_each_command_word() {
    assert!(matches!(Commands::parse("list"), Some(Commands::List)));
    assert!(matches!(Commands::parse("get"), Some(Commands::Get)));
    assert!(matches!(Commands::parse("drop"), Some(Commands::Drop)));
    assert!(matches!(Commands::parse("afteryou"), Some(Commands::AfterYou)));
    assert!(matches!(Commands::parse("barge"), Some(Commands::Barge)));
    assert!(matches!(Commands::parse("steal"), Some(Commands::Steal)));
}

#[test]
fn parse_ignores_ascii_case() {
    assert!(matches!(Commands::parse("LIST"), Some(Commands::List)));
    assert!(matches!(Commands::parse("GeT"), Some(Commands::Get)));
    assert!(matches!(Commands::parse("AfterYou"), Some(Commands::AfterYou)));
    assert!(matches!(Commands::parse("sTeAl"), Some(Commands::Steal)));
}

#[test]
fn parse_rejects_anything_else() {
    assert!(Commands::parse("").is_none());
    assert!(Commands::parse("give").is_none());
    assert!(Commands::parse("get ").is_none());
    assert!(Commands::parse(" get").is_none());
    assert!(Commands::parse("getx").is_none());
}
