use token_queue::config::CommandConfig;
use token_queue::dispatch::{index, slack};
use token_queue::registry::Tokens;
use token_queue::slack::{ResponseType, SlashCommandData};

fn config() -> CommandConfig {
    CommandConfig { token: "secret".to_string() }
}

fn slash(team: &str, channel: &str, user_id: &str, user_name: &str, text: &str) -> SlashCommandData {
    SlashCommandData {
        token: "secret".to_string(),
        team_id: team.to_string(),
        team_domain: "example".to_string(),
        channel_id: channel.to_string(),
        channel_name: "general".to_string(),
        user_id: user_id.to_string(),
        user_name: user_name.to_string(),
        command: "/token".to_string(),
        text: text.to_string(),
        response_url: "https://example.invalid/respond".to_string(),
    }
}

#[test]
fn index_greets() {
    assert_eq!(index(), "Hello, World!");
}

#[test]
fn mismatched_secret_is_rejected() {
    let config = config();
    let tokens = Tokens::new();
    let mut bad = slash("T1", "C1", "U1", "alice", "get");
    bad.token = "wrong".to_string();
    assert!(matches!(slack(&config, &tokens, &bad), Err("token mismatch")));
}

#[test]
fn unrecognized_command_gets_help() {
    let config = config();
    let tokens = Tokens::new();
    let r = slack(&config, &tokens, &slash("T1", "C1", "U1", "alice", "frobnicate")).unwrap();
    assert_eq!(r.response_type(), ResponseType::Ephemeral);
    assert_eq!(r.text(), &None);
    assert_eq!(r.attachments().len(), 1);
    assert!(r.attachments()[0].text().contains("Token manager."));
}

#[test]
fn get_announces_and_lists_the_queue() {
    let config = config();
    let tokens = Tokens::new();
    let r = slack(&config, &tokens, &slash("T1", "C1", "U1", "alice", "get")).unwrap();
    assert_eq!(r.response_type(), ResponseType::InChannel);
    assert_eq!(r.text().as_deref(), Some("<@U1|alice> joined the queue"));
    assert_eq!(r.attachments().len(), 1);
    assert_eq!(r.attachments()[0].text().as_str(), ":large_blue_circle: <@U1|alice>\n");
}

#[test]
fn domain_errors_come_back_as_ephemeral_messages() {
    let config = config();
    let tokens = Tokens::new();
    let r = slack(&config, &tokens, &slash("T1", "C1", "U1", "alice", "drop")).unwrap();
    assert_eq!(r.response_type(), ResponseType::Ephemeral);
    assert_eq!(r.text().as_deref(), Some("You are not in the queue!"));
}

#[test]
fn the_queue_for_a_key_is_created_once_and_shared() {
    let config = config();
    let tokens = Tokens::new();
    slack(&config, &tokens, &slash("T1", "C1", "U1", "alice", "get")).unwrap();
    slack(&config, &tokens, &slash("T1", "C1", "U2", "bob", "get")).unwrap();
    let r = slack(&config, &tokens, &slash("T1", "C1", "U3", "carol", "list")).unwrap();
    assert_eq!(
        r.attachments()[0].text().as_str(),
        ":large_blue_circle: <@U1|alice>\n:large_blue_circle: <@U2|bob>\n"
    );
}

#[test]
fn channels_are_isolated_from_each_other() {
    let config = config();
    let tokens = Tokens::new();
    slack(&config, &tokens, &slash("T1", "C1", "U1", "alice", "get")).unwrap();

    let same_team = slack(&config, &tokens, &slash("T1", "C2", "U9", "zoe", "list")).unwrap();
    assert_eq!(same_team.text().as_deref(), Some("No one in the Token queue"));
    assert_eq!(same_team.attachments().len(), 0);

    let same_channel = slack(&config, &tokens, &slash("T2", "C1", "U9", "zoe", "list")).unwrap();
    assert_eq!(same_channel.text().as_deref(), Some("No one in the Token queue"));

    let first = slack(&config, &tokens, &slash("T1", "C1", "U9", "zoe", "list")).unwrap();
    assert_eq!(first.attachments()[0].text().as_str(), ":large_blue_circle: <@U1|alice>\n");
}

#[test]
fn a_full_session_over_the_dispatcher() {
    let config = config();
    let tokens = Tokens::new();
    for (id, name) in [("U1", "alice"), ("U2", "bob"), ("U3", "carol")] {
        slack(&config, &tokens, &slash("T1", "C1", id, name, "get")).unwrap();
    }
    let r = slack(&config, &tokens, &slash("T1", "C1", "U3", "carol", "steal")).unwrap();
    assert_eq!(r.text().as_deref(), Some("<@U3|carol> stole the token!"));
    assert_eq!(
        r.attachments()[0].text().as_str(),
        ":large_blue_circle: <@U3|carol>\n:large_blue_circle: <@U2|bob>\n"
    );
}
