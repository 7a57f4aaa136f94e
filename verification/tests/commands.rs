use discord_bot::commands::{classify, Command};

#[test]
fn ping_is_the_whole_message() {
    assert_eq!(classify("!ping"), Command::Ping);
    assert_eq!(classify("!ping now"), Command::Other);
    assert_eq!(classify(" !ping"), Command::Other);
}

#[test]
fn prefixed_commands() {
    assert_eq!(classify("!seen <@123>"), Command::LastSeen);
    assert_eq!(classify("!msgstats <@123>"), Command::MessageStats);
    assert_eq!(classify("!dict hello"), Command::Dictionary);
}

#[test]
fn prefix_needs_the_blank() {
    assert_eq!(classify("!seen"), Command::Other);
    assert_eq!(classify("!msgstats"), Command::Other);
    assert_eq!(classify("!dictionary"), Command::Other);
    assert_eq!(classify("hello there"), Command::Other);
    assert_eq!(classify(""), Command::Other);
}
