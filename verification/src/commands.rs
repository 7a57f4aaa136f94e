//! Recognition of the bot's chat commands.
use vstd::prelude::*;
use vstd::string::*;
use crate::text::{starts_with, text_equals, text_starts_with};

verus! {

/// The command that a chat message asks for.
#[derive(Debug, Clone, Copy, PartialEq, Eq, Structural)]
pub enum Command {
    /// `!ping`: answer with the time the message took to arrive.
    Ping,
    /// `!seen @user ...`: when the mentioned users were last seen typing.
    LastSeen,
    /// `!msgstats @user ...`: the stored message counts of the mentioned users.
    MessageStats,
    /// `!dict word`: the first dictionary definition of the word.
    Dictionary,
    /// Any other message.
    Other,
}

/// The whole text of a ping request.
pub open spec fn ping_text() -> Seq<char> {
    "!ping"@
}

/// The prefix of a last-seen request.
pub open spec fn seen_prefix() -> Seq<char> {
    "!seen "@
}

/// The prefix of a message statistics request.
pub open spec fn msgstats_prefix() -> Seq<char> {
    "!msgstats "@
}

/// The prefix of a dictionary request.
pub open spec fn dict_prefix() -> Seq<char> {
    "!dict "@
}

/// The command that the message text `text` asks for: the message is exactly `!ping`,
/// or starts with `!seen `, `!msgstats ` or `!dict `.
pub open spec fn command_of(text: Seq<char>) -> Command {
    if text == ping_text() {
        Command::Ping
    } else if starts_with(text, seen_prefix()) {
        Command::LastSeen
    } else if starts_with(text, msgstats_prefix()) {
        Command::MessageStats
    } else if starts_with(text, dict_prefix()) {
        Command::Dictionary
    } else {
        Command::Other
    }
}

/// No message asks for two commands: each test that the bot makes on a message
/// holds for at most one of the four commands, so the order of the tests does not matter.
pub proof fn lemma_commands_exclusive(text: Seq<char>)
    ensures
        text == ping_text() ==> !starts_with(text, seen_prefix()) && !starts_with(
            text,
            msgstats_prefix(),
        ) && !starts_with(text, dict_prefix()),
        starts_with(text, seen_prefix()) ==> !starts_with(text, msgstats_prefix())
            && !starts_with(text, dict_prefix()),
        starts_with(text, msgstats_prefix()) ==> !starts_with(text, dict_prefix()),
{
    reveal_strlit("!ping");
    reveal_strlit("!seen ");
    reveal_strlit("!msgstats ");
    reveal_strlit("!dict ");
    if starts_with(text, seen_prefix()) {
        assert(text[1] == seen_prefix()[1]);
    }
    if starts_with(text, msgstats_prefix()) {
        assert(text[1] == msgstats_prefix()[1]);
    }
    if starts_with(text, dict_prefix()) {
        assert(text[1] == dict_prefix()[1]);
    }
    if text == ping_text() {
        assert(text[1] == ping_text()[1]);
    }
}

/// The command that a message with the text `content` asks for.
pub fn classify(content: &str) -> (c: Command)
    ensures
        c == command_of(content@),
        c == Command::Ping <==> content@ == ping_text(),
        c == Command::LastSeen <==> starts_with(content@, seen_prefix()),
        c == Command::MessageStats <==> starts_with(content@, msgstats_prefix()),
        c == Command::Dictionary <==> starts_with(content@, dict_prefix()),
{
    proof {
        lemma_commands_exclusive(content@);
    }
    if text_equals(content, "!ping") {
        Command::Ping
    } else if text_starts_with(content, "!seen ") {
        Command::LastSeen
    } else if text_starts_with(content, "!msgstats ") {
        Command::MessageStats
    } else if text_starts_with(content, "!dict ") {
        Command::Dictionary
    } else {
        Command::Other
    }
}

} // verus!
