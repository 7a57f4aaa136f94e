use chrono::{NaiveTime, Timelike};
use discord_bot::dictionary::{
    dictionary_query, dictionary_query_url, dictionary_reply, dictionary_url, first_definition, Definition, Meaning, QueryResponse,
};
use discord_bot::last_seen::{last_seen_reply, typing_event_time};
use discord_bot::ping::{ping_elapsed_micros, pong_reply};
use discord_bot::timestamps::{
    representable_seconds, FIRST_REPRESENTABLE_SECOND, LAST_REPRESENTABLE_SECOND,
};

fn definition(text: &str) -> Definition {
    Definition {
        definition: text.to_string(),
        example: None,
        synonyms: vec![],
        antonyms: vec![],
    }
}

fn hello_response() -> Vec<QueryResponse> {
    vec![QueryResponse {
        word: "hello".to_string(),
        meanings: vec![
            Meaning {
                part_of_speech: "noun".to_string(),
                definitions: vec![
                    definition("\"Hello!\" or an equivalent greeting."),
                    definition("A second sense."),
                ],
            },
            Meaning {
                part_of_speech: "verb".to_string(),
                definitions: vec![definition("To greet with \"hello\".")],
            },
        ],
    }]
}

#[test]
fn pong_reply_groups_the_microseconds() {
    assert_eq!(pong_reply(1234567), "Pong! Took 1,234,567us");
    assert_eq!(pong_reply(999), "Pong! Took 999us");
    assert_eq!(pong_reply(0), "Pong! Took 0us");
    assert_eq!(pong_reply(-1500), "Pong! Took 1,500us");
}

#[test]
fn last_seen_reply_is_a_discord_time_tag() {
    assert_eq!(last_seen_reply(1700000000), "last seen: <t:1700000000:f>");
    assert_eq!(last_seen_reply(-5), "last seen: <t:-5:f>");
}

#[test]
fn typing_event_time_checks_the_range() {
    assert_eq!(typing_event_time(1700000000), Some(1700000000));
    assert_eq!(typing_event_time(0), Some(0));
    assert_eq!(typing_event_time(u64::MAX), Some(-1));
    assert_eq!(typing_event_time(9_000_000_000_000_000_000), None);
}

#[test]
fn representable_seconds_follows_chrono() {
    assert_eq!(representable_seconds(86_400), Some(86_400));
    assert_eq!(representable_seconds(i64::MAX), None);
    assert_eq!(representable_seconds(i64::MIN), None);
}

#[test]
fn dictionary_url_keeps_the_blank_after_the_command() {
    assert_eq!(
        dictionary_url("!dict hello"),
        "https://api.dictionaryapi.dev/api/v2/entries/en/ hello"
    );
    assert_eq!(dictionary_url("!dict "), "https://api.dictionaryapi.dev/api/v2/entries/en/ ");
}

#[test]
fn first_definition_takes_the_first_of_each() {
    assert_eq!(first_definition(hello_response()), "\"Hello!\" or an equivalent greeting.");
}

#[test]
fn dictionary_reply_on_success_and_error() {
    assert_eq!(
        dictionary_reply(Ok(hello_response())),
        "\"Hello!\" or an equivalent greeting."
    );
    assert_eq!(
        dictionary_reply(Err("reqwest::Error { kind: Request }".to_string())),
        "reqwest::Error { kind: Request }"
    );
}

#[test]
fn representable_seconds_ends_where_chrono_ends() {
    assert_eq!(representable_seconds(FIRST_REPRESENTABLE_SECOND), Some(FIRST_REPRESENTABLE_SECOND));
    assert_eq!(representable_seconds(FIRST_REPRESENTABLE_SECOND - 1), None);
    assert_eq!(representable_seconds(LAST_REPRESENTABLE_SECOND), Some(LAST_REPRESENTABLE_SECOND));
    assert_eq!(representable_seconds(LAST_REPRESENTABLE_SECOND + 1), None);
    #[allow(deprecated)]
    let first = chrono::NaiveDateTime::from_timestamp_opt(FIRST_REPRESENTABLE_SECOND, 0).unwrap();
    assert_eq!(first.to_string(), "-262143-01-01 00:00:00");
    #[allow(deprecated)]
    let last = chrono::NaiveDateTime::from_timestamp_opt(LAST_REPRESENTABLE_SECOND, 0).unwrap();
    assert_eq!(last.to_string(), "+262142-12-31 23:59:59");
}

#[test]
fn ping_elapsed_micros_rounds_toward_zero() {
    assert_eq!(ping_elapsed_micros(5, 999, 1, 0), 4_000_000);
    assert_eq!(ping_elapsed_micros(1, 0, 5, 999), -4_000_000);
    assert_eq!(ping_elapsed_micros(1, 1_999, 1, 0), 1);
    assert_eq!(ping_elapsed_micros(1, 0, 1, 1_999), -1);
    assert_eq!(ping_elapsed_micros(0, 0, 0, 0), 0);
    assert_eq!(ping_elapsed_micros(86_399, 999_999_999, 0, 0), 86_399_999_999);
}

#[test]
fn ping_elapsed_micros_counts_a_leap_second_between() {
    // Both within second 59; the message's fraction lies in the leap second after it.
    assert_eq!(ping_elapsed_micros(59, 500_000_000, 59, 1_000_000_000), -500_000);
    // Sent during the leap second after 00:00:59, answered at 00:01:01.
    assert_eq!(ping_elapsed_micros(61, 0, 59, 1_500_000_000), 1_500_000);
    // Sent during the leap second after 00:00:59; the other time is two seconds earlier.
    assert_eq!(ping_elapsed_micros(57, 0, 59, 1_250_000_000), -3_250_000);
}

#[test]
fn ping_elapsed_micros_agrees_with_chrono() {
    let pairs = [
        ((43_201, 250_700_000), (43_200, 100_000_100)),
        ((0, 5), (86_399, 999_999_999)),
        ((30_600, 0), (30_600, 999)),
        ((120, 3), (119, 1_400_000_000)),
        ((59, 1_999_999_999), (60, 0)),
    ];
    for ((s1, n1), (s2, n2)) in pairs {
        let now = NaiveTime::from_num_seconds_from_midnight_opt(s1, n1).unwrap();
        let sent = NaiveTime::from_num_seconds_from_midnight_opt(s2, n2).unwrap();
        assert_eq!(now.num_seconds_from_midnight(), s1);
        assert_eq!(sent.nanosecond(), n2);
        assert_eq!(ping_elapsed_micros(s1, n1, s2, n2), (now - sent).num_microseconds().unwrap());
    }
}

#[test]
fn dictionary_query_url_takes_any_query() {
    assert_eq!(
        dictionary_query_url("hello"),
        "https://api.dictionaryapi.dev/api/v2/entries/en/hello"
    );
    assert_eq!(dictionary_query_url(""), "https://api.dictionaryapi.dev/api/v2/entries/en/");
    assert_eq!(dictionary_query("!dict word"), " word");
}
