use discord_bot::message_activity::{message_stats_reply, MessageActivityData};
use discord_bot::most_played_game::{played_game_records, ActivityInfo};

#[test]
fn test_fn() {
    #[allow(dead_code)]
    struct A;
    #[allow(dead_code)]
    struct B;
    trait C {
        fn get() -> Self;
    }
    impl C for A {
        fn get() -> Self {
            A
        }
    }
    impl C for B {
        fn get() -> Self {
            B
        }
    }
    let _v: Vec<Box<dyn Send>> = Vec::new();
}

#[test]
fn recording_counts_each_message_once() {
    let mut q = MessageActivityData::new();
    q.record_message(100, 1);
    q.record_message(100, 1);
    q.record_message(100, 2);
    q.record_message(101, 1);
    assert_eq!(q.len(), 2);
    assert_eq!(q.count_of(100, 1), 2);
    assert_eq!(q.count_of(100, 2), 1);
    assert_eq!(q.count_of(101, 1), 1);
    assert_eq!(q.count_of(101, 2), 0);
    assert_eq!(q.count_of(99, 1), 0);
}

#[test]
fn a_late_message_joins_its_own_second() {
    let mut q = MessageActivityData::new();
    q.record_message(100, 1);
    q.record_message(101, 1);
    q.record_message(100, 3);
    assert_eq!(q.len(), 2);
    assert_eq!(q.count_of(100, 3), 1);
}

#[test]
fn try_record_refuses_what_cannot_be_counted() {
    let mut q = MessageActivityData::new();
    assert!(!q.try_record_message(i64::MAX, 1));
    assert_eq!(q.len(), 0);
    for _ in 0..u16::MAX {
        assert!(q.try_record_message(5, 9));
    }
    assert_eq!(q.count_of(5, 9), u16::MAX);
    assert!(!q.try_record_message(5, 9));
    assert_eq!(q.count_of(5, 9), u16::MAX);
    assert!(q.try_record_message(5, 10));
}

#[test]
fn take_completed_keeps_only_the_newest_second() {
    let mut q = MessageActivityData::new();
    assert!(q.take_completed().is_empty());
    q.record_message(10, 1);
    assert!(q.take_completed().is_empty());
    assert_eq!(q.len(), 1);
    q.record_message(11, 2);
    q.record_message(12, 3);
    q.record_message(11, 2);
    let done = q.take_completed();
    assert_eq!(done.len(), 2);
    assert_eq!(done[0].timestamp, 10);
    assert_eq!(done[0].counts.get(&1), Some(&1));
    assert_eq!(done[1].timestamp, 11);
    assert_eq!(done[1].counts.get(&2), Some(&2));
    assert_eq!(q.len(), 1);
    assert_eq!(q.count_of(12, 3), 1);
    assert_eq!(q.count_of(10, 1), 0);
}

#[test]
fn stats_reply_has_one_line_per_row() {
    let rows = vec![
        ("2023-11-14 22:13:20 UTC".to_string(), 3),
        ("2023-11-14 22:13:21 UTC".to_string(), -1),
    ];
    assert_eq!(
        message_stats_reply(&rows),
        "time: 2023-11-14 22:13:20 UTC, count: 3\ntime: 2023-11-14 22:13:21 UTC, count: -1\n"
    );
    assert_eq!(message_stats_reply(&vec![]), "");
}

fn activity(playing: bool, name: &str, start: Option<Option<u64>>) -> ActivityInfo {
    ActivityInfo { playing, name: name.to_string(), start }
}

#[test]
fn played_games_of_a_bot_are_skipped() {
    let acts = vec![activity(true, "Chess", None)];
    assert!(played_game_records(7, true, &acts).is_empty());
}

#[test]
fn played_games_are_the_playing_activities() {
    let acts = vec![
        activity(true, "Chess", Some(Some(1_700_000_000))),
        activity(false, "Spotify", Some(Some(5))),
        activity(true, "Go", Some(None)),
        activity(true, "Tetris", None),
        activity(true, "Far", Some(Some(u64::MAX / 2))),
    ];
    let records = played_game_records(7, false, &acts);
    assert_eq!(records.len(), 4);
    assert_eq!(records[0].user_id, 7);
    assert_eq!(records[0].game_name, "Chess");
    assert_eq!(records[0].launched_at, Some(1_700_000_000));
    assert_eq!(records[1].game_name, "Go");
    assert_eq!(records[1].launched_at, Some(0));
    assert_eq!(records[2].game_name, "Tetris");
    assert_eq!(records[2].launched_at, None);
    assert_eq!(records[3].game_name, "Far");
    assert_eq!(records[3].launched_at, None);
}

#[test]
fn two_messages_in_one_second_share_a_frame() {
    let mut q = MessageActivityData::new();
    assert!(q.try_record_message(1_700_000_000, 42));
    assert!(q.try_record_message(1_700_000_000, 42));
    assert_eq!(q.len(), 1);
    assert_eq!(q.count_of(1_700_000_000, 42), 2);
}
