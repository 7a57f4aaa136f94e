//! Which activities in a presence update are recorded as played games.
use vstd::prelude::*;
use crate::timestamps::{
    chrono_represents_unix_seconds, representable_seconds, FIRST_REPRESENTABLE_SECOND,
    LAST_REPRESENTABLE_SECOND,
};

verus! {

/// What the bot reads of one activity in a user's presence.
#[derive(Debug)]
pub struct ActivityInfo {
    /// The activity is of the kind "Playing".
    pub playing: bool,
    /// The activity's name, for a game the game's title.
    pub name: String,
    /// The activity's timestamps, when it has them: their start, when it has one.
    pub start: Option<Option<u64>>,
}

/// A game that a user was seen playing.
#[derive(Debug)]
pub struct PlayedGameRecord {
    pub user_id: u64,
    pub game_name: String,
    /// When the game was launched, in UNIX seconds, when known.
    pub launched_at: Option<i64>,
}

impl View for PlayedGameRecord {
    type V = (u64, Seq<char>, Option<i64>);

    open spec fn view(&self) -> (u64, Seq<char>, Option<i64>) {
        (self.user_id, self.game_name@, self.launched_at)
    }
}

/// The launch time recorded for an activity with the timestamps `start`: none without
/// timestamps; otherwise their start (0 when absent) read as an `i64`, when chrono can
/// represent it.
pub open spec fn launch_time(start: Option<Option<u64>>) -> Option<i64> {
    match start {
        None => None,
        Some(inner) => {
            let secs = (match inner {
                Some(s) => s,
                None => 0u64,
            }) as i64;
            if chrono_represents_unix_seconds(secs) {
                Some(secs)
            } else {
                None
            }
        },
    }
}

/// The records for the activities `activities` of the user `user_id`: one per
/// activity of the kind "Playing", in order.
pub open spec fn played_games(user_id: u64, activities: Seq<ActivityInfo>) -> Seq<
    (u64, Seq<char>, Option<i64>),
>
    decreases activities.len(),
{
    if activities.len() == 0 {
        seq![]
    } else {
        let last = activities.last();
        let earlier = played_games(user_id, activities.drop_last());
        if last.playing {
            earlier.push((user_id, last.name@, launch_time(last.start)))
        } else {
            earlier
        }
    }
}

/// The launch time of an activity: none without timestamps; with timestamps, their
/// start (0 when they have none) read as an `i64` whenever chrono can represent that
/// many UNIX seconds, with no other bound on the start.
pub proof fn lemma_launch_time(start: Option<Option<u64>>)
    ensures
        start == None::<Option<u64>> ==> launch_time(start) == None::<i64>,
        start == Some(None::<u64>) ==> launch_time(start) == Some(0i64),
        forall|s: u64|
            start == Some(Some(s)) ==> launch_time(start) == if FIRST_REPRESENTABLE_SECOND <= s as i64
                <= LAST_REPRESENTABLE_SECOND {
                Some(s as i64)
            } else {
                None::<i64>
            },
{
}

/// The records of a presence update are the "Playing" activities, in order, each
/// with its full name, unchanged, and its launch time: the k-th record belongs to the
/// k-th playing activity.
pub proof fn lemma_played_games_are_the_playing_activities(
    user_id: u64,
    activities: Seq<ActivityInfo>,
)
    ensures
        played_games(user_id, activities) == activities.filter(|a: ActivityInfo| a.playing).map_values(
            |a: ActivityInfo| (user_id, a.name@, launch_time(a.start)),
        ),
    decreases activities.len(),
{
    reveal_with_fuel(Seq::filter, 1);
    let pred = |a: ActivityInfo| a.playing;
    let f = |a: ActivityInfo| (user_id, a.name@, launch_time(a.start));
    if activities.len() > 0 {
        lemma_played_games_are_the_playing_activities(user_id, activities.drop_last());
        let earlier = activities.drop_last().filter(pred);
        if activities.last().playing {
            assert(activities.filter(pred) == earlier.push(activities.last()));
            assert(earlier.push(activities.last()).map_values(f) =~= earlier.map_values(f).push(
                f(activities.last()),
            ));
        } else {
            assert(activities.filter(pred) == earlier);
        }
    } else {
        assert(activities.filter(pred).map_values(f) =~= Seq::<(u64, Seq<char>, Option<i64>)>::empty());
    }
}

/// The launch time to record for an activity with the timestamps `start`.
pub fn activity_launch_time(start: &Option<Option<u64>>) -> (r: Option<i64>)
    ensures
        r == launch_time(*start),
        *start == None::<Option<u64>> ==> r == None::<i64>,
        *start == Some(None::<u64>) ==> r == Some(0i64),
        forall|s: u64|
            *start == Some(Some(s)) ==> r == if FIRST_REPRESENTABLE_SECOND <= s as i64
                <= LAST_REPRESENTABLE_SECOND {
                Some(s as i64)
            } else {
                None::<i64>
            },
{
    proof {
        lemma_launch_time(*start);
    }
    match start {
        None => None,
        Some(inner) => {
            let secs: u64 = match inner {
                Some(s) => *s,
                None => 0,
            };
            representable_seconds(secs as i64)
        },
    }
}

/// The played-game records of a presence update from the user `user_id`: none for a
/// bot account, else one per "Playing" activity, in the order of `activities`.
pub fn played_game_records(user_id: u64, user_is_bot: bool, activities: &Vec<ActivityInfo>) -> (r:
    Vec<PlayedGameRecord>)
    ensures
        user_is_bot ==> r@.len() == 0,
        !user_is_bot ==> r@.map_values(|g: PlayedGameRecord| g@) == played_games(
            user_id,
            activities@,
        ),
        !user_is_bot ==> r@.map_values(|g: PlayedGameRecord| g@) == activities@.filter(
            |a: ActivityInfo| a.playing,
        ).map_values(|a: ActivityInfo| (user_id, a.name@, launch_time(a.start))),
{
    proof {
        lemma_played_games_are_the_playing_activities(user_id, activities@);
    }
    let mut records: Vec<PlayedGameRecord> = Vec::new();
    if user_is_bot {
        return records;
    }
    let n = activities.len();
    let mut i: usize = 0;
    while i < n
        invariant
            n == activities@.len(),
            i <= n,
            records@.map_values(|g: PlayedGameRecord| g@) == played_games(
                user_id,
                activities@.take(i as int),
            ),
        decreases n - i,
    {
        let activity = &activities[i];
        proof {
            assert(activities@.take(i + 1).drop_last() =~= activities@.take(i as int));
            assert(activities@.take(i + 1).last() == activities@[i as int]);
        }
        if activity.playing {
            let launched_at = activity_launch_time(&activity.start);
            let record = PlayedGameRecord {
                user_id,
                game_name: activity.name.clone(),
                launched_at,
            };
            let ghost before = records@;
            records.push(record);
            proof {
                assert(records@.map_values(|g: PlayedGameRecord| g@) =~= before.map_values(
                    |g: PlayedGameRecord| g@,
                ).push(record@));
            }
        }
        i = i + 1;
    }
    assert(activities@.take(n as int) =~= activities@);
    records
}

} // verus!
