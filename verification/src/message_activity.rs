//! Per-second message activity: how many messages each user sent in each second,
//! queued until the completed seconds are stored, and the reply to `!msgstats`.
use std::collections::HashMap;
use std::collections::VecDeque;
use vstd::prelude::*;
use vstd::string::*;
use crate::text::{ascii_chars, decimal, decimal_string};
use crate::timestamps::chrono_represents_unix_seconds;
use crate::timestamps::representable_seconds;

verus! {

/// The messages counted in one second: the second (UNIX seconds) and, per user id,
/// how many messages that user sent in it.
#[derive(Debug)]
pub struct ActivityFrame {
    pub timestamp: i64,
    pub counts: HashMap<u64, u16>,
}

impl View for ActivityFrame {
    type V = (i64, Map<u64, u16>);

    open spec fn view(&self) -> (i64, Map<u64, u16>) {
        (self.timestamp, self.counts@)
    }
}

/// The queue of seconds with message activity, oldest first.
#[derive(Debug)]
pub struct MessageActivityData {
    frames: VecDeque<ActivityFrame>,
}

impl View for MessageActivityData {
    type V = Seq<(i64, Map<u64, u16>)>;

    closed spec fn view(&self) -> Seq<(i64, Map<u64, u16>)> {
        self.frames@.map_values(|f: ActivityFrame| f@)
    }
}

/// No second appears in two frames, and every user listed in a frame sent at least
/// one message in it.
pub open spec fn frames_wf(frames: Seq<(i64, Map<u64, u16>)>) -> bool {
    &&& forall|i: int, j: int|
        0 <= i < j < frames.len() ==> #[trigger] frames[i].0 != #[trigger] frames[j].0
    &&& forall|i: int, u: u64|
        0 <= i < frames.len() && #[trigger] frames[i].1.contains_key(u) ==> frames[i].1[u] >= 1
}

/// Some frame of `frames` is for the second `t`.
pub open spec fn has_frame(frames: Seq<(i64, Map<u64, u16>)>, t: i64) -> bool {
    exists|i: int| 0 <= i < frames.len() && #[trigger] frames[i].0 == t
}

/// The position of the frame for the second `t`.
pub open spec fn frame_index(frames: Seq<(i64, Map<u64, u16>)>, t: i64) -> int {
    choose|i: int| 0 <= i < frames.len() && #[trigger] frames[i].0 == t
}

/// How many messages `user` has in `counts`.
pub open spec fn count_in(counts: Map<u64, u16>, user: u64) -> nat {
    if counts.contains_key(user) {
        counts[user] as nat
    } else {
        0
    }
}

/// How many messages `user` sent in the second `t`, as far as `frames` records it.
pub open spec fn count_at(frames: Seq<(i64, Map<u64, u16>)>, t: i64, user: u64) -> nat {
    if has_frame(frames, t) {
        count_in(frames[frame_index(frames, t)].1, user)
    } else {
        0
    }
}

/// `frames` after one more message from `user` in the second `t`: the count of `user`
/// in the frame for `t` goes up by one, and a frame for `t` with that single message
/// is appended when there was none.
pub open spec fn recorded(frames: Seq<(i64, Map<u64, u16>)>, t: i64, user: u64) -> Seq<
    (i64, Map<u64, u16>),
> {
    if has_frame(frames, t) {
        let i = frame_index(frames, t);
        frames.update(i, (t, frames[i].1.insert(user, (count_in(frames[i].1, user) + 1) as u16)))
    } else {
        frames.push((t, Map::empty().insert(user, 1u16)))
    }
}

/// In a queue where no second appears twice, a frame for the second `t` is the frame
/// for `t`.
pub proof fn lemma_frame_index_unique(frames: Seq<(i64, Map<u64, u16>)>, t: i64, i: int)
    requires
        frames_wf(frames),
        0 <= i < frames.len(),
        frames[i].0 == t,
    ensures
        has_frame(frames, t),
        frame_index(frames, t) == i,
{
    let k = frame_index(frames, t);
    if k != i {
        if k < i {
            assert(frames[k].0 != frames[i].0);
        } else {
            assert(frames[i].0 != frames[k].0);
        }
    }
}

impl MessageActivityData {
    /// The queue satisfies `frames_wf`.
    pub open spec fn wf(&self) -> bool {
        frames_wf(self@)
    }

    /// An empty queue.
    pub fn new() -> (q: Self)
        ensures
            q.wf(),
            q@ == Seq::<(i64, Map<u64, u16>)>::empty(),
    {
        let q = MessageActivityData { frames: VecDeque::new() };
        assert(q@ =~= Seq::<(i64, Map<u64, u16>)>::empty());
        q
    }

    /// The number of queued seconds.
    pub fn len(&self) -> (n: usize)
        ensures
            n == self@.len(),
    {
        self.frames.len()
    }

    /// The frame for the second `secs`, when the queue has one.
    fn find_frame(&self, secs: i64) -> (r: Option<usize>)
        ensures
            match r {
                Some(i) => i < self@.len() && self@[i as int].0 == secs,
                None => !has_frame(self@, secs),
            },
    {
        let n = self.frames.len();
        let mut i: usize = 0;
        while i < n
            invariant
                n == self@.len(),
                n == self.frames@.len(),
                i <= n,
                forall|j: int| 0 <= j < i ==> #[trigger] self@[j].0 != secs,
            decreases n - i,
        {
            if self.frames[i].timestamp == secs {
                return Some(i);
            }
            i = i + 1;
        }
        None
    }

    /// Counts one message that `user` sent in the second `secs`.
    pub fn record_message(&mut self, secs: i64, user: u64)
        requires
            old(self).wf(),
            chrono_represents_unix_seconds(secs),
            count_at(old(self)@, secs, user) < u16::MAX,
        ensures
            final(self).wf(),
            final(self)@ == recorded(old(self)@, secs, user),
            has_frame(old(self)@, secs) ==> final(self)@.len() == old(self)@.len(),
            !has_frame(old(self)@, secs) ==> final(self)@.len() == old(self)@.len() + 1
                && final(self)@[old(self)@.len() as int].0 == secs,
            forall|j: int| 0 <= j < old(self)@.len() ==> #[trigger] final(self)@[j].0 == old(self)@[j].0,
            forall|j: int|
                0 <= j < old(self)@.len() && old(self)@[j].0 != secs ==> #[trigger] final(self)@[j]
                    == old(self)@[j],
    {
        proof {
            lemma_record_keeps_order(old(self)@, secs, user);
        }
        let ghost before = self@;
        match self.find_frame(secs) {
            Some(i) => {
                proof {
                    lemma_frame_index_unique(before, secs, i as int);
                }
                let mut frame = self.frames.remove(i).unwrap();
                let count: u16 = match frame.counts.get(&user) {
                    Some(c) => *c + 1,
                    None => 1,
                };
                frame.counts.insert(user, count);
                self.frames.insert(i, frame);
                proof {
                    assert(self@ =~= recorded(before, secs, user));
                }
            },
            None => {
                let mut counts: HashMap<u64, u16> = HashMap::new();
                counts.insert(user, 1);
                self.frames.push_back(ActivityFrame { timestamp: secs, counts });
                proof {
                    assert(self@ =~= recorded(before, secs, user));
                }
            },
        }
    }

    /// Counts one message that `user` sent in the second `secs`, when that second can be
    /// represented as a date and time and the user's count for it can still grow.
    /// Returns whether the message was counted; the queue is unchanged otherwise.
    pub fn try_record_message(&mut self, secs: i64, user: u64) -> (counted: bool)
        requires
            old(self).wf(),
        ensures
            final(self).wf(),
            counted == (chrono_represents_unix_seconds(secs) && count_at(old(self)@, secs, user)
                < u16::MAX),
            counted ==> final(self)@ == recorded(old(self)@, secs, user),
            !counted ==> final(self)@ == old(self)@,
    {
        if representable_seconds(secs).is_none() {
            return false;
        }
        let current = self.count_of(secs, user);
        if current == u16::MAX {
            return false;
        }
        self.record_message(secs, user);
        true
    }

    /// How many messages `user` sent in the second `secs`, as far as the queue records it.
    pub fn count_of(&self, secs: i64, user: u64) -> (n: u16)
        requires
            self.wf(),
        ensures
            n == count_at(self@, secs, user),
    {
        match self.find_frame(secs) {
            Some(i) => {
                proof {
                    lemma_frame_index_unique(self@, secs, i as int);
                }
                match self.frames[i].counts.get(&user) {
                    Some(c) => *c,
                    None => 0,
                }
            },
            None => 0,
        }
    }

    /// Takes out every frame but the newest, oldest first, for storing: the newest
    /// second may still be receiving messages.
    pub fn take_completed(&mut self) -> (done: Vec<ActivityFrame>)
        requires
            old(self).wf(),
        ensures
            final(self).wf(),
            done@.map_values(|f: ActivityFrame| f@) + final(self)@ == old(self)@,
            final(self)@.len() == if old(self)@.len() == 0 {
                0nat
            } else {
                1nat
            },
    {
        let ghost start = self@;
        let mut done: Vec<ActivityFrame> = Vec::new();
        while self.frames.len() > 1
            invariant
                frames_wf(self@),
                done@.map_values(|f: ActivityFrame| f@) + self@ == start,
                start.len() == 0 ==> self@.len() == 0,
                start.len() > 0 ==> self@.len() >= 1,
            decreases self@.len(),
        {
            let ghost before = self@;
            let ghost done_before = done@.map_values(|f: ActivityFrame| f@);
            let frame = self.frames.pop_front().unwrap();
            done.push(frame);
            proof {
                assert(self@ =~= before.drop_first());
                assert(done@.map_values(|f: ActivityFrame| f@) =~= done_before.push(before[0]));
                assert(done@.map_values(|f: ActivityFrame| f@) + self@ =~= done_before + before);
                assert(frames_wf(self@)) by {
                    assert forall|i: int, j: int|
                        0 <= i < j < self@.len() implies #[trigger] self@[i].0 != #[trigger] self@[j].0 by {
                        assert(self@[i] == before[i + 1]);
                        assert(self@[j] == before[j + 1]);
                    }
                    assert forall|i: int, u: u64|
                        0 <= i < self@.len() && #[trigger] self@[i].1.contains_key(u) implies self@[i].1[u]
                        >= 1 by {
                        assert(self@[i] == before[i + 1]);
                    }
                }
            }
        }
        done
    }
}

/// Counting a message from `user` in the second `t` raises that user's count for that
/// second by exactly one and leaves every other user's count, in every second, as it was.
pub proof fn lemma_record_counts_one_message(
    frames: Seq<(i64, Map<u64, u16>)>,
    t: i64,
    user: u64,
    t2: i64,
    user2: u64,
)
    requires
        frames_wf(frames),
        count_at(frames, t, user) < u16::MAX,
    ensures
        count_at(recorded(frames, t, user), t2, user2) == count_at(frames, t2, user2) + if t2 == t
            && user2 == user {
            1nat
        } else {
            0nat
        },
        frames_wf(recorded(frames, t, user)),
{
    let after = recorded(frames, t, user);
    let n = frames.len() as int;
    let i = if has_frame(frames, t) {
        frame_index(frames, t)
    } else {
        n
    };
    assert(after[i].0 == t);
    assert(forall|j: int| 0 <= j < after.len() && j != i ==> after[j] == frames[j]);
    assert forall|a: int, b: int|
        0 <= a < b < after.len() implies #[trigger] after[a].0 != #[trigger] after[b].0 by {
        if a != i {
            assert(after[a] == frames[a]);
        }
        if b != i {
            assert(after[b] == frames[b]);
        }
    }
    // The frame for `t` is the one at `i`, in both queues.
    lemma_frame_index_unique(after, t, i);
    // Any other second keeps its frame, at the same place.
    if t2 != t {
        if has_frame(frames, t2) {
            let j = frame_index(frames, t2);
            assert(after[j] == frames[j]);
            lemma_frame_index_unique(after, t2, j);
        } else if has_frame(after, t2) {
            let m = frame_index(after, t2);
            assert(after[m] == frames[m]);
        }
    }
}

/// Messages sent in the same second share one frame: once a message of the second `t`
/// has been counted, counting another one of `t` adds no frame. In particular two
/// messages of one user in the same second, counted into an empty queue, leave a single
/// frame for that second with a count of two.
pub proof fn lemma_same_second_shares_a_frame(
    frames: Seq<(i64, Map<u64, u16>)>,
    t: i64,
    first: u64,
    second: u64,
)
    requires
        frames_wf(frames),
        count_at(frames, t, first) < u16::MAX,
    ensures
        has_frame(recorded(frames, t, first), t),
        recorded(recorded(frames, t, first), t, second).len() == recorded(frames, t, first).len(),
        frames.len() == 0 ==> recorded(recorded(frames, t, first), t, first) == seq![
            (t, Map::<u64, u16>::empty().insert(first, 2u16)),
        ],
{
    let once = recorded(frames, t, first);
    lemma_record_counts_one_message(frames, t, first, t, first);
    if frames.len() == 0 {
        let single = Map::<u64, u16>::empty().insert(first, 1u16);
        assert(once == seq![(t, single)]);
        lemma_frame_index_unique(once, t, 0);
        assert(count_in(single, first) == 1);
        assert(single.insert(first, 2u16) =~= Map::<u64, u16>::empty().insert(first, 2u16));
        assert(recorded(once, t, first) =~= seq![
            (t, Map::<u64, u16>::empty().insert(first, 2u16)),
        ]);
    }
}

/// Counting a message never reorders the queue: every frame keeps its place and its
/// second, frames for other seconds are untouched, and a second without a frame gets a
/// new one at the back, after all older ones.
pub proof fn lemma_record_keeps_order(frames: Seq<(i64, Map<u64, u16>)>, t: i64, user: u64)
    requires
        frames_wf(frames),
    ensures
        has_frame(frames, t) ==> recorded(frames, t, user).len() == frames.len(),
        !has_frame(frames, t) ==> recorded(frames, t, user).len() == frames.len() + 1
            && recorded(frames, t, user)[frames.len() as int].0 == t,
        forall|j: int|
            0 <= j < frames.len() ==> #[trigger] recorded(frames, t, user)[j].0 == frames[j].0,
        forall|j: int|
            0 <= j < frames.len() && frames[j].0 != t ==> #[trigger] recorded(frames, t, user)[j]
                == frames[j],
{
    if has_frame(frames, t) {
        let i = frame_index(frames, t);
        assert(frames[i].0 == t);
    }
}

/// The `!msgstats` reply has one line per row, in order: no rows give an empty reply,
/// and one more row adds exactly the line `time: <time>, count: <count>` at the end.
pub proof fn lemma_stats_text_appends_a_line(rows: Seq<(Seq<char>, i32)>, row: (Seq<char>, i32))
    ensures
        stats_text(Seq::empty()) == Seq::<char>::empty(),
        stats_text(rows.push(row)) == stats_text(rows) + "time: "@ + row.0 + ", count: "@
            + ascii_chars(decimal(row.1 as int)) + "\n"@,
{
    assert(rows.push(row).drop_last() =~= rows);
    assert(stats_text(rows.push(row)) =~= stats_text(rows) + "time: "@ + row.0 + ", count: "@
        + ascii_chars(decimal(row.1 as int)) + "\n"@);
}

/// One line of the `!msgstats` reply: the stored second, as its time text, and the count.
pub open spec fn stats_line(time_text: Seq<char>, count: i32) -> Seq<char> {
    "time: "@ + time_text + ", count: "@ + ascii_chars(decimal(count as int)) + "\n"@
}

/// The `!msgstats` reply for the stored rows `rows`: one line per row, in order.
pub open spec fn stats_text(rows: Seq<(Seq<char>, i32)>) -> Seq<char>
    decreases rows.len(),
{
    if rows.len() == 0 {
        Seq::empty()
    } else {
        stats_text(rows.drop_last()) + stats_line(rows.last().0, rows.last().1)
    }
}

/// The `!msgstats` reply for a user whose stored activity rows are `rows`, each the
/// text of a second and the number of messages in it.
pub fn message_stats_reply(rows: &Vec<(String, i32)>) -> (reply: String)
    ensures
        reply@ == stats_text(rows@.map_values(|r: (String, i32)| (r.0@, r.1))),
{
    let ghost view_rows = rows@.map_values(|r: (String, i32)| (r.0@, r.1));
    let mut reply = String::new();
    let n = rows.len();
    let mut i: usize = 0;
    while i < n
        invariant
            n == rows@.len(),
            i <= n,
            view_rows == rows@.map_values(|r: (String, i32)| (r.0@, r.1)),
            reply@ == stats_text(view_rows.take(i as int)),
        decreases n - i,
    {
        let row = &rows[i];
        let count = decimal_string(row.1 as i64);
        let ghost before = reply@;
        reply.append("time: ");
        reply.append(row.0.as_str());
        reply.append(", count: ");
        reply.append(count.as_str());
        reply.append("\n");
        proof {
            assert(view_rows.take(i + 1).drop_last() =~= view_rows.take(i as int));
            assert(view_rows.take(i + 1).last() == view_rows[i as int]);
            assert(reply@ =~= before + stats_line(row.0@, row.1));
        }
        i = i + 1;
    }
    assert(view_rows.take(n as int) =~= view_rows);
    reply
}

} // verus!
