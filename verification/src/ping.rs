//! The answer to `!ping`.
use vstd::prelude::*;
use vstd::string::*;
use crate::pretty_numbers::{pretty_bytes, PrettiableNumber};
use crate::text::{ascii_chars, decimal, is_digit, decimal_string, lemma_ascii_encoding, lemma_decimal_shape};

verus! {

/// A time of day that chrono's `NaiveTime` can hold, given as whole seconds since
/// midnight and a fraction in nanoseconds: the fraction may reach into a second
/// nanosecond count only during a leap second, after second 59 of a minute.
pub open spec fn valid_time_of_day(secs: u32, frac: u32) -> bool {
    &&& secs < 86_400
    &&& frac < 2_000_000_000
    &&& frac >= 1_000_000_000 ==> secs % 60 == 59
}

/// `n / d` rounded toward zero, as integer division in Rust rounds.
pub open spec fn div_toward_zero(n: int, d: int) -> int {
    if n >= 0 {
        n / d
    } else {
        -((-n) / d)
    }
}

/// The nanoseconds from the time of day `(sent_secs, sent_frac)` to the time of day
/// `(now_secs, now_frac)`: the difference of the seconds and of the fractions, where a
/// leap second that lies between the two whole seconds counts as one more second.
pub open spec fn time_of_day_nanos_between(now_secs: u32, now_frac: u32, sent_secs: u32, sent_frac: u32) -> int {
    let whole = now_secs - sent_secs;
    let leap = if now_secs > sent_secs && sent_frac >= 1_000_000_000 {
        1int
    } else if now_secs < sent_secs && now_frac >= 1_000_000_000 {
        -1int
    } else {
        0int
    };
    (whole + leap) * 1_000_000_000 + (now_frac - sent_frac)
}

/// `(now - sent).num_microseconds()` on the chrono `NaiveTime`s built by
/// `NaiveTime::from_num_seconds_from_midnight_opt` from the two times of day. chrono's
/// `signed_duration_since` takes the difference of the seconds, adds or removes a second
/// for a leap second in between, and adds the difference of the fractions;
/// `num_microseconds` rounds that toward zero, and is `Some` for any span within a day.
#[verifier::external_body]
fn chrono_micros_between(now_secs: u32, now_frac: u32, sent_secs: u32, sent_frac: u32) -> (r: i64)
    requires
        valid_time_of_day(now_secs, now_frac),
        valid_time_of_day(sent_secs, sent_frac),
    ensures
        r == div_toward_zero(time_of_day_nanos_between(now_secs, now_frac, sent_secs, sent_frac), 1000),
{
    let now = chrono::NaiveTime::from_num_seconds_from_midnight_opt(now_secs, now_frac).unwrap();
    let sent = chrono::NaiveTime::from_num_seconds_from_midnight_opt(sent_secs, sent_frac).unwrap();
    (now - sent).num_microseconds().unwrap()
}

/// The whole microseconds from the time of day at which a message was sent to the time
/// of day now, each given as seconds since midnight and a nanosecond fraction, rounded
/// toward zero; negative when now is the earlier time of day.
pub fn ping_elapsed_micros(now_secs: u32, now_frac: u32, sent_secs: u32, sent_frac: u32) -> (r: i64)
    requires
        valid_time_of_day(now_secs, now_frac),
        valid_time_of_day(sent_secs, sent_frac),
    ensures
        r == div_toward_zero(time_of_day_nanos_between(now_secs, now_frac, sent_secs, sent_frac), 1000),
{
    chrono_micros_between(now_secs, now_frac, sent_secs, sent_frac)
}

/// The reply to `!ping` when the message took `elapsed_micros` microseconds to
/// arrive: `Pong! Took <n>us`, with the digits of the count grouped in threes.
pub fn pong_reply(elapsed_micros: i64) -> (r: String)
    ensures
        r@ == "Pong! Took "@ + ascii_chars(pretty_bytes(decimal(elapsed_micros as int))) + "us"@,
{
    let count = decimal_string(elapsed_micros);
    proof {
        lemma_decimal_shape(elapsed_micros as int);
        lemma_ascii_encoding(decimal(elapsed_micros as int));
        let d = decimal(elapsed_micros as int);
        assert(is_digit(d[d.len() - 1]));
    }
    let grouped = count.pretty();
    let mut reply = "Pong! Took ".to_owned();
    reply.append(grouped.as_str());
    reply.append("us");
    reply
}

} // verus!
