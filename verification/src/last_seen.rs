//! Last-seen bookkeeping: when a user was last seen typing, and the reply to `!seen`.
use vstd::prelude::*;
use vstd::string::*;
use crate::text::{ascii_chars, decimal, decimal_string};
use crate::timestamps::{chrono_represents_unix_seconds, representable_seconds};

verus! {

/// The time to store for a typing event that Discord stamped with `event_timestamp`
/// (UNIX seconds): that time read as an `i64`, or `None` when chrono cannot represent
/// it.
pub fn typing_event_time(event_timestamp: u64) -> (r: Option<i64>)
    ensures
        r == (if chrono_represents_unix_seconds(event_timestamp as i64) {
            Some(event_timestamp as i64)
        } else {
            None::<i64>
        }),
{
    representable_seconds(event_timestamp as i64)
}

/// The reply line for a user last seen at the UNIX time `seen_at_secs`: a Discord
/// timestamp tag `last seen: <t:SECONDS:f>`.
pub fn last_seen_reply(seen_at_secs: i64) -> (r: String)
    ensures
        r@ == "last seen: <t:"@ + ascii_chars(decimal(seen_at_secs as int)) + ":f>"@,
{
    let secs = decimal_string(seen_at_secs);
    let mut reply = "last seen: <t:".to_owned();
    reply.append(secs.as_str());
    reply.append(":f>");
    reply
}

} // verus!
