//! Chat messages and their relative timestamps.
use vstd::prelude::*;
use crate::text::{push_str, push_decimal, dec_of};
use crate::util::clock::unix_now_secs;

verus! {

pub const SECS_PER_MINUTE: u64 = 60;

pub const SECS_PER_HOUR: u64 = 3600;

pub const SECS_PER_DAY: u64 = 86400;

/// A chat message.
pub struct Message {
    pub id: Option<String>,
    pub sender: String,
    pub content: String,
    pub message_type: String,
    /// Seconds since the Unix epoch.
    pub timestamp: u64,
    pub room: String,
}

/// How long ago something happened, `age` seconds back.
pub open spec fn age_text(age: nat) -> Seq<char> {
    if age < SECS_PER_MINUTE {
        "now"@
    } else if age < SECS_PER_HOUR {
        dec_of(age / SECS_PER_MINUTE as nat) + "m ago"@
    } else if age < SECS_PER_DAY {
        dec_of(age / SECS_PER_HOUR as nat) + "h ago"@
    } else {
        dec_of(age / SECS_PER_DAY as nat) + "d ago"@
    }
}

/// Seconds from `then` to `now`, zero when `then` lies ahead.
pub open spec fn elapsed(then: u64, now: u64) -> nat {
    if now >= then {
        (now - then) as nat
    } else {
        0
    }
}

impl Message {
    /// A text message stamped with the current time.
    pub fn new(sender: String, content: String, room: String) -> (r: Message)
        ensures
            r.sender == sender,
            r.content == content,
            r.room == room,
            r.id is None,
            r.message_type@ == "text"@,
    {
        let now = unix_now_secs();
        Message::with_timestamp(sender, content, room, now)
    }

    /// A text message stamped with `timestamp`.
    pub fn with_timestamp(sender: String, content: String, room: String, timestamp: u64) -> (r:
        Message)
        ensures
            r.sender == sender,
            r.content == content,
            r.room == room,
            r.id is None,
            r.message_type@ == "text"@,
            r.timestamp == timestamp,
    {
        Message {
            id: None,
            sender,
            content,
            message_type: String::from_str("text"),
            timestamp,
            room,
        }
    }

    /// The message's age as text, measured now.
    pub fn formatted_time(&self) -> (r: String)
        ensures
            exists|now: u64| r@ == age_text(#[trigger] elapsed(self.timestamp, now)),
    {
        let now = unix_now_secs();
        self.formatted_time_at(now)
    }

    /// The message's age as text, measured at `now`: `now` under a minute,
    /// then whole minutes, hours or days with `m ago`, `h ago` or `d ago`.
    pub fn formatted_time_at(&self, now: u64) -> (r: String)
        ensures
            r@ == age_text(elapsed(self.timestamp, now)),
    {
        let age: u64 = if now >= self.timestamp {
            now - self.timestamp
        } else {
            0
        };
        if age < SECS_PER_MINUTE {
            return String::from_str("now");
        }
        let mut out = String::new();
        if age < SECS_PER_HOUR {
            push_decimal(&mut out, age / SECS_PER_MINUTE);
            push_str(&mut out, "m ago");
        } else if age < SECS_PER_DAY {
            push_decimal(&mut out, age / SECS_PER_HOUR);
            push_str(&mut out, "h ago");
        } else {
            push_decimal(&mut out, age / SECS_PER_DAY);
            push_str(&mut out, "d ago");
        }
        assert(out@ =~= age_text(elapsed(self.timestamp, now)));
        out
    }
}

} // verus!
