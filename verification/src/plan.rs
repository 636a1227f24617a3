//! What an operation derives from one reading of a queue's settings and of
//! the store time, before it applies its atomic step.

use vstd::prelude::*;
use crate::error::RsmqError;
use crate::ident::{is_id_for, new_id};
use crate::model::{read, read_signed, QueueView};
use crate::queue::Queue;
use crate::timing::{after, byte_len, check_size, exceeds, millis, or_default, to_millis, visible_at};

verus! {

/// One setting of a queue, with the value that is to be written.
#[derive(Clone, Copy, Debug, PartialEq, Eq, Structural)]
pub enum Setting {
    Vt(u64),
    Delay(u64),
    Maxsize(i64),
}

impl Setting {
    /// The name of the field in which the setting is stored.
    pub fn field(&self) -> (name: &'static str)
        ensures
            name@ == (match *self {
                Setting::Vt(_) => "vt"@,
                Setting::Delay(_) => "delay"@,
                Setting::Maxsize(_) => "maxsize"@,
            }),
    {
        match self {
            Setting::Vt(_) => "vt",
            Setting::Delay(_) => "delay",
            Setting::Maxsize(_) => "maxsize",
        }
    }
}

/// `settings` with `setting` at its end, if one is given.
pub open spec fn appended(settings: Seq<Setting>, setting: Option<Setting>) -> Seq<Setting> {
    match setting {
        Some(s) => settings.push(s),
        None => settings,
    }
}

/// The settings that a change of attributes writes, in the order in which it
/// writes them: those that are given, and no others.
pub open spec fn writes(vt: Option<u64>, delay: Option<u64>, maxsize: Option<i64>) -> Seq<
    Setting,
> {
    appended(
        appended(
            appended(
                Seq::empty(),
                match vt {
                    Some(v) => Some(Setting::Vt(v)),
                    None => None,
                },
            ),
            match delay {
                Some(d) => Some(Setting::Delay(d)),
                None => None,
            },
        ),
        match maxsize {
            Some(m) => Some(Setting::Maxsize(m)),
            None => None,
        },
    )
}

/// The settings that a change of attributes has to write.
pub fn settings_to_write(vt: Option<u64>, delay: Option<u64>, maxsize: Option<i64>) -> (w: Vec<
    Setting,
>)
    ensures
        w@ == writes(vt, delay, maxsize),
{
    let mut w: Vec<Setting> = Vec::new();
    if let Some(v) = vt {
        w.push(Setting::Vt(v));
    }
    if let Some(d) = delay {
        w.push(Setting::Delay(d));
    }
    if let Some(m) = maxsize {
        w.push(Setting::Maxsize(m));
    }
    w
}

/// The score of a message with this body that is sent at `now_ms` with
/// `delay`, to a queue with the settings `q`; or why it cannot be sent.
pub open spec fn planned_score(q: QueueView, now_ms: u64, body: Seq<char>, delay: Option<u64>) -> Result<
    u64,
    RsmqError,
> {
    let wait = match delay {
        Some(d) => d,
        None => q.delay,
    };
    if exceeds(q.maxsize, byte_len(body)) {
        Err(RsmqError::MessageTooLong)
    } else if after(now_ms, wait) > u64::MAX {
        Err(RsmqError::TimeOverflow)
    } else {
        Ok(after(now_ms, wait) as u64)
    }
}

/// The time until which a receive at `now_ms` with `hidefor` hides a message
/// of a queue with the settings `q`; or `TimeOverflow`.
pub open spec fn planned_expiry(q: QueueView, now_ms: u64, hidefor: Option<u64>) -> Result<
    u64,
    RsmqError,
> {
    let span = match hidefor {
        Some(h) => h,
        None => q.vt,
    };
    if after(now_ms, span) > u64::MAX {
        Err(RsmqError::TimeOverflow)
    } else {
        Ok(after(now_ms, span) as u64)
    }
}

/// What one reading of the stored settings of the queue called `qname` and
/// of the store time `ts_micros` gives: the settings, the time in
/// milliseconds and, if `set_uid` is set, an id for a new message, made from
/// that same time.
pub fn describe(
    qname: &str,
    vt: Option<u64>,
    delay: Option<u64>,
    maxsize: Option<i64>,
    ts_micros: u64,
    set_uid: bool,
) -> (r: (Queue, u64, Option<String>))
    ensures
        r.0@ == (QueueView {
            qname: qname@,
            vt: read(vt),
            delay: read(delay),
            maxsize: read_signed(maxsize),
            totalrecv: 0,
            totalsent: 0,
            created: 0,
            modified: 0,
            msgs: 0,
            hiddenmsgs: 0,
        }),
        r.1 == millis(ts_micros),
        set_uid ==> (r.2 matches Some(id) && is_id_for(id@, ts_micros as nat)),
        !set_uid ==> r.2 is None,
{
    let q = Queue::from_settings(qname, vt, delay, maxsize);
    let uid = if set_uid {
        Some(new_id(ts_micros))
    } else {
        None
    };
    (q, to_millis(ts_micros), uid)
}

/// Checks the body against the queue's limit and gives the score with which
/// the message is to be stored: the time `delay` seconds after `now_ms`, with
/// the queue's own delay where none is given.
pub fn send_score(q: &Queue, now_ms: u64, body: &str, delay: Option<u64>) -> (r: Result<
    u64,
    RsmqError,
>)
    ensures
        r == planned_score(q@, now_ms, body@, delay),
{
    match check_size(q.maxsize, body) {
        Err(e) => Err(e),
        Ok(_) => visible_at(now_ms, or_default(delay, q.delay)),
    }
}

/// The time until which a received message is hidden: `hidefor` seconds
/// after `now_ms`, with the queue's visibility timeout where none is given.
pub fn hide_until(q: &Queue, now_ms: u64, hidefor: Option<u64>) -> (r: Result<u64, RsmqError>)
    ensures
        r == planned_expiry(q@, now_ms, hidefor),
{
    visible_at(now_ms, or_default(hidefor, q.vt))
}

} // verus!
