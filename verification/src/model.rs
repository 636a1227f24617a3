//! The mathematical model of one queue: its configuration and counters, each
//! present or absent, and its messages with their visibility scores. Every
//! operation of the queue is defined here as a function on this model; the
//! executable code is specified against these definitions.

use vstd::prelude::*;
use crate::error::RsmqError;
use crate::plan::Setting;
use crate::queue::{handed_out, MessageView};
use crate::timing::{after, byte_len, exceeds};

verus! {

/// A message as the queue keeps it.
pub struct MessageState {
    pub id: Seq<char>,
    pub body: Seq<char>,
    /// Store time in milliseconds from which the message may be received.
    pub score: u64,
    /// Number of times the message has been received.
    pub rc: u64,
    /// Store time in milliseconds of the first receive; 0 before it.
    pub fr: u64,
}

/// What a receive or a pop hands out.
pub struct DeliveryState {
    pub id: Seq<char>,
    pub body: Seq<char>,
    pub rc: u64,
    pub fr: u64,
}

/// The attributes of a queue as a caller sees them.
pub struct QueueView {
    pub qname: Seq<char>,
    pub vt: u64,
    pub delay: u64,
    pub maxsize: i64,
    pub totalrecv: u64,
    pub totalsent: u64,
    pub created: u64,
    pub modified: u64,
    pub msgs: u64,
    pub hiddenmsgs: u64,
}

/// The state of one queue. A configuration field or counter that was never
/// written is `None` and reads as zero.
#[verifier::ext_equal]
pub struct QueueState {
    pub vt: Option<u64>,
    pub delay: Option<u64>,
    pub maxsize: Option<i64>,
    pub totalrecv: Option<u64>,
    pub totalsent: Option<u64>,
    pub created: Option<u64>,
    pub modified: Option<u64>,
    /// The messages in the order in which they were first sent.
    pub messages: Seq<MessageState>,
}

/// What a field that may be absent reads as.
pub open spec fn read(field: Option<u64>) -> u64 {
    match field {
        Some(v) => v,
        None => 0,
    }
}

/// What a signed field that may be absent reads as.
pub open spec fn read_signed(field: Option<i64>) -> i64 {
    match field {
        Some(v) => v,
        None => 0,
    }
}

/// A field after "set if absent".
pub open spec fn keep_or<T>(field: Option<T>, value: T) -> Option<T> {
    match field {
        Some(_) => field,
        None => Some(value),
    }
}

/// A field after "set if given".
pub open spec fn replace_with<T>(field: Option<T>, value: Option<T>) -> Option<T> {
    match value {
        Some(_) => value,
        None => field,
    }
}

/// Whether a counter can be incremented.
pub open spec fn can_count(counter: Option<u64>) -> bool {
    read(counter) < u64::MAX
}

/// A counter after an increment.
pub open spec fn counted(counter: Option<u64>) -> Option<u64> {
    Some((read(counter) + 1) as u64)
}

/// Number of messages in `msgs` whose score is at least `cutoff`.
pub open spec fn count_hidden(msgs: Seq<MessageState>, cutoff: u64) -> nat
    decreases msgs.len(),
{
    if msgs.len() == 0 {
        0
    } else {
        count_hidden(msgs.drop_last(), cutoff) + if msgs.last().score >= cutoff {
            1nat
        } else {
            0nat
        }
    }
}

impl QueueState {
    /// The state of a queue that nothing was ever written to.
    pub open spec fn empty() -> QueueState {
        QueueState {
            vt: None,
            delay: None,
            maxsize: None,
            totalrecv: None,
            totalsent: None,
            created: None,
            modified: None,
            messages: Seq::empty(),
        }
    }

    /// No two messages share an id, and the messages can be counted.
    pub open spec fn wf(self) -> bool {
        &&& self.messages.len() <= usize::MAX
        &&& forall|i: int, j: int|
            0 <= i < j < self.messages.len() ==> (#[trigger] self.messages[i]).id != (
            #[trigger] self.messages[j]).id
    }

    /// Whether a message with this id is in the queue.
    pub open spec fn has(self, id: Seq<char>) -> bool {
        exists|i: int| 0 <= i < self.messages.len() && (#[trigger] self.messages[i]).id == id
    }

    /// The place of the message with this id.
    pub open spec fn index_of(self, id: Seq<char>) -> int {
        choose|i: int| 0 <= i < self.messages.len() && (#[trigger] self.messages[i]).id == id
    }

    /// Whether a message may be received at `now`.
    pub open spec fn has_eligible(self, now: u64) -> bool {
        exists|i: int| 0 <= i < self.messages.len() && (#[trigger] self.messages[i]).score <= now
    }

    /// Whether the message at `i` is the one that a receive at `now`
    /// delivers: it is eligible, none has a lower score, and of those with
    /// the same score it has been in the queue longest. The order among
    /// messages with the same score is a matter of the store; this is the
    /// order of the storage in memory, and another store may have another.
    pub open spec fn is_next(self, now: u64, i: int) -> bool {
        &&& 0 <= i < self.messages.len()
        &&& self.messages[i].score <= now
        &&& forall|j: int|
            0 <= j < self.messages.len() ==> {
                let other = #[trigger] self.messages[j];
                if j < i {
                    other.score > self.messages[i].score
                } else {
                    other.score >= self.messages[i].score
                }
            }
    }

    /// The place of the message that a receive at `now` delivers.
    pub open spec fn next(self, now: u64) -> int {
        choose|i: int| self.is_next(now, i)
    }

    /// Number of messages that are not yet visible at `cutoff`.
    pub open spec fn hidden(self, cutoff: u64) -> nat {
        count_hidden(self.messages, cutoff)
    }

    /// The queue after a creation at `secs`: each field is written only if
    /// it was absent.
    pub open spec fn create(self, vt: u64, delay: u64, maxsize: i64, secs: u64) -> QueueState {
        QueueState {
            vt: keep_or(self.vt, vt),
            delay: keep_or(self.delay, delay),
            maxsize: keep_or(self.maxsize, maxsize),
            totalrecv: keep_or(self.totalrecv, 0),
            totalsent: keep_or(self.totalsent, 0),
            created: keep_or(self.created, secs),
            modified: keep_or(self.modified, secs),
            messages: self.messages,
        }
    }

    /// The queue after a change of the given settings.
    pub open spec fn set_attributes(
        self,
        vt: Option<u64>,
        delay: Option<u64>,
        maxsize: Option<i64>,
    ) -> QueueState {
        QueueState {
            vt: replace_with(self.vt, vt),
            delay: replace_with(self.delay, delay),
            maxsize: replace_with(self.maxsize, maxsize),
            ..self
        }
    }

    /// The queue after one setting was written.
    pub open spec fn write(self, setting: Setting) -> QueueState {
        match setting {
            Setting::Vt(v) => QueueState { vt: Some(v), ..self },
            Setting::Delay(d) => QueueState { delay: Some(d), ..self },
            Setting::Maxsize(m) => QueueState { maxsize: Some(m), ..self },
        }
    }

    /// The queue after the given settings were written one after the other.
    pub open spec fn written(self, settings: Seq<Setting>) -> QueueState
        decreases settings.len(),
    {
        if settings.len() == 0 {
            self
        } else {
            self.written(settings.drop_last()).write(settings.last())
        }
    }

    /// The attributes that a caller is shown, with `cutoff` as the time in
    /// milliseconds from which a score counts as hidden.
    pub open spec fn attributes(self, qname: Seq<char>, cutoff: u64) -> QueueView {
        QueueView {
            qname,
            vt: read(self.vt),
            delay: read(self.delay),
            maxsize: read_signed(self.maxsize),
            totalrecv: read(self.totalrecv),
            totalsent: read(self.totalsent),
            created: read(self.created),
            modified: read(self.modified),
            msgs: self.messages.len() as u64,
            hiddenmsgs: self.hidden(cutoff) as u64,
        }
    }

    /// The queue after a message was sent: the message is added with the
    /// given score, or, if its id is in the queue already, gets the new body
    /// and score; the count of sent messages grows.
    pub open spec fn send(self, id: Seq<char>, body: Seq<char>, score: u64) -> QueueState {
        QueueState {
            totalsent: counted(self.totalsent),
            messages: if self.has(id) {
                let i = self.index_of(id);
                self.messages.update(i, MessageState { body, score, ..self.messages[i] })
            } else {
                self.messages.push(MessageState { id, body, score, rc: 0, fr: 0 })
            },
            ..self
        }
    }

    /// Whether the counters that a receive or a pop at `now` increments can
    /// be incremented.
    pub open spec fn can_deliver(self, now: u64) -> bool {
        self.has_eligible(now) ==> can_count(self.totalrecv) && self.messages[self.next(now)].rc
            < u64::MAX
    }

    /// The message at `i` as a receive at `now` leaves it, before its new
    /// score is set.
    pub open spec fn received(self, now: u64, i: int) -> MessageState {
        let m = self.messages[i];
        MessageState {
            rc: (m.rc + 1) as u64,
            fr: if m.rc == 0 {
                now
            } else {
                m.fr
            },
            ..m
        }
    }

    /// What a receive or a pop at `now` delivers, if anything.
    pub open spec fn delivery(self, now: u64) -> Option<DeliveryState> {
        if self.has_eligible(now) {
            let m = self.received(now, self.next(now));
            Some(DeliveryState { id: m.id, body: m.body, rc: m.rc, fr: m.fr })
        } else {
            None
        }
    }

    /// The queue after a receive at `now` that hides the message until
    /// `expires_at`.
    pub open spec fn receive(self, now: u64, expires_at: u64) -> QueueState {
        if self.has_eligible(now) {
            let i = self.next(now);
            QueueState {
                totalrecv: counted(self.totalrecv),
                messages: self.messages.update(
                    i,
                    MessageState { score: expires_at, ..self.received(now, i) },
                ),
                ..self
            }
        } else {
            self
        }
    }

    /// The queue after a pop at `now`.
    pub open spec fn pop(self, now: u64) -> QueueState {
        if self.has_eligible(now) {
            QueueState {
                totalrecv: counted(self.totalrecv),
                messages: self.messages.remove(self.next(now)),
                ..self
            }
        } else {
            self
        }
    }

    /// The queue after the message with this id was hidden until
    /// `expires_at`; unchanged if there is no such message.
    pub open spec fn change_visibility(self, id: Seq<char>, expires_at: u64) -> QueueState {
        if self.has(id) {
            let i = self.index_of(id);
            QueueState {
                messages: self.messages.update(
                    i,
                    MessageState { score: expires_at, ..self.messages[i] },
                ),
                ..self
            }
        } else {
            self
        }
    }

    /// What a delete of the message with this id removes: the number of
    /// entries of the ordered set, and the number of fields kept with the
    /// message, which are its body and, once it has been received, its
    /// receive count and the time of its first receive.
    pub open spec fn delete_counts(self, id: Seq<char>) -> (u32, u32) {
        if self.has(id) {
            (
                1,
                if self.messages[self.index_of(id)].rc > 0 {
                    3
                } else {
                    1
                },
            )
        } else {
            (0, 0)
        }
    }

    /// The queue after the message with this id was deleted; unchanged if
    /// there is no such message.
    pub open spec fn delete(self, id: Seq<char>) -> QueueState {
        if self.has(id) {
            QueueState { messages: self.messages.remove(self.index_of(id)), ..self }
        } else {
            self
        }
    }
}

impl QueueState {
    /// The delay in seconds of a message sent with `delay`: the one given,
    /// or the queue's own.
    pub open spec fn delay_for(self, delay: Option<u64>) -> u64 {
        match delay {
            Some(d) => d,
            None => read(self.delay),
        }
    }

    /// The time in seconds for which a receive with `hidefor` hides a
    /// message: the one given, or the queue's visibility timeout.
    pub open spec fn hide_for(self, hidefor: Option<u64>) -> u64 {
        match hidefor {
            Some(h) => h,
            None => read(self.vt),
        }
    }

    /// Why a message with this body and delay cannot be sent at `now_ms`,
    /// if it cannot: the body is too large for the queue, the time at which
    /// it would become visible is out of range, or the counter of sent
    /// messages is.
    pub open spec fn send_error(self, now_ms: u64, body: Seq<char>, delay: Option<u64>) -> Option<
        RsmqError,
    > {
        if exceeds(read_signed(self.maxsize), byte_len(body)) {
            Some(RsmqError::MessageTooLong)
        } else if after(now_ms, self.delay_for(delay)) > u64::MAX {
            Some(RsmqError::TimeOverflow)
        } else if !can_count(self.totalsent) {
            Some(RsmqError::CounterOverflow)
        } else {
            None
        }
    }

    /// Why nothing can be received at `now_ms` with `hidefor`, if so: the
    /// time until which the message would be hidden is out of range, or a
    /// counter is.
    pub open spec fn receive_error(self, now_ms: u64, hidefor: Option<u64>) -> Option<RsmqError> {
        if after(now_ms, self.hide_for(hidefor)) > u64::MAX {
            Some(RsmqError::TimeOverflow)
        } else if !self.can_deliver(now_ms) {
            Some(RsmqError::CounterOverflow)
        } else {
            None
        }
    }

    /// The queue after a send at `now_ms` under `id`: as it was where the
    /// send fails.
    pub open spec fn after_send(
        self,
        now_ms: u64,
        id: Seq<char>,
        body: Seq<char>,
        delay: Option<u64>,
    ) -> QueueState {
        if self.send_error(now_ms, body, delay) is Some {
            self
        } else {
            self.send(id, body, after(now_ms, self.delay_for(delay)) as u64)
        }
    }

    /// What a send at `now_ms` under `id` returns: the id, or why the message
    /// cannot be sent.
    pub open spec fn send_result(
        self,
        now_ms: u64,
        id: Seq<char>,
        body: Seq<char>,
        delay: Option<u64>,
    ) -> Result<Seq<char>, RsmqError> {
        match self.send_error(now_ms, body, delay) {
            Some(e) => Err(e),
            None => Ok(id),
        }
    }

    /// The queue after a receive at `now_ms` with `hidefor`: as it was where
    /// the receive fails.
    pub open spec fn after_receive(self, now_ms: u64, hidefor: Option<u64>) -> QueueState {
        if self.receive_error(now_ms, hidefor) is Some {
            self
        } else {
            self.receive(now_ms, after(now_ms, self.hide_for(hidefor)) as u64)
        }
    }

    /// What a receive at `now_ms` with `hidefor` returns: the message that is
    /// delivered, nothing where none is eligible, or an error.
    pub open spec fn receive_result(self, now_ms: u64, hidefor: Option<u64>) -> Result<
        Option<MessageView>,
        RsmqError,
    > {
        match self.receive_error(now_ms, hidefor) {
            Some(e) => Err(e),
            None => handed_out(self.delivery(now_ms)),
        }
    }

    /// The queue after a pop at `now_ms`: as it was where the pop fails.
    pub open spec fn after_pop(self, now_ms: u64) -> QueueState {
        if self.can_deliver(now_ms) {
            self.pop(now_ms)
        } else {
            self
        }
    }

    /// What a pop at `now_ms` returns: the message that is delivered, nothing
    /// where none is eligible, or an error.
    pub open spec fn pop_result(self, now_ms: u64) -> Result<Option<MessageView>, RsmqError> {
        if self.can_deliver(now_ms) {
            handed_out(self.delivery(now_ms))
        } else {
            Err(RsmqError::CounterOverflow)
        }
    }

    /// The queue after the message `id` was hidden for `hidefor` seconds from
    /// `now_ms`: as it was where the time is out of range or the queue does
    /// not hold the message.
    pub open spec fn after_change(self, now_ms: u64, id: Seq<char>, hidefor: u64) -> QueueState {
        if after(now_ms, hidefor) > u64::MAX {
            self
        } else {
            self.change_visibility(id, after(now_ms, hidefor) as u64)
        }
    }

    /// What a change of visibility returns: the new time of expiry, nothing
    /// where the queue does not hold the message, or `TimeOverflow`.
    pub open spec fn change_result(self, now_ms: u64, id: Seq<char>, hidefor: u64) -> Result<
        Option<u64>,
        RsmqError,
    > {
        if after(now_ms, hidefor) > u64::MAX {
            Err(RsmqError::TimeOverflow)
        } else if self.has(id) {
            Ok(Some(after(now_ms, hidefor) as u64))
        } else {
            Ok(None)
        }
    }
}

/// One if a message with this score counts as hidden at `cutoff`, else zero.
pub open spec fn hidden_one(score: u64, cutoff: u64) -> int {
    if score >= cutoff {
        1
    } else {
        0
    }
}

/// The message at `i` is the only one that may be received at `now`.
pub open spec fn only_eligible(q: QueueState, now: u64, i: int) -> bool {
    &&& 0 <= i < q.messages.len()
    &&& q.messages[i].score <= now
    &&& forall|j: int| 0 <= j < q.messages.len() && j != i ==> (#[trigger] q.messages[j]).score > now
}

} // verus!
