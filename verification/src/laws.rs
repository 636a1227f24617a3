//! What holds of the queue operations together, proved of the model that
//! the operations are specified against.

use vstd::prelude::*;
use crate::ident::{base36, law_id_round_trip, pow36, STAMP_LEN};
use crate::lemmas::{
    lemma_absent_not_delivered, lemma_count_hidden_bound, lemma_count_hidden_later,
    lemma_count_hidden_remove, lemma_count_hidden_update, lemma_index_of, lemma_next_exists,
    lemma_only_eligible_is_next, lemma_removed, lemma_written_with,
};
use crate::model::{
    can_count, hidden_one, only_eligible, read, DeliveryState, MessageState, QueueState,
    QueueView,
};
use crate::plan::{appended, writes, Setting};
use crate::queue::{assembled, handed_out, MessageView};
use crate::error::RsmqError;
use crate::timing::{after, millis};

verus! {

/// A queue that is created where nothing was stored shows exactly the
/// settings it was created with, the time of creation, zero counters and no
/// messages.
pub proof fn law_create_then_attributes(
    qname: Seq<char>,
    vt: u64,
    delay: u64,
    maxsize: i64,
    secs: u64,
    cutoff: u64,
)
    ensures
        QueueState::empty().create(vt, delay, maxsize, secs).attributes(qname, cutoff) == (
        QueueView {
            qname,
            vt,
            delay,
            maxsize,
            totalrecv: 0,
            totalsent: 0,
            created: secs,
            modified: secs,
            msgs: 0,
            hiddenmsgs: 0,
        }),
        QueueState::empty().create(vt, delay, maxsize, secs).wf(),
{
}

/// Creating a queue a second time changes nothing.
pub proof fn law_create_is_idempotent(
    q: QueueState,
    vt: u64,
    delay: u64,
    maxsize: i64,
    secs: u64,
    vt2: u64,
    delay2: u64,
    maxsize2: i64,
    secs2: u64,
)
    ensures
        q.create(vt, delay, maxsize, secs).create(vt2, delay2, maxsize2, secs2) == q.create(
            vt,
            delay,
            maxsize,
            secs,
        ),
{
}

/// Sending a message under an id that the queue does not hold adds one to
/// the count of sent messages and one to the number of messages. It adds one
/// to the number of hidden messages for as long as the cutoff has not passed
/// the score of the message, which at the time of sending is so for every
/// delay; afterwards the message no longer counts as hidden.
pub proof fn law_send_then_attributes(
    q: QueueState,
    qname: Seq<char>,
    id: Seq<char>,
    body: Seq<char>,
    score: u64,
    cutoff: u64,
)
    requires
        q.wf(),
        q.messages.len() < usize::MAX,
        can_count(q.totalsent),
        !q.has(id),
    ensures
        q.send(id, body, score).wf(),
        q.send(id, body, score).has(id),
        q.send(id, body, score).attributes(qname, cutoff).totalsent == q.attributes(
            qname,
            cutoff,
        ).totalsent + 1,
        q.send(id, body, score).attributes(qname, cutoff).msgs == q.attributes(qname, cutoff).msgs
            + 1,
        q.send(id, body, score).attributes(qname, cutoff).hiddenmsgs == q.attributes(
            qname,
            cutoff,
        ).hiddenmsgs + hidden_one(score, cutoff),
        q.send(id, body, score).attributes(qname, cutoff).totalrecv == q.attributes(
            qname,
            cutoff,
        ).totalrecv,
{
    let after = q.send(id, body, score);
    assert(after.messages.drop_last() =~= q.messages);
    lemma_count_hidden_bound(q.messages, cutoff);
    lemma_count_hidden_bound(after.messages, cutoff);
}

/// A message counts as hidden at the time at which it is sent, whatever its
/// delay: its score is not below the store time of sending.
pub proof fn law_sent_message_is_hidden_at_once(ts_micros: u64, delay: u64)
    requires
        after(millis(ts_micros), delay) <= u64::MAX,
    ensures
        hidden_one(after(millis(ts_micros), delay) as u64, millis(ts_micros)) == 1,
{
}

/// A receive on a queue whose only eligible message is the one at `i`
/// delivers that message's id and body with its receive count raised by one,
/// leaves the number of messages as it is and adds one to the count of
/// received messages. The message is hidden until `expires_at`: it adds one
/// to the number of hidden messages if it did not count as hidden before and
/// the cutoff has not passed `expires_at`, and a second receive before
/// `expires_at`, with still no other message eligible, finds nothing.
pub proof fn law_receive_then_attributes(
    q: QueueState,
    qname: Seq<char>,
    i: int,
    now: u64,
    expires_at: u64,
    cutoff: u64,
    later: u64,
)
    requires
        q.wf(),
        only_eligible(q, now, i),
        q.can_deliver(now),
    ensures
        q.delivery(now) == Some(
            DeliveryState {
                id: q.messages[i].id,
                body: q.messages[i].body,
                rc: (q.messages[i].rc + 1) as u64,
                fr: if q.messages[i].rc == 0 {
                    now
                } else {
                    q.messages[i].fr
                },
            },
        ),
        q.receive(now, expires_at).wf(),
        q.receive(now, expires_at).attributes(qname, cutoff).msgs == q.attributes(
            qname,
            cutoff,
        ).msgs,
        q.receive(now, expires_at).attributes(qname, cutoff).totalrecv == q.attributes(
            qname,
            cutoff,
        ).totalrecv + 1,
        q.receive(now, expires_at).attributes(qname, cutoff).totalsent == q.attributes(
            qname,
            cutoff,
        ).totalsent,
        q.receive(now, expires_at).attributes(qname, cutoff).hiddenmsgs == q.attributes(
            qname,
            cutoff,
        ).hiddenmsgs - hidden_one(q.messages[i].score, cutoff) + hidden_one(expires_at, cutoff),
        q.messages[i].score < cutoff <= expires_at ==> q.receive(now, expires_at).attributes(
            qname,
            cutoff,
        ).hiddenmsgs == q.attributes(qname, cutoff).hiddenmsgs + 1,
        later < expires_at && only_eligible(q, later, i) ==> q.receive(now, expires_at).delivery(
            later,
        ) is None,
{
    lemma_only_eligible_is_next(q, now, i);
    let after = q.receive(now, expires_at);
    let m = MessageState { score: expires_at, ..q.received(now, i) };
    lemma_count_hidden_update(q.messages, i, m, cutoff);
    lemma_count_hidden_bound(q.messages, cutoff);
    lemma_count_hidden_bound(after.messages, cutoff);
}

/// A pop on a queue whose only eligible message is the one at `i` delivers
/// that message, takes it out of the queue and adds one to the count of
/// received messages; the number of messages falls by one, and where the
/// queue held no other message, none is left and none is hidden.
pub proof fn law_pop_then_attributes(
    q: QueueState,
    qname: Seq<char>,
    i: int,
    now: u64,
    cutoff: u64,
)
    requires
        q.wf(),
        only_eligible(q, now, i),
        q.can_deliver(now),
    ensures
        q.delivery(now) matches Some(d) && d.id == q.messages[i].id && d.body
            == q.messages[i].body,
        q.pop(now).wf(),
        !q.pop(now).has(q.messages[i].id),
        q.pop(now).attributes(qname, cutoff).msgs == q.attributes(qname, cutoff).msgs - 1,
        q.pop(now).attributes(qname, cutoff).totalrecv == q.attributes(qname, cutoff).totalrecv
            + 1,
        q.pop(now).attributes(qname, cutoff).hiddenmsgs == q.attributes(qname, cutoff).hiddenmsgs
            - hidden_one(q.messages[i].score, cutoff),
        q.messages.len() == 1 ==> q.pop(now).attributes(qname, cutoff).msgs == 0 && q.pop(
            now,
        ).attributes(qname, cutoff).hiddenmsgs == 0,
{
    lemma_only_eligible_is_next(q, now, i);
    let after = q.pop(now);
    lemma_count_hidden_remove(q.messages, i, cutoff);
    lemma_count_hidden_bound(q.messages, cutoff);
    lemma_count_hidden_bound(after.messages, cutoff);
    lemma_removed(q, i);
}

/// A change of visibility of a message that the queue holds sets its score
/// to `expires_at` and leaves everything else: the message cannot be received
/// before `expires_at`. For an id that the queue does not hold, nothing
/// changes.
pub proof fn law_change_visibility(q: QueueState, id: Seq<char>, expires_at: u64, now: u64)
    requires
        q.wf(),
    ensures
        q.change_visibility(id, expires_at).wf(),
        !q.has(id) ==> q.change_visibility(id, expires_at) == q,
        q.has(id) ==> {
            let i = q.index_of(id);
            let after = q.change_visibility(id, expires_at);
            &&& after.has(id)
            &&& after.index_of(id) == i
            &&& after.messages[i] == (MessageState { score: expires_at, ..q.messages[i] })
            &&& after.messages.len() == q.messages.len()
            &&& forall|j: int|
                0 <= j < q.messages.len() && j != i ==> #[trigger] after.messages[j]
                    == q.messages[j]
            &&& now < expires_at ==> (after.delivery(now) matches Some(d) ==> d.id != id)
        },
{
    let after = q.change_visibility(id, expires_at);
    if q.has(id) {
        lemma_index_of(after, q.index_of(id));
        if now < expires_at && after.has_eligible(now) {
            lemma_next_exists(after, now);
        }
    }
}

/// After a delete the queue does not hold the id: no receive or pop delivers
/// it, and a second delete finds nothing and changes nothing.
pub proof fn law_delete(q: QueueState, id: Seq<char>, now: u64)
    requires
        q.wf(),
    ensures
        q.delete(id).wf(),
        !q.delete(id).has(id),
        q.delete(id).delivery(now) matches Some(d) ==> d.id != id,
        q.delete(id).delete(id) == q.delete(id),
        q.has(id) ==> q.delete(id).messages.len() == q.messages.len() - 1,
{
    let after = q.delete(id);
    if q.has(id) {
        lemma_removed(q, q.index_of(id));
    }
    lemma_absent_not_delivered(after, id, now);
}

/// A message that was received is not delivered again before the time until
/// which it is hidden, whatever else the queue holds: two receives in that
/// span never hand out the same message.
pub proof fn law_received_message_is_hidden(q: QueueState, now: u64, expires_at: u64, later: u64)
    requires
        q.wf(),
        q.has_eligible(now),
        later < expires_at,
    ensures
        q.delivery(now) is Some,
        q.receive(now, expires_at).delivery(later) matches Some(d) ==> d.id != q.delivery(
            now,
        )->0.id,
{
    lemma_next_exists(q, now);
    let after = q.receive(now, expires_at);
    if after.has_eligible(later) {
        lemma_next_exists(after, later);
    }
}

/// No operation on a queue lowers one of its two counters: a send raises
/// the count of sent messages by one, a receive or a pop that delivers raises
/// the count of received messages by one, and nothing else changes either.
pub proof fn law_counters_only_grow(
    q: QueueState,
    id: Seq<char>,
    body: Seq<char>,
    score: u64,
    now: u64,
    expires_at: u64,
    vt: Option<u64>,
    delay: Option<u64>,
    maxsize: Option<i64>,
    secs: u64,
)
    requires
        can_count(q.totalsent),
        can_count(q.totalrecv),
    ensures
        read(q.send(id, body, score).totalsent) == read(q.totalsent) + 1,
        read(q.send(id, body, score).totalrecv) == read(q.totalrecv),
        read(q.receive(now, expires_at).totalsent) == read(q.totalsent),
        read(q.receive(now, expires_at).totalrecv) == read(q.totalrecv) + if q.has_eligible(now) {
            1int
        } else {
            0int
        },
        read(q.pop(now).totalsent) == read(q.totalsent),
        read(q.pop(now).totalrecv) == read(q.totalrecv) + if q.has_eligible(now) {
            1int
        } else {
            0int
        },
        read(q.change_visibility(id, expires_at).totalsent) == read(q.totalsent),
        read(q.change_visibility(id, expires_at).totalrecv) == read(q.totalrecv),
        read(q.delete(id).totalsent) == read(q.totalsent),
        read(q.delete(id).totalrecv) == read(q.totalrecv),
        read(q.set_attributes(vt, delay, maxsize).totalsent) == read(q.totalsent),
        read(q.set_attributes(vt, delay, maxsize).totalrecv) == read(q.totalrecv),
        read(q.create(read(vt), read(delay), 0, secs).totalsent) == read(q.totalsent),
        read(q.create(read(vt), read(delay), 0, secs).totalrecv) == read(q.totalrecv),
{
}

/// Writing the settings that a change of attributes has to write, one after
/// the other, is that change: the settings that are given are replaced and
/// the others stay.
pub proof fn law_writes_change_attributes(
    q: QueueState,
    vt: Option<u64>,
    delay: Option<u64>,
    maxsize: Option<i64>,
)
    ensures
        q.written(writes(vt, delay, maxsize)) == q.set_attributes(vt, delay, maxsize),
{
    let first = match vt {
        Some(v) => Some(Setting::Vt(v)),
        None => None,
    };
    let second = match delay {
        Some(d) => Some(Setting::Delay(d)),
        None => None,
    };
    let third = match maxsize {
        Some(m) => Some(Setting::Maxsize(m)),
        None => None,
    };
    let none = Seq::<Setting>::empty();
    lemma_written_with(q, none, first);
    lemma_written_with(q, appended(none, first), second);
    lemma_written_with(q, appended(appended(none, first), second), third);
}

/// While nothing is done to a queue, its attributes change with the store
/// time in one way only: a message stops being hidden once the time has
/// passed its score. Read at a later time, the number of hidden messages is
/// no larger, and it is the same if no score lies from the earlier time up to
/// the later one.
pub proof fn law_hidden_count_over_time(q: QueueState, qname: Seq<char>, earlier: u64, later: u64)
    requires
        q.wf(),
        earlier <= later,
    ensures
        q.attributes(qname, later).hiddenmsgs <= q.attributes(qname, earlier).hiddenmsgs,
        (forall|j: int|
            0 <= j < q.messages.len() ==> !(earlier <= (#[trigger] q.messages[j]).score < later))
            ==> q.attributes(qname, later) == q.attributes(qname, earlier),
{
    lemma_count_hidden_later(q.messages, earlier, later);
    lemma_count_hidden_bound(q.messages, earlier);
    lemma_count_hidden_bound(q.messages, later);
}

/// A send that succeeds under an id that the queue does not hold returns
/// the id; in attributes read at any store time up to the score of the
/// message, the count of sent messages, the number of messages and the
/// number of hidden messages are each one more than they would be without
/// the send.
pub proof fn law_send_result(
    q: QueueState,
    qname: Seq<char>,
    now_ms: u64,
    id: Seq<char>,
    body: Seq<char>,
    delay: Option<u64>,
    at: u64,
)
    requires
        q.wf(),
        q.messages.len() < usize::MAX,
        !q.has(id),
        q.send_error(now_ms, body, delay) is None,
        at <= after(now_ms, q.delay_for(delay)),
    ensures
        q.send_result(now_ms, id, body, delay) == Ok::<Seq<char>, RsmqError>(id),
        q.after_send(now_ms, id, body, delay).wf(),
        q.after_send(now_ms, id, body, delay).attributes(qname, at).totalsent == q.attributes(
            qname,
            at,
        ).totalsent + 1,
        q.after_send(now_ms, id, body, delay).attributes(qname, at).msgs == q.attributes(
            qname,
            at,
        ).msgs + 1,
        q.after_send(now_ms, id, body, delay).attributes(qname, at).hiddenmsgs == q.attributes(
            qname,
            at,
        ).hiddenmsgs + 1,
{
    law_send_then_attributes(q, qname, id, body, after(now_ms, q.delay_for(delay)) as u64, at);
}

/// A receive that succeeds on a queue whose only eligible message is the one
/// at `i` returns that message, and hides it: in attributes read at any store
/// time after the old score of the message and up to the end of the hide,
/// the number of hidden messages is one more than it would be without the
/// receive, the count of received messages is one more, and the number of
/// messages is the same.
pub proof fn law_receive_result(
    q: QueueState,
    qname: Seq<char>,
    i: int,
    now_ms: u64,
    hidefor: Option<u64>,
    at: u64,
)
    requires
        q.wf(),
        only_eligible(q, now_ms, i),
        q.receive_error(now_ms, hidefor) is None,
        q.messages[i].score < at <= after(now_ms, q.hide_for(hidefor)),
    ensures
        q.receive_result(now_ms, hidefor) == handed_out(
            Some(
                DeliveryState {
                    id: q.messages[i].id,
                    body: q.messages[i].body,
                    rc: (q.messages[i].rc + 1) as u64,
                    fr: if q.messages[i].rc == 0 {
                        now_ms
                    } else {
                        q.messages[i].fr
                    },
                },
            ),
        ),
        q.after_receive(now_ms, hidefor).attributes(qname, at).hiddenmsgs == q.attributes(
            qname,
            at,
        ).hiddenmsgs + 1,
        q.after_receive(now_ms, hidefor).attributes(qname, at).totalrecv == q.attributes(
            qname,
            at,
        ).totalrecv + 1,
        q.after_receive(now_ms, hidefor).attributes(qname, at).msgs == q.attributes(
            qname,
            at,
        ).msgs,
{
    law_receive_then_attributes(
        q,
        qname,
        i,
        now_ms,
        after(now_ms, q.hide_for(hidefor)) as u64,
        at,
        now_ms,
    );
}

/// After a receive on a queue whose only eligible message is the one at `i`,
/// a second receive before the end of the hide, with still no other message
/// eligible, returns nothing and changes nothing, provided that the time
/// until which it would hide a message is in range.
pub proof fn law_second_receive_finds_nothing(
    q: QueueState,
    i: int,
    now_ms: u64,
    hidefor: Option<u64>,
    later_ms: u64,
    hidefor_then: Option<u64>,
)
    requires
        q.wf(),
        only_eligible(q, now_ms, i),
        q.receive_error(now_ms, hidefor) is None,
        later_ms < after(now_ms, q.hide_for(hidefor)),
        forall|j: int|
            0 <= j < q.messages.len() && j != i ==> (#[trigger] q.messages[j]).score > later_ms,
        after(later_ms, q.hide_for(hidefor_then)) <= u64::MAX,
    ensures
        q.after_receive(now_ms, hidefor).receive_result(later_ms, hidefor_then) == Ok::<
            Option<MessageView>,
            RsmqError,
        >(None),
        q.after_receive(now_ms, hidefor).after_receive(later_ms, hidefor_then) == q.after_receive(
            now_ms,
            hidefor,
        ),
{
    lemma_only_eligible_is_next(q, now_ms, i);
}

/// A pop that succeeds on a queue whose only eligible message is the one at
/// `i` returns that message and takes it out; a second pop at that time
/// returns nothing.
pub proof fn law_pop_result(q: QueueState, i: int, now_ms: u64)
    requires
        q.wf(),
        only_eligible(q, now_ms, i),
        q.can_deliver(now_ms),
    ensures
        q.pop_result(now_ms) == handed_out(
            Some(
                DeliveryState {
                    id: q.messages[i].id,
                    body: q.messages[i].body,
                    rc: (q.messages[i].rc + 1) as u64,
                    fr: if q.messages[i].rc == 0 {
                        now_ms
                    } else {
                        q.messages[i].fr
                    },
                },
            ),
        ),
        q.after_pop(now_ms).messages == q.messages.remove(i),
        q.after_pop(now_ms).pop_result(now_ms) == Ok::<Option<MessageView>, RsmqError>(None),
{
    lemma_only_eligible_is_next(q, now_ms, i);
}

/// A change of visibility whose new time of expiry is in range returns that
/// time and sets the score of the message to it, if the queue holds the
/// message; if not, it returns nothing and changes nothing. Where the time
/// is out of range it fails and changes nothing, whether or not the queue
/// holds the message.
pub proof fn law_change_visibility_result(q: QueueState, id: Seq<char>, now_ms: u64, hidefor: u64)
    requires
        q.wf(),
    ensures
        after(now_ms, hidefor) <= u64::MAX && !q.has(id) ==> q.change_result(now_ms, id, hidefor)
            == Ok::<Option<u64>, RsmqError>(None) && q.after_change(now_ms, id, hidefor) == q,
        after(now_ms, hidefor) <= u64::MAX && q.has(id) ==> q.change_result(now_ms, id, hidefor)
            == Ok::<Option<u64>, RsmqError>(Some(after(now_ms, hidefor) as u64)) && q.after_change(
            now_ms,
            id,
            hidefor,
        ).messages[q.index_of(id)].score == after(now_ms, hidefor),
        after(now_ms, hidefor) > u64::MAX ==> q.change_result(now_ms, id, hidefor) == Err::<
            Option<u64>,
            RsmqError,
        >(RsmqError::TimeOverflow) && q.after_change(now_ms, id, hidefor) == q,
{
}

/// A message sent at a time of `STAMP_LEN` base-36 digits is handed out with
/// exactly that time as the time of sending, whatever its suffix.
pub proof fn law_sent_round_trip(ts: nat, suffix: Seq<char>, body: Seq<char>, rc: u64, fr: u64)
    requires
        pow36((STAMP_LEN - 1) as nat) <= ts < pow36(STAMP_LEN as nat),
    ensures
        assembled(base36(ts) + suffix, body, rc, fr) == Ok::<MessageView, RsmqError>(
            MessageView { id: base36(ts) + suffix, message: body, rc, fr, sent: ts as u64 },
        ),
        ts <= u64::MAX,
{
    law_id_round_trip(ts, suffix);
    crate::ident::lemma_pow36_ten();
}

} // verus!
