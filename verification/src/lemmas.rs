//! Lemmas about the model of a queue, on which the executable code and the
//! laws rest.

use vstd::prelude::*;
use crate::model::{count_hidden, hidden_one, only_eligible, MessageState, QueueState};
use crate::plan::{appended, Setting};

verus! {

/// At most one message is the next to deliver.
pub proof fn lemma_next_unique(q: QueueState, now: u64, i: int, k: int)
    requires
        q.is_next(now, i),
        q.is_next(now, k),
    ensures
        i == k,
{
}

/// The message found to be next is the one that the model names.
pub proof fn lemma_next_is(q: QueueState, now: u64, i: int)
    requires
        q.is_next(now, i),
    ensures
        q.has_eligible(now),
        q.next(now) == i,
{
    lemma_next_unique(q, now, i, q.next(now));
}

/// Among the first `n` messages, the place of the one to deliver at `now`,
/// or -1 if none of them is eligible.
proof fn lemma_best(q: QueueState, now: u64, n: int) -> (b: int)
    requires
        0 <= n <= q.messages.len(),
    ensures
        -1 <= b < n,
        b == -1 ==> forall|j: int| 0 <= j < n ==> (#[trigger] q.messages[j]).score > now,
        b >= 0 ==> q.messages[b].score <= now && forall|j: int|
            0 <= j < n ==> {
                let other = #[trigger] q.messages[j];
                if j < b {
                    other.score > q.messages[b].score
                } else {
                    other.score >= q.messages[b].score
                }
            },
    decreases n,
{
    if n == 0 {
        -1
    } else {
        let b = lemma_best(q, now, n - 1);
        let last = q.messages[n - 1];
        if last.score <= now && (b == -1 || last.score < q.messages[b].score) {
            n - 1
        } else {
            b
        }
    }
}

/// Where a message is eligible, one of the eligible messages is the next.
pub proof fn lemma_next_exists(q: QueueState, now: u64)
    requires
        q.has_eligible(now),
    ensures
        q.is_next(now, q.next(now)),
{
    let b = lemma_best(q, now, q.messages.len() as int);
    assert(q.is_next(now, b));
}

/// Counting one more message at the end.
pub proof fn lemma_count_hidden_push(msgs: Seq<MessageState>, m: MessageState, cutoff: u64)
    ensures
        count_hidden(msgs.push(m), cutoff) == count_hidden(msgs, cutoff) + if m.score >= cutoff {
            1nat
        } else {
            0nat
        },
        count_hidden(msgs, cutoff) <= msgs.len(),
    decreases msgs.len(),
{
    assert(msgs.push(m).drop_last() =~= msgs);
    if msgs.len() > 0 {
        lemma_count_hidden_push(msgs.drop_last(), msgs.last(), cutoff);
    }
}

/// The hidden messages are among the messages.
pub proof fn lemma_count_hidden_bound(msgs: Seq<MessageState>, cutoff: u64)
    ensures
        count_hidden(msgs, cutoff) <= msgs.len(),
    decreases msgs.len(),
{
    if msgs.len() > 0 {
        lemma_count_hidden_bound(msgs.drop_last(), cutoff);
    }
}

/// Replacing one message changes the hidden count by that message alone.
pub proof fn lemma_count_hidden_update(
    msgs: Seq<MessageState>,
    i: int,
    m: MessageState,
    cutoff: u64,
)
    requires
        0 <= i < msgs.len(),
    ensures
        count_hidden(msgs.update(i, m), cutoff) == count_hidden(msgs, cutoff) - hidden_one(
            msgs[i].score,
            cutoff,
        ) + hidden_one(m.score, cutoff),
    decreases msgs.len(),
{
    let changed = msgs.update(i, m);
    if i == msgs.len() - 1 {
        assert(changed.drop_last() =~= msgs.drop_last());
    } else {
        assert(changed.drop_last() =~= msgs.drop_last().update(i, m));
        lemma_count_hidden_update(msgs.drop_last(), i, m, cutoff);
    }
}

/// Removing one message lowers the hidden count by that message alone.
pub proof fn lemma_count_hidden_remove(msgs: Seq<MessageState>, i: int, cutoff: u64)
    requires
        0 <= i < msgs.len(),
    ensures
        count_hidden(msgs.remove(i), cutoff) == count_hidden(msgs, cutoff) - hidden_one(
            msgs[i].score,
            cutoff,
        ),
    decreases msgs.len(),
{
    if i < msgs.len() - 1 {
        assert(msgs.remove(i).drop_last() =~= msgs.drop_last().remove(i));
        lemma_count_hidden_remove(msgs.drop_last(), i, cutoff);
    }
}

/// With a later cutoff no more messages are hidden, and as many as before
/// if no score lies from the earlier cutoff up to the later one.
pub proof fn lemma_count_hidden_later(msgs: Seq<MessageState>, earlier: u64, later: u64)
    requires
        earlier <= later,
    ensures
        count_hidden(msgs, later) <= count_hidden(msgs, earlier),
        (forall|j: int| 0 <= j < msgs.len() ==> !(earlier <= (#[trigger] msgs[j]).score < later))
            ==> count_hidden(msgs, later) == count_hidden(msgs, earlier),
    decreases msgs.len(),
{
    if msgs.len() > 0 {
        lemma_count_hidden_later(msgs.drop_last(), earlier, later);
        if forall|j: int| 0 <= j < msgs.len() ==> !(earlier <= (#[trigger] msgs[j]).score < later) {
            assert forall|j: int| 0 <= j < msgs.drop_last().len() implies !(earlier <= (
            #[trigger] msgs.drop_last()[j]).score < later) by {
                assert(msgs.drop_last()[j] == msgs[j]);
            }
        }
    }
}

/// Writing one more setting, if one is given, after the others.
pub proof fn lemma_written_with(q: QueueState, settings: Seq<Setting>, setting: Option<Setting>)
    ensures
        q.written(appended(settings, setting)) == (match setting {
            Some(s) => q.written(settings).write(s),
            None => q.written(settings),
        }),
{
    match setting {
        Some(s) => {
            assert(settings.push(s).drop_last() =~= settings);
        },
        None => {},
    }
}

/// The only eligible message is the next one.
pub proof fn lemma_only_eligible_is_next(q: QueueState, now: u64, i: int)
    requires
        only_eligible(q, now, i),
    ensures
        q.has_eligible(now),
        q.next(now) == i,
{
    lemma_next_is(q, now, i);
}

/// Where the message with the id of the message at `i` is found.
pub proof fn lemma_index_of(q: QueueState, i: int)
    requires
        q.wf(),
        0 <= i < q.messages.len(),
    ensures
        q.has(q.messages[i].id),
        q.index_of(q.messages[i].id) == i,
{
}

/// Without the message at `i` the queue is sound and does not hold that
/// message's id.
pub proof fn lemma_removed(q: QueueState, i: int)
    requires
        q.wf(),
        0 <= i < q.messages.len(),
    ensures
        (QueueState { messages: q.messages.remove(i), ..q }).wf(),
        !(QueueState { messages: q.messages.remove(i), ..q }).has(q.messages[i].id),
{
}

/// What a queue does not hold, it does not deliver.
pub proof fn lemma_absent_not_delivered(q: QueueState, id: Seq<char>, now: u64)
    requires
        !q.has(id),
    ensures
        q.delivery(now) matches Some(d) ==> d.id != id,
{
    if q.has_eligible(now) {
        lemma_next_exists(q, now);
    }
}

} // verus!
