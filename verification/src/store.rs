//! The storage of one queue and the atomic steps on it. Each step either
//! applies in full or leaves the queue as it was.

use vstd::prelude::*;
use crate::error::RsmqError;
use crate::laws::law_writes_change_attributes;
use crate::lemmas::{lemma_count_hidden_push, lemma_next_is};
use crate::plan::{settings_to_write, Setting};
use crate::model::{can_count, count_hidden, DeliveryState, MessageState, QueueState};
use crate::queue::{Queue, StoredFields};

verus! {

/// A message in storage.
#[derive(Debug)]
pub struct StoredMessage {
    id: String,
    body: String,
    score: u64,
    rc: u64,
    fr: u64,
}

impl View for StoredMessage {
    type V = MessageState;

    closed spec fn view(&self) -> MessageState {
        MessageState { id: self.id@, body: self.body@, score: self.score, rc: self.rc, fr: self.fr }
    }
}

/// A message as a receive or a pop hands it out.
#[derive(Debug)]
pub struct Delivery {
    pub id: String,
    pub body: String,
    pub rc: u64,
    pub fr: u64,
}

impl View for Delivery {
    type V = DeliveryState;

    open spec fn view(&self) -> DeliveryState {
        DeliveryState { id: self.id@, body: self.body@, rc: self.rc, fr: self.fr }
    }
}

/// The stored state of one queue.
#[derive(Debug)]
pub struct QueueData {
    vt: Option<u64>,
    delay: Option<u64>,
    maxsize: Option<i64>,
    totalrecv: Option<u64>,
    totalsent: Option<u64>,
    created: Option<u64>,
    modified: Option<u64>,
    messages: Vec<StoredMessage>,
}

impl View for QueueData {
    type V = QueueState;

    closed spec fn view(&self) -> QueueState {
        QueueState {
            vt: self.vt,
            delay: self.delay,
            maxsize: self.maxsize,
            totalrecv: self.totalrecv,
            totalsent: self.totalsent,
            created: self.created,
            modified: self.modified,
            messages: Seq::new(self.messages@.len(), |i: int| self.messages@[i]@),
        }
    }
}

impl QueueData {
    /// Storage that holds nothing.
    pub fn new() -> (q: QueueData)
        ensures
            q@ == QueueState::empty(),
            q@.wf(),
    {
        let q = QueueData {
            vt: None,
            delay: None,
            maxsize: None,
            totalrecv: None,
            totalsent: None,
            created: None,
            modified: None,
            messages: Vec::new(),
        };
        q
    }

    /// Storage with the given settings and counters and no messages.
    pub fn from_stored(stored: StoredFields) -> (q: QueueData)
        ensures
            q@ == (QueueState {
                vt: stored.vt,
                delay: stored.delay,
                maxsize: stored.maxsize,
                totalrecv: stored.totalrecv,
                totalsent: stored.totalsent,
                created: stored.created,
                modified: stored.modified,
                messages: Seq::empty(),
            }),
            q@.wf(),
    {
        let q = QueueData {
            vt: stored.vt,
            delay: stored.delay,
            maxsize: stored.maxsize,
            totalrecv: stored.totalrecv,
            totalsent: stored.totalsent,
            created: stored.created,
            modified: stored.modified,
            messages: Vec::new(),
        };
        q
    }

    /// Creates the queue at `secs`: writes each setting, zero counters and
    /// the time, each only where nothing is stored yet.
    pub fn create(&mut self, vt: u64, delay: u64, maxsize: i64, secs: u64)
        ensures
            final(self)@ == old(self)@.create(vt, delay, maxsize, secs),
    {
        if self.vt.is_none() {
            self.vt = Some(vt);
        }
        if self.delay.is_none() {
            self.delay = Some(delay);
        }
        if self.maxsize.is_none() {
            self.maxsize = Some(maxsize);
        }
        if self.totalrecv.is_none() {
            self.totalrecv = Some(0);
        }
        if self.totalsent.is_none() {
            self.totalsent = Some(0);
        }
        if self.created.is_none() {
            self.created = Some(secs);
        }
        if self.modified.is_none() {
            self.modified = Some(secs);
        }
    }

    /// Writes one setting.
    pub fn write(&mut self, setting: Setting)
        ensures
            final(self)@ == old(self)@.write(setting),
    {
        match setting {
            Setting::Vt(v) => {
                self.vt = Some(v);
            },
            Setting::Delay(d) => {
                self.delay = Some(d);
            },
            Setting::Maxsize(m) => {
                self.maxsize = Some(m);
            },
        }
    }

    /// Writes the settings that are given and leaves the others.
    pub fn set_attributes(&mut self, vt: Option<u64>, delay: Option<u64>, maxsize: Option<i64>)
        ensures
            final(self)@ == old(self)@.set_attributes(vt, delay, maxsize),
    {
        let settings = settings_to_write(vt, delay, maxsize);
        let n = settings.len();
        let mut i: usize = 0;
        while i < n
            invariant
                n == settings@.len(),
                i <= n,
                self@ == old(self)@.written(settings@.subrange(0, i as int)),
            decreases n - i,
        {
            assert(settings@.subrange(0, i + 1).drop_last() =~= settings@.subrange(0, i as int));
            self.write(settings[i]);
            i += 1;
        }
        proof {
            assert(settings@.subrange(0, n as int) =~= settings@);
            law_writes_change_attributes(old(self)@, vt, delay, maxsize);
        }
    }

    /// The settings and counters as they are stored.
    pub fn stored(&self) -> (s: StoredFields)
        ensures
            s.vt == self@.vt,
            s.delay == self@.delay,
            s.maxsize == self@.maxsize,
            s.totalrecv == self@.totalrecv,
            s.totalsent == self@.totalsent,
            s.created == self@.created,
            s.modified == self@.modified,
    {
        StoredFields {
            vt: self.vt,
            delay: self.delay,
            maxsize: self.maxsize,
            totalrecv: self.totalrecv,
            totalsent: self.totalsent,
            created: self.created,
            modified: self.modified,
        }
    }

    /// The attributes of the queue under the name `qname`: settings and
    /// counters as stored, the number of messages, and the number of those
    /// whose score is at least `cutoff`.
    pub fn attributes(&self, qname: &str, cutoff: u64) -> (q: Queue)
        ensures
            q@ == self@.attributes(qname@, cutoff),
    {
        let n = self.messages.len();
        let mut hidden: u64 = 0;
        let mut i: usize = 0;
        while i < n
            invariant
                n == self.messages@.len(),
                i <= n,
                hidden == count_hidden(self@.messages.subrange(0, i as int), cutoff),
                hidden <= i,
            decreases n - i,
        {
            proof {
                let before = self@.messages.subrange(0, i as int);
                lemma_count_hidden_push(before, self@.messages[i as int], cutoff);
                assert(before.push(self@.messages[i as int]) =~= self@.messages.subrange(
                    0,
                    i + 1,
                ));
            }
            if self.messages[i].score >= cutoff {
                hidden += 1;
            }
            i += 1;
        }
        assert(self@.messages.subrange(0, n as int) =~= self@.messages);
        Queue::from_stored(qname, self.stored(), n as u64, hidden)
    }

    /// The place of the message with the given id, if it is stored.
    fn position(&self, id: &String) -> (r: Option<usize>)
        requires
            self@.wf(),
        ensures
            match r {
                Some(i) => self@.has(id@) && self@.index_of(id@) == i && i < self@.messages.len(),
                None => !self@.has(id@),
            },
    {
        let n = self.messages.len();
        let mut i: usize = 0;
        while i < n
            invariant
                n == self.messages@.len(),
                i <= n,
                self@.wf(),
                forall|j: int| 0 <= j < i ==> (#[trigger] self@.messages[j]).id != id@,
            decreases n - i,
        {
            if self.messages[i].id == *id {
                assert(self@.messages[i as int].id == id@);
                return Some(i);
            }
            i += 1;
        }
        None
    }

    /// Stores a message under `id` with the given score, or gives the message
    /// that is stored under `id` the new body and score, and counts one more
    /// message sent. Fails, and changes nothing, if the counter is at its
    /// maximum.
    pub fn send(&mut self, id: String, body: String, score: u64) -> (r: Result<(), RsmqError>)
        requires
            old(self)@.wf(),
        ensures
            final(self)@.wf(),
            can_count(old(self)@.totalsent) ==> r is Ok && final(self)@ == old(self)@.send(
                id@,
                body@,
                score,
            ),
            !can_count(old(self)@.totalsent) ==> r == Err::<(), RsmqError>(
                RsmqError::CounterOverflow,
            ) && final(self)@ == old(self)@,
    {
        let sent: u64 = match self.totalsent { Some(v) => v, None => 0 };
        if sent == u64::MAX {
            return Err(RsmqError::CounterOverflow);
        }
        let ghost before = self@;
        match self.position(&id) {
            Some(i) => {
                self.messages[i].body = body;
                self.messages[i].score = score;
            },
            None => {
                self.messages.push(StoredMessage { id, body, score, rc: 0, fr: 0 });
            },
        }
        // Reading the length shows that it fits a machine word.
        let _ = self.messages.len();
        self.totalsent = Some(sent + 1);
        assert(self@ =~= before.send(id@, body@, score));
        Ok(())
    }

    /// Sets the score of the message with the given id to `expires_at`, if
    /// there is such a message, and returns the number of messages whose score
    /// it set.
    pub fn change_visibility(&mut self, id: &str, expires_at: u64) -> (changed: u8)
        requires
            old(self)@.wf(),
        ensures
            final(self)@.wf(),
            changed == (if old(self)@.has(id@) {
                1u8
            } else {
                0u8
            }),
            final(self)@ == old(self)@.change_visibility(id@, expires_at),
    {
        let key = id.to_owned();
        let ghost before = self@;
        match self.position(&key) {
            Some(i) => {
                self.messages[i].score = expires_at;
                assert(self@ =~= before.change_visibility(id@, expires_at));
                1
            },
            None => 0,
        }
    }

    /// Removes the message with the given id and what is kept with it.
    /// Returns the number of entries removed from the ordered set and the
    /// number of fields removed with it.
    pub fn delete(&mut self, id: &str) -> (counts: (u32, u32))
        requires
            old(self)@.wf(),
        ensures
            final(self)@.wf(),
            counts == old(self)@.delete_counts(id@),
            final(self)@ == old(self)@.delete(id@),
    {
        let key = id.to_owned();
        let ghost before = self@;
        match self.position(&key) {
            Some(i) => {
                let m = self.messages.remove(i);
                assert(self@ =~= before.delete(id@));
                (1, if m.rc > 0 { 3 } else { 1 })
            },
            None => (0, 0),
        }
    }

    /// The place of the message that is to be delivered at `now`: of the
    /// messages with a score of at most `now`, the one with the lowest score,
    /// and of several with that score the one stored first. That last rule
    /// is this storage's own; another store may order equal scores otherwise.
    fn next_eligible(&self, now: u64) -> (r: Option<usize>)
        ensures
            match r {
                Some(i) => self@.has_eligible(now) && self@.next(now) == i && i
                    < self@.messages.len(),
                None => !self@.has_eligible(now),
            },
    {
        let n = self.messages.len();
        let mut best: Option<usize> = None;
        let mut i: usize = 0;
        while i < n
            invariant
                n == self.messages@.len(),
                i <= n,
                match best {
                    Some(b) => {
                        &&& b < i
                        &&& self@.messages[b as int].score <= now
                        &&& forall|j: int|
                            0 <= j < i ==> {
                                let other = #[trigger] self@.messages[j];
                                if j < b {
                                    other.score > self@.messages[b as int].score
                                } else {
                                    other.score >= self@.messages[b as int].score
                                }
                            }
                    },
                    None => forall|j: int| 0 <= j < i ==> (#[trigger] self@.messages[j]).score > now,
                },
            decreases n - i,
        {
            let score = self.messages[i].score;
            if score <= now {
                match best {
                    Some(b) => {
                        if score < self.messages[b].score {
                            best = Some(i);
                        }
                    },
                    None => {
                        best = Some(i);
                    },
                }
            }
            i += 1;
        }
        proof {
            match best {
                Some(b) => {
                    lemma_next_is(self@, now, b as int);
                },
                None => {},
            }
        }
        best
    }

    /// Delivers the next message at `now`, if there is one, and hides it
    /// until `expires_at`: counts the receive for the queue and for the
    /// message and, on the first receive of the message, notes `now` as the
    /// time of it. The message stays in the queue. Fails, and changes
    /// nothing, if one of the two counters is at its maximum.
    pub fn receive(&mut self, now: u64, expires_at: u64) -> (r: Result<Option<Delivery>, RsmqError>)
        requires
            old(self)@.wf(),
        ensures
            final(self)@.wf(),
            match r {
                Ok(Some(d)) => old(self)@.can_deliver(now) && old(self)@.delivery(now) == Some(d@),
                Ok(None) => old(self)@.can_deliver(now) && old(self)@.delivery(now) is None,
                Err(e) => !old(self)@.can_deliver(now) && e == RsmqError::CounterOverflow,
            },
            final(self)@ == (if r is Ok {
                old(self)@.receive(now, expires_at)
            } else {
                old(self)@
            }),
    {
        let ghost before = self@;
        match self.next_eligible(now) {
            None => Ok(None),
            Some(i) => {
                let recv: u64 = match self.totalrecv { Some(v) => v, None => 0 };
                let rc = self.messages[i].rc;
                if recv == u64::MAX || rc == u64::MAX {
                    return Err(RsmqError::CounterOverflow);
                }
                if rc == 0 {
                    self.messages[i].fr = now;
                }
                self.messages[i].rc = rc + 1;
                self.messages[i].score = expires_at;
                self.totalrecv = Some(recv + 1);
                let d = Delivery {
                    id: self.messages[i].id.clone(),
                    body: self.messages[i].body.clone(),
                    rc: rc + 1,
                    fr: self.messages[i].fr,
                };
                assert(self@ =~= before.receive(now, expires_at));
                Ok(Some(d))
            },
        }
    }

    /// Delivers the next message at `now`, if there is one, and removes it
    /// together with what is kept with it; counts the receive for the queue.
    /// Fails, and changes nothing, if a counter is at its maximum.
    pub fn pop(&mut self, now: u64) -> (r: Result<Option<Delivery>, RsmqError>)
        requires
            old(self)@.wf(),
        ensures
            final(self)@.wf(),
            match r {
                Ok(Some(d)) => old(self)@.can_deliver(now) && old(self)@.delivery(now) == Some(d@),
                Ok(None) => old(self)@.can_deliver(now) && old(self)@.delivery(now) is None,
                Err(e) => !old(self)@.can_deliver(now) && e == RsmqError::CounterOverflow,
            },
            final(self)@ == (if r is Ok {
                old(self)@.pop(now)
            } else {
                old(self)@
            }),
    {
        let ghost before = self@;
        match self.next_eligible(now) {
            None => Ok(None),
            Some(i) => {
                let recv: u64 = match self.totalrecv { Some(v) => v, None => 0 };
                let rc = self.messages[i].rc;
                if recv == u64::MAX || rc == u64::MAX {
                    return Err(RsmqError::CounterOverflow);
                }
                let m = self.messages.remove(i);
                self.totalrecv = Some(recv + 1);
                let d = Delivery {
                    id: m.id,
                    body: m.body,
                    rc: rc + 1,
                    fr: if rc == 0 { now } else { m.fr },
                };
                assert(self@ =~= before.pop(now));
                Ok(Some(d))
            },
        }
    }
}

} // verus!
