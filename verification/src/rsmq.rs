//! The message queue: named queues in one namespace, a clock, and the
//! operations on them. Each operation reads the clock once, derives its
//! times from that reading, and applies one atomic step to one queue.
//!
//! No operation asks whether its queue was ever created. A queue that
//! nothing was written to reads as zeros and holds no message; a write to it
//! stores what it writes and nothing else, and does not add the name to the
//! known queues.

use vstd::prelude::*;
use crate::error::RsmqError;
use crate::ident::{base36, is_id_for, is_suffix, make_id, make_id_22};
use crate::keys::{effective_namespace, hash_key, namespace_of, zset_key};
use crate::model::{read, read_signed, QueueState, QueueView};
use crate::plan::{describe, hide_until, send_score};
use crate::queue::{agrees, handed_out, Message, Queue};
use crate::reply::{create_outcome, delete_outcome, visibility_outcome};
use crate::store::{Delivery, QueueData};
use crate::timing::{millis, seconds, to_millis, to_seconds, visible_at};

verus! {

/// What `create_queue` found.
#[derive(Clone, Copy, Debug, PartialEq, Eq, Structural)]
pub enum CreateOutcome {
    /// The name was not among the known queues and is now.
    Created,
    /// The name was among the known queues already.
    AlreadyExisted,
}

/// A queue's storage under its name.
#[derive(Debug)]
struct Slot {
    name: String,
    data: QueueData,
}

/// The message queue.
#[derive(Debug)]
pub struct Rsmq {
    name_space: String,
    /// Store time in microseconds.
    clock: u64,
    /// The names of the known queues, each once.
    known: Vec<String>,
    /// The storage of the queues that hold anything, each name once.
    slots: Vec<Slot>,
}

impl Rsmq {
    /// The namespace of this queue system.
    pub closed spec fn namespace(&self) -> Seq<char> {
        self.name_space@
    }

    /// The store time in microseconds.
    pub closed spec fn now(&self) -> u64 {
        self.clock
    }

    /// The names of the known queues, in the order of their creation.
    pub closed spec fn known(&self) -> Seq<Seq<char>> {
        Seq::new(self.known@.len(), |i: int| self.known@[i]@)
    }

    spec fn holds(&self, name: Seq<char>) -> bool {
        exists|i: int| 0 <= i < self.slots@.len() && (#[trigger] self.slots@[i]).name@ == name
    }

    spec fn slot_of(&self, name: Seq<char>) -> int {
        choose|i: int| 0 <= i < self.slots@.len() && (#[trigger] self.slots@[i]).name@ == name
    }

    /// The state of the queue called `name`; the empty state if nothing is
    /// stored under that name.
    pub closed spec fn queue(&self, name: Seq<char>) -> QueueState {
        if self.holds(name) {
            self.slots@[self.slot_of(name)].data@
        } else {
            QueueState::empty()
        }
    }

    /// The representation is sound: no name is stored twice, no queue holds
    /// an id twice.
    pub closed spec fn wf(&self) -> bool {
        &&& forall|i: int, j: int|
            0 <= i < j < self.slots@.len() ==> (#[trigger] self.slots@[i]).name@ != (
            #[trigger] self.slots@[j]).name@
        &&& forall|i: int| 0 <= i < self.slots@.len() ==> (#[trigger] self.slots@[i]).data@.wf()
        &&& self.known().no_duplicates()
    }

    /// Everything but the queue called `qname` is as in `before`.
    pub open spec fn same_but(&self, before: &Rsmq, qname: Seq<char>) -> bool {
        &&& self.namespace() == before.namespace()
        &&& self.now() == before.now()
        &&& self.known() == before.known()
        &&& forall|n: Seq<char>| n != qname ==> #[trigger] self.queue(n) == before.queue(n)
    }

    /// In a sound queue system every queue is sound and no name is listed
    /// twice.
    pub proof fn lemma_wf(&self, name: Seq<char>)
        requires
            self.wf(),
        ensures
            self.queue(name).wf(),
            self.known().no_duplicates(),
    {
    }

    proof fn lemma_queue_at(&self, i: int)
        requires
            self.wf(),
            0 <= i < self.slots@.len(),
        ensures
            self.holds(self.slots@[i].name@),
            self.queue(self.slots@[i].name@) == self.slots@[i].data@,
    {
    }

    /// A change to the data of the slot at `i` alone changes no other queue.
    proof fn lemma_frame(&self, before: &Rsmq, i: int)
        requires
            before.wf(),
            0 <= i < before.slots@.len(),
            self.slots@.len() == before.slots@.len(),
            forall|j: int|
                0 <= j < self.slots@.len() ==> (#[trigger] self.slots@[j]).name@
                    == before.slots@[j].name@,
            forall|j: int|
                0 <= j < self.slots@.len() && j != i ==> (#[trigger] self.slots@[j]).data@
                    == before.slots@[j].data@,
            self.slots@[i].data@.wf(),
            self.known() == before.known(),
        ensures
            self.wf(),
            self.queue(before.slots@[i].name@) == self.slots@[i].data@,
            forall|n: Seq<char>|
                n != before.slots@[i].name@ ==> #[trigger] self.queue(n) == before.queue(n),
    {
        self.lemma_queue_at(i);
        assert forall|n: Seq<char>| n != before.slots@[i].name@ implies #[trigger] self.queue(n)
            == before.queue(n) by {
            if self.holds(n) {
                let j = self.slot_of(n);
                before.lemma_queue_at(j);
                self.lemma_queue_at(j);
            } else {
                if before.holds(n) {
                    let j = before.slot_of(n);
                    assert(self.slots@[j].name@ == n);
                }
            }
        }
    }

    /// A queue system in the given namespace, or in the default namespace
    /// if that is empty, with no queues and the clock at zero.
    pub fn new(name_space: &str) -> (rsmq: Rsmq)
        ensures
            rsmq.wf(),
            rsmq.namespace() == namespace_of(name_space@),
            rsmq.now() == 0,
            rsmq.known() == Seq::<Seq<char>>::empty(),
            forall|n: Seq<char>| #[trigger] rsmq.queue(n) == QueueState::empty(),
    {
        Rsmq {
            name_space: effective_namespace(name_space),
            clock: 0,
            known: Vec::new(),
            slots: Vec::new(),
        }
    }

    /// Moves the clock to `ts_micros`, unless that lies in the past, and says
    /// whether it did.
    pub fn set_time(&mut self, ts_micros: u64) -> (moved: bool)
        requires
            old(self).wf(),
        ensures
            final(self).wf(),
            moved == (ts_micros >= old(self).now()),
            final(self).now() == (if moved {
                ts_micros
            } else {
                old(self).now()
            }),
            final(self).namespace() == old(self).namespace(),
            final(self).known() == old(self).known(),
            forall|n: Seq<char>| #[trigger] final(self).queue(n) == old(self).queue(n),
    {
        if ts_micros >= self.clock {
            self.clock = ts_micros;
            true
        } else {
            false
        }
    }

    /// The place where the queue called `name` is stored, if it is.
    fn find_slot(&self, name: &String) -> (r: Option<usize>)
        requires
            self.wf(),
        ensures
            match r {
                Some(i) => i < self.slots@.len() && self.slots@[i as int].name@ == name@
                    && self.queue(name@) == self.slots@[i as int].data@,
                None => !self.holds(name@) && self.queue(name@) == QueueState::empty(),
            },
    {
        let n = self.slots.len();
        let mut i: usize = 0;
        while i < n
            invariant
                n == self.slots@.len(),
                i <= n,
                self.wf(),
                forall|j: int| 0 <= j < i ==> (#[trigger] self.slots@[j]).name@ != name@,
            decreases n - i,
        {
            if self.slots[i].name == *name {
                proof {
                    self.lemma_queue_at(i as int);
                }
                return Some(i);
            }
            i += 1;
        }
        None
    }

    /// The place where the queue called `name` is stored; empty storage is
    /// set up for it if there was none.
    fn slot_for(&mut self, name: &str) -> (i: usize)
        requires
            old(self).wf(),
        ensures
            final(self).wf(),
            i < final(self).slots@.len(),
            final(self).slots@[i as int].name@ == name@,
            final(self).slots@[i as int].data@ == old(self).queue(name@),
            final(self).namespace() == old(self).namespace(),
            final(self).now() == old(self).now(),
            final(self).known() == old(self).known(),
            forall|n: Seq<char>| #[trigger] final(self).queue(n) == old(self).queue(n),
    {
        let key = name.to_owned();
        match self.find_slot(&key) {
            Some(i) => i,
            None => {
                let ghost before = *self;
                let i = self.slots.len();
                self.slots.push(Slot { name: key, data: QueueData::new() });
                proof {
                    assert forall|n: Seq<char>| #[trigger] self.queue(n) == before.queue(n) by {
                        if n == name@ {
                            self.lemma_queue_at(i as int);
                        } else if self.holds(n) {
                            let j = self.slot_of(n);
                            before.lemma_queue_at(j);
                            self.lemma_queue_at(j);
                        } else {
                            if before.holds(n) {
                                let j = before.slot_of(n);
                                assert(self.slots@[j].name@ == n);
                            }
                        }
                    }
                }
                i
            },
        }
    }

    /// The attributes of the queue called `qname`: its settings and counters
    /// as stored (zero where nothing is stored), the number of its messages,
    /// and the number of those that are hidden, which are the messages with a
    /// score of at least the store time.
    pub fn get_queue_attributes(&self, qname: &str) -> (r: Result<Queue, RsmqError>)
        requires
            self.wf(),
        ensures
            r matches Ok(q) && q@ == self.queue(qname@).attributes(qname@, millis(self.now())),
    {
        let key = qname.to_owned();
        let at = to_millis(self.clock);
        match self.find_slot(&key) {
            Some(i) => Ok(self.slots[i].data.attributes(qname, at)),
            None => Ok(QueueData::new().attributes(qname, at)),
        }
    }

    /// What the settings of a queue in state `q` read as, under the name
    /// `qname`: the stored settings, everything else as in a fresh
    /// description.
    pub open spec fn settings(q: QueueState, qname: Seq<char>) -> QueueView {
        QueueView {
            qname,
            vt: read(q.vt),
            delay: read(q.delay),
            maxsize: read_signed(q.maxsize),
            totalrecv: 0,
            totalsent: 0,
            created: 0,
            modified: 0,
            msgs: 0,
            hiddenmsgs: 0,
        }
    }

    /// Reads the settings of the queue called `qname` and the store time in
    /// milliseconds in one step and, if `set_uid` is set, makes an id for a
    /// new message from that same reading of the time.
    pub fn get_queue(&self, qname: &str, set_uid: bool) -> (r: Result<
        (Queue, u64, Option<String>),
        RsmqError,
    >)
        requires
            self.wf(),
        ensures
            r matches Ok((q, ts, uid)) && {
                &&& q@ == Self::settings(self.queue(qname@), qname@)
                &&& ts == millis(self.now())
                &&& set_uid ==> (uid matches Some(id) && is_id_for(id@, self.now() as nat))
                &&& !set_uid ==> uid is None
            },
    {
        let key = qname.to_owned();
        let stored = match self.find_slot(&key) {
            Some(i) => self.slots[i].data.stored(),
            None => QueueData::new().stored(),
        };
        Ok(describe(qname, stored.vt, stored.delay, stored.maxsize, self.clock, set_uid))
    }

    /// Deletes the message `msgid` from the queue called `qname`, with what
    /// is kept with it, and says whether it was there: whether its entry and
    /// at least one field were removed.
    pub fn delete_message(&mut self, qname: &str, msgid: &str) -> (r: Result<bool, RsmqError>)
        requires
            old(self).wf(),
        ensures
            final(self).wf(),
            final(self).same_but(old(self), qname@),
            final(self).queue(qname@) == old(self).queue(qname@).delete(msgid@),
            r == Ok::<bool, RsmqError>(old(self).queue(qname@).has(msgid@)),
    {
        let i = self.slot_for(qname);
        let ghost mid = *self;
        let (removed, fields_removed) = self.slots[i].data.delete(msgid);
        proof {
            self.lemma_frame(&mid, i as int);
        }
        Ok(delete_outcome(removed, fields_removed))
    }

    /// Sends `message` to the queue called `qname` under the id made of the
    /// store time and `suffix`, to become visible after `delay` seconds, or
    /// after the queue's own delay where none is given. Returns the id.
    /// Nothing is written if the send fails.
    pub fn send_message_as(
        &mut self,
        qname: &str,
        message: &str,
        delay: Option<u64>,
        suffix: &str,
    ) -> (r: Result<String, RsmqError>)
        requires
            old(self).wf(),
        ensures
            final(self).wf(),
            final(self).same_but(old(self), qname@),
            Self::sent(old(self), final(self), qname@, message@, delay, suffix@, r),
    {
        let (q, ts) = match self.get_queue(qname, false) {
            Ok((q, ts, _)) => (q, ts),
            Err(e) => {
                return Err(e);
            },
        };
        let id = make_id(self.clock, suffix);
        let score = match send_score(&q, ts, message, delay) {
            Err(e) => {
                return Err(e);
            },
            Ok(score) => score,
        };
        let i = self.slot_for(qname);
        let ghost mid = *self;
        let sent = self.slots[i].data.send(id.clone(), String::from_str(message), score);
        proof {
            self.lemma_frame(&mid, i as int);
        }
        match sent {
            Err(e) => Err(e),
            Ok(_) => Ok(id),
        }
    }

    /// What a send of `message` under the id with `suffix` does to the queue
    /// called `qname` and returns.
    pub open spec fn sent(
        before: &Rsmq,
        after_it: &Rsmq,
        qname: Seq<char>,
        message: Seq<char>,
        delay: Option<u64>,
        suffix: Seq<char>,
        r: Result<String, RsmqError>,
    ) -> bool {
        let q = before.queue(qname);
        let now_ms = millis(before.now());
        let id = base36(before.now() as nat) + suffix;
        &&& after_it.queue(qname) == q.after_send(now_ms, id, message, delay)
        &&& match q.send_result(now_ms, id, message, delay) {
            Ok(given) => r matches Ok(s) && s@ == given,
            Err(e) => r matches Err(f) && f == e,
        }
    }

    /// Sends `message` to the queue called `qname` under a new id with a
    /// random suffix. See `send_message_as`.
    pub fn send_message(&mut self, qname: &str, message: &str, delay: Option<u64>) -> (r: Result<
        String,
        RsmqError,
    >)
        requires
            old(self).wf(),
        ensures
            final(self).wf(),
            final(self).same_but(old(self), qname@),
            exists|suffix: Seq<char>|
                is_suffix(suffix) && #[trigger] Self::sent(
                    old(self),
                    final(self),
                    qname@,
                    message@,
                    delay,
                    suffix,
                    r,
                ),
    {
        let suffix = make_id_22();
        self.send_message_as(qname, message, delay, suffix.as_str())
    }

    /// Creates the queue that `opts` names: writes its settings, zero
    /// counters and the store time in seconds, each only where nothing is
    /// stored yet, and adds the name to the known queues.
    pub fn create_queue(&mut self, opts: Queue) -> (r: Result<CreateOutcome, RsmqError>)
        requires
            old(self).wf(),
        ensures
            final(self).wf(),
            final(self).namespace() == old(self).namespace(),
            final(self).now() == old(self).now(),
            forall|n: Seq<char>|
                n != opts.qname@ ==> #[trigger] final(self).queue(n) == old(self).queue(n),
            final(self).queue(opts.qname@) == old(self).queue(opts.qname@).create(
                opts.vt,
                opts.delay,
                opts.maxsize,
                seconds(old(self).now()),
            ),
            old(self).known().contains(opts.qname@) ==> final(self).known() == old(self).known()
                && r == Ok::<CreateOutcome, RsmqError>(CreateOutcome::AlreadyExisted),
            !old(self).known().contains(opts.qname@) ==> final(self).known() == old(self).known().push(opts.qname@) && r == Ok::<CreateOutcome, RsmqError>(
                CreateOutcome::Created,
            ),
    {
        let ghost before = *self;
        let i = self.slot_for(opts.qname.as_str());
        let ghost mid = *self;
        let secs = to_seconds(self.clock);
        self.slots[i].data.create(opts.vt, opts.delay, opts.maxsize, secs);
        proof {
            self.lemma_frame(&mid, i as int);
        }
        let ghost inner = *self;
        let added: u8 = match self.find_known(&opts.qname) {
            Some(_) => 0,
            None => {
                self.known.push(opts.qname);
                proof {
                    assert(self.known() =~= before.known().push(opts.qname@));
                    self.lemma_known_changed(&inner);
                }
                1
            },
        };
        Ok(create_outcome(added))
    }

    /// The place of `name` among the known queues, if it is one.
    fn find_known(&self, name: &String) -> (r: Option<usize>)
        requires
            self.wf(),
        ensures
            match r {
                Some(i) => i < self.known().len() && self.known()[i as int] == name@
                    && self.known().contains(name@) && self.known().index_of(name@) == i,
                None => !self.known().contains(name@),
            },
    {
        let n = self.known.len();
        let mut i: usize = 0;
        while i < n
            invariant
                n == self.known@.len(),
                n == self.known().len(),
                i <= n,
                self.wf(),
                forall|j: int| 0 <= j < i ==> #[trigger] self.known()[j] != name@,
            decreases n - i,
        {
            if self.known[i] == *name {
                assert(self.known()[i as int] == name@);
                return Some(i);
            }
            i += 1;
        }
        None
    }

    /// A change of the list of known queues alone changes no queue.
    proof fn lemma_known_changed(&self, before: &Rsmq)
        requires
            before.wf(),
            self.slots == before.slots,
            self.known().no_duplicates(),
        ensures
            self.wf(),
            forall|n: Seq<char>| #[trigger] self.queue(n) == before.queue(n),
    {
    }

    /// Writes the given settings of the queue called `qname`, leaves the
    /// others, and returns the queue's attributes as they then are.
    pub fn set_queue_attributes(
        &mut self,
        qname: &str,
        vt: Option<u64>,
        delay: Option<u64>,
        maxsize: Option<i64>,
    ) -> (r: Result<Queue, RsmqError>)
        requires
            old(self).wf(),
        ensures
            final(self).wf(),
            final(self).same_but(old(self), qname@),
            final(self).queue(qname@) == old(self).queue(qname@).set_attributes(vt, delay, maxsize),
            r matches Ok(q) && q@ == final(self).queue(qname@).attributes(
                qname@,
                millis(old(self).now()),
            ),
    {
        let i = self.slot_for(qname);
        let ghost mid = *self;
        self.slots[i].data.set_attributes(vt, delay, maxsize);
        proof {
            self.lemma_frame(&mid, i as int);
        }
        self.get_queue_attributes(qname)
    }

    /// Hands the delivered message to the receiver, with the time of sending
    /// read from its id.
    fn hand_out(delivery: Option<Delivery>) -> (r: Result<Option<Message>, RsmqError>)
        ensures
            agrees(
                r,
                handed_out(
                    match delivery {
                        Some(d) => Some(d@),
                        None => None,
                    },
                ),
            ),
    {
        match delivery {
            None => Ok(None),
            Some(d) => match Message::assemble(d.id, d.body, d.rc, d.fr) {
                Ok(m) => Ok(Some(m)),
                Err(e) => Err(e),
            },
        }
    }

    /// Receives the next message of the queue called `qname`: of the messages
    /// whose score is at most the store time, the one with the lowest score.
    /// The message stays in the queue and is hidden for `hidefor` seconds, or
    /// for the queue's visibility timeout where none is given. `None` if no
    /// message is visible now.
    ///
    /// If the id of the message carries no timestamp, the message is hidden
    /// and counted all the same, and `MalformedId` is returned.
    pub fn receive_message(&mut self, qname: &str, hidefor: Option<u64>) -> (r: Result<
        Option<Message>,
        RsmqError,
    >)
        requires
            old(self).wf(),
        ensures
            final(self).wf(),
            final(self).same_but(old(self), qname@),
            final(self).queue(qname@) == old(self).queue(qname@).after_receive(
                millis(old(self).now()),
                hidefor,
            ),
            agrees(r, old(self).queue(qname@).receive_result(millis(old(self).now()), hidefor)),
    {
        let (q, ts) = match self.get_queue(qname, false) {
            Ok((q, ts, _)) => (q, ts),
            Err(e) => {
                return Err(e);
            },
        };
        let expires_at = match hide_until(&q, ts, hidefor) {
            Err(e) => {
                return Err(e);
            },
            Ok(at) => at,
        };
        let i = self.slot_for(qname);
        let ghost mid = *self;
        let received = self.slots[i].data.receive(ts, expires_at);
        proof {
            self.lemma_frame(&mid, i as int);
        }
        match received {
            Err(e) => Err(e),
            Ok(delivery) => Self::hand_out(delivery),
        }
    }

    /// Hides the message `msgid` of the queue called `qname` for `hidefor`
    /// seconds from now and returns the time in milliseconds at which it
    /// becomes visible again; `None`, and nothing changed, if the queue has
    /// no such message.
    pub fn change_message_visibility(&mut self, qname: &str, msgid: &str, hidefor: u64) -> (r:
        Result<Option<u64>, RsmqError>)
        requires
            old(self).wf(),
        ensures
            final(self).wf(),
            final(self).same_but(old(self), qname@),
            final(self).queue(qname@) == old(self).queue(qname@).after_change(
                millis(old(self).now()),
                msgid@,
                hidefor,
            ),
            r == old(self).queue(qname@).change_result(millis(old(self).now()), msgid@, hidefor),
    {
        let i = self.slot_for(qname);
        let ghost mid = *self;
        let expires_at = match visible_at(to_millis(self.clock), hidefor) {
            Err(e) => {
                return Err(e);
            },
            Ok(at) => at,
        };
        let changed = self.slots[i].data.change_visibility(msgid, expires_at);
        proof {
            self.lemma_frame(&mid, i as int);
        }
        Ok(visibility_outcome(changed, expires_at))
    }

    /// Receives the next message of the queue called `qname` and deletes it
    /// in the same step. `None` if no message is visible now.
    ///
    /// If the id of the message carries no timestamp, the message is deleted
    /// and counted all the same, and `MalformedId` is returned.
    pub fn pop_message(&mut self, qname: &str) -> (r: Result<Option<Message>, RsmqError>)
        requires
            old(self).wf(),
        ensures
            final(self).wf(),
            final(self).same_but(old(self), qname@),
            final(self).queue(qname@) == old(self).queue(qname@).after_pop(millis(old(self).now())),
            agrees(r, old(self).queue(qname@).pop_result(millis(old(self).now()))),
    {
        let i = self.slot_for(qname);
        let ghost mid = *self;
        let popped = self.slots[i].data.pop(to_millis(self.clock));
        proof {
            self.lemma_frame(&mid, i as int);
        }
        match popped {
            Err(e) => Err(e),
            Ok(delivery) => Self::hand_out(delivery),
        }
    }

    /// Deletes the queue called `qname`: its settings and counters, its
    /// messages, and its name among the known queues. Succeeds also where
    /// there was no such queue.
    pub fn delete_queue(&mut self, qname: &str) -> (r: Result<(), RsmqError>)
        requires
            old(self).wf(),
        ensures
            final(self).wf(),
            r is Ok,
            final(self).namespace() == old(self).namespace(),
            final(self).now() == old(self).now(),
            forall|n: Seq<char>|
                n != qname@ ==> #[trigger] final(self).queue(n) == old(self).queue(n),
            final(self).queue(qname@) == QueueState::empty(),
            !final(self).known().contains(qname@),
            final(self).known() == (if old(self).known().contains(qname@) {
                old(self).known().remove(old(self).known().index_of(qname@))
            } else {
                old(self).known()
            }),
    {
        let key = qname.to_owned();
        let ghost before = *self;
        match self.find_slot(&key) {
            Some(i) => {
                let _ = self.slots.remove(i);
                proof {
                    self.lemma_slot_removed(&before, i as int);
                }
            },
            None => {},
        }
        let ghost mid = *self;
        match self.find_known(&key) {
            Some(k) => {
                let _ = self.known.remove(k);
                proof {
                    assert forall|a: int, b: int|
                        0 <= a < self.known().len() && 0 <= b < self.known().len() && a
                            != b implies self.known()[a] != self.known()[b] by {
                        let a0 = if a < k { a } else { a + 1 };
                        let b0 = if b < k { b } else { b + 1 };
                        assert(mid.known()[a0] != mid.known()[b0]);
                    }
                    assert forall|a: int| 0 <= a < self.known().len() implies self.known()[a]
                        != qname@ by {
                        let a0 = if a < k { a } else { a + 1 };
                        assert(mid.known()[a0] != mid.known()[k as int]);
                    }
                    self.lemma_known_changed(&mid);
                }
            },
            None => {},
        }
        Ok(())
    }

    /// Without the slot at `i`, the queue stored there is empty and the
    /// others are as before.
    proof fn lemma_slot_removed(&self, before: &Rsmq, i: int)
        requires
            before.wf(),
            0 <= i < before.slots@.len(),
            self.slots@ == before.slots@.remove(i),
            self.known() == before.known(),
        ensures
            self.wf(),
            self.queue(before.slots@[i].name@) == QueueState::empty(),
            forall|n: Seq<char>|
                n != before.slots@[i].name@ ==> #[trigger] self.queue(n) == before.queue(n),
    {
        let old_at = |a: int| if a < i { a } else { a + 1 };
        let gone = before.slots@[i].name@;
        assert forall|n: Seq<char>| n != gone implies #[trigger] self.queue(n) == before.queue(
            n,
        ) by {
            if self.holds(n) {
                let j = self.slot_of(n);
                before.lemma_queue_at(old_at(j));
                self.lemma_queue_at(j);
            } else {
                if before.holds(n) {
                    let j = before.slot_of(n);
                    let j1 = if j < i { j } else { j - 1 };
                    assert(self.slots@[j1].name@ == n);
                }
            }
        }
    }

    /// The names of the known queues.
    pub fn list_queues(&self) -> (r: Result<Vec<String>, RsmqError>)
        requires
            self.wf(),
        ensures
            r matches Ok(names) && names@.len() == self.known().len() && forall|i: int|
                0 <= i < names@.len() ==> (#[trigger] names@[i])@ == self.known()[i],
    {
        let n = self.known.len();
        let mut names: Vec<String> = Vec::new();
        let mut i: usize = 0;
        while i < n
            invariant
                n == self.known@.len(),
                n == self.known().len(),
                i <= n,
                names@.len() == i,
                forall|j: int| 0 <= j < i ==> (#[trigger] names@[j])@ == self.known()[j],
            decreases n - i,
        {
            names.push(self.known[i].clone());
            i += 1;
        }
        Ok(names)
    }

    /// The store key of the hash of the queue called `qname`.
    pub fn queue_hash_key(&self, qname: &str) -> (key: String)
        ensures
            key@ == hash_key(self.namespace(), qname@),
    {
        crate::keys::queue_hash_key(self.name_space.as_str(), qname)
    }

    /// The store key of the ordered set of the messages of `qname`.
    pub fn message_zset_key(&self, qname: &str) -> (key: String)
        ensures
            key@ == zset_key(self.namespace(), qname@),
    {
        crate::keys::message_zset_key(self.name_space.as_str(), qname)
    }
}

} // verus!
