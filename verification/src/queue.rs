//! The records that callers exchange with the queue: a queue's attributes
//! and a delivered message.

use vstd::prelude::*;
use crate::error::RsmqError;
use crate::ident::{decode_sent, sent_of};
use crate::model::{read, read_signed, DeliveryState, QueueView};

verus! {

/// Default visibility timeout of a queue, in seconds.
pub const DEFAULT_VT: u64 = 30;

/// Default delivery delay of a queue, in seconds.
pub const DEFAULT_DELAY: u64 = 0;

/// Default limit on the size of a message body, in bytes.
pub const DEFAULT_MAXSIZE: i64 = 65536;

/// The value of `maxsize` that stands for "no limit".
pub const UNLIMITED: i64 = -1;

/// A queue's configuration, its counters and its live statistics.
#[derive(Clone, Debug)]
pub struct Queue {
    pub qname: String,
    /// Seconds a received message stays hidden.
    pub vt: u64,
    /// Seconds a newly sent message stays invisible.
    pub delay: u64,
    /// Largest accepted body in bytes, or `UNLIMITED`.
    pub maxsize: i64,
    pub totalrecv: u64,
    pub totalsent: u64,
    /// Store time of creation, in seconds.
    pub created: u64,
    /// Store time noted at creation as that of the last change, in seconds.
    pub modified: u64,
    /// Messages currently in the queue.
    pub msgs: u64,
    /// Messages that are in flight or still delayed.
    pub hiddenmsgs: u64,
}

impl View for Queue {
    type V = QueueView;

    open spec fn view(&self) -> QueueView {
        QueueView {
            qname: self.qname@,
            vt: self.vt,
            delay: self.delay,
            maxsize: self.maxsize,
            totalrecv: self.totalrecv,
            totalsent: self.totalsent,
            created: self.created,
            modified: self.modified,
            msgs: self.msgs,
            hiddenmsgs: self.hiddenmsgs,
        }
    }
}

impl Queue {
    /// A queue description with the given name; an omitted setting takes its
    /// default, counters and statistics start at zero.
    pub fn new(qname: &str, vt: Option<u64>, delay: Option<u64>, maxsize: Option<i64>) -> (q: Queue)
        ensures
            q.qname@ == qname@,
            q.vt == (if vt is Some { vt->0 } else { DEFAULT_VT }),
            q.delay == (if delay is Some { delay->0 } else { DEFAULT_DELAY }),
            q.maxsize == (if maxsize is Some { maxsize->0 } else { DEFAULT_MAXSIZE }),
            q.totalrecv == 0,
            q.totalsent == 0,
            q.created == 0,
            q.modified == 0,
            q.msgs == 0,
            q.hiddenmsgs == 0,
    {
        let mut q = Queue::default();
        q.qname = qname.to_owned();
        q.vt = match vt { Some(v) => v, None => DEFAULT_VT };
        q.delay = match delay { Some(v) => v, None => DEFAULT_DELAY };
        q.maxsize = match maxsize { Some(v) => v, None => DEFAULT_MAXSIZE };
        q
    }
}

/// What is stored of a queue's settings and counters; a field that was
/// never written is `None`.
#[derive(Clone, Copy, Debug)]
pub struct StoredFields {
    pub vt: Option<u64>,
    pub delay: Option<u64>,
    pub maxsize: Option<i64>,
    pub totalrecv: Option<u64>,
    pub totalsent: Option<u64>,
    pub created: Option<u64>,
    pub modified: Option<u64>,
}

impl Queue {
    /// The attributes of the queue called `qname` from what is stored of it
    /// and the two counts of its messages. A field that is not stored reads
    /// as zero.
    pub fn from_stored(qname: &str, stored: StoredFields, msgs: u64, hiddenmsgs: u64) -> (q: Queue)
        ensures
            q@ == (QueueView {
                qname: qname@,
                vt: read(stored.vt),
                delay: read(stored.delay),
                maxsize: read_signed(stored.maxsize),
                totalrecv: read(stored.totalrecv),
                totalsent: read(stored.totalsent),
                created: read(stored.created),
                modified: read(stored.modified),
                msgs,
                hiddenmsgs,
            }),
    {
        Queue {
            qname: qname.to_owned(),
            vt: match stored.vt { Some(v) => v, None => 0 },
            delay: match stored.delay { Some(v) => v, None => 0 },
            maxsize: match stored.maxsize { Some(v) => v, None => 0 },
            totalrecv: match stored.totalrecv { Some(v) => v, None => 0 },
            totalsent: match stored.totalsent { Some(v) => v, None => 0 },
            created: match stored.created { Some(v) => v, None => 0 },
            modified: match stored.modified { Some(v) => v, None => 0 },
            msgs,
            hiddenmsgs,
        }
    }

    /// The settings of the queue called `qname` from what is stored of them;
    /// everything else as in a fresh description.
    pub fn from_settings(qname: &str, vt: Option<u64>, delay: Option<u64>, maxsize: Option<i64>) -> (q:
        Queue)
        ensures
            q@ == (QueueView {
                qname: qname@,
                vt: read(vt),
                delay: read(delay),
                maxsize: read_signed(maxsize),
                totalrecv: 0,
                totalsent: 0,
                created: 0,
                modified: 0,
                msgs: 0,
                hiddenmsgs: 0,
            }),
    {
        let mut q = Queue::default();
        q.qname = qname.to_owned();
        q.vt = match vt { Some(v) => v, None => 0 };
        q.delay = match delay { Some(v) => v, None => 0 };
        q.maxsize = match maxsize { Some(v) => v, None => 0 };
        q
    }
}

impl Default for Queue {
    fn default() -> (q: Queue)
        ensures
            q.qname@ == Seq::<char>::empty(),
            q.vt == DEFAULT_VT,
            q.delay == DEFAULT_DELAY,
            q.maxsize == DEFAULT_MAXSIZE,
            q.totalrecv == 0,
            q.totalsent == 0,
            q.created == 0,
            q.modified == 0,
            q.msgs == 0,
            q.hiddenmsgs == 0,
    {
        Queue {
            qname: String::new(),
            vt: DEFAULT_VT,
            delay: DEFAULT_DELAY,
            maxsize: DEFAULT_MAXSIZE,
            totalrecv: 0,
            totalsent: 0,
            created: 0,
            modified: 0,
            msgs: 0,
            hiddenmsgs: 0,
        }
    }
}

/// A message as it is handed to a receiver.
#[derive(Clone, Debug)]
pub struct Message {
    pub id: String,
    pub message: String,
    /// Number of times the message has been received, this time included.
    pub rc: u64,
    /// Store time in milliseconds of the first receive.
    pub fr: u64,
    /// Store time in microseconds at which the message was sent.
    pub sent: u64,
}

/// The content of a `Message`.
pub struct MessageView {
    pub id: Seq<char>,
    pub message: Seq<char>,
    pub rc: u64,
    pub fr: u64,
    pub sent: u64,
}

impl View for Message {
    type V = MessageView;

    open spec fn view(&self) -> MessageView {
        MessageView {
            id: self.id@,
            message: self.message@,
            rc: self.rc,
            fr: self.fr,
            sent: self.sent,
        }
    }
}

/// The message with the given fields, if the id carries a timestamp.
pub open spec fn assembled(id: Seq<char>, message: Seq<char>, rc: u64, fr: u64) -> Result<
    MessageView,
    RsmqError,
> {
    match sent_of(id) {
        Some(sent) => Ok(MessageView { id, message, rc, fr, sent: sent as u64 }),
        None => Err(RsmqError::MalformedId),
    }
}

/// What a receiver is given for what the queue delivers: nothing where
/// nothing was delivered, else the assembled message, or the error of
/// assembling it.
pub open spec fn handed_out(delivery: Option<DeliveryState>) -> Result<
    Option<MessageView>,
    RsmqError,
> {
    match delivery {
        None => Ok(None),
        Some(d) => match assembled(d.id, d.body, d.rc, d.fr) {
            Ok(m) => Ok(Some(m)),
            Err(e) => Err(e),
        },
    }
}

/// Whether the result `r` holds what `expected` describes.
pub open spec fn agrees(
    r: Result<Option<Message>, RsmqError>,
    expected: Result<Option<MessageView>, RsmqError>,
) -> bool {
    match expected {
        Ok(Some(v)) => r matches Ok(Some(m)) && m@ == v,
        Ok(None) => r matches Ok(None),
        Err(e) => r matches Err(f) && f == e,
    }
}

impl Message {
    /// An empty message.
    pub fn new() -> (m: Message)
        ensures
            m@ == (MessageView {
                id: Seq::<char>::empty(),
                message: Seq::<char>::empty(),
                rc: 0,
                fr: 0,
                sent: 0,
            }),
    {
        Message { id: String::new(), message: String::new(), sent: 0, fr: 0, rc: 0 }
    }

    /// The message with the given fields; the time of sending is read from
    /// the id.
    pub fn assemble(id: String, message: String, rc: u64, fr: u64) -> (r: Result<Message, RsmqError>)
        ensures
            match assembled(id@, message@, rc, fr) {
                Ok(v) => r matches Ok(m) && m@ == v,
                Err(e) => r matches Err(f) && f == e,
            },
    {
        match decode_sent(id.as_str()) {
            Ok(sent) => {
                let mut m = Message::new();
                m.id = id;
                m.message = message;
                m.rc = rc;
                m.fr = fr;
                m.sent = sent;
                Ok(m)
            },
            Err(e) => Err(e),
        }
    }
}

} // verus!
