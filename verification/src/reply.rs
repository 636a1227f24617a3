//! Reading what the store answers: the reply of the receive and pop steps,
//! and the counts that the delete, create and visibility steps return.

use vstd::prelude::*;
use crate::error::RsmqError;
use crate::model::DeliveryState;
use crate::queue::{agrees, handed_out, Message, MessageView};
use crate::rsmq::CreateOutcome;

verus! {

/// Number of fields in the reply that describes a delivered message: id,
/// body, receive count, time of first receive.
pub const REPLY_FIELDS: usize = 4;

/// One field of a reply, as text and as a number, each where the field can
/// be read that way.
#[derive(Debug)]
pub struct Field {
    pub text: Option<String>,
    pub number: Option<u64>,
}

/// The content of a `Field`.
pub struct FieldView {
    pub text: Option<Seq<char>>,
    pub number: Option<u64>,
}

impl View for Field {
    type V = FieldView;

    open spec fn view(&self) -> FieldView {
        FieldView {
            text: match self.text {
                Some(t) => Some(t@),
                None => None,
            },
            number: self.number,
        }
    }
}

/// The reply of a receive or pop step.
#[derive(Debug)]
pub enum ScriptReply {
    /// A list of fields.
    Fields(Vec<Field>),
    /// Anything else.
    Other,
}

/// The fields of a reply, if it is a list.
pub open spec fn fields_of(reply: &ScriptReply) -> Option<Seq<FieldView>> {
    match reply {
        ScriptReply::Fields(items) => Some(Seq::new(items@.len(), |i: int| items@[i]@)),
        ScriptReply::Other => None,
    }
}

/// What a list of reply fields delivers: nothing if it is empty; else the
/// message whose id, body, receive count and time of first receive are its
/// first four fields. `None` if there are fewer fields than that or one
/// cannot be read as what it has to be.
pub open spec fn delivered(fields: Seq<FieldView>) -> Option<Option<DeliveryState>> {
    if fields.len() == 0 {
        Some(None)
    } else if fields.len() < REPLY_FIELDS {
        None
    } else {
        match (fields[0].text, fields[1].text, fields[2].number, fields[3].number) {
            (Some(id), Some(body), Some(rc), Some(fr)) => Some(
                Some(DeliveryState { id, body, rc, fr }),
            ),
            _ => None,
        }
    }
}

/// The message that a reply holds: `MalformedReply` if the reply is no list
/// or its fields do not describe a delivery; else nothing for an empty list,
/// and otherwise the message with the time of sending read from its id, or
/// `MalformedId`.
pub open spec fn message_of(reply: &ScriptReply) -> Result<Option<MessageView>, RsmqError> {
    match fields_of(reply) {
        None => Err(RsmqError::MalformedReply),
        Some(fields) => match delivered(fields) {
            None => Err(RsmqError::MalformedReply),
            Some(delivery) => handed_out(delivery),
        },
    }
}

/// Reads the message out of the reply of a receive or pop step.
pub fn message_from_reply(reply: &ScriptReply) -> (r: Result<Option<Message>, RsmqError>)
    ensures
        agrees(r, message_of(reply)),
{
    match reply {
        ScriptReply::Other => Err(RsmqError::MalformedReply),
        ScriptReply::Fields(items) => {
            let ghost fields = fields_of(reply)->0;
            if items.len() == 0 {
                return Ok(None);
            }
            if items.len() < REPLY_FIELDS {
                return Err(RsmqError::MalformedReply);
            }
            assert(fields[0] == items@[0]@ && fields[1] == items@[1]@ && fields[2] == items@[2]@
                && fields[3] == items@[3]@);
            let id = match &items[0].text {
                Some(t) => t.clone(),
                None => {
                    return Err(RsmqError::MalformedReply);
                },
            };
            let body = match &items[1].text {
                Some(t) => t.clone(),
                None => {
                    return Err(RsmqError::MalformedReply);
                },
            };
            let rc = match items[2].number {
                Some(n) => n,
                None => {
                    return Err(RsmqError::MalformedReply);
                },
            };
            let fr = match items[3].number {
                Some(n) => n,
                None => {
                    return Err(RsmqError::MalformedReply);
                },
            };
            match Message::assemble(id, body, rc, fr) {
                Ok(m) => Ok(Some(m)),
                Err(e) => Err(e),
            }
        },
    }
}

/// Whether a delete step deleted a message, from the number of entries it
/// removed from the ordered set and the number of hash fields it removed:
/// it did if the entry and at least one field were there.
pub fn delete_outcome(removed: u32, fields_removed: u32) -> (deleted: bool)
    ensures
        deleted == (removed == 1 && fields_removed > 0),
{
    removed == 1 && fields_removed > 0
}

/// What a change of visibility gives, from the number of messages whose
/// score the step set: the new time of expiry if it set one, else nothing.
pub fn visibility_outcome(changed: u8, expires_at: u64) -> (r: Option<u64>)
    ensures
        r == (if changed == 1 {
            Some(expires_at)
        } else {
            None
        }),
{
    if changed == 1 {
        Some(expires_at)
    } else {
        None
    }
}

/// What a create step found, from the number of names it added to the set
/// of known queues.
pub fn create_outcome(added: u8) -> (outcome: CreateOutcome)
    ensures
        outcome == (if added == 0 {
            CreateOutcome::AlreadyExisted
        } else {
            CreateOutcome::Created
        }),
{
    if added == 0 {
        CreateOutcome::AlreadyExisted
    } else {
        CreateOutcome::Created
    }
}

} // verus!
