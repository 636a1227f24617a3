//! The names under which a queue's data is kept in the store. All of them
//! begin with the namespace, so that several deployments can share a store.

use vstd::prelude::*;
use vstd::string::*;

verus! {

/// The namespace that is used where none is given.
pub open spec fn default_namespace() -> Seq<char> {
    "rsmq"@
}

/// The namespace in effect: the given one, or the default if it is empty.
pub open spec fn namespace_of(name_space: Seq<char>) -> Seq<char> {
    if name_space.len() == 0 {
        default_namespace()
    } else {
        name_space
    }
}

/// The key of the ordered set of a queue's messages.
pub open spec fn zset_key(name_space: Seq<char>, qname: Seq<char>) -> Seq<char> {
    name_space + ":"@ + qname
}

/// The key of the hash of a queue's settings, counters and message fields.
pub open spec fn hash_key(name_space: Seq<char>, qname: Seq<char>) -> Seq<char> {
    zset_key(name_space, qname) + ":Q"@
}

/// The key of the set of known queue names.
pub open spec fn registry_key(name_space: Seq<char>) -> Seq<char> {
    name_space + ":QUEUES"@
}

/// The hash field that counts the receives of the message `id`.
pub open spec fn rc_field(id: Seq<char>) -> Seq<char> {
    id + ":rc"@
}

/// The hash field that holds the time of the first receive of `id`.
pub open spec fn fr_field(id: Seq<char>) -> Seq<char> {
    id + ":fr"@
}

/// The namespace in effect for a client made with `name_space`.
pub fn effective_namespace(name_space: &str) -> (ns: String)
    ensures
        ns@ == namespace_of(name_space@),
{
    if name_space.is_empty() {
        String::from_str("rsmq")
    } else {
        String::from_str(name_space)
    }
}

/// The key of the ordered set of the messages of `qname`.
pub fn message_zset_key(name_space: &str, qname: &str) -> (key: String)
    ensures
        key@ == zset_key(name_space@, qname@),
{
    let mut key = String::from_str(name_space);
    key.append(":");
    key.append(qname);
    key
}

/// The key of the hash of `qname`.
pub fn queue_hash_key(name_space: &str, qname: &str) -> (key: String)
    ensures
        key@ == hash_key(name_space@, qname@),
{
    let mut key = message_zset_key(name_space, qname);
    key.append(":Q");
    key
}

/// The key of the set of known queue names.
pub fn queues_key(name_space: &str) -> (key: String)
    ensures
        key@ == registry_key(name_space@),
{
    let mut key = String::from_str(name_space);
    key.append(":QUEUES");
    key
}

/// The hash field that counts the receives of the message `id`.
pub fn receive_count_field(id: &str) -> (field: String)
    ensures
        field@ == rc_field(id@),
{
    let mut field = String::from_str(id);
    field.append(":rc");
    field
}

/// The hash field that holds the time of the first receive of `id`.
pub fn first_receive_field(id: &str) -> (field: String)
    ensures
        field@ == fr_field(id@),
{
    let mut field = String::from_str(id);
    field.append(":fr");
    field
}

} // verus!
