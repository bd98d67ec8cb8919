//! The backend's reply values, as a closed tagged union.
use vstd::prelude::*;

verus! {

/// A reply value usable as a member of a set or as the key of a map.
#[derive(Debug, Clone, PartialEq)]
pub enum ReplyKey {
    Integer(i64),
    String(String),
    BinaryBlob(Vec<u8>),
    Boolean(bool),
}

/// Every shape a command reply can take.
#[derive(Debug, PartialEq)]
pub enum ReplyValue {
    Null,
    NoReply,
    Boolean(bool),
    Integer(i64),
    /// A double, held as its IEEE 754 bit pattern.
    Float(u64),
    SimpleString(String),
    BulkString(String),
    BinaryBlob(Vec<u8>),
    BigNumber(String),
    /// A verbatim string, held as its debug rendering (format hint included).
    VerbatimString(String),
    Error(String),
    Array(Vec<ReplyValue>),
    /// Members in the order the backend produced them; no order is promised.
    UnorderedSet(Vec<ReplyKey>),
    /// Entries in the order the backend produced them; no order is promised.
    UnorderedMap(Vec<(ReplyKey, ReplyValue)>),
    OrderedMap(Vec<(ReplyKey, ReplyValue)>),
    OrderedSet(Vec<ReplyKey>),
}

} // verus!
