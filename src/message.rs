//! The head of an application message.
use vstd::prelude::*;

verus! {

/// Who sent a message to whom, and of which kind it is.
pub struct MessageHead {
    pub from_uin: u64,
    pub to_uin: u64,
    pub msg_type: i32,
}

/// The kinds of message, with their numbers on the wire.
#[derive(Debug, Clone, Copy, PartialEq, Eq, Structural)]
pub enum MessageHeadType {
    Troop,
}

/// The wire number of a kind of message.
pub open spec fn message_type_number(t: MessageHeadType) -> i32 {
    match t {
        MessageHeadType::Troop => 82,
    }
}

impl MessageHeadType {
    /// The wire number of this kind.
    pub fn value(&self) -> (r: i32)
        ensures
            r == message_type_number(*self),
    {
        match self {
            MessageHeadType::Troop => 82,
        }
    }

    /// The kind with wire number `v`, if there is one.
    pub fn from_i32(v: i32) -> (r: Option<MessageHeadType>)
        ensures
            r matches Some(t) ==> message_type_number(t) == v,
            r is None ==> v != 82,
    {
        if v == 82 {
            Some(MessageHeadType::Troop)
        } else {
            None
        }
    }
}

} // verus!
