use vstd::prelude::*;
use crate::port::message::{Message, message_of_byte};

verus! {

/// What a raw port request asks for: invoking the application with the given
/// index, or nothing.
#[derive(Clone, Copy, PartialEq, Eq, Structural, Debug)]
pub enum Action {
    Invoke(u8),
    Nothing,
}

/// The action a request stands for.
pub open spec fn action_of(value: Seq<u8>) -> Action {
    if message_of_byte(value[0]) == Message::Invoke {
        Action::Invoke(value[1])
    } else {
        Action::Nothing
    }
}

impl Action {
    /// Reads a request: an `Invoke` message byte followed by the index.  A
    /// request needs its message byte, and an invocation its index byte.
    pub fn from(value: &[u8]) -> (a: Action)
        requires
            value@.len() >= 1,
            message_of_byte(value@[0]) == Message::Invoke ==> value@.len() >= 2,
        ensures
            a == action_of(value@),
    {
        let message = Message::from(value[0]);
        match message {
            Message::Invoke => Action::Invoke(value[1]),
            _ => Action::Nothing,
        }
    }
}

} // verus!
