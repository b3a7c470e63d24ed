use vstd::prelude::*;

verus! {

/// Message codes of the raw port protocol.
#[derive(Clone, Copy, PartialEq, Eq, Structural, Debug)]
pub enum Message {
    Invoke,
    Okay,
    Unknown,
}

pub open spec fn message_of_byte(b: u8) -> Message {
    if b == 1 {
        Message::Invoke
    } else if b == 2 {
        Message::Okay
    } else {
        Message::Unknown
    }
}

pub open spec fn byte_of_message(m: Message) -> u8 {
    match m {
        Message::Invoke => 1,
        Message::Okay => 2,
        Message::Unknown => 255,
    }
}

impl Message {
    /// Decodes a byte; everything but 1 and 2 is `Unknown`.
    pub fn from(value: u8) -> (m: Message)
        ensures
            m == message_of_byte(value),
    {
        match value {
            1 => Message::Invoke,
            2 => Message::Okay,
            _ => Message::Unknown,
        }
    }

    /// Encodes a message; `Unknown` becomes `u8::MAX`.
    pub fn into(self) -> (b: u8)
        ensures
            b == byte_of_message(self),
    {
        match self {
            Message::Invoke => 1,
            Message::Okay => 2,
            Message::Unknown => 255,
        }
    }
}

/// A port message's byte is 1 for Invoke and 2 for Okay; `Unknown` is
/// written as `u8::MAX`, and every other byte is read as `Unknown`.
pub proof fn lemma_message_bytes(b: u8)
    ensures
        byte_of_message(Message::Invoke) == 1,
        byte_of_message(Message::Okay) == 2,
        byte_of_message(Message::Unknown) == u8::MAX,
        b == 1 ==> message_of_byte(b) == Message::Invoke,
        b == 2 ==> message_of_byte(b) == Message::Okay,
        !(1 <= b <= 2) ==> message_of_byte(b) == Message::Unknown,
{
}

/// Decoding the byte of a message gives the message back.
pub proof fn lemma_message_roundtrip(m: Message)
    ensures
        message_of_byte(byte_of_message(m)) == m,
{
}

} // verus!
