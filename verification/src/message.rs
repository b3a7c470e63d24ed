use vstd::prelude::*;

verus! {

/// Kernel message codes, carried as the first byte of a request.
#[derive(Clone, Copy, PartialEq, Eq, Structural, Debug)]
pub enum Message {
    Invoke,
    Reply,
    Busy,
    Append,
    Unknown,
}

/// The message a byte stands for.
pub open spec fn message_of_byte(b: u8) -> Message {
    if b == 1 {
        Message::Invoke
    } else if b == 2 {
        Message::Reply
    } else if b == 3 {
        Message::Busy
    } else if b == 4 {
        Message::Append
    } else {
        Message::Unknown
    }
}

/// The byte that encodes a message.
pub open spec fn byte_of_message(m: Message) -> u8 {
    match m {
        Message::Invoke => 1,
        Message::Reply => 2,
        Message::Busy => 3,
        Message::Append => 4,
        Message::Unknown => 255,
    }
}

impl Message {
    /// Decodes a message byte; every byte outside `1..=4` is `Unknown`.
    pub fn from(value: u8) -> (m: Message)
        ensures
            m == message_of_byte(value),
    {
        match value {
            1 => Message::Invoke,
            2 => Message::Reply,
            3 => Message::Busy,
            4 => Message::Append,
            _ => Message::Unknown,
        }
    }

    /// Encodes a message as its byte; `Unknown` becomes `u8::MAX`.
    pub fn into(self) -> (b: u8)
        ensures
            b == byte_of_message(self),
    {
        match self {
            Message::Invoke => 1,
            Message::Reply => 2,
            Message::Busy => 3,
            Message::Append => 4,
            Message::Unknown => 255,
        }
    }
}

/// A request's message byte counts from 1 in the order Invoke, Reply, Busy,
/// Append; `Unknown` is written as `u8::MAX`, and every byte outside 1 to 4
/// is read as `Unknown`.
pub proof fn lemma_message_bytes(b: u8)
    ensures
        byte_of_message(Message::Invoke) == 1,
        byte_of_message(Message::Reply) == 2,
        byte_of_message(Message::Busy) == 3,
        byte_of_message(Message::Append) == 4,
        byte_of_message(Message::Unknown) == u8::MAX,
        b == 1 ==> message_of_byte(b) == Message::Invoke,
        b == 2 ==> message_of_byte(b) == Message::Reply,
        b == 3 ==> message_of_byte(b) == Message::Busy,
        b == 4 ==> message_of_byte(b) == Message::Append,
        !(1 <= b <= 4) ==> message_of_byte(b) == Message::Unknown,
{
}

/// Decoding the byte of a message gives the message back.
pub proof fn lemma_message_roundtrip(m: Message)
    ensures
        message_of_byte(byte_of_message(m)) == m,
{
}

/// Encoding the message of a byte in `1..=4` gives the byte back.
pub proof fn lemma_byte_roundtrip(b: u8)
    requires
        1 <= b <= 4,
    ensures
        byte_of_message(message_of_byte(b)) == b,
{
}

} // verus!
