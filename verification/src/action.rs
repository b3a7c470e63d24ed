use vstd::prelude::*;
use crate::message::{Message, message_of_byte};
use crate::port::ringbuf::{RingBuf, TraitBound, after_pushes};

verus! {

/// Capacity of a request's argument buffer.
pub const RINGBUF_SIZE: usize = 64;

/// A request received by the kernel: what it asks for and its argument bytes.
pub struct Action {
    pub message: Message,
    pub rbuf: RingBuf<RINGBUF_SIZE, u8>,
}

/// The argument bytes a request's buffer holds: the bytes after the message
/// byte, and for an invocation the terminator after them, as far as they
/// fit.
pub open spec fn request_contents(value: Seq<u8>) -> Seq<u8> {
    let args = value.subrange(1, value.len() as int);
    let pushed = if message_of_byte(value[0]) == Message::Invoke {
        args.push(0u8)
    } else {
        args
    };
    after_pushes(Seq::<u8>::empty(), RINGBUF_SIZE as nat, pushed)
}

impl Action {
    /// A request with an empty buffer (terminated by 0); the termination
    /// given is not used.
    pub fn new(message: Message, termination: u8) -> (a: Action)
        ensures
            a.message == message,
            a.rbuf.wf(),
            a.rbuf.start == 0,
            a.rbuf.end == 0,
            a.rbuf.contents() == Seq::<u8>::empty(),
            a.rbuf.termination == 0u8,
            forall|i: int| 0 <= i < RINGBUF_SIZE ==> a.rbuf.buf@[i] == 0u8,
    {
        Action { message, rbuf: RingBuf::default() }
    }

    /// Reads a request: its first byte is the message, the rest go into the
    /// buffer, followed by the buffer's terminator for an invocation.
    pub fn from(value: &[u8]) -> (a: Action)
        requires
            value@.len() >= 1,
        ensures
            a.message == message_of_byte(value@[0]),
            a.rbuf.wf(),
            a.rbuf.start == 0,
            a.rbuf.termination == 0u8,
            a.rbuf.contents() == request_contents(value@),
    {
        let message = Message::from(value[0]);
        let mut rbuf: RingBuf<RINGBUF_SIZE, u8> = RingBuf::default();
        let ghost args = value@.subrange(1, value@.len() as int);
        let mut i: usize = 1;
        while i < value.len()
            invariant
                1 <= i <= value@.len(),
                args == value@.subrange(1, value@.len() as int),
                rbuf.wf(),
                rbuf.start == 0,
                rbuf.termination == 0u8,
                rbuf.contents() == after_pushes(Seq::<u8>::empty(), RINGBUF_SIZE as nat, args.subrange(0, i - 1)),
            decreases value@.len() - i,
        {
            rbuf.push(value[i]);
            proof {
                let pushed = args.subrange(0, i as int);
                assert(pushed.drop_last() =~= args.subrange(0, i - 1));
            }
            i = i + 1;
        }
        proof {
            assert(args.subrange(0, i - 1) =~= args);
        }
        match message {
            Message::Invoke => {
                let t = rbuf.termination;
                rbuf.push(t);
                proof {
                    assert(args.push(0u8).drop_last() =~= args);
                }
                Action { message: Message::Invoke, rbuf }
            },
            message => Action { message, rbuf },
        }
    }
}

} // verus!
