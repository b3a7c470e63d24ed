use orbit::action::{Action, RINGBUF_SIZE};
use orbit::message::Message;
use orbit::port::ringbuf::RingBuf as LineBuf;
use orbit::ringbuf::RingBuf;

#[test]
fn kernel_ringbuf_reads_back_pushes() {
    let mut b: RingBuf<4> = RingBuf::new();
    b.push(1);
    b.push(2);
    b.push(3);
    assert_eq!(b.read(), vec![1, 2, 3]);
    assert_eq!(b.start, 0);
    assert_eq!(b.end, 0);
    assert_eq!(b.read(), Vec::<u8>::new());
}

#[test]
fn kernel_ringbuf_drops_pushes_when_full() {
    let mut b: RingBuf<2> = RingBuf::default();
    b.push(7);
    b.push(8);
    b.push(9);
    assert_eq!(b.end, 2);
    assert_eq!(b.read(), vec![7, 8]);
}

#[test]
fn line_buffer_reads_only_terminated_lines() {
    let mut b: LineBuf<8, u8> = LineBuf::new(b'\n');
    b.push(b'h');
    b.push(b'i');
    assert_eq!(b.read(), None);
    b.push(b'\n');
    assert_eq!(b.read(), Some(vec![b'h', b'i', b'\n']));
    assert_eq!(b.end, 0);
    assert_eq!(b.read(), None);
}

#[test]
fn line_buffer_keeps_overwriting_last_slot() {
    let mut b: LineBuf<3, u8> = LineBuf::new(0);
    b.push(5);
    b.push(6);
    assert_eq!(b.end, 2);
    b.push(7);
    assert_eq!(b.end, 2);
    assert_eq!(b.at(2), 7);
    b.push(0);
    assert_eq!(b.at(2), 0);
    assert_eq!(b.read(), None);
    b.flush();
    assert_eq!(b.start, 0);
    assert_eq!(b.end, 0);
}

#[test]
fn action_from_invoke_request_terminates_arguments() {
    let a = Action::from(&[1, b'a', b'b']);
    assert_eq!(a.message, Message::Invoke);
    let mut rbuf = a.rbuf;
    assert_eq!(rbuf.read(), Some(vec![b'a', b'b', 0]));
}

#[test]
fn action_from_other_request_keeps_arguments() {
    let a = Action::from(&[3, 9, 9]);
    assert_eq!(a.message, Message::Busy);
    assert_eq!(a.rbuf.end, 2);
    assert_eq!(a.rbuf.buf[0], 9);
    let n = Action::new(Message::Reply, 42);
    assert_eq!(n.message, Message::Reply);
    assert_eq!(n.rbuf.end, 0);
    assert_eq!(n.rbuf.termination, 0);
    assert_eq!(RINGBUF_SIZE, 64);
}

#[test]
fn kernel_ringbuf_second_read_is_empty() {
    let mut b: RingBuf<3> = RingBuf::new();
    for v in [7u8, 8, 9, 10, 11] {
        b.push(v);
    }
    assert_eq!(b.read(), vec![7, 8, 9]);
    assert_eq!(b.read(), Vec::<u8>::new());
}

#[test]
fn line_buffer_second_read_is_none() {
    let mut b: LineBuf<5, u8> = LineBuf::new(0);
    b.push(4);
    b.push(5);
    b.push(0);
    assert_eq!(b.read(), Some(vec![4, 5, 0]));
    assert_eq!(b.read(), None);
    b.push(6);
    assert_eq!(b.read(), None);
}
