use orbit::port::{reservation, Port, PortError};
use orbit::protocol::{
    frame_is_decodable, Message, Packet, ACK_REQUIRED, ERROR, FRAGMENTED, IS_ACK, MAX_BUFFER_LENGTH,
    MAX_PACKET_LENGTH, MAX_PAYLOAD_LENGTH,
};

fn packet(flags: u8, id: u16, payload: &[u8]) -> Packet {
    Packet::new(flags, id, 3, 4, Message::Invoke, payload.to_vec())
}

#[test]
fn constants_match_protocol_crate() {
    assert_eq!(MAX_PACKET_LENGTH, spaceport::packet::MAX_PACKET_LENGTH);
    assert_eq!(MAX_PAYLOAD_LENGTH, spaceport::packet::MAX_PAYLOAD_LENGTH);
    assert_eq!(MAX_BUFFER_LENGTH, spaceport::packet::MAX_BUFFER_LENGTH);
}

#[test]
fn encode_decode_round_trip() {
    let p = packet(ACK_REQUIRED, 7, b"calc 1 2");
    let frame = p.encode().unwrap();
    assert_eq!(frame[0], 0x7E);
    assert_eq!(*frame.last().unwrap(), 0x7F);
    assert!(frame_is_decodable(&frame));
    let q = Packet::decode(&frame).unwrap();
    assert_eq!(q.payload, b"calc 1 2".to_vec());
    assert_eq!(q.packet_id, 7);
    assert_eq!(q.src, 3);
    assert_eq!(q.dst, 4);
    assert_eq!(q.flags, ACK_REQUIRED);
    assert_eq!(q.msg_type, Message::Invoke);
}

#[test]
fn encode_matches_protocol_crate() {
    let p = packet(0, 1, b"abc");
    let ours = p.encode().unwrap();
    let theirs = spaceport::packet::Packet::new(
        spaceport::types::Flags::empty(),
        1,
        3,
        4,
        spaceport::message::Message::Invoke,
        b"abc",
    );
    let mut out = [0u8; spaceport::packet::MAX_BUFFER_LENGTH];
    let n = theirs.encode(&mut out).unwrap();
    assert_eq!(ours, out[..n].to_vec());
}

#[test]
fn encode_refuses_long_payload() {
    let long = vec![0u8; MAX_PAYLOAD_LENGTH + 1];
    assert!(packet(0, 0, &long).encode().is_none());
    let fits = vec![0x7Fu8; MAX_PAYLOAD_LENGTH];
    assert!(packet(0, 0, &fits).encode().is_some());
}

#[test]
fn decode_refuses_non_frames() {
    assert!(Packet::decode(&[1, 2, 3]).is_none());
    assert!(Packet::decode(&[0x7E, 0x7F]).is_none());
    assert!(frame_is_decodable(&[1, 2, 3]));
    let mut too_long = vec![0x7E];
    too_long.extend(std::iter::repeat(1u8).take(MAX_PACKET_LENGTH + 1));
    too_long.push(0x7F);
    assert!(!frame_is_decodable(&too_long));
}

#[test]
fn replies_swap_addresses() {
    let p = packet(ACK_REQUIRED, 9, b"x");
    let r = p.reply(b"y".to_vec());
    assert_eq!((r.packet_id, r.src, r.dst, r.flags, r.msg_type), (10, 4, 3, 0, Message::Reply));
    let a = p.ack(Vec::new());
    assert_eq!(a.flags, IS_ACK);
    let e = p.reply_with_flags(ERROR, Vec::new());
    assert_eq!(e.flags, ERROR);
    assert!(p.contains(ACK_REQUIRED));
    assert!(!p.contains(FRAGMENTED));
}

#[test]
fn port_hands_on_plain_packet() {
    let mut port = Port::new();
    let mut next_id = 0u16;
    let frame = packet(0, 1, b"hello").encode().unwrap();
    let (p, writes) = port.handle(&frame, &mut next_id).unwrap();
    assert_eq!(p.unwrap().payload, b"hello".to_vec());
    assert!(writes.is_empty());
    assert_eq!(next_id, 0);
}

#[test]
fn port_acknowledges_when_asked() {
    let mut port = Port::new();
    let mut next_id = 5u16;
    let frame = packet(ACK_REQUIRED, 1, b"hi").encode().unwrap();
    let (p, writes) = port.handle(&frame, &mut next_id).unwrap();
    assert!(p.is_some());
    assert_eq!(writes.len(), 1);
    assert_eq!(next_id, 6);
    let ack = Packet::decode(&writes[0]).unwrap();
    assert_eq!(ack.flags, IS_ACK);
    assert_eq!(ack.packet_id, 2);
    assert_eq!(ack.src, 4);
}

#[test]
fn port_joins_fragments() {
    let mut port = Port::new();
    let mut next_id = 0u16;
    let f1 = packet(FRAGMENTED, 1, b"abc").encode().unwrap();
    let f2 = packet(FRAGMENTED, 2, b"def").encode().unwrap();
    let last = packet(0, 3, b"gh").encode().unwrap();
    let (p1, _) = port.handle(&f1, &mut next_id).unwrap();
    assert!(p1.is_none());
    let (p2, _) = port.handle(&f2, &mut next_id).unwrap();
    assert!(p2.is_none());
    assert_eq!(port.fragments, b"abcdef".to_vec());
    let (p3, _) = port.handle(&last, &mut next_id).unwrap();
    assert_eq!(p3.unwrap().payload, b"abcdefgh".to_vec());
}

#[test]
fn port_ignores_garbage_and_nothing() {
    let mut port = Port::new();
    let mut next_id = 0u16;
    let (p, w) = port.handle(&[], &mut next_id).unwrap();
    assert!(p.is_none() && w.is_empty());
    let (p, w) = port.handle(&[0x7E, 1, 2, 3, 0x7F], &mut next_id).unwrap();
    assert!(p.is_none() && w.is_empty());
}

#[test]
fn port_refuses_when_ids_run_out() {
    let mut port = Port::new();
    let mut next_id = u16::MAX;
    let frame = packet(ACK_REQUIRED, 1, b"hi").encode().unwrap();
    assert!(port.handle(&frame, &mut next_id).is_none());
    assert_eq!(next_id, u16::MAX);
}

#[test]
fn fragment_room_asked_and_appended() {
    assert_eq!(reservation(10, 5), 15);
    assert_eq!(reservation(0, 0), 0);
    let mut frags = vec![1u8, 2];
    assert_eq!(Port::try_append_fragment(&mut frags, &[3, 4]), Ok(()));
    assert_eq!(frags, vec![1, 2, 3, 4]);
}

#[test]
fn appending_follows_the_allocators_answer() {
    let mut frags = vec![1u8, 2];
    assert_eq!(Port::append_reserved(&mut frags, &[3], true), Ok(()));
    assert_eq!(frags, vec![1, 2, 3]);
    assert_eq!(Port::append_reserved(&mut frags, &[4], false), Err(PortError::Allocation));
    assert!(frags.is_empty());
}

#[test]
fn port_with_room_granted_joins_fragments() {
    let mut port = Port::new();
    let mut next_id = 0u16;
    let (p1, w1) = port.handle_with(packet(FRAGMENTED, 1, b"ab"), &mut next_id, true);
    assert!(p1.is_none() && w1.is_empty());
    let (p2, w2) = port.handle_with(packet(0, 2, b"cd"), &mut next_id, true);
    assert!(w2.is_empty());
    assert_eq!(p2.unwrap().payload, b"abcd".to_vec());
    assert_eq!(next_id, 0);
}

#[test]
fn port_with_room_refused_drops_fragments_and_answers() {
    let mut port = Port::new();
    let mut next_id = 0u16;
    port.handle_with(packet(FRAGMENTED, 1, b"ab"), &mut next_id, true);
    let (p, w) = port.handle_with(packet(FRAGMENTED, 2, b"cd"), &mut next_id, false);
    assert!(p.is_none());
    assert!(port.fragments.is_empty());
    assert_eq!(w.len(), 1);
    let r = Packet::decode(&w[0]).unwrap();
    assert_eq!(r.flags, ERROR);
    assert_eq!(r.payload, b"Could not allocate more memory".to_vec());
    assert_eq!(next_id, 1);
}

#[test]
fn port_spends_no_ids_on_replies_it_does_not_send() {
    // A fragment with the last packet id needs no reply when room is had.
    let mut port = Port::new();
    let mut next_id = u16::MAX;
    let frame = packet(FRAGMENTED, u16::MAX, b"ab").encode().unwrap();
    let (p, w) = port.handle(&frame, &mut next_id).unwrap();
    assert!(p.is_none() && w.is_empty());
    assert_eq!(port.fragments, b"ab".to_vec());
}
