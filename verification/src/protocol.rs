//! The packets that Orbit devices exchange over their ports, in the framing
//! of the `spaceport` protocol crate.
use vstd::prelude::*;

verus! {

/// Version byte of every packet this kernel builds.
pub const PROTOCOL_VERSION: u8 = 1;

/// Hop budget of a fresh packet.
pub const MAX_TTL: u8 = 8;

/// Start and end of a frame, and the escape byte between them.
pub const SOF: u8 = 0x7E;

pub const EOF: u8 = 0x7F;

pub const ESC: u8 = 0x7D;

/// Flag bits of a packet header.
pub const ACK_REQUIRED: u8 = 1;

pub const IS_ACK: u8 = 2;

pub const IS_ROUTED: u8 = 4;

pub const FRAGMENTED: u8 = 8;

pub const ERROR: u8 = 16;

/// The bits that name a flag; decoding drops all others.
pub const ALL_FLAGS: u8 = 31;

/// Header length in bytes, before the payload.
pub const HEADER_LEN: usize = 10;

/// Longest unescaped packet (header, payload and checksum).  The protocol
/// crate reads this limit from the `SPACEPORT_PACKET_LENGTH` variable when it
/// is built and falls back to 256 when it is unset; the limits here and the
/// contracts of the calls into the crate hold only for a build with that
/// variable unset.
pub const MAX_PACKET_LENGTH: usize = 256;

/// Longest payload that still encodes.
pub const MAX_PAYLOAD_LENGTH: usize = 244;

/// Size of a buffer that holds any frame: every byte escaped, plus the start
/// and end bytes.
pub const MAX_BUFFER_LENGTH: usize = 514;

/// Message type of a packet.
#[derive(Clone, Copy, PartialEq, Eq, Structural, Debug)]
pub enum Message {
    Invoke,
    Reply,
    Busy,
    Error,
    KernelVersion,
    Unknown,
}

/// The byte that a frame carries for a message type.
pub open spec fn message_code(m: Message) -> u8 {
    match m {
        Message::Invoke => 1,
        Message::Reply => 2,
        Message::Busy => 3,
        Message::Error => 4,
        Message::KernelVersion => 5,
        Message::Unknown => 6,
    }
}

/// The message type that a byte stands for; bytes outside `1..=5` are
/// `Unknown`.
pub open spec fn message_of_code(b: u8) -> Message {
    if b == 1 {
        Message::Invoke
    } else if b == 2 {
        Message::Reply
    } else if b == 3 {
        Message::Busy
    } else if b == 4 {
        Message::Error
    } else if b == 5 {
        Message::KernelVersion
    } else {
        Message::Unknown
    }
}

impl Message {
    pub fn code(self) -> (b: u8)
        ensures
            b == message_code(self),
    {
        match self {
            Message::Invoke => 1,
            Message::Reply => 2,
            Message::Busy => 3,
            Message::Error => 4,
            Message::KernelVersion => 5,
            Message::Unknown => 6,
        }
    }

    pub fn from_code(b: u8) -> (m: Message)
        ensures
            m == message_of_code(b),
    {
        if b == 1 {
            Message::Invoke
        } else if b == 2 {
            Message::Reply
        } else if b == 3 {
            Message::Busy
        } else if b == 4 {
            Message::Error
        } else if b == 5 {
            Message::KernelVersion
        } else {
            Message::Unknown
        }
    }
}

/// A packet as plain values: its header fields and its payload.
pub struct Packet {
    pub version: u8,
    pub flags: u8,
    pub packet_id: u16,
    pub src: u16,
    pub dst: u16,
    pub ttl: u8,
    pub msg_type: Message,
    pub payload: Vec<u8>,
}

/// A packet's header fields and payload, as the model sees them.
pub struct PacketModel {
    pub version: u8,
    pub flags: u8,
    pub packet_id: u16,
    pub src: u16,
    pub dst: u16,
    pub ttl: u8,
    pub msg_type: Message,
    pub payload: Seq<u8>,
}

impl View for Packet {
    type V = PacketModel;

    open spec fn view(&self) -> PacketModel {
        PacketModel {
            version: self.version,
            flags: self.flags,
            packet_id: self.packet_id,
            src: self.src,
            dst: self.dst,
            ttl: self.ttl,
            msg_type: self.msg_type,
            payload: self.payload@,
        }
    }
}

/// Whether every bit of `flag` is set in `flags`.
pub open spec fn has_flag(flags: u8, flag: u8) -> bool {
    flags & flag == flag
}

/// The packet a reply to `p` starts from: no flags, the next packet id, source
/// and destination swapped, the same hop budget.
pub open spec fn reply_model(p: PacketModel, flags: u8, msg: Message, payload: Seq<u8>) -> PacketModel {
    PacketModel {
        version: PROTOCOL_VERSION,
        flags,
        packet_id: (p.packet_id + 1) as u16,
        src: p.dst,
        dst: p.src,
        ttl: p.ttl,
        msg_type: msg,
        payload,
    }
}

/// A fresh packet with the current protocol version and a full hop budget.
pub open spec fn new_model(flags: u8, packet_id: u16, src: u16, dst: u16, msg: Message, payload: Seq<u8>) -> PacketModel {
    PacketModel {
        version: PROTOCOL_VERSION,
        flags,
        packet_id,
        src,
        dst,
        ttl: MAX_TTL,
        msg_type: msg,
        payload,
    }
}

/// The frame that the protocol crate's encoder writes for a packet.
pub uninterp spec fn spaceport_encode(
    version: u8,
    flags: u8,
    packet_id: u16,
    src: u16,
    dst: u16,
    ttl: u8,
    msg_code: u8,
    payload: Seq<u8>,
) -> Seq<u8>;

/// The packet fields (message type as its code) that the protocol crate's
/// decoder reads from a frame, if it accepts the frame.
pub uninterp spec fn spaceport_decode(frame: Seq<u8>) -> Option<
    (u8, u8, u16, u16, u16, u8, u8, Seq<u8>),
>;

/// Whether a received buffer has the shape of a frame: at least three bytes,
/// opened by `SOF` and closed by `EOF`.
pub open spec fn framed(buf: Seq<u8>) -> bool {
    buf.len() >= 3 && buf[0] == SOF && buf.last() == EOF
}

/// How many bytes unescaping `s` writes before it ends or meets an escape
/// byte with nothing after it.
pub open spec fn unescape_writes(s: Seq<u8>) -> nat
    decreases s.len(),
{
    if s.len() == 0 {
        0
    } else if s[0] == ESC {
        if s.len() == 1 {
            0
        } else {
            1 + unescape_writes(s.subrange(2, s.len() as int))
        }
    } else {
        1 + unescape_writes(s.subrange(1, s.len() as int))
    }
}

/// Whether the protocol crate's decoder can take `buf` without overrunning
/// its packet buffer: either `buf` is no frame, or its unescaped body fits in
/// `MAX_PACKET_LENGTH` bytes.
pub open spec fn decodable(buf: Seq<u8>) -> bool {
    framed(buf) ==> unescape_writes(buf.subrange(1, buf.len() - 1)) <= MAX_PACKET_LENGTH
}

/// `spaceport::packet::Packet::encode` into a buffer of `MAX_BUFFER_LENGTH`
/// bytes.  Claimed: encoding succeeds exactly when header, payload and
/// checksum fit in `MAX_PACKET_LENGTH` bytes (the escaping cannot overflow a
/// buffer of that size), and the bytes written are the encoder's frame of the
/// given fields; the message type goes in as its code, which the crate maps
/// back to its own message type.
#[verifier::external_body]
fn encode_frame(
    version: u8,
    flags: u8,
    packet_id: u16,
    src: u16,
    dst: u16,
    ttl: u8,
    msg_code: u8,
    payload: &[u8],
) -> (r: Option<Vec<u8>>)
    ensures
        r.is_some() <==> HEADER_LEN + payload@.len() + 2 <= MAX_PACKET_LENGTH,
        r.is_some() ==> r.unwrap()@.len() <= MAX_BUFFER_LENGTH,
        r.is_some() ==> r.unwrap()@ == spaceport_encode(
            version,
            flags,
            packet_id,
            src,
            dst,
            ttl,
            msg_code,
            payload@,
        ),
{
    let packet = spaceport::packet::Packet {
        version,
        flags: spaceport::types::Flags::from_bits_retain(flags),
        packet_id,
        src,
        dst,
        ttl,
        msg_type: spaceport::message::Message::from(msg_code),
        payload,
    };
    let mut out = [0u8; spaceport::packet::MAX_BUFFER_LENGTH];
    match packet.encode(&mut out) {
        Ok(size) => Some(out[..size].to_vec()),
        Err(_) => None,
    }
}

/// `spaceport::packet::Packet::decode`.  Claimed: its result is the decoder's
/// reading of the frame; a buffer that is no frame is refused; an accepted
/// frame yields only the known flag bits (the crate truncates the rest), a
/// message code in `1..=6` and a payload of at most `MAX_PAYLOAD_LENGTH`
/// bytes.  Its `requires` leaves out the frames whose unescaped body is
/// longer than `MAX_PACKET_LENGTH`, on which the crate indexes past its
/// buffer and panics.
#[verifier::external_body]
fn decode_frame(buf: &[u8]) -> (r: Option<(u8, u8, u16, u16, u16, u8, u8, Vec<u8>)>)
    requires
        decodable(buf@),
    ensures
        r.is_some() == spaceport_decode(buf@).is_some(),
        r.is_some() ==> ({
            let t = r.unwrap();
            &&& spaceport_decode(buf@) == Some((t.0, t.1, t.2, t.3, t.4, t.5, t.6, t.7@))
            &&& t.1 & ALL_FLAGS == t.1
            &&& 1 <= t.6 <= 6
            &&& t.7@.len() <= MAX_PAYLOAD_LENGTH
        }),
        !framed(buf@) ==> r.is_none(),
{
    let mut payload_buf = [0u8; spaceport::packet::MAX_BUFFER_LENGTH];
    match spaceport::packet::Packet::decode(buf, &mut payload_buf) {
        Ok(p) => Some(
            (p.version, p.flags.bits(), p.packet_id, p.src, p.dst, p.ttl, p.msg_type as u8, p.payload.to_vec()),
        ),
        Err(_) => None,
    }
}

/// Whether the protocol's decoder can safely take `buf` (see [`decodable`]).
pub fn frame_is_decodable(buf: &[u8]) -> (r: bool)
    ensures
        r == decodable(buf@),
{
    let n = buf.len();
    if n < 3 || buf[0] != SOF || buf[n - 1] != EOF {
        return true;
    }
    let ghost inner = buf@.subrange(1, n - 1);
    let mut i: usize = 1;
    let mut writes: usize = 0;
    while i < n - 1
        invariant
            n == buf@.len(),
            n >= 3,
            inner == buf@.subrange(1, n - 1),
            1 <= i <= n - 1,
            writes <= i,
            writes + unescape_writes(buf@.subrange(i as int, n - 1)) == unescape_writes(inner),
        decreases n - i,
    {
        let ghost rest = buf@.subrange(i as int, n - 1);
        if buf[i] == ESC {
            if i + 1 >= n - 1 {
                assert(rest.len() == 1);
                i = n - 1;
                assert(buf@.subrange(i as int, n - 1) =~= Seq::<u8>::empty());
            } else {
                assert(rest.subrange(2, rest.len() as int) =~= buf@.subrange(i + 2, n - 1));
                i = i + 2;
                writes = writes + 1;
            }
        } else {
            assert(rest.subrange(1, rest.len() as int) =~= buf@.subrange(i + 1, n - 1));
            i = i + 1;
            writes = writes + 1;
        }
    }
    assert(buf@.subrange(i as int, n - 1) =~= Seq::<u8>::empty());
    writes <= MAX_PACKET_LENGTH
}

impl Packet {
    /// A fresh packet: current protocol version and a full hop budget.
    pub fn new(flags: u8, packet_id: u16, src: u16, dst: u16, msg_type: Message, payload: Vec<u8>) -> (p: Packet)
        ensures
            p@ == new_model(flags, packet_id, src, dst, msg_type, payload@),
    {
        Packet { version: PROTOCOL_VERSION, flags, packet_id, src, dst, ttl: MAX_TTL, msg_type, payload }
    }

    /// A copy of the packet.
    pub fn duplicate(&self) -> (p: Packet)
        ensures
            p@ == self@,
    {
        let mut payload: Vec<u8> = Vec::new();
        let mut i: usize = 0;
        while i < self.payload.len()
            invariant
                i <= self.payload@.len(),
                payload@ == self.payload@.subrange(0, i as int),
            decreases self.payload@.len() - i,
        {
            payload.push(self.payload[i]);
            i = i + 1;
            proof {
                assert(payload@ =~= self.payload@.subrange(0, i as int));
            }
        }
        proof {
            assert(payload@ =~= self.payload@);
        }
        Packet {
            version: self.version,
            flags: self.flags,
            packet_id: self.packet_id,
            src: self.src,
            dst: self.dst,
            ttl: self.ttl,
            msg_type: self.msg_type,
            payload,
        }
    }

    /// A reply: no flags, message `Reply`, the next packet id, source and
    /// destination swapped.
    pub fn reply(&self, payload: Vec<u8>) -> (p: Packet)
        requires
            self.packet_id < u16::MAX,
        ensures
            p@ == reply_model(self@, 0, Message::Reply, payload@),
    {
        Packet {
            version: PROTOCOL_VERSION,
            flags: 0,
            packet_id: self.packet_id + 1,
            src: self.dst,
            dst: self.src,
            ttl: self.ttl,
            msg_type: Message::Reply,
            payload,
        }
    }

    /// A reply of message `Reply` that carries the given flags.
    pub fn reply_with_flags(&self, flags: u8, payload: Vec<u8>) -> (p: Packet)
        requires
            self.packet_id < u16::MAX,
        ensures
            p@ == reply_model(self@, flags, Message::Reply, payload@),
    {
        Packet {
            version: PROTOCOL_VERSION,
            flags,
            packet_id: self.packet_id + 1,
            src: self.dst,
            dst: self.src,
            ttl: self.ttl,
            msg_type: Message::Reply,
            payload,
        }
    }

    /// An acknowledgement: a reply with the `IS_ACK` flag.
    pub fn ack(&self, payload: Vec<u8>) -> (p: Packet)
        requires
            self.packet_id < u16::MAX,
        ensures
            p@ == reply_model(self@, IS_ACK, Message::Reply, payload@),
    {
        Packet {
            version: PROTOCOL_VERSION,
            flags: IS_ACK,
            packet_id: self.packet_id + 1,
            src: self.dst,
            dst: self.src,
            ttl: self.ttl,
            msg_type: Message::Reply,
            payload,
        }
    }

    /// Whether every bit of `flag` is set.
    pub fn contains(&self, flag: u8) -> (r: bool)
        ensures
            r == has_flag(self.flags, flag),
    {
        self.flags & flag == flag
    }

    /// The frame for this packet, or `None` when the payload is longer than
    /// `MAX_PAYLOAD_LENGTH`.
    pub fn encode(&self) -> (r: Option<Vec<u8>>)
        ensures
            r.is_some() <==> self.payload@.len() <= MAX_PAYLOAD_LENGTH,
            r.is_some() ==> r.unwrap()@ == encoded(self@),
            r.is_some() ==> r.unwrap()@.len() <= MAX_BUFFER_LENGTH,
    {
        let code = self.msg_type.code();
        encode_frame(
            self.version,
            self.flags,
            self.packet_id,
            self.src,
            self.dst,
            self.ttl,
            code,
            self.payload.as_slice(),
        )
    }

    /// Reads a packet from a received frame; `None` when the protocol refuses
    /// the frame.
    pub fn decode(buf: &[u8]) -> (r: Option<Packet>)
        requires
            decodable(buf@),
        ensures
            r.is_some() == spaceport_decode(buf@).is_some(),
            r.is_some() ==> r.unwrap()@ == decoded(buf@),
            !framed(buf@) ==> r.is_none(),
    {
        match decode_frame(buf) {
            Some(t) => {
                let msg_type = Message::from_code(t.6);
                Some(
                    Packet {
                        version: t.0,
                        flags: t.1,
                        packet_id: t.2,
                        src: t.3,
                        dst: t.4,
                        ttl: t.5,
                        msg_type,
                        payload: t.7,
                    },
                )
            },
            None => None,
        }
    }
}

/// The frame of a packet.
pub open spec fn encoded(p: PacketModel) -> Seq<u8> {
    spaceport_encode(p.version, p.flags, p.packet_id, p.src, p.dst, p.ttl, message_code(p.msg_type), p.payload)
}

/// The packet read from an accepted frame.
pub open spec fn decoded(frame: Seq<u8>) -> PacketModel {
    let t = spaceport_decode(frame).unwrap();
    PacketModel {
        version: t.0,
        flags: t.1,
        packet_id: t.2,
        src: t.3,
        dst: t.4,
        ttl: t.5,
        msg_type: message_of_code(t.6),
        payload: t.7,
    }
}

/// Replying to a reply brings the addresses back to where they were.
pub proof fn lemma_reply_swaps_back(p: PacketModel, f1: u8, f2: u8, m1: Message, m2: Message, a: Seq<u8>, b: Seq<u8>)
    requires
        p.packet_id + 2 <= u16::MAX,
    ensures
        reply_model(reply_model(p, f1, m1, a), f2, m2, b).src == p.src,
        reply_model(reply_model(p, f1, m1, a), f2, m2, b).dst == p.dst,
        reply_model(reply_model(p, f1, m1, a), f2, m2, b).packet_id == p.packet_id + 2,
{
}

/// The message-type byte of a frame is the protocol's: counting from 1 in
/// the protocol's order Invoke, Reply, Busy, Error, KernelVersion, Unknown;
/// and a frame's byte is read back as that type, any byte outside 1 to 5 as
/// `Unknown`.
pub proof fn lemma_message_codes_are_the_protocols(b: u8)
    ensures
        message_code(Message::Invoke) == 1,
        message_code(Message::Reply) == 2,
        message_code(Message::Busy) == 3,
        message_code(Message::Error) == 4,
        message_code(Message::KernelVersion) == 5,
        message_code(Message::Unknown) == 6,
        b == 1 ==> message_of_code(b) == Message::Invoke,
        b == 2 ==> message_of_code(b) == Message::Reply,
        b == 3 ==> message_of_code(b) == Message::Busy,
        b == 4 ==> message_of_code(b) == Message::Error,
        b == 5 ==> message_of_code(b) == Message::KernelVersion,
        !(1 <= b <= 5) ==> message_of_code(b) == Message::Unknown,
{
}

/// Every message type survives the trip through its code.
pub proof fn lemma_message_code_roundtrip(m: Message)
    ensures
        message_of_code(message_code(m)) == m,
{
}

} // verus!
