//! The kernel's communication ports: the state each keeps between received
//! frames, and what it does with a frame.
use vstd::prelude::*;
use crate::protocol::{Packet, PacketModel, Message, decodable, spaceport_decode, decoded, encoded, reply_model, has_flag, ACK_REQUIRED, IS_ACK, FRAGMENTED, ERROR, PROTOCOL_VERSION};
use crate::bytes::{to_vec, extend};

pub mod ringbuf;
pub mod message;
pub mod action;
pub mod uart;
pub mod port_kind;

verus! {

/// Errors of a UART's set-up and transfers.
#[derive(Clone, Copy, PartialEq, Eq, Structural, Debug)]
pub enum UartError {
    Config,
    BufTooSmall,
}

/// A port kind that knows how to set up its pins: the register writes that
/// do it, if it needs any.
pub trait ConfigureGPIO {
    fn configure(&self) -> Option<crate::port::port_kind::PinSetup>;
}

/// Errors of a port.
#[derive(Clone, Copy, PartialEq, Eq, Structural, Debug)]
pub enum PortError {
    Send,
    Allocation,
}

/// The part a port plays towards its peer.
#[derive(Clone, Copy, PartialEq, Eq, Structural, Debug)]
pub enum Role {
    Leader,
    Follower,
    Candidate,
}

/// A port's state between frames: the payload pieces of a fragmented packet
/// received so far, and its flags.
pub struct Port {
    pub awaiting: bool,
    pub msg: usize,
    pub role: Role,
    pub fragments: Vec<u8>,
}

/// Text of the reply to a fragment that could not be stored.
pub open spec fn alloc_error_text() -> Seq<u8> {
    seq![67u8, 111, 117, 108, 100, 32, 110, 111, 116, 32, 97, 108, 108, 111, 99, 97, 116, 101, 32, 109, 111, 114, 101, 32, 109, 101, 109, 111, 114, 121]
}

/// The bytes of "Could not allocate more memory".
pub fn alloc_error_bytes() -> (r: Vec<u8>)
    ensures
        r@ == alloc_error_text(),
{
    let r: Vec<u8> = vec![67u8, 111, 117, 108, 100, 32, 110, 111, 116, 32, 97, 108, 108, 111, 99, 97, 116, 101, 32, 109, 111, 114, 101, 32, 109, 101, 109, 111, 114, 121];
    proof {
        assert(r@ =~= alloc_error_text());
    }
    r
}

/// The acknowledgement frames owed for a packet: one when it asks for it.
pub open spec fn ack_frames(p: PacketModel) -> Seq<Seq<u8>> {
    if has_flag(p.flags, ACK_REQUIRED) {
        seq![encoded(reply_model(p, IS_ACK, Message::Reply, Seq::empty()))]
    } else {
        Seq::empty()
    }
}

/// The error reply to a fragment that could not be stored.
pub open spec fn alloc_error_frame(p: PacketModel) -> Seq<u8> {
    encoded(reply_model(p, ERROR, Message::Reply, alloc_error_text()))
}

/// Whether handling the packet appends to the stored fragments.
pub open spec fn appends(frags: Seq<u8>, p: PacketModel) -> bool {
    has_flag(p.flags, FRAGMENTED) || frags.len() > 0
}

/// How many more bytes a port asks the allocator to make room for before it
/// appends a payload to its fragments: as many as the fragments and the
/// payload hold together.
pub open spec fn fragment_reservation(frags_len: nat, payload_len: nat) -> nat {
    frags_len + payload_len
}

/// The amount of [`fragment_reservation`].
pub fn reservation(frags_len: usize, payload_len: usize) -> (r: usize)
    requires
        frags_len + payload_len <= usize::MAX,
    ensures
        r == fragment_reservation(frags_len as nat, payload_len as nat),
{
    frags_len + payload_len
}

/// What a port does with a decoded packet, given whether the allocator
/// granted the room asked for the fragments: the new fragments, the packet
/// it hands on (with the collected fragments as payload), and the frames it
/// writes back.
pub open spec fn port_outcome(frags: Seq<u8>, p: PacketModel, reserve_ok: bool) -> (
    Seq<u8>,
    Option<PacketModel>,
    Seq<Seq<u8>>,
) {
    let acks = ack_frames(p);
    if !appends(frags, p) {
        (frags, Some(p), acks)
    } else if !reserve_ok {
        (Seq::empty(), None, acks.push(alloc_error_frame(p)))
    } else if has_flag(p.flags, FRAGMENTED) {
        (frags + p.payload, None, acks)
    } else {
        (frags + p.payload, Some(PacketModel { payload: frags + p.payload, ..p }), acks)
    }
}

/// Whatever else a packet asks for, a packet that asks for an
/// acknowledgement gets one, first: the encoding of a reply with the
/// acknowledgement flag, the next packet id, source and destination
/// swapped and no payload.  Besides it, the port writes only the error reply
/// for a fragment it could not store.
pub proof fn lemma_ack_first(frags: Seq<u8>, p: PacketModel, reserve_ok: bool)
    ensures
        has_flag(p.flags, ACK_REQUIRED) ==> port_outcome(frags, p, reserve_ok).2.len() >= 1
            && port_outcome(frags, p, reserve_ok).2[0] == encoded(
            PacketModel {
                version: PROTOCOL_VERSION,
                flags: IS_ACK,
                packet_id: (p.packet_id + 1) as u16,
                src: p.dst,
                dst: p.src,
                ttl: p.ttl,
                msg_type: Message::Reply,
                payload: Seq::empty(),
            },
        ),
        port_outcome(frags, p, reserve_ok).2.len() == (if has_flag(p.flags, ACK_REQUIRED) {
            1int
        } else {
            0int
        }) + (if appends(frags, p) && !reserve_ok {
            1int
        } else {
            0int
        }),
        appends(frags, p) && !reserve_ok ==> port_outcome(frags, p, reserve_ok).2.last() == encoded(
            PacketModel {
                version: PROTOCOL_VERSION,
                flags: ERROR,
                packet_id: (p.packet_id + 1) as u16,
                src: p.dst,
                dst: p.src,
                ttl: p.ttl,
                msg_type: Message::Reply,
                payload: alloc_error_text(),
            },
        ),
{
}

/// The packets an optional packet stands for.
pub open spec fn opt_view(o: Option<Packet>) -> Option<PacketModel> {
    match o {
        Some(q) => Some(q@),
        None => None,
    }
}

/// The byte strings of a list of frames.
pub open spec fn frames_view(w: Seq<Vec<u8>>) -> Seq<Seq<u8>> {
    w.map_values(|f: Vec<u8>| f@)
}

/// Whether a port went from `frags` to `new_frags`, handed on `out` and
/// wrote `writes` for packet `p`, as [`port_outcome`] says for the given
/// allocator answer.
pub open spec fn handled_as(
    frags: Seq<u8>,
    p: PacketModel,
    reserve_ok: bool,
    new_frags: Seq<u8>,
    out: Option<PacketModel>,
    writes: Seq<Seq<u8>>,
) -> bool {
    port_outcome(frags, p, reserve_ok) == (new_frags, out, writes)
}

/// The packet ids that handling `p` uses up at the port, given the
/// allocator's answer `reserve_ok`: one for the acknowledgement, when asked,
/// and one for the error reply when a fragment could not be stored.
pub open spec fn port_ids(frags: Seq<u8>, p: PacketModel, reserve_ok: bool) -> nat {
    (if has_flag(p.flags, ACK_REQUIRED) { 1nat } else { 0nat }) + (if appends(frags, p) && !reserve_ok {
        1nat
    } else {
        0nat
    })
}

/// Whether the port can handle the packet, given the allocator's answer,
/// without running out of ids: each reply it sends needs the packet's next
/// id and one of the kernel's next ids.
pub open spec fn can_handle(frags: Seq<u8>, p: PacketModel, next_id: u16, reserve_ok: bool) -> bool {
    &&& port_ids(frags, p, reserve_ok) > 0 ==> p.packet_id < u16::MAX
    &&& next_id + port_ids(frags, p, reserve_ok) <= u16::MAX
}

/// Whether the room to ask for appending `p` to `frags` can be counted in
/// a `usize`, when the packet appends at all.
pub open spec fn can_append(frags: Seq<u8>, p: PacketModel) -> bool {
    appends(frags, p) ==> frags.len() + p.payload.len() <= usize::MAX
}

/// What a read gives back of fragmented writes: when room is granted, a
/// fragment is stored behind the earlier ones, and the packet that completes
/// it is handed on with every stored piece and its own payload, in order.
pub proof fn lemma_fragments_join(frags: Seq<u8>, f: PacketModel, last: PacketModel)
    requires
        has_flag(f.flags, FRAGMENTED),
        !has_flag(last.flags, FRAGMENTED),
    ensures
        port_outcome(frags, f, true).0 == frags + f.payload,
        port_outcome(frags, f, true).1.is_none(),
        frags.len() + f.payload.len() > 0 ==> port_outcome(frags + f.payload, last, true).1 == Some(
            PacketModel { payload: frags + f.payload + last.payload, ..last },
        ),
{
}

/// `Vec::try_reserve_exact`: asks the allocator for room for `additional`
/// more bytes.  Claimed: the contents stay as they are, and a capacity beyond
/// `isize::MAX` bytes is refused (the documented capacity overflow); whether
/// smaller room was had depends on the allocator and is not stated.
#[verifier::external_body]
fn try_reserve_exact(v: &mut Vec<u8>, additional: usize) -> (ok: bool)
    ensures
        final(v)@ == old(v)@,
        old(v)@.len() + additional > isize::MAX ==> !ok,
{
    v.try_reserve_exact(additional).is_ok()
}

impl Port {
    /// A port with no fragments, not awaiting anything, a candidate.
    pub fn new() -> (p: Port)
        ensures
            !p.awaiting,
            p.msg == 0,
            p.role == Role::Candidate,
            p.fragments@ == Seq::<u8>::empty(),
    {
        Port { awaiting: false, msg: 0, role: Role::Candidate, fragments: Vec::new() }
    }

    /// Asks the allocator for room for [`fragment_reservation`] more bytes
    /// beyond the fragments; whether it was had.  A request beyond
    /// `isize::MAX` bytes is always refused.
    pub fn reserve_fragments(fragments: &mut Vec<u8>, payload_len: usize) -> (ok: bool)
        requires
            old(fragments)@.len() + payload_len <= usize::MAX,
        ensures
            final(fragments)@ == old(fragments)@,
            old(fragments)@.len() + fragment_reservation(old(fragments)@.len(), payload_len as nat) > isize::MAX
                ==> !ok,
    {
        let additional = reservation(fragments.len(), payload_len);
        try_reserve_exact(fragments, additional)
    }

    /// Appends a payload piece to the fragments when the room asked for was
    /// granted (`reserved`); otherwise drops every fragment and fails.
    pub fn append_reserved(fragments: &mut Vec<u8>, payload: &[u8], reserved: bool) -> (r: Result<(), PortError>)
        ensures
            reserved ==> r is Ok && final(fragments)@ == old(fragments)@ + payload@,
            !reserved ==> r == Err::<(), PortError>(PortError::Allocation) && final(fragments)@ == Seq::<
                u8,
            >::empty(),
    {
        if !reserved {
            *fragments = Vec::new();
            return Err(PortError::Allocation);
        }
        extend(fragments, payload);
        Ok(())
    }

    /// Appends a payload piece to the fragments after asking the allocator
    /// for room (see [`Port::reserve_fragments`] and
    /// [`Port::append_reserved`]).
    pub fn try_append_fragment(fragments: &mut Vec<u8>, payload: &[u8]) -> (r: Result<(), PortError>)
        requires
            old(fragments)@.len() + payload@.len() <= usize::MAX,
        ensures
            r is Ok ==> final(fragments)@ == old(fragments)@ + payload@,
            r is Err ==> r == Err::<(), PortError>(PortError::Allocation)
                && final(fragments)@ == Seq::<u8>::empty(),
            old(fragments)@.len() + fragment_reservation(old(fragments)@.len(), payload@.len()) > isize::MAX
                ==> r is Err,
    {
        let reserved = Self::reserve_fragments(fragments, payload.len());
        Self::append_reserved(fragments, payload, reserved)
    }

    /// Handles a decoded packet, given the allocator's answer to the room
    /// asked for its fragments (unused when the packet does not append; see
    /// [`port_outcome`]): acknowledges it when asked, stores a fragment, or
    /// hands the packet on, completed with the stored fragments.  Returns the
    /// packet handed on and the frames to write back; each frame written uses
    /// up one of the kernel's packet ids.
    pub fn handle_with(&mut self, p: Packet, next_id: &mut u16, reserved: bool) -> (r: (Option<Packet>, Vec<Vec<u8>>))
        requires
            can_handle(old(self).fragments@, p@, *old(next_id), reserved),
            can_append(old(self).fragments@, p@),
        ensures
            handled_as(
                old(self).fragments@,
                p@,
                reserved,
                final(self).fragments@,
                opt_view(r.0),
                frames_view(r.1@),
            ),
            *final(next_id) == *old(next_id) + r.1@.len(),
            final(self).awaiting == old(self).awaiting,
            final(self).msg == old(self).msg,
            final(self).role == old(self).role,
    {
        let mut writes: Vec<Vec<u8>> = Vec::new();
        let ghost frags = self.fragments@;
        if p.contains(ACK_REQUIRED) {
            let ack = p.ack(Vec::new());
            match ack.encode() {
                Some(frame) => {
                    writes.push(frame);
                    *next_id = *next_id + 1;
                },
                None => {},
            }
        }
        proof {
            assert(frames_view(writes@) =~= ack_frames(p@));
        }
        let appending = p.contains(FRAGMENTED) || self.fragments.len() > 0;
        if !appending {
            return (Some(p), writes);
        }
        match Self::append_reserved(&mut self.fragments, p.payload.as_slice(), reserved) {
            Ok(()) => {
                if p.contains(FRAGMENTED) {
                    (None, writes)
                } else {
                    let whole = to_vec(self.fragments.as_slice());
                    let q = Packet {
                        version: p.version,
                        flags: p.flags,
                        packet_id: p.packet_id,
                        src: p.src,
                        dst: p.dst,
                        ttl: p.ttl,
                        msg_type: p.msg_type,
                        payload: whole,
                    };
                    proof {
                        assert(q@ == PacketModel { payload: frags + p@.payload, ..p@ });
                    }
                    (Some(q), writes)
                }
            },
            Err(_) => {
                let text = alloc_error_bytes();
                let reply = p.reply_with_flags(ERROR, text);
                proof {
                    assert(reply@.payload == alloc_error_text());
                    assert(alloc_error_text().len() == 30);
                }
                match reply.encode() {
                    Some(frame) => {
                        writes.push(frame);
                        *next_id = *next_id + 1;
                    },
                    None => {},
                }
                proof {
                    assert(frames_view(writes@) =~= ack_frames(p@).push(alloc_error_frame(p@)));
                }
                (None, writes)
            },
        }
    }

    /// Handles the bytes a read from the port's peripheral gave: nothing for
    /// no bytes or a frame the protocol refuses; else, for a packet that
    /// appends, the allocator is asked for room, and the packet is handled
    /// as [`Port::handle_with`] does with its answer.  `None` when the room
    /// to ask for cannot be counted or the replies would need more packet
    /// ids than are left (see [`can_handle`]); the port is then left as it
    /// was.
    pub fn handle(&mut self, received: &[u8], next_id: &mut u16) -> (r: Option<(Option<Packet>, Vec<Vec<u8>>)>)
        requires
            decodable(received@),
        ensures
            received@.len() == 0 || spaceport_decode(received@) is None ==> r.is_some() && r.unwrap().0.is_none()
                && r.unwrap().1@.len() == 0 && final(self).fragments@ == old(self).fragments@ && *final(next_id) == *old(
                next_id,
            ),
            received@.len() > 0 && spaceport_decode(received@) is Some ==> {
                let p = decoded(received@);
                &&& !can_append(old(self).fragments@, p) ==> r.is_none() && final(self).fragments@ == old(
                    self,
                ).fragments@ && *final(next_id) == *old(next_id)
                &&& can_append(old(self).fragments@, p) ==> exists|ok: bool|
                    #[trigger] can_handle(old(self).fragments@, p, *old(next_id), ok) == r.is_some() && {
                        &&& !appends(old(self).fragments@, p) ==> ok
                        &&& r.is_none() ==> final(self).fragments@ == old(self).fragments@ && *final(next_id)
                            == *old(next_id)
                        &&& r.is_some() ==> handled_as(
                            old(self).fragments@,
                            p,
                            ok,
                            final(self).fragments@,
                            opt_view(r.unwrap().0),
                            frames_view(r.unwrap().1@),
                        ) && *final(next_id) == *old(next_id) + r.unwrap().1@.len()
                    }
            },
    {
        if received.len() == 0 {
            return Some((None, Vec::new()));
        }
        match Packet::decode(received) {
            None => Some((None, Vec::new())),
            Some(p) => {
                let appending = p.contains(FRAGMENTED) || self.fragments.len() > 0;
                if appending && self.fragments.len() > usize::MAX - p.payload.len() {
                    return None;
                }
                let reserved = if appending {
                    Self::reserve_fragments(&mut self.fragments, p.payload.len())
                } else {
                    true
                };
                let ack: u16 = if p.contains(ACK_REQUIRED) { 1 } else { 0 };
                let refused: u16 = if appending && !reserved { 1 } else { 0 };
                let needed: u16 = ack + refused;
                let ghost pm = p@;
                if (needed > 0 && p.packet_id == u16::MAX) || *next_id > u16::MAX - needed {
                    proof {
                        assert(pm == decoded(received@));
                        assert(!can_handle(old(self).fragments@, pm, *old(next_id), reserved));
                    }
                    return None;
                }
                let r = self.handle_with(p, next_id, reserved);
                proof {
                    assert(pm == decoded(received@));
                    assert(can_handle(old(self).fragments@, pm, *old(next_id), reserved));
                }
                Some(r)
            },
        }
    }
}

} // verus!
