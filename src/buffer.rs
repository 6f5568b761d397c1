//! The buffer of inbound packets that no pending request has claimed yet.
//!
//! Packets are kept in the order they arrived. A request takes the first
//! packet whose signature matches its reply type; a taken packet, or one
//! older than the obsolescence window, is dropped at the next trim, and every
//! push and every take trims.

use vstd::prelude::*;
use crate::error::DecodeError;
use crate::frame::{
    decode_reply, next_frame, reply_matches, spec_decode_reply, spec_next_frame,
    spec_reply_matches, FrameStep, ReplyFrame,
};

verus! {

/// How long, in milliseconds, an unclaimed packet stays in the buffer.
pub const OBSOLESCENCE_MS: u64 = 2000;

/// What a raw packet holds, as contracts speak of it.
pub ghost struct RawPacketView {
    pub bytes: Seq<u8>,
    pub used: bool,
    pub timestamp: u64,
}

impl RawPacketView {
    /// Whether the packet was used, or is older than `window` at time `now`.
    pub open spec fn obsolete(self, now: u64, window: u64) -> bool {
        self.used || (now > self.timestamp && now - self.timestamp > window)
    }

    /// Whether the packet stays in the buffer when trimmed at time `now`.
    pub open spec fn fresh(self, now: u64) -> bool {
        !self.obsolete(now, OBSOLESCENCE_MS)
    }
}

/// The bytes of one framed inbound packet, whether a request has used it,
/// and when it arrived (milliseconds on the caller's clock).
#[derive(Debug)]
pub struct RawPacket {
    bytes: Vec<u8>,
    used: bool,
    timestamp: u64,
}

impl View for RawPacket {
    type V = RawPacketView;

    closed spec fn view(&self) -> RawPacketView {
        RawPacketView { bytes: self.bytes@, used: self.used, timestamp: self.timestamp }
    }
}

impl RawPacket {
    /// A packet that arrived at time `now` and was not used yet.
    pub fn new(bytes: Vec<u8>, now: u64) -> (r: RawPacket)
        ensures
            r@ == (RawPacketView { bytes: bytes@, used: false, timestamp: now }),
    {
        RawPacket { bytes, used: false, timestamp: now }
    }

    pub fn bytes(&self) -> (r: &[u8])
        ensures
            r@ == self@.bytes,
    {
        self.bytes.as_slice()
    }

    pub fn is_used(&self) -> (r: bool)
        ensures
            r == self@.used,
    {
        self.used
    }

    /// Whether the packet was used, or is older than `window` at time `now`.
    pub fn is_obsolete(&self, now: u64, window: u64) -> (r: bool)
        ensures
            r == self@.obsolete(now, window),
    {
        self.used || (now > self.timestamp && now - self.timestamp > window)
    }

    /// Whether the packet has the signature of a reply to `id`/`ext_id`.
    pub fn check_header(&self, id: u8, ext_id: u8) -> (r: bool)
        ensures
            r == spec_reply_matches(self@.bytes, id, ext_id),
    {
        reply_matches(self.bytes.as_slice(), id, ext_id)
    }

    /// Decodes the packet as a reply to `id`/`ext_id`, and marks it used
    /// when that succeeds. A used packet decodes as well.
    pub fn decode_and_use(&mut self, id: u8, ext_id: u8) -> (r: Result<ReplyFrame, DecodeError>)
        ensures
            final(self)@.bytes == old(self)@.bytes,
            final(self)@.timestamp == old(self)@.timestamp,
            final(self)@.used == (old(self)@.used || r is Ok),
            match r {
                Ok(f) => spec_decode_reply(old(self)@.bytes, id, ext_id) == Ok::<(u8, Seq<u8>, u16), DecodeError>(
                    (f.ack, f.payload@, f.checksum)) && f.id == id && f.ext_id == ext_id,
                Err(e) => spec_decode_reply(old(self)@.bytes, id, ext_id) == Err::<(u8, Seq<u8>, u16), DecodeError>(
                    e),
            },
    {
        let r = decode_reply(self.bytes.as_slice(), id, ext_id);
        if r.is_ok() {
            self.used = true;
        }
        r
    }

    /// Marks the packet used: no request may take it again.
    pub fn mark_used(&mut self)
        ensures
            final(self)@ == (RawPacketView { used: true, ..old(self)@ }),
    {
        self.used = true;
    }
}

/// The view of a raw packet.
pub open spec fn raw_view(p: RawPacket) -> RawPacketView {
    p@
}

/// The views of a sequence of raw packets.
pub open spec fn views(s: Seq<RawPacket>) -> Seq<RawPacketView> {
    s.map_values(|p: RawPacket| raw_view(p))
}

/// The packets of `s` that stay when the buffer is trimmed at time `now`.
pub open spec fn trimmed(s: Seq<RawPacketView>, now: u64) -> Seq<RawPacketView> {
    s.filter(|p: RawPacketView| p.fresh(now))
}

/// What one attempt to take a reply from the buffer gives.
pub enum Take {
    /// The packet at `position` was the first with the reply's signature; it
    /// left the buffer, and `reply` is what decoding it gave.
    Found { position: usize, reply: Result<ReplyFrame, DecodeError> },
    /// No packet had the reply's signature.
    Missing,
}

/// What a pending request does next.
pub enum ReceiveStep {
    /// A packet with the reply's signature was taken; this is what decoding it gave.
    Reply(Result<ReplyFrame, DecodeError>),
    /// No reply is buffered: read one more frame from the link.
    ReadMore,
    /// No reply is buffered and the deadline has passed.
    TimedOut,
}

/// Whether what decoding `bytes` as a reply to `id`/`ext_id` gave agrees with
/// the decoding rules.
pub open spec fn decoded_from(
    reply: Result<ReplyFrame, DecodeError>,
    bytes: Seq<u8>,
    id: u8,
    ext_id: u8,
) -> bool {
    match reply {
        Ok(f) => spec_decode_reply(bytes, id, ext_id) == Ok::<(u8, Seq<u8>, u16), DecodeError>(
            (f.ack, f.payload@, f.checksum)) && f.id == id && f.ext_id == ext_id,
        Err(e) => spec_decode_reply(bytes, id, ext_id) == Err::<(u8, Seq<u8>, u16), DecodeError>(e),
    }
}

/// Whether `r` and the buffer `after` are what polling the buffer `before`
/// for a reply to `id`/`ext_id` at `now`, with deadline `deadline`, gives:
/// after a trim, the first packet with the reply's signature is taken and
/// decoded; without one the request reads more before the deadline and
/// times out from it on.
pub open spec fn polled(
    before: Seq<RawPacketView>,
    after: Seq<RawPacketView>,
    r: ReceiveStep,
    id: u8,
    ext_id: u8,
    now: u64,
    deadline: u64,
) -> bool {
    let s = trimmed(before, now);
    match r {
        ReceiveStep::Reply(reply) => exists|position: int|
            0 <= position < s.len() && spec_reply_matches(#[trigger] s[position].bytes, id, ext_id)
                && (forall|j: int| 0 <= j < position ==> !spec_reply_matches(#[trigger] s[j].bytes, id, ext_id))
                && decoded_from(reply, s[position].bytes, id, ext_id) && after == s.remove(position),
        ReceiveStep::ReadMore => {
            &&& now < deadline
            &&& after == s
            &&& forall|j: int| 0 <= j < s.len() ==> !spec_reply_matches(#[trigger] s[j].bytes, id, ext_id)
        },
        ReceiveStep::TimedOut => {
            &&& now >= deadline
            &&& after == s
            &&& forall|j: int| 0 <= j < s.len() ==> !spec_reply_matches(#[trigger] s[j].bytes, id, ext_id)
        },
    }
}

/// The inbound packets not yet claimed, oldest first.
#[derive(Debug)]
pub struct PacketBuffer {
    packets: Vec<RawPacket>,
}

impl View for PacketBuffer {
    type V = Seq<RawPacketView>;

    closed spec fn view(&self) -> Seq<RawPacketView> {
        views(self.packets@)
    }
}

impl PacketBuffer {
    pub fn new() -> (r: PacketBuffer)
        ensures
            r@ == Seq::<RawPacketView>::empty(),
    {
        let r = PacketBuffer { packets: Vec::new() };
        assert(r@ =~= Seq::<RawPacketView>::empty());
        r
    }

    pub fn len(&self) -> (r: usize)
        ensures
            r == self@.len(),
    {
        self.packets.len()
    }

    /// Drops every used packet and every packet older than the obsolescence
    /// window at time `now`, keeping the order of the others.
    pub fn trim(&mut self, now: u64)
        ensures
            final(self)@ == trimmed(old(self)@, now),
            forall|i: int| 0 <= i < final(self)@.len() ==> (#[trigger] final(self)@[i]).fresh(now),
    {
        let ghost old_view = self@;
        let mut kept: Vec<RawPacket> = Vec::new();
        let mut rest: Vec<RawPacket> = Vec::new();
        std::mem::swap(&mut rest, &mut self.packets);
        let ghost src = rest@;
        let n = rest.len();
        let mut i: usize = 0;
        while i < n
            invariant
                n == src.len(),
                old_view == views(src),
                i <= n,
                rest@ == src.subrange(i as int, n as int),
                views(kept@) == trimmed(
                    views(src.subrange(0, i as int)),
                    now,
                ),
            decreases n - i,
        {
            let p = rest.remove(0);
            assert(p == src[i as int]);
            let ghost before = views(src.subrange(0, i as int));
            let ghost after = views(src.subrange(0, i as int + 1));
            assert(after =~= before.push(p@));
            proof { lemma_trimmed_push(before, p@, now); }
            let ghost kept_before = kept@;
            if !p.is_obsolete(now, OBSOLESCENCE_MS) {
                kept.push(p);
                assert(views(kept@) =~= views(kept_before).push(p@));
            }
            assert(rest@ =~= src.subrange(i as int + 1, n as int));
            i = i + 1;
        }
        assert(src.subrange(0, n as int) =~= src);
        self.packets = kept;
        proof {
            assert forall|i: int| 0 <= i < self@.len() implies (#[trigger] self@[i]).fresh(now) by {
                old_view.lemma_filter_pred(|p: RawPacketView| p.fresh(now), i);
            }
        }
    }

    /// The bytes of the packet at `i`.
    pub fn packet_bytes(&self, i: usize) -> (r: &[u8])
        requires
            i < self@.len(),
        ensures
            r@ == self@[i as int].bytes,
    {
        self.packets[i].bytes()
    }

    /// Takes the packet at `i` out of the buffer.
    pub fn take_at(&mut self, i: usize) -> (r: RawPacket)
        requires
            i < old(self)@.len(),
        ensures
            r@ == old(self)@[i as int],
            final(self)@ == old(self)@.remove(i as int),
    {
        let r = self.packets.remove(i);
        assert(self@ =~= old(self)@.remove(i as int));
        r
    }

    /// Appends a packet that arrived at time `now`, then trims.
    pub fn push(&mut self, bytes: Vec<u8>, now: u64)
        ensures
            final(self)@ == trimmed(
                old(self)@.push(RawPacketView { bytes: bytes@, used: false, timestamp: now }),
                now,
            ),
    {
        let p = RawPacket::new(bytes, now);
        let ghost pv = p@;
        self.packets.push(p);
        assert(self@ =~= old(self)@.push(pv));
        self.trim(now);
    }

    /// Frames the start of `stream` and appends the frame found there, if
    /// any, as a packet that arrived at time `now`. The caller drops the
    /// bytes a `Frame` or `Discard` step covers from its stream.
    pub fn ingest(&mut self, stream: &[u8], now: u64) -> (r: FrameStep)
        ensures
            r == spec_next_frame(stream@),
            match r {
                FrameStep::Frame(n) => final(self)@ == trimmed(
                    old(self)@.push(
                        RawPacketView {
                            bytes: stream@.subrange(0, n as int),
                            used: false,
                            timestamp: now,
                        },
                    ),
                    now,
                ),
                _ => final(self)@ == old(self)@,
            },
    {
        let step = next_frame(stream);
        if let FrameStep::Frame(n) = step {
            let mut bytes: Vec<u8> = Vec::new();
            let mut i: usize = 0;
            while i < n
                invariant
                    n <= stream@.len(),
                    i <= n,
                    bytes@ == stream@.subrange(0, i as int),
                decreases n - i,
            {
                bytes.push(stream[i]);
                i = i + 1;
            }
            self.push(bytes, now);
        }
        step
    }

    /// Trims at time `now`, then takes the first packet, in order of
    /// arrival, that has the signature of a reply to `id`/`ext_id`. The
    /// packet is used up whether or not it decodes.
    pub fn take_reply(&mut self, id: u8, ext_id: u8, now: u64) -> (r: Take)
        ensures
            ({
                let s = trimmed(old(self)@, now);
                match r {
                    Take::Missing => {
                        &&& final(self)@ == s
                        &&& forall|j: int| 0 <= j < s.len() ==> !spec_reply_matches(
                            #[trigger] s[j].bytes,
                            id,
                            ext_id,
                        )
                    },
                    Take::Found { position, reply } => {
                        &&& position < s.len()
                        &&& spec_reply_matches(s[position as int].bytes, id, ext_id)
                        &&& forall|j: int| 0 <= j < position ==> !spec_reply_matches(
                            #[trigger] s[j].bytes,
                            id,
                            ext_id,
                        )
                        &&& decoded_from(reply, s[position as int].bytes, id, ext_id)
                        &&& final(self)@ == s.remove(position as int)
                    },
                }
            }),
            forall|i: int| 0 <= i < final(self)@.len() ==> (#[trigger] final(self)@[i]).fresh(now),
    {
        self.trim(now);
        let ghost s = self@;
        let mut i: usize = 0;
        while i < self.packets.len()
            invariant
                self@ == s,
                s == trimmed(old(self)@, now),
                forall|k: int| 0 <= k < s.len() ==> (#[trigger] s[k]).fresh(now),
                i <= s.len(),
                forall|j: int| 0 <= j < i ==> !spec_reply_matches(#[trigger] s[j].bytes, id, ext_id),
            decreases s.len() - i,
        {
            assert(self.packets@[i as int]@ == s[i as int]);
            if self.packets[i].check_header(id, ext_id) {
                let mut p = self.packets.remove(i);
                assert(self@ =~= s.remove(i as int));
                let reply = p.decode_and_use(id, ext_id);
                if reply.is_err() {
                    p.mark_used();
                }
                proof {
                    assert forall|k: int| 0 <= k < self@.len() implies (#[trigger] self@[k]).fresh(
                        now,
                    ) by {
                        if k < i {
                            assert(self@[k] == s[k]);
                        } else {
                            assert(self@[k] == s[k + 1]);
                        }
                    }
                }
                return Take::Found { position: i, reply };
            }
            i = i + 1;
        }
        Take::Missing
    }

    /// Decides the next step of a request waiting for a reply to
    /// `id`/`ext_id` at time `now`: a buffered reply is taken first; without
    /// one the request reads more until `deadline`, then times out.
    pub fn poll_reply(&mut self, id: u8, ext_id: u8, now: u64, deadline: u64) -> (r: ReceiveStep)
        ensures
            polled(old(self)@, final(self)@, r, id, ext_id, now, deadline),
    {
        match self.take_reply(id, ext_id, now) {
            Take::Found { position, reply } => {
                assert(spec_reply_matches(trimmed(old(self)@, now)[position as int].bytes, id, ext_id));
                ReceiveStep::Reply(reply)
            },
            Take::Missing => if now < deadline {
                ReceiveStep::ReadMore
            } else {
                ReceiveStep::TimedOut
            },
        }
    }
}

/// Trimming a buffer whose packets are all fresh keeps it as it is: on such
/// a buffer the first packet with a reply's signature, in order of arrival,
/// is the first one of the whole buffer.
pub proof fn lemma_trim_keeps_fresh(s: Seq<RawPacketView>, now: u64)
    requires
        forall|i: int| 0 <= i < s.len() ==> (#[trigger] s[i]).fresh(now),
    ensures
        trimmed(s, now) == s,
    decreases s.len(),
{
    if s.len() > 0 {
        let init = s.drop_last();
        assert forall|i: int| 0 <= i < init.len() implies (#[trigger] init[i]).fresh(now) by {
            assert(init[i] == s[i]);
        }
        lemma_trim_keeps_fresh(init, now);
        lemma_trimmed_push(init, s.last(), now);
        assert(init.push(s.last()) =~= s);
    }
}

/// Trimming a sequence with one more packet at its end keeps what trimming
/// the shorter one keeps, and the new packet when it is fresh.
proof fn lemma_trimmed_push(s: Seq<RawPacketView>, x: RawPacketView, now: u64)
    ensures
        trimmed(s.push(x), now) == if x.fresh(now) {
            trimmed(s, now).push(x)
        } else {
            trimmed(s, now)
        },
{
    s.lemma_filter_push(x, |p: RawPacketView| p.fresh(now));
}

} // verus!
