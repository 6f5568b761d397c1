//! The protocol state of one link to a daemon or a Brain: the inbound bytes
//! not yet framed, and the buffer of framed packets not yet claimed.
//!
//! The link's own I/O is the caller's: it hands over what it read, and sends
//! what `send_packet` encodes.

use vstd::prelude::*;
use crate::buffer::{polled, trimmed, PacketBuffer, RawPacket, RawPacketView, ReceiveStep};
use crate::frame::{spec_next_frame, FrameStep};
use crate::sharing::{Request, V5D_CDC};
use crate::frame::command_bytes;

verus! {

/// How a link is made.
#[derive(Debug, Clone, Copy, PartialEq, Eq, Structural)]
pub enum ConnectionType {
    Wired,
    Controller,
    Bluetooth,
}

/// The protocol state of one link.
#[derive(Debug)]
pub struct DaemonConnection {
    kind: ConnectionType,
    pending: Vec<u8>,
    incoming: PacketBuffer,
}

impl DaemonConnection {
    pub closed spec fn spec_kind(&self) -> ConnectionType {
        self.kind
    }

    /// The inbound bytes not yet framed.
    pub closed spec fn spec_pending(&self) -> Seq<u8> {
        self.pending@
    }

    /// The framed packets not yet claimed.
    pub closed spec fn spec_incoming(&self) -> Seq<RawPacketView> {
        self.incoming@
    }

    /// A link of the given kind with nothing received yet.
    pub fn new(kind: ConnectionType) -> (r: DaemonConnection)
        ensures
            r.spec_kind() == kind,
            r.spec_pending().len() == 0,
            r.spec_incoming().len() == 0,
    {
        DaemonConnection { kind, pending: Vec::new(), incoming: PacketBuffer::new() }
    }

    pub fn connection_type(&self) -> (r: ConnectionType)
        ensures
            r == self.spec_kind(),
    {
        self.kind
    }

    /// The bytes that carry `request` to the other side.
    pub fn send_packet(&self, request: &Request) -> (r: Vec<u8>)
        requires
            request.payload@.len() <= 0x7FFF,
        ensures
            r@ == command_bytes(V5D_CDC, request.ext_id, request.payload@),
    {
        request.encode()
    }

    /// Appends bytes read from the link to the bytes not yet framed.
    pub fn receive_bytes(&mut self, data: &[u8])
        ensures
            final(self).spec_pending() == old(self).spec_pending() + data@,
            final(self).spec_incoming() == old(self).spec_incoming(),
            final(self).spec_kind() == old(self).spec_kind(),
    {
        let mut i: usize = 0;
        let ghost start = self.pending@;
        while i < data.len()
            invariant
                i <= data@.len(),
                self.pending@ == start + data@.subrange(0, i as int),
                self.incoming@ == old(self).incoming@,
                self.kind == old(self).kind,
            decreases data@.len() - i,
        {
            self.pending.push(data[i]);
            i = i + 1;
        }
        assert(data@.subrange(0, data@.len() as int) =~= data@);
    }

    /// Frames one packet, or drops two bytes of noise, from the start of
    /// the bytes not yet framed; a frame found there joins the packet
    /// buffer as arriving at `now`.
    pub fn receive_one_packet(&mut self, now: u64) -> (r: FrameStep)
        ensures
            r == spec_next_frame(old(self).spec_pending()),
            final(self).spec_kind() == old(self).spec_kind(),
            match r {
                FrameStep::NeedMore => {
                    &&& final(self).spec_pending() == old(self).spec_pending()
                    &&& final(self).spec_incoming() == old(self).spec_incoming()
                },
                FrameStep::Discard(n) => {
                    &&& final(self).spec_pending() == old(self).spec_pending().subrange(
                        n as int,
                        old(self).spec_pending().len() as int,
                    )
                    &&& final(self).spec_incoming() == old(self).spec_incoming()
                },
                FrameStep::Frame(n) => {
                    &&& final(self).spec_pending() == old(self).spec_pending().subrange(
                        n as int,
                        old(self).spec_pending().len() as int,
                    )
                    &&& final(self).spec_incoming() == trimmed(
                        old(self).spec_incoming().push(
                            RawPacketView {
                                bytes: old(self).spec_pending().subrange(0, n as int),
                                used: false,
                                timestamp: now,
                            },
                        ),
                        now,
                    )
                },
            },
    {
        let step = self.incoming.ingest(self.pending.as_slice(), now);
        match step {
            FrameStep::NeedMore => {},
            FrameStep::Discard(n) => { drop_front(&mut self.pending, n); },
            FrameStep::Frame(n) => { drop_front(&mut self.pending, n); },
        }
        step
    }

    /// How many framed packets are not yet claimed.
    pub fn packet_count(&self) -> (r: usize)
        ensures
            r == self.spec_incoming().len(),
    {
        self.incoming.len()
    }

    /// The bytes of the unclaimed packet at `i`.
    pub fn packet_bytes(&self, i: usize) -> (r: &[u8])
        requires
            i < self.spec_incoming().len(),
        ensures
            r@ == self.spec_incoming()[i as int].bytes,
    {
        self.incoming.packet_bytes(i)
    }

    /// Claims the packet at `i`: it leaves the buffer.
    pub fn take_packet(&mut self, i: usize) -> (r: RawPacket)
        requires
            i < old(self).spec_incoming().len(),
        ensures
            r@ == old(self).spec_incoming()[i as int],
            final(self).spec_incoming() == old(self).spec_incoming().remove(i as int),
            final(self).spec_pending() == old(self).spec_pending(),
            final(self).spec_kind() == old(self).spec_kind(),
    {
        self.incoming.take_at(i)
    }

    /// Drops used and obsolete packets at time `now`.
    pub fn trim(&mut self, now: u64)
        ensures
            final(self).spec_incoming() == trimmed(old(self).spec_incoming(), now),
            final(self).spec_pending() == old(self).spec_pending(),
            final(self).spec_kind() == old(self).spec_kind(),
    {
        self.incoming.trim(now)
    }

    /// Decides the next step of a request waiting at `now` for a reply to
    /// `id`/`ext_id` until `deadline` (see `PacketBuffer::poll_reply`).
    pub fn receive_packet(&mut self, id: u8, ext_id: u8, now: u64, deadline: u64) -> (r: ReceiveStep)
        ensures
            final(self).spec_pending() == old(self).spec_pending(),
            final(self).spec_kind() == old(self).spec_kind(),
            polled(old(self).spec_incoming(), final(self).spec_incoming(), r, id, ext_id, now, deadline),
    {
        self.incoming.poll_reply(id, ext_id, now, deadline)
    }
}

/// Drops the first `n` bytes of `v`.
fn drop_front(v: &mut Vec<u8>, n: usize)
    requires
        n <= old(v)@.len(),
    ensures
        final(v)@ == old(v)@.subrange(n as int, old(v)@.len() as int),
{
    let mut out: Vec<u8> = Vec::new();
    let mut i: usize = n;
    while i < v.len()
        invariant
            n <= i <= v@.len(),
            v@ == old(v)@,
            out@ == old(v)@.subrange(n as int, i as int),
        decreases v@.len() - i,
    {
        out.push(v[i]);
        i = i + 1;
    }
    *v = out;
}

} // verus!
