//! Length-prefixed framing of byte payloads.
//!
//! One frame on the wire is a 4-byte little-endian length followed by exactly
//! that many payload bytes. [`encode_frame`] builds a frame; [`MessageHandler`]
//! reassembles frames from an arbitrarily fragmented incoming byte stream.

use vstd::prelude::*;

verus! {

/// The four little-endian bytes of `n`.
pub open spec fn le_bytes(n: u32) -> Seq<u8> {
    seq![
        (n & 0xff) as u8,
        ((n >> 8) & 0xff) as u8,
        ((n >> 16) & 0xff) as u8,
        ((n >> 24) & 0xff) as u8,
    ]
}

/// The value encoded by four little-endian bytes.
pub open spec fn le_value(s: Seq<u8>) -> int
    recommends
        s.len() == 4,
{
    s[0] + s[1] * 0x100 + s[2] * 0x1_0000 + s[3] * 0x100_0000
}

pub proof fn lemma_le_roundtrip(n: u32)
    ensures
        le_value(le_bytes(n)) == n,
{
    assert(((n & 0xff) as u8) + (((n >> 8) & 0xff) as u8) * 0x100 + (((n >> 16) & 0xff) as u8)
        * 0x1_0000 + (((n >> 24) & 0xff) as u8) * 0x100_0000 == n) by (bit_vector);
}

pub proof fn lemma_le_bytes_of(b0: u8, b1: u8, b2: u8, b3: u8)
    ensures
        le_bytes((b0 as u32 + b1 as u32 * 0x100 + b2 as u32 * 0x1_0000 + b3 as u32
            * 0x100_0000) as u32) == seq![b0, b1, b2, b3],
{
    let n: u32 = (b0 as u32 + b1 as u32 * 0x100 + b2 as u32 * 0x1_0000 + b3 as u32
        * 0x100_0000) as u32;
    assert((n & 0xff) == b0 && ((n >> 8) & 0xff) == b1 && ((n >> 16) & 0xff) == b2 && ((n >> 24)
        & 0xff) == b3) by (bit_vector)
        requires
            n == (b0 as u32 + b1 as u32 * 0x100 + b2 as u32 * 0x1_0000 + b3 as u32 * 0x100_0000),
    ;
    assert(le_bytes(n) =~= seq![b0, b1, b2, b3]);
}

/// The whole frame that carries `payload`: length prefix, then the payload.
pub open spec fn spec_frame(payload: Seq<u8>) -> Seq<u8>
    recommends
        payload.len() <= u32::MAX,
{
    le_bytes(payload.len() as u32) + payload
}

/// Does the stream `s` begin with one complete frame?
pub open spec fn has_complete_frame(s: Seq<u8>) -> bool {
    s.len() >= 4 && s.len() >= 4 + le_value(s.subrange(0, 4))
}

/// The payload of the complete frame at the front of `s`.
pub open spec fn frame_payload(s: Seq<u8>) -> Seq<u8>
    recommends
        has_complete_frame(s),
{
    s.subrange(4, 4 + le_value(s.subrange(0, 4)))
}

/// What remains of `s` after the frame at its front.
pub open spec fn frame_rest(s: Seq<u8>) -> Seq<u8>
    recommends
        has_complete_frame(s),
{
    s.skip(4 + le_value(s.subrange(0, 4)))
}

/// Every frame decodes back to the payload it was built from, with nothing
/// left over: `encode` followed by `decode` is the identity on payloads.
pub proof fn lemma_frame_roundtrip(payload: Seq<u8>)
    requires
        payload.len() <= u32::MAX,
    ensures
        has_complete_frame(spec_frame(payload)),
        frame_payload(spec_frame(payload)) == payload,
        frame_rest(spec_frame(payload)) == Seq::<u8>::empty(),
{
    let s = spec_frame(payload);
    assert(s.subrange(0, 4) =~= le_bytes(payload.len() as u32));
    lemma_le_roundtrip(payload.len() as u32);
    assert(frame_payload(s) =~= payload);
    assert(frame_rest(s) =~= Seq::<u8>::empty());
}

/// A strict prefix of a frame never holds a complete frame, so a decoder that
/// has seen only part of a frame extracts nothing.
pub proof fn lemma_frame_prefix_incomplete(payload: Seq<u8>, k: int)
    requires
        payload.len() <= u32::MAX,
        0 <= k < spec_frame(payload).len(),
    ensures
        !has_complete_frame(spec_frame(payload).take(k)),
{
    let s = spec_frame(payload).take(k);
    if k >= 4 {
        assert(s.subrange(0, 4) =~= spec_frame(payload).subrange(0, 4));
        assert(spec_frame(payload).subrange(0, 4) =~= le_bytes(payload.len() as u32));
        lemma_le_roundtrip(payload.len() as u32);
    }
}

/// Builds the frame that carries `payload`: its length as four little-endian
/// bytes, then the payload itself.
pub fn encode_frame(payload: &[u8]) -> (r: Vec<u8>)
    requires
        payload@.len() <= u32::MAX,
    ensures
        r@ == spec_frame(payload@),
{
    let len: u32 = payload.len() as u32;
    let mut r: Vec<u8> = Vec::new();
    r.push((len & 0xff) as u8);
    r.push(((len >> 8) & 0xff) as u8);
    r.push(((len >> 16) & 0xff) as u8);
    r.push(((len >> 24) & 0xff) as u8);
    let mut body = vstd::slice::slice_to_vec(payload);
    r.append(&mut body);
    assert(r@ =~= spec_frame(payload@));
    r
}

/// Reassembles frames from a fragmented byte stream.
///
/// Bytes arrive in arbitrary chunks; the handler accumulates them and, once
/// the length prefix and the announced number of payload bytes are all
/// present, hands out exactly one payload and keeps the unconsumed tail.
pub struct MessageHandler {
    packet_size: Option<u32>,
    data: Vec<u8>,
}

impl MessageHandler {
    /// The bytes received and not yet consumed, with a length prefix already
    /// decoded counted back in: the state of the incoming stream.
    pub closed spec fn pending(self) -> Seq<u8> {
        match self.packet_size {
            Some(n) => le_bytes(n) + self.data@,
            None => self.data@,
        }
    }

    /// A decoded length prefix is only kept while the payload it announces is
    /// still incomplete.
    pub closed spec fn wf(self) -> bool {
        match self.packet_size {
            Some(n) => self.data@.len() < n,
            None => true,
        }
    }

    pub fn new() -> (r: Self)
        ensures
            r.wf(),
            r.pending() == Seq::<u8>::empty(),
    {
        let r = Self { packet_size: None, data: Vec::new() };
        assert(r.pending() =~= Seq::<u8>::empty());
        r
    }

    /// Feeds one chunk of the incoming stream. Returns the payload of the
    /// first frame as soon as the accumulated bytes complete one, keeping
    /// what follows it; returns `None` while the frame is still incomplete.
    pub fn handle(&mut self, input: &[u8]) -> (r: Option<Vec<u8>>)
        requires
            old(self).wf(),
        ensures
            final(self).wf(),
            ({
                let s = old(self).pending() + input@;
                if has_complete_frame(s) {
                    &&& r matches Some(payload) && payload@ == frame_payload(s)
                    &&& final(self).pending() == frame_rest(s)
                } else {
                    &&& r is None
                    &&& final(self).pending() == s
                }
            }),
    {
        let ghost s = old(self).pending() + input@;
        let mut incoming = vstd::slice::slice_to_vec(input);
        self.data.append(&mut incoming);
        if self.packet_size.is_none() {
            if self.data.len() < 4 {
                assert(!has_complete_frame(s));
                assert(self.pending() =~= s);
                return None;
            }
            let b0 = self.data[0];
            let b1 = self.data[1];
            let b2 = self.data[2];
            let b3 = self.data[3];
            let size: u32 = b0 as u32 + b1 as u32 * 0x100 + b2 as u32 * 0x1_0000 + b3 as u32
                * 0x100_0000;
            proof {
                lemma_le_bytes_of(b0, b1, b2, b3);
                assert(s.subrange(0, 4) =~= seq![b0, b1, b2, b3]);
            }
            self.packet_size = Some(size);
            let tail = self.data.split_off(4);
            self.data = tail;
        }
        assert(self.packet_size is Some);
        let packet_size_u32: u32 = match self.packet_size {
            Some(p) => p,
            None => 0,
        };
        let ghost n = packet_size_u32;
        proof {
            lemma_le_roundtrip(n);
            assert(s.subrange(0, 4) =~= le_bytes(n));
            assert(s.skip(4) =~= self.data@);
        }
        let packet_size = packet_size_u32 as usize;
        if packet_size > self.data.len() {
            assert(!has_complete_frame(s));
            assert(self.pending() =~= s);
            None
        } else {
            let rest = self.data.split_off(packet_size);
            let mut payload = rest;
            core::mem::swap(&mut payload, &mut self.data);
            self.packet_size = None;
            proof {
                assert(has_complete_frame(s));
                assert(payload@ =~= frame_payload(s));
                assert(self.pending() =~= frame_rest(s));
            }
            Some(payload)
        }
    }
}

} // verus!
