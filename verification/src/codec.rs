//! The framed transport: every unit on the wire is one frame — a tag
//! byte, a four-byte big-endian payload length, and the payload bytes.
//! Both peers agree on the tags; the payload schema behind a tag is the
//! peers' business. Decoding is the exact inverse of encoding, and a
//! heartbeat check closes sessions that stopped pinging.

use vstd::prelude::*;
use crate::HEARTBEAT_INTERVAL_SECS;

verus! {

/// Tag of a ping frame.
pub const FRAME_PING: u8 = 0;

/// Tag of a pong frame.
pub const FRAME_PONG: u8 = 1;

/// Tag of a client request frame.
pub const FRAME_REQUEST: u8 = 2;

/// Tag of a server response frame.
pub const FRAME_RESPONSE: u8 = 3;

/// Tag of a server event frame.
pub const FRAME_EVENT: u8 = 4;

/// One transport frame: a tag and its payload bytes.
pub struct Frame {
    pub tag: u8,
    pub payload: Vec<u8>,
}

/// The known frame tags.
pub open spec fn valid_tag(tag: u8) -> bool {
    tag == FRAME_PING || tag == FRAME_PONG || tag == FRAME_REQUEST || tag == FRAME_RESPONSE
        || tag == FRAME_EVENT
}

/// The four big-endian bytes of a 32-bit length.
pub open spec fn be32(n: u32) -> Seq<u8> {
    seq![(n >> 24) as u8, (n >> 16) as u8, (n >> 8) as u8, n as u8]
}

/// The wire bytes of one frame.
pub open spec fn frame_bytes(tag: u8, payload: Seq<u8>) -> Seq<u8> {
    seq![tag] + be32(payload.len() as u32) + payload
}

/// The payload length announced by the frame header at `start`.
pub open spec fn spec_len_at(buf: Seq<u8>, start: int) -> u32 {
    ((buf[start + 1] as u32) << 24) | ((buf[start + 2] as u32) << 16) | ((buf[start + 3] as u32)
        << 8) | (buf[start + 4] as u32)
}

/// Reassembling the big-endian bytes of a length gives the length back.
proof fn lemma_be32_round_trip(n: u32)
    ensures
        ((be32(n)[0] as u32) << 24) | ((be32(n)[1] as u32) << 16) | ((be32(n)[2] as u32) << 8) | (
        be32(n)[3] as u32) == n,
{
    let b0 = (n >> 24) as u8;
    let b1 = (n >> 16) as u8;
    let b2 = (n >> 8) as u8;
    let b3 = n as u8;
    assert(((b0 as u32) << 24) | ((b1 as u32) << 16) | ((b2 as u32) << 8) | (b3 as u32) == n)
        by (bit_vector)
        requires
            b0 == (n >> 24) as u8,
            b1 == (n >> 16) as u8,
            b2 == (n >> 8) as u8,
            b3 == n as u8,
    ;
}

/// Encodes one frame: the tag, the payload length in four big-endian
/// bytes, then the payload.
pub fn encode_frame(frame: &Frame) -> (r: Vec<u8>)
    requires
        frame.payload@.len() <= u32::MAX,
    ensures
        r@ == frame_bytes(frame.tag, frame.payload@),
        r@.len() == 5 + frame.payload@.len(),
{
    let mut out: Vec<u8> = Vec::new();
    out.push(frame.tag);
    let n = frame.payload.len() as u32;
    out.push(#[verifier::truncate] ((n >> 24u32) as u8));
    out.push(#[verifier::truncate] ((n >> 16u32) as u8));
    out.push(#[verifier::truncate] ((n >> 8u32) as u8));
    out.push(#[verifier::truncate] (n as u8));
    let mut i: usize = 0;
    while i < frame.payload.len()
        invariant
            i <= frame.payload@.len(),
            frame.payload@.len() <= u32::MAX,
            out@ =~= seq![frame.tag] + be32(frame.payload@.len() as u32) + frame.payload@.take(
                i as int,
            ),
        decreases frame.payload@.len() - i,
    {
        out.push(frame.payload[i]);
        proof {
            assert(out@ =~= seq![frame.tag] + be32(frame.payload@.len() as u32)
                + frame.payload@.take(i + 1 as int));
        }
        i = i + 1;
    }
    proof {
        assert(frame.payload@.take(frame.payload@.len() as int) =~= frame.payload@);
        assert(out@ =~= frame_bytes(frame.tag, frame.payload@));
    }
    out
}

/// Decodes the frame starting at `start`, handing back the frame and
/// the offset right after it. Nothing is handed back when the tag is
/// unknown or the buffer ends before the announced payload does; a
/// decoded frame's bytes are exactly the encoding of what is returned.
#[verifier::loop_isolation(false)]
#[verifier::rlimit(30)]
pub fn decode_frame(buf: &Vec<u8>, start: usize) -> (r: Option<(Frame, usize)>)
    ensures
        r matches Some((frame, end)) ==> {
            &&& start <= end <= buf@.len()
            &&& valid_tag(frame.tag)
            &&& frame.payload@.len() <= u32::MAX
            &&& buf@.subrange(start as int, end as int) == frame_bytes(frame.tag, frame.payload@)
        },
        (start + 5 <= buf@.len() && valid_tag(buf@[start as int]) && start + 5 + spec_len_at(
            buf@,
            start as int,
        ) <= buf@.len()) ==> (r matches Some((frame, end)) && end == start + 5 + spec_len_at(
            buf@,
            start as int,
        )),
{
    if start >= buf.len() || buf.len() - start < 5 {
        return None;
    }
    let tag = buf[start];
    if !(tag == FRAME_PING || tag == FRAME_PONG || tag == FRAME_REQUEST || tag == FRAME_RESPONSE
        || tag == FRAME_EVENT) {
        return None;
    }
    let b0 = buf[start + 1];
    let b1 = buf[start + 2];
    let b2 = buf[start + 3];
    let b3 = buf[start + 4];
    let n: u32 = ((b0 as u32) << 24u32) | ((b1 as u32) << 16u32) | ((b2 as u32) << 8u32) | (b3
        as u32);
    proof {
        assert(n <= u32::MAX);
    }
    if (n as u64) > (buf.len() - start - 5) as u64 {
        return None;
    }
    let len = n as usize;
    let mut payload: Vec<u8> = Vec::new();
    let mut i: usize = 0;
    while i < len
        invariant
            i <= len,
            len == n,
            start + 5 + len <= buf@.len(),
            payload@ =~= buf@.subrange(start + 5 as int, start + 5 + i as int),
        decreases len - i,
    {
        payload.push(buf[start + 5 + i]);
        proof {
            assert(payload@ =~= buf@.subrange(start + 5 as int, start + 5 + (i + 1) as int));
        }
        i = i + 1;
    }
    let end = start + 5 + len;
    proof {
        let p = payload@;
        assert(p.len() == n);
        assert(be32(p.len() as u32) == be32(n));
        let enc = frame_bytes(tag, p);
        assert(((be32(n)[0] as u32) << 24) | ((be32(n)[1] as u32) << 16) | ((be32(n)[2] as u32)
            << 8) | (be32(n)[3] as u32) == n) by {
            lemma_be32_round_trip(n);
        }
        assert(b0 == ((n >> 24) as u8) && b1 == ((n >> 16) as u8) && b2 == ((n >> 8) as u8) && b3
            == (n as u8)) by (bit_vector)
            requires
                n == ((b0 as u32) << 24u32) | ((b1 as u32) << 16u32) | ((b2 as u32) << 8u32) | (b3
                    as u32),
        ;
        assert(buf@.subrange(start as int, end as int) =~= enc);
    }
    Some((Frame { tag, payload }, end))
}

/// Decoding an encoded frame, wherever it sits in a longer buffer,
/// hands back exactly that frame and stops right after it.
pub fn frame_round_trip_check(frame: &Frame, trailer: &Vec<u8>) -> (r: bool)
    requires
        frame.payload@.len() <= u32::MAX,
        valid_tag(frame.tag),
    ensures
        r,
{
    let mut wire = encode_frame(frame);
    let frame_len = wire.len();
    let mut i: usize = 0;
    while i < trailer.len()
        invariant
            i <= trailer@.len(),
            wire@ =~= frame_bytes(frame.tag, frame.payload@) + trailer@.take(i as int),
            frame_len == frame_bytes(frame.tag, frame.payload@).len(),
        decreases trailer@.len() - i,
    {
        wire.push(trailer[i]);
        proof {
            assert(wire@ =~= frame_bytes(frame.tag, frame.payload@) + trailer@.take(i + 1 as int));
        }
        i = i + 1;
    }
    proof {
        let enc = frame_bytes(frame.tag, frame.payload@);
        let n = frame.payload@.len() as u32;
        assert(wire@[0] == frame.tag);
        assert(wire@[1] == be32(n)[0] && wire@[2] == be32(n)[1] && wire@[3] == be32(n)[2]
            && wire@[4] == be32(n)[3]);
        lemma_be32_round_trip(n);
        assert(spec_len_at(wire@, 0) == n);
    }
    match decode_frame(&wire, 0) {
        Some((decoded, end)) => {
            proof {
                let enc = frame_bytes(frame.tag, frame.payload@);
                assert(end == 5 + frame.payload@.len());
                assert(wire@.subrange(0, end as int) == frame_bytes(decoded.tag, decoded.payload@));
                assert(wire@.subrange(0, end as int) =~= enc);
                assert(frame_bytes(decoded.tag, decoded.payload@) == enc);
                assert(decoded.tag == enc[0]);
                assert(decoded.payload@.len() + 5 == enc.len());
                assert forall|k: int| 0 <= k < decoded.payload@.len() implies
                    #[trigger] decoded.payload@[k] == frame.payload@[k] by {
                    assert(decoded.payload@[k] == frame_bytes(decoded.tag, decoded.payload@)[5 + k]);
                    assert(enc[5 + k] == frame.payload@[k]);
                }
                assert(decoded.payload@ =~= frame.payload@);
            }
            end == frame_len && decoded.tag == frame.tag && crate::store::bytes_eq(
                &decoded.payload,
                &frame.payload,
            )
        },
        None => {
            proof {
                assert(false);
            }
            false
        },
    }
}

/// A session whose peer has not pinged for twice the heartbeat
/// interval is considered dead.
pub fn heartbeat_expired(last_ping: u64, now: u64) -> (r: bool)
    ensures
        r == (now >= last_ping + 2 * HEARTBEAT_INTERVAL_SECS),
{
    now >= last_ping && now - last_ping >= 2 * HEARTBEAT_INTERVAL_SECS
}

} // verus!
