use crate::buffer::{buf_advance, buf_byte, buf_extend, buf_len, buf_take_front, bytes_of};
use crate::message::SshAgentMessage;
use tokio_util::bytes::BytesMut;
use vstd::prelude::*;

verus! {

/// Bytes in the length prefix of every frame.
pub const HEADER_SIZE: usize = 4;

/// The big-endian unsigned value of the first four bytes of `b`.
pub open spec fn be_u32_value(b: Seq<u8>) -> nat
    recommends
        b.len() >= 4,
{
    b[0] as nat * 16777216 + b[1] as nat * 65536 + b[2] as nat * 256 + b[3] as nat
}

/// The four big-endian bytes of `n`.
pub open spec fn be_u32_bytes(n: u32) -> Seq<u8> {
    seq![(n / 16777216) as u8, ((n / 65536) % 256) as u8, ((n / 256) % 256) as u8, (n % 256) as u8]
}

/// The wire form of a payload: its length as four big-endian bytes, then the payload.
pub open spec fn frame(payload: Seq<u8>) -> Seq<u8> {
    be_u32_bytes(payload.len() as u32) + payload
}

/// The buffer starts with a whole frame: a header and all the bytes it announces.
pub open spec fn has_complete_frame(buf: Seq<u8>) -> bool {
    buf.len() >= 4 && buf.len() >= 4 + be_u32_value(buf)
}

/// What one decoding step makes of a buffer: nothing while the first frame is
/// incomplete, else that frame's payload and the bytes after it.
pub open spec fn decode_step(buf: Seq<u8>) -> Option<(Seq<u8>, Seq<u8>)> {
    if has_complete_frame(buf) {
        let end = 4 + be_u32_value(buf);
        Some((buf.subrange(4, end as int), buf.subrange(end as int, buf.len() as int)))
    } else {
        None
    }
}

fn be_u32_from(b0: u8, b1: u8, b2: u8, b3: u8) -> (r: u32)
    ensures
        r as nat == be_u32_value(seq![b0, b1, b2, b3]),
{
    (b0 as u32) * 16777216 + (b1 as u32) * 65536 + (b2 as u32) * 256 + (b3 as u32)
}

/// The length-prefixed framing of protocol messages; it keeps no state
/// between calls beyond the buffers it is handed.
pub struct SshAgentCodec;

impl SshAgentCodec {
    /// Takes one message off the front of `src` when a whole frame is buffered;
    /// otherwise leaves `src` as it is.
    pub fn decode(&self, src: &mut BytesMut) -> (r: Option<SshAgentMessage>)
        ensures
            match r {
                None => decode_step(bytes_of(*old(src))) is None && bytes_of(*final(src)) == bytes_of(
                    *old(src),
                ),
                Some(m) => m.wf() && decode_step(bytes_of(*old(src))) == Some(
                    (m.payload@, bytes_of(*final(src))),
                ),
            },
    {
        let ghost buf = bytes_of(*src);
        let n = buf_len(src);
        if n < HEADER_SIZE {
            return None;
        }
        let b0 = buf_byte(src, 0);
        let b1 = buf_byte(src, 1);
        let b2 = buf_byte(src, 2);
        let b3 = buf_byte(src, 3);
        let length = be_u32_from(b0, b1, b2, b3);
        assert(seq![b0, b1, b2, b3] =~= buf.subrange(0, 4));
        if n - HEADER_SIZE < length as usize {
            return None;
        }
        buf_advance(src, HEADER_SIZE);
        let payload = buf_take_front(src, length as usize);
        assert(payload@ =~= buf.subrange(4, 4 + length as int));
        assert(bytes_of(*src) =~= buf.subrange(4 + length as int, buf.len() as int));
        Some(SshAgentMessage::new(length, payload))
    }

    /// Appends the frame of `item` to `dst`.
    pub fn encode(&self, item: SshAgentMessage, dst: &mut BytesMut)
        requires
            item.wf(),
            bytes_of(*old(dst)).len() + 4 + item.payload@.len() <= isize::MAX as nat,
        ensures
            bytes_of(*final(dst)) == bytes_of(*old(dst)) + frame(item.payload@),
    {
        let len = item.length;
        let header: Vec<u8> = vec![
            (len / 16777216) as u8,
            ((len / 65536) % 256) as u8,
            ((len / 256) % 256) as u8,
            (len % 256) as u8,
        ];
        assert(header@ =~= be_u32_bytes(len));
        buf_extend(dst, header.as_slice());
        buf_extend(dst, item.payload.as_slice());
        assert(bytes_of(*dst) =~= bytes_of(*old(dst)) + frame(item.payload@));
    }
}

proof fn lemma_be_u32_inverse(n: u32)
    ensures
        be_u32_value(be_u32_bytes(n)) == n as nat,
{
    let b = be_u32_bytes(n);
    assert(b[0] as nat == n as nat / 16777216);
    assert(b[1] as nat == (n as nat / 65536) % 256);
    assert(b[2] as nat == (n as nat / 256) % 256);
    assert(b[3] as nat == n as nat % 256);
    let x = n as nat;
    assert(x / 16777216 * 16777216 + (x / 65536) % 256 * 65536 + (x / 256) % 256 * 256 + x % 256
        == x) by (nonlinear_arith);
}

/// Fewer than four buffered bytes never make a message.
pub proof fn lemma_short_buffer_yields_nothing(buf: Seq<u8>)
    requires
        buf.len() < 4,
    ensures
        decode_step(buf) is None,
{
}

/// Decoding the frame of a payload gives that payload back and consumes the
/// whole frame.
pub proof fn lemma_round_trip(payload: Seq<u8>)
    requires
        payload.len() <= u32::MAX,
    ensures
        decode_step(frame(payload)) == Some((payload, Seq::<u8>::empty())),
{
    lemma_frame_then_partial(payload, Seq::empty());
    assert(frame(payload) + Seq::<u8>::empty() =~= frame(payload));
}

/// A whole frame followed by an incomplete one decodes to the whole frame's
/// payload and leaves exactly the incomplete bytes buffered, which in turn
/// decode to nothing.
pub proof fn lemma_frame_then_partial(payload: Seq<u8>, rest: Seq<u8>)
    requires
        payload.len() <= u32::MAX,
    ensures
        decode_step(frame(payload) + rest) == Some((payload, rest)),
{
    let n = payload.len() as u32;
    lemma_be_u32_inverse(n);
    let buf = frame(payload) + rest;
    assert(buf.subrange(0, 4) =~= be_u32_bytes(n));
    assert(be_u32_value(buf) == be_u32_value(be_u32_bytes(n)));
    assert(buf.subrange(4, 4 + payload.len() as int) =~= payload);
    assert(buf.subrange(4 + payload.len() as int, buf.len() as int) =~= rest);
}

} // verus!
