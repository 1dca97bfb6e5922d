//! Framing of ping payloads: every frame on the wire is exactly
//! `PING_SIZE` bytes, with no header.
use crate::buffers::{
    bytes_as_slice, bytes_content, bytes_is_empty, bytes_len, bytes_mut_content,
    bytes_mut_extend_from_slice, bytes_mut_len, bytes_mut_split_to, bytes_split_to,
};
use crate::platform::IoError;
use bytes::{Bytes, BytesMut};
use vstd::prelude::*;

verus! {

/// The size in bytes of one ping payload, and so of one frame.
pub const PING_SIZE: usize = 32;

/// What is left of a receive buffer after one decoding attempt, and the frame
/// taken from its front, if a whole frame was there.
pub open spec fn decode_spec(buf: Seq<u8>) -> (Option<Seq<u8>>, Seq<u8>) {
    if buf.len() >= PING_SIZE {
        (Some(buf.take(PING_SIZE as int)), buf.skip(PING_SIZE as int))
    } else {
        (None, buf)
    }
}

/// The send buffer after one payload has been encoded into it.
pub open spec fn encode_spec(buf: Seq<u8>, data: Seq<u8>) -> Seq<u8> {
    buf + data
}

/// The bytes on the wire for a sequence of payloads, in order.
pub open spec fn frames_on_wire(frames: Seq<Seq<u8>>) -> Seq<u8>
    decreases frames.len(),
{
    if frames.len() == 0 {
        Seq::empty()
    } else {
        encode_spec(frames_on_wire(frames.drop_last()), frames.last())
    }
}

/// The frames that repeated decoding takes from a buffer, first to last.
pub open spec fn decode_all(buf: Seq<u8>) -> Seq<Seq<u8>>
    decreases buf.len(),
{
    if buf.len() >= PING_SIZE {
        seq![buf.take(PING_SIZE as int)] + decode_all(buf.skip(PING_SIZE as int))
    } else {
        Seq::empty()
    }
}

/// The codec of ping frames.
pub struct Codec;

impl Codec {
    /// Takes one frame off the front of `buf` when a whole frame is there,
    /// and leaves `buf` unchanged otherwise. It never fails.
    pub fn decode(&mut self, buf: &mut BytesMut) -> (res: Result<Option<BytesMut>, IoError>)
        ensures
            res is Ok,
            (match res {
                Ok(Some(frame)) => Some(bytes_mut_content(frame)),
                _ => None,
            }) == decode_spec(bytes_mut_content(*old(buf))).0,
            bytes_mut_content(*final(buf)) == decode_spec(bytes_mut_content(*old(buf))).1,
    {
        if bytes_mut_len(buf) >= PING_SIZE {
            Ok(Some(bytes_mut_split_to(buf, PING_SIZE)))
        } else {
            Ok(None)
        }
    }

    /// Whether `encode` may be called on `data` and `buf`: `data` is a whole
    /// number of frames and the two fit together in `isize::MAX` bytes.
    pub fn encodable(data: &Bytes, buf: &BytesMut) -> (r: bool)
        ensures
            r == (bytes_content(*data).len() % (PING_SIZE as nat) == 0 && bytes_mut_content(
                *buf,
            ).len() + bytes_content(*data).len() <= isize::MAX),
    {
        let dl = bytes_len(data);
        let bl = bytes_mut_len(buf);
        let limit = isize::MAX as usize;
        dl % PING_SIZE == 0 && dl <= limit && bl <= limit - dl
    }

    /// Appends `data` to `buf`. The payload is cut at the next multiple of
    /// `PING_SIZE` bytes, which `Bytes::split_to` only allows when its length
    /// is such a multiple: `requires` keeps to those payloads.
    pub fn encode(&mut self, data: Bytes, buf: &mut BytesMut) -> (res: Result<(), IoError>)
        requires
            bytes_content(data).len() % (PING_SIZE as nat) == 0,
            bytes_mut_content(*old(buf)).len() + bytes_content(data).len() <= isize::MAX,
        ensures
            res is Ok,
            bytes_mut_content(*final(buf)) == encode_spec(
                bytes_mut_content(*old(buf)),
                bytes_content(data),
            ),
    {
        let mut data = data;
        if !bytes_is_empty(&data) {
            let len = bytes_len(&data);
            proof {
                lemma_whole_frames_split(len as int);
            }
            let split = PING_SIZE * (1 + ((len - 1) / PING_SIZE));
            let chunk = bytes_split_to(&mut data, split);
            bytes_mut_extend_from_slice(buf, bytes_as_slice(&chunk));
        } else {
            assert(bytes_mut_content(*buf) + bytes_content(data) =~= bytes_mut_content(*buf));
        }
        Ok(())
    }
}

/// For a positive length that is a whole number of frames, rounding it up to
/// the next multiple of the frame size gives the length itself.
proof fn lemma_whole_frames_split(len: int)
    requires
        len > 0,
        len % 32 == 0,
    ensures
        32 * (1 + ((len - 1) / 32)) == len,
{
    let k = len / 32;
    assert(len == 32 * k) by (nonlinear_arith)
        requires
            len % 32 == 0,
            k == len / 32,
    ;
    assert((len - 1) / 32 == k - 1) by (nonlinear_arith)
        requires
            len == 32 * k,
            k >= 1,
    ;
}

/// A frame that has been encoded behind whatever a buffer held is what the
/// next decoding of that buffer yields once the bytes before it are gone:
/// frames that are encoded one after the other are decoded in the same order,
/// each with the bytes it was sent with, and nothing is left over.
pub proof fn lemma_frames_round_trip(frames: Seq<Seq<u8>>)
    requires
        forall|i: int| 0 <= i < frames.len() ==> (#[trigger] frames[i]).len() == PING_SIZE,
    ensures
        decode_all(frames_on_wire(frames)) == frames,
    decreases frames.len(),
{
    if frames.len() > 0 {
        let first = frames[0];
        let rest = frames.drop_first();
        lemma_wire_of_first_and_rest(frames);
        lemma_frames_round_trip(rest);
        let wire = frames_on_wire(frames);
        assert(wire.take(PING_SIZE as int) =~= first);
        assert(wire.skip(PING_SIZE as int) =~= frames_on_wire(rest));
        assert(decode_all(wire) =~= seq![first] + rest);
        assert(seq![first] + rest =~= frames);
    } else {
        assert(decode_all(Seq::<u8>::empty()) =~= Seq::<Seq<u8>>::empty());
    }
}

/// The wire form of a non-empty sequence of frames is its first frame
/// followed by the wire form of the others.
proof fn lemma_wire_of_first_and_rest(frames: Seq<Seq<u8>>)
    requires
        frames.len() > 0,
    ensures
        frames_on_wire(frames) == frames[0] + frames_on_wire(frames.drop_first()),
    decreases frames.len(),
{
    if frames.len() == 1 {
        assert(frames.drop_first() =~= Seq::<Seq<u8>>::empty());
        assert(frames.drop_last() =~= Seq::<Seq<u8>>::empty());
        assert(Seq::<u8>::empty() + frames.last() =~= frames[0]);
        assert(frames[0] + Seq::<u8>::empty() =~= frames[0]);
    } else {
        let init = frames.drop_last();
        lemma_wire_of_first_and_rest(init);
        assert(init.drop_first() =~= frames.drop_first().drop_last());
        assert(frames.drop_first().last() == frames.last());
        assert(init[0] == frames[0]);
        assert(frames_on_wire(frames.drop_first()) == frames_on_wire(init.drop_first())
            + frames.last());
        assert((frames[0] + frames_on_wire(init.drop_first())) + frames.last() =~= frames[0]
            + (frames_on_wire(init.drop_first()) + frames.last()));
    }
}

/// Decoding consumes a buffer frame by frame: one decoding step takes the
/// first frame of `decode_all`, and the rest of `decode_all` is what the
/// remaining buffer decodes to.
pub proof fn lemma_decode_step(buf: Seq<u8>)
    ensures
        decode_spec(buf).0 is Some <==> decode_all(buf).len() > 0,
        decode_spec(buf).0 is Some ==> decode_spec(buf).0 == Some(decode_all(buf)[0])
            && decode_all(decode_spec(buf).1) == decode_all(buf).drop_first(),
{
    if buf.len() >= PING_SIZE {
        let rest = decode_all(buf.skip(PING_SIZE as int));
        assert((seq![buf.take(PING_SIZE as int)] + rest).drop_first() =~= rest);
    }
}

} // verus!
