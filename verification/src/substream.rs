//! The ping substream of one session: its identity, and the buffer that
//! turns the chunks delivered by the session into a byte stream.
use crate::buffers::{
    bytes_mut_content, bytes_mut_default, bytes_mut_extend_from_slice, bytes_mut_len,
    bytes_mut_split_to, copy_bytes_mut_into,
};
use bytes::BytesMut;
use vstd::prelude::*;

verus! {

/// The identifier of a session of the service.
pub type SessionId = usize;

/// The identifier of a protocol of the service.
pub type ProtocolId = usize;

/// How many times one read asks the session for more chunks at most.
pub const MAX_RECEIVES_PER_READ: usize = 10;

/// Which side opened the substream.
#[derive(PartialEq, Eq, Structural, Hash, Debug, Clone, Copy)]
pub enum Direction {
    Inbound,
    Outbound,
}

impl Direction {
    /// The side of a substream on a session: the server side of a session
    /// listens (`Inbound`), the client side dials (`Outbound`).
    pub fn for_session(is_server: bool) -> (d: Direction)
        ensures
            d == (if is_server {
                Direction::Inbound
            } else {
                Direction::Outbound
            }),
    {
        if is_server {
            Direction::Inbound
        } else {
            Direction::Outbound
        }
    }
}

/// What identifies a substream: its direction, its session and its protocol.
#[derive(PartialEq, Eq, Structural, Hash, Debug, Clone, Copy)]
pub struct PingStreamKey {
    pub(crate) direction: Direction,
    pub(crate) session_id: SessionId,
    pub(crate) proto_id: ProtocolId,
}

impl PingStreamKey {
    /// The direction of the substream.
    pub closed spec fn spec_direction(self) -> Direction {
        self.direction
    }

    /// The session of the substream.
    pub closed spec fn spec_session_id(self) -> SessionId {
        self.session_id
    }

    /// The protocol of the substream.
    pub closed spec fn spec_proto_id(self) -> ProtocolId {
        self.proto_id
    }

    /// The direction of the substream.
    pub fn direction(&self) -> (d: Direction)
        ensures
            d == self.spec_direction(),
    {
        self.direction
    }
}

/// Why a read from or a write to the substream did not go through.
#[derive(PartialEq, Eq, Structural, Debug, Clone, Copy)]
pub enum StreamError {
    /// Nothing can be done now; try again later.
    WouldBlock,
    /// The session closed its side.
    UnexpectedEof,
    /// The session's channel failed or is gone.
    BrokenPipe,
}

/// One answer of the session's channel when asked for the next chunk.
pub enum ReceiverEvent {
    /// A chunk of bytes.
    Data(Vec<u8>),
    /// No chunk is there now.
    Pending,
    /// The channel has ended.
    Closed,
    /// The channel failed.
    Failed,
}

/// What a read does after one answer of the channel.
#[derive(PartialEq, Eq, Structural, Debug, Clone, Copy)]
pub enum ReceiveStep {
    /// Ask the channel again.
    Continue,
    /// Stop asking and hand out what is buffered.
    Stop,
    /// Fail the read with this error.
    Fail(StreamError),
}

/// What the session's channel answered when a chunk was handed to it.
#[derive(PartialEq, Eq, Structural, Debug, Clone, Copy)]
pub enum SendOutcome {
    /// The chunk was queued.
    Sent,
    /// The channel is full.
    Full,
    /// The channel is gone.
    Disconnected,
}

/// The byte buffer after a chunk has arrived.
pub open spec fn receive_spec(pending: Seq<u8>, chunk: Seq<u8>) -> Seq<u8> {
    pending + chunk
}

/// How many bytes a read into a buffer of `room` places hands out.
pub open spec fn read_count(pending: Seq<u8>, room: nat) -> nat {
    if room < pending.len() {
        room
    } else {
        pending.len()
    }
}

/// The substream of one session, as the ping endpoints read and write it.
pub struct PingStream {
    direction: Direction,
    proto_id: ProtocolId,
    session_id: SessionId,
    data_buf: BytesMut,
}

impl PingStream {
    /// The bytes that have arrived and not yet been read, in order.
    pub closed spec fn pending(self) -> Seq<u8> {
        bytes_mut_content(self.data_buf)
    }

    /// The key of the substream.
    pub closed spec fn spec_key(self) -> PingStreamKey {
        PingStreamKey {
            direction: self.direction,
            session_id: self.session_id,
            proto_id: self.proto_id,
        }
    }

    /// A substream with nothing buffered.
    pub fn new(direction: Direction, proto_id: ProtocolId, session_id: SessionId) -> (s: PingStream)
        ensures
            s.spec_key().spec_direction() == direction,
            s.spec_key().spec_session_id() == session_id,
            s.spec_key().spec_proto_id() == proto_id,
            s.pending() == Seq::<u8>::empty(),
    {
        PingStream { direction, proto_id, session_id, data_buf: bytes_mut_default() }
    }

    /// The key of the substream.
    pub fn key(&self) -> (k: PingStreamKey)
        ensures
            k == self.spec_key(),
    {
        PingStreamKey {
            direction: self.direction,
            session_id: self.session_id,
            proto_id: self.proto_id,
        }
    }

    /// The number of bytes buffered.
    pub fn pending_len(&self) -> (n: usize)
        ensures
            n == self.pending().len(),
    {
        bytes_mut_len(&self.data_buf)
    }

    /// Takes in the answer of the session's channel to the `asked`-th
    /// request (counted from 0) of a read: a chunk is appended to the buffer
    /// and the read asks again, unless this was its last allowed request
    /// (`MAX_RECEIVES_PER_READ` in all), after which it stops; when nothing
    /// is there the read stops asking; an ended channel fails the read with
    /// `UnexpectedEof` and a failed one with `BrokenPipe`.
    pub fn on_receiver_event(&mut self, asked: usize, event: ReceiverEvent) -> (step: ReceiveStep)
        requires
            asked < MAX_RECEIVES_PER_READ,
            event matches ReceiverEvent::Data(chunk) ==> old(self).pending().len() + chunk@.len()
                <= isize::MAX,
        ensures
            final(self).spec_key() == old(self).spec_key(),
            match event {
                ReceiverEvent::Data(chunk) => step == (if asked + 1 < MAX_RECEIVES_PER_READ {
                    ReceiveStep::Continue
                } else {
                    ReceiveStep::Stop
                }) && final(self).pending() == receive_spec(old(self).pending(), chunk@),
                ReceiverEvent::Pending => step == ReceiveStep::Stop && final(self).pending()
                    == old(self).pending(),
                ReceiverEvent::Closed => step == ReceiveStep::Fail(StreamError::UnexpectedEof)
                    && final(self).pending() == old(self).pending(),
                ReceiverEvent::Failed => step == ReceiveStep::Fail(StreamError::BrokenPipe)
                    && final(self).pending() == old(self).pending(),
            },
    {
        match event {
            ReceiverEvent::Data(chunk) => {
                bytes_mut_extend_from_slice(&mut self.data_buf, chunk.as_slice());
                if asked + 1 < MAX_RECEIVES_PER_READ {
                    ReceiveStep::Continue
                } else {
                    ReceiveStep::Stop
                }
            },
            ReceiverEvent::Pending => ReceiveStep::Stop,
            ReceiverEvent::Closed => ReceiveStep::Fail(StreamError::UnexpectedEof),
            ReceiverEvent::Failed => ReceiveStep::Fail(StreamError::BrokenPipe),
        }
    }

    /// Hands out as many buffered bytes as `buf` has room for, oldest first,
    /// into the front of `buf`. With nothing to hand out (an empty buffer or
    /// no room) the read fails with `WouldBlock` and nothing changes.
    pub fn read_buffered(&mut self, buf: &mut [u8]) -> (res: Result<usize, StreamError>)
        ensures
            final(self).spec_key() == old(self).spec_key(),
            ({
                let n = read_count(old(self).pending(), old(buf)@.len());
                if n == 0 {
                    &&& res == Err::<usize, StreamError>(StreamError::WouldBlock)
                    &&& final(self).pending() == old(self).pending()
                    &&& final(buf)@ == old(buf)@
                } else {
                    &&& res == Ok::<usize, StreamError>(n as usize)
                    &&& final(buf)@ == old(self).pending().take(n as int) + old(buf)@.skip(
                        n as int,
                    )
                    &&& final(self).pending() == old(self).pending().skip(n as int)
                }
            }),
    {
        let room = buf.len();
        let have = bytes_mut_len(&self.data_buf);
        let n = if room < have {
            room
        } else {
            have
        };
        if n == 0 {
            return Err(StreamError::WouldBlock);
        }
        let b = bytes_mut_split_to(&mut self.data_buf, n);
        copy_bytes_mut_into(buf, &b);
        Ok(n)
    }

    /// The result of a write of `len` bytes, once the chunk has been handed
    /// to the session's channel: the whole chunk on success, `WouldBlock` on
    /// a full channel and `BrokenPipe` on a closed one.
    pub fn write_result(len: usize, outcome: SendOutcome) -> (res: Result<usize, StreamError>)
        ensures
            res == match outcome {
                SendOutcome::Sent => Ok::<usize, StreamError>(len),
                SendOutcome::Full => Err(StreamError::WouldBlock),
                SendOutcome::Disconnected => Err(StreamError::BrokenPipe),
            },
    {
        match outcome {
            SendOutcome::Sent => Ok(len),
            SendOutcome::Full => Err(StreamError::WouldBlock),
            SendOutcome::Disconnected => Err(StreamError::BrokenPipe),
        }
    }
}

/// A read hands out as much as it can: the number of bytes is the smaller
/// of the room in the reader's buffer and the number of bytes buffered, so it
/// is zero (and the read blocks) only when one of the two is zero.
pub proof fn lemma_read_count_is_min(pending: Seq<u8>, room: nat)
    ensures
        read_count(pending, room) <= room,
        read_count(pending, room) <= pending.len(),
        read_count(pending, room) == room || read_count(pending, room) == pending.len(),
        read_count(pending, room) == 0 <==> (room == 0 || pending.len() == 0),
{
}

/// One operation on the substream's buffer: a chunk arrives, or a read
/// into a buffer with room for this many bytes.
pub enum StreamOp {
    Receive(Seq<u8>),
    Read(nat),
}

/// The bytes that a sequence of operations hands out, in order, and what
/// stays buffered afterwards, starting from `pending`.
pub open spec fn stream_run(pending: Seq<u8>, ops: Seq<StreamOp>) -> (Seq<u8>, Seq<u8>)
    decreases ops.len(),
{
    if ops.len() == 0 {
        (Seq::empty(), pending)
    } else {
        match ops[0] {
            StreamOp::Receive(chunk) => stream_run(receive_spec(pending, chunk), ops.drop_first()),
            StreamOp::Read(room) => {
                let n = read_count(pending, room);
                let (out, rest) = stream_run(pending.skip(n as int), ops.drop_first());
                (pending.take(n as int) + out, rest)
            },
        }
    }
}

/// All chunks that arrive in a sequence of operations, one after the other.
pub open spec fn chunks_of(ops: Seq<StreamOp>) -> Seq<u8>
    decreases ops.len(),
{
    if ops.len() == 0 {
        Seq::empty()
    } else {
        match ops[0] {
            StreamOp::Receive(chunk) => chunk + chunks_of(ops.drop_first()),
            StreamOp::Read(_) => chunks_of(ops.drop_first()),
        }
    }
}

/// The substream loses, duplicates and reorders nothing: over any sequence
/// of arriving chunks and reads, everything handed out followed by what
/// stays buffered is exactly what was buffered at first followed by all the
/// chunks in the order they arrived; so the bytes handed out are a prefix of
/// that.
pub proof fn lemma_stream_keeps_order(pending: Seq<u8>, ops: Seq<StreamOp>)
    ensures
        stream_run(pending, ops).0 + stream_run(pending, ops).1 == pending + chunks_of(ops),
        (pending + chunks_of(ops)).take(stream_run(pending, ops).0.len() as int) == stream_run(
            pending,
            ops,
        ).0,
    decreases ops.len(),
{
    let (out, rest) = stream_run(pending, ops);
    if ops.len() == 0 {
        assert(out + rest =~= pending + chunks_of(ops));
    } else {
        let tail = ops.drop_first();
        match ops[0] {
            StreamOp::Receive(chunk) => {
                lemma_stream_keeps_order(receive_spec(pending, chunk), tail);
                assert(receive_spec(pending, chunk) + chunks_of(tail) =~= pending + (chunk
                    + chunks_of(tail)));
            },
            StreamOp::Read(room) => {
                let n = read_count(pending, room);
                lemma_stream_keeps_order(pending.skip(n as int), tail);
                let (o2, r2) = stream_run(pending.skip(n as int), tail);
                assert(pending.take(n as int) + o2 + r2 =~= pending.take(n as int) + (o2 + r2));
                assert(pending.take(n as int) + (pending.skip(n as int) + chunks_of(tail))
                    =~= pending + chunks_of(tail));
            },
        }
    }
    let all = pending + chunks_of(ops);
    assert(all.take(out.len() as int) =~= (out + rest).take(out.len() as int));
    assert((out + rest).take(out.len() as int) =~= out);
}

} // verus!
