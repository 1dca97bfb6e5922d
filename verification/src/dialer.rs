//! The dialing side of the ping protocol.
//!
//! The dialer sends random 32-byte pings and waits for the listener to send
//! them back. While idle it waits for its timer before the next ping; while
//! waiting for a pong it gives up on the remote once its timer expires.
//!
//! One poll of the dialer is a run of `step` calls. The dialer names the
//! transport or timer call to make next (`DialerAction`), its driver makes
//! the call and hands the answer back (`DialerEvent`), until the action is
//! `Done`. The driver holds the transport and the one timer; `Done` says when
//! the timer is to be set anew, and for how many seconds.
use crate::buffers::{bytes_clone, bytes_content, bytes_eq_bytes_mut, bytes_from_vec, bytes_mut_content};
use crate::codec::PING_SIZE;
use crate::platform::{entropy_rng_default, instant_now, try_fill_bytes, IoError};
use bytes::{Bytes, BytesMut};
use rand::rngs::EntropyRng;
use std::collections::VecDeque;
use std::time::{Duration, Instant};
use vstd::prelude::*;

verus! {

/// Seconds the dialer waits for a pong, and before its first ping.
pub const PING_TIMEOUT_SECS: u64 = 30;

/// Seconds the dialer stays idle between a pong and the next ping.
pub const DELAY_TO_NEXT_PING_SECS: u64 = 15;

/// What the dialer's stream yields: its driver turns each `DialerItem` into
/// one, measuring the round trip from the stamp of the answered ping.
#[derive(Debug, Copy, Clone)]
pub enum OutState {
    /// A ping was queued to be sent.
    PingStart,
    /// A pong came back, this long after its ping was queued.
    PingSuccess(Duration),
    /// The remote closed the substream.
    Shutdown,
}

/// What a poll of the dialer hands out.
#[derive(Debug, Copy, Clone)]
pub enum DialerItem {
    /// A ping was queued to be sent.
    PingStart,
    /// A pong came back for the ping queued at this instant.
    PingSuccess(Instant),
    /// The remote closed the substream.
    Shutdown,
}

/// Why a poll of the dialer failed.
pub enum DialerError {
    /// The timer failed.
    Io(IoError),
    /// No pong came back before the timer expired.
    Unresponsive,
    /// No random bytes could be had for a new ping.
    Entropy,
}

/// How a poll of the dialer ends.
pub enum DialerPoll {
    /// An item of the stream; `None` ends the stream.
    Ready(Option<DialerItem>),
    /// The dialer waits for its transport or its timer.
    NotReady,
    /// The poll failed.
    Failed(DialerError),
}

/// The spec form of `DialerPoll`.
pub enum DialerPollView {
    Ready(Option<DialerItem>),
    NotReady,
    Failed(DialerError),
}

/// The phase of the dialer between polls.
#[derive(PartialEq, Eq, Structural, Debug, Clone, Copy)]
pub enum PingDialerState {
    /// Pings went out; the timer runs until the remote counts as unresponsive.
    WaitingForPong,
    /// The timer runs until the next ping.
    Idle,
    /// The remote closed the substream or did not answer.
    Shutdown,
    /// A poll is under way, or the timer failed.
    Poisoned,
}

/// The call that the dialer waits on.
#[derive(PartialEq, Eq, Structural, Debug, Clone, Copy)]
pub enum DialerCall {
    /// Closing the transport, because the dialer was shut down.
    Close,
    /// Handing the ping in flight to the transport.
    Send,
    /// Flushing the transport.
    Flush,
    /// Reading the next frame.
    Frame,
    /// Closing the transport, because the remote ended it.
    CloseAfterEnd,
    /// Polling the timer that marks the remote as unresponsive.
    TimerExpiry,
    /// Polling the timer of the next ping.
    TimerNextPing,
}

/// What the driver hands the dialer: the start of a poll, or the answer of
/// the call that the dialer asked for.
pub enum DialerEvent {
    /// The dialer is polled.
    Poll,
    /// The transport is closed.
    CloseReady,
    /// Closing is under way.
    CloseNotReady,
    /// Closing failed.
    CloseError(IoError),
    /// The transport took the ping.
    SendReady,
    /// The transport cannot take the ping now.
    SendNotReady,
    /// Sending failed.
    SendError(IoError),
    /// Everything was flushed.
    FlushReady,
    /// Flushing is under way.
    FlushNotReady,
    /// Flushing failed.
    FlushError(IoError),
    /// A frame arrived.
    Frame(BytesMut),
    /// The transport has no more frames.
    FrameEnd,
    /// No frame is there yet.
    FrameNotReady,
    /// Reading failed.
    FrameError(IoError),
    /// The timer has fired; the clock read this instant when it was seen.
    TimerReady(Instant),
    /// The timer has not fired yet.
    TimerNotReady,
    /// The timer failed.
    TimerError(IoError),
}

/// The spec form of `DialerEvent`.
pub enum DialerEventView {
    Poll,
    CloseReady,
    CloseNotReady,
    CloseError(IoError),
    SendReady,
    SendNotReady,
    SendError(IoError),
    FlushReady,
    FlushNotReady,
    FlushError(IoError),
    Frame(Seq<u8>),
    FrameEnd,
    FrameNotReady,
    FrameError(IoError),
    TimerReady(Instant),
    TimerNotReady,
    TimerError(IoError),
}

/// What the dialer asks its driver to do next.
pub enum DialerAction {
    /// Hand this ping to the transport; answer with a `Send*` event.
    StartSend(Bytes),
    /// Flush the transport; answer with a `Flush*` event.
    PollComplete,
    /// Read the next frame; answer with a `Frame*` event.
    PollFrame,
    /// Close the transport; answer with a `Close*` event.
    Close,
    /// Poll the timer; answer with a `Timer*` event.
    PollTimer,
    /// The poll is over with this result; when a number of seconds is
    /// given, the timer is to be set to fire that long from now.
    Done(DialerPoll, Option<u64>),
}

/// The spec form of `DialerAction`.
pub enum DialerActionView {
    StartSend(Seq<u8>),
    PollComplete,
    PollFrame,
    Close,
    PollTimer,
    Done(DialerPollView, Option<u64>),
}

/// A ping as the contracts see it: its payload and when it was queued.
pub type PingView = (Seq<u8>, Instant);

/// The spec form of the dialer.
#[verifier::ext_equal]
pub struct DialerView {
    /// Pings handed to the transport and not yet answered, oldest first.
    pub sent: Seq<PingView>,
    /// Pings still to be handed to the transport, oldest first.
    pub to_send: Seq<PingView>,
    pub state: PingDialerState,
    pub need_flush: bool,
    pub needs_close: bool,
    pub ping_timeout_secs: u64,
    pub delay_to_next_ping_secs: u64,
    /// The call under way.
    pub waiting: Option<DialerCall>,
    /// The ping being handed to the transport.
    pub in_flight: Option<PingView>,
}

/// The dialing endpoint of a ping substream.
pub struct PingDialer {
    sent_pings: VecDeque<(Bytes, Instant)>,
    rng: EntropyRng,
    pings_to_send: VecDeque<(Bytes, Instant)>,
    state: PingDialerState,
    need_writer_flush: bool,
    needs_close: bool,
    ping_timeout_secs: u64,
    delay_to_next_ping_secs: u64,
    waiting: Option<DialerCall>,
    in_flight: Option<(Bytes, Instant)>,
}

/// The spec form of one ping.
pub open spec fn ping_view(p: (Bytes, Instant)) -> PingView {
    (bytes_content(p.0), p.1)
}

/// The spec form of a queue of pings.
pub open spec fn pings_view(q: Seq<(Bytes, Instant)>) -> Seq<PingView> {
    q.map_values(|p: (Bytes, Instant)| ping_view(p))
}

impl View for DialerPoll {
    type V = DialerPollView;

    open spec fn view(&self) -> DialerPollView {
        match self {
            DialerPoll::Ready(o) => DialerPollView::Ready(*o),
            DialerPoll::NotReady => DialerPollView::NotReady,
            DialerPoll::Failed(e) => DialerPollView::Failed(*e),
        }
    }
}

impl View for DialerEvent {
    type V = DialerEventView;

    open spec fn view(&self) -> DialerEventView {
        match self {
            DialerEvent::Poll => DialerEventView::Poll,
            DialerEvent::CloseReady => DialerEventView::CloseReady,
            DialerEvent::CloseNotReady => DialerEventView::CloseNotReady,
            DialerEvent::CloseError(e) => DialerEventView::CloseError(*e),
            DialerEvent::SendReady => DialerEventView::SendReady,
            DialerEvent::SendNotReady => DialerEventView::SendNotReady,
            DialerEvent::SendError(e) => DialerEventView::SendError(*e),
            DialerEvent::FlushReady => DialerEventView::FlushReady,
            DialerEvent::FlushNotReady => DialerEventView::FlushNotReady,
            DialerEvent::FlushError(e) => DialerEventView::FlushError(*e),
            DialerEvent::Frame(b) => DialerEventView::Frame(bytes_mut_content(*b)),
            DialerEvent::FrameEnd => DialerEventView::FrameEnd,
            DialerEvent::FrameNotReady => DialerEventView::FrameNotReady,
            DialerEvent::FrameError(e) => DialerEventView::FrameError(*e),
            DialerEvent::TimerReady(now) => DialerEventView::TimerReady(*now),
            DialerEvent::TimerNotReady => DialerEventView::TimerNotReady,
            DialerEvent::TimerError(e) => DialerEventView::TimerError(*e),
        }
    }
}

impl View for DialerAction {
    type V = DialerActionView;

    open spec fn view(&self) -> DialerActionView {
        match self {
            DialerAction::StartSend(b) => DialerActionView::StartSend(bytes_content(*b)),
            DialerAction::PollComplete => DialerActionView::PollComplete,
            DialerAction::PollFrame => DialerActionView::PollFrame,
            DialerAction::Close => DialerActionView::Close,
            DialerAction::PollTimer => DialerActionView::PollTimer,
            DialerAction::Done(p, r) => DialerActionView::Done(p@, *r),
        }
    }
}

impl View for PingDialer {
    type V = DialerView;

    closed spec fn view(&self) -> DialerView {
        DialerView {
            sent: pings_view(self.sent_pings@),
            to_send: pings_view(self.pings_to_send@),
            state: self.state,
            need_flush: self.need_writer_flush,
            needs_close: self.needs_close,
            ping_timeout_secs: self.ping_timeout_secs,
            delay_to_next_ping_secs: self.delay_to_next_ping_secs,
            waiting: self.waiting,
            in_flight: match self.in_flight {
                Some(p) => Some(ping_view(p)),
                None => None,
            },
        }
    }
}

/// Whether `i` is the first place of `sent` whose payload is `pong`.
pub open spec fn is_first_match(sent: Seq<PingView>, pong: Seq<u8>, i: int) -> bool {
    &&& 0 <= i < sent.len()
    &&& sent[i].0 == pong
    &&& forall|j: int| 0 <= j < i ==> sent[j].0 != pong
}

/// The place of the oldest sent ping whose payload is `pong`, if any.
pub open spec fn pong_position(sent: Seq<PingView>, pong: Seq<u8>) -> Option<int> {
    if exists|i: int| is_first_match(sent, pong, i) {
        Some(choose|i: int| is_first_match(sent, pong, i))
    } else {
        None
    }
}

/// The dialer is consistent: a ping is in flight exactly while it is being
/// sent, while any call other than a requested close is under way the phase
/// is taken out (`Poisoned`), and a requested close is under way only when
/// the dialer is to close.
pub open spec fn dialer_wf(v: DialerView) -> bool {
    &&& (v.waiting == Some(DialerCall::Send)) == (v.in_flight is Some)
    &&& (v.waiting is Some && v.waiting != Some(DialerCall::Close)) ==> v.state
        == PingDialerState::Poisoned
    &&& v.waiting == Some(DialerCall::Close) ==> v.needs_close
}

/// Whether the dialer may be polled: no call is under way, and it is either
/// to close or not poisoned.
pub open spec fn dialer_pollable(v: DialerView) -> bool {
    &&& v.waiting is None
    &&& v.needs_close || v.state != PingDialerState::Poisoned
}

/// Whether `event` is something the dialer can take in: the start of a poll
/// when it may be polled, and otherwise an answer to the call under way.
pub open spec fn dialer_accepts(v: DialerView, event: DialerEventView) -> bool {
    &&& dialer_wf(v)
    &&& match v.waiting {
        None => event is Poll && dialer_pollable(v),
        Some(DialerCall::Close) | Some(DialerCall::CloseAfterEnd) => event is CloseReady
            || event is CloseNotReady || event is CloseError,
        Some(DialerCall::Send) => event is SendReady || event is SendNotReady || event is SendError,
        Some(DialerCall::Flush) => event is FlushReady || event is FlushNotReady
            || event is FlushError,
        Some(DialerCall::Frame) => event is Frame || event is FrameEnd || event is FrameNotReady
            || event is FrameError,
        Some(DialerCall::TimerExpiry) | Some(DialerCall::TimerNextPing) => event is TimerReady
            || event is TimerNotReady || event is TimerError,
    }
}

/// Waits on `call`.
pub open spec fn await_call(v: DialerView, call: DialerCall, action: DialerActionView) -> (DialerView, DialerActionView) {
    (DialerView { waiting: Some(call), ..v }, action)
}

/// Ends the poll in phase `state`.
pub open spec fn end_poll(v: DialerView, state: PingDialerState, result: DialerPollView, rearm: Option<u64>) -> (DialerView, DialerActionView) {
    (DialerView { state, waiting: None, ..v }, DialerActionView::Done(result, rearm))
}

/// Reading frames: wait for the next one.
pub open spec fn receive_spec(v: DialerView) -> (DialerView, DialerActionView) {
    await_call(v, DialerCall::Frame, DialerActionView::PollFrame)
}

/// After the sending loop: flush when something was sent and not yet
/// flushed, then read frames.
pub open spec fn flush_spec(v: DialerView) -> (DialerView, DialerActionView) {
    if v.need_flush {
        await_call(v, DialerCall::Flush, DialerActionView::PollComplete)
    } else {
        receive_spec(v)
    }
}

/// The sending loop: hand the oldest queued ping to the transport, or go on
/// to flushing when the queue is empty.
pub open spec fn send_spec(v: DialerView) -> (DialerView, DialerActionView) {
    if v.to_send.len() > 0 {
        await_call(
            DialerView { to_send: v.to_send.drop_first(), in_flight: Some(v.to_send[0]), ..v },
            DialerCall::Send,
            DialerActionView::StartSend(v.to_send[0].0),
        )
    } else {
        flush_spec(v)
    }
}

/// No pong yet: check whether the remote counts as unresponsive.
pub open spec fn expiry_spec(v: DialerView) -> (DialerView, DialerActionView) {
    await_call(v, DialerCall::TimerExpiry, DialerActionView::PollTimer)
}

/// Whether `fresh` is a possible outcome of drawing a ping payload: 32
/// random bytes, or nothing when no random bytes could be had.
pub open spec fn fresh_ok(fresh: Option<Seq<u8>>) -> bool {
    fresh matches Some(p) ==> p.len() == PING_SIZE
}

/// A step from `v` on `event` may end in `w` with `action`: it does so for
/// some possible outcome of drawing a payload.
pub open spec fn dialer_step_ok(v: DialerView, event: DialerEventView, w: DialerView, action: DialerActionView) -> bool {
    exists|fresh: Option<Seq<u8>>|
        fresh_ok(fresh) && (w, action) == #[trigger] dialer_next(v, event, fresh)
}

/// One step of the dialer: its state and the action it asks for after taking
/// in `event`. `fresh` is the payload drawn for the ping that the step queues
/// when the idle timer fires; it is used in that step only.
pub open spec fn dialer_next(v: DialerView, event: DialerEventView, fresh: Option<Seq<u8>>) -> (DialerView, DialerActionView) {
    match v.waiting {
        None => if v.needs_close {
            await_call(v, DialerCall::Close, DialerActionView::Close)
        } else {
            match v.state {
                PingDialerState::WaitingForPong => send_spec(
                    DialerView { state: PingDialerState::Poisoned, ..v },
                ),
                PingDialerState::Idle => await_call(
                    DialerView { state: PingDialerState::Poisoned, ..v },
                    DialerCall::TimerNextPing,
                    DialerActionView::PollTimer,
                ),
                PingDialerState::Shutdown => end_poll(
                    v,
                    PingDialerState::Shutdown,
                    DialerPollView::Ready(None),
                    None,
                ),
                // Not reached: `dialer_accepts` rules out polling a poisoned dialer.
                PingDialerState::Poisoned => end_poll(
                    v,
                    PingDialerState::Poisoned,
                    DialerPollView::NotReady,
                    None,
                ),
            }
        },
        Some(DialerCall::Close) => match event {
            DialerEventView::CloseReady => end_poll(v, v.state, DialerPollView::Ready(None), None),
            DialerEventView::CloseError(e) => end_poll(
                v,
                v.state,
                DialerPollView::Failed(DialerError::Io(e)),
                None,
            ),
            _ => end_poll(v, v.state, DialerPollView::NotReady, None),
        },
        Some(DialerCall::Send) => match event {
            DialerEventView::SendReady => send_spec(
                DialerView {
                    sent: v.sent.push(v.in_flight.unwrap()),
                    need_flush: true,
                    in_flight: None,
                    ..v
                },
            ),
            DialerEventView::SendNotReady => flush_spec(
                DialerView {
                    to_send: seq![v.in_flight.unwrap()] + v.to_send,
                    in_flight: None,
                    ..v
                },
            ),
            _ => receive_spec(DialerView { in_flight: None, ..v }),
        },
        Some(DialerCall::Flush) => match event {
            DialerEventView::FlushReady => receive_spec(DialerView { need_flush: false, ..v }),
            _ => receive_spec(v),
        },
        Some(DialerCall::Frame) => match event {
            DialerEventView::Frame(pong) => match pong_position(v.sent, pong) {
                Some(i) => end_poll(
                    DialerView { sent: v.sent.remove(i), ..v },
                    PingDialerState::Idle,
                    DialerPollView::Ready(Some(DialerItem::PingSuccess(v.sent[i].1))),
                    Some(v.delay_to_next_ping_secs),
                ),
                None => receive_spec(v),
            },
            DialerEventView::FrameEnd => await_call(
                DialerView { needs_close: true, ..v },
                DialerCall::CloseAfterEnd,
                DialerActionView::Close,
            ),
            _ => expiry_spec(v),
        },
        Some(DialerCall::CloseAfterEnd) => match event {
            DialerEventView::CloseReady => end_poll(
                v,
                PingDialerState::Shutdown,
                DialerPollView::Ready(Some(DialerItem::Shutdown)),
                None,
            ),
            _ => expiry_spec(v),
        },
        Some(DialerCall::TimerExpiry) => match event {
            DialerEventView::TimerReady(_) => end_poll(
                v,
                PingDialerState::Shutdown,
                DialerPollView::Failed(DialerError::Unresponsive),
                None,
            ),
            DialerEventView::TimerError(e) => end_poll(
                v,
                PingDialerState::Poisoned,
                DialerPollView::Failed(DialerError::Io(e)),
                None,
            ),
            _ => end_poll(v, PingDialerState::WaitingForPong, DialerPollView::NotReady, None),
        },
        Some(DialerCall::TimerNextPing) => match event {
            DialerEventView::TimerReady(now) => match fresh {
                Some(payload) => end_poll(
                    DialerView { to_send: v.to_send.push((payload, now)), ..v },
                    PingDialerState::WaitingForPong,
                    DialerPollView::Ready(Some(DialerItem::PingStart)),
                    Some(v.ping_timeout_secs),
                ),
                None => end_poll(
                    v,
                    PingDialerState::Idle,
                    DialerPollView::Failed(DialerError::Entropy),
                    None,
                ),
            },
            DialerEventView::TimerError(e) => end_poll(
                v,
                PingDialerState::Poisoned,
                DialerPollView::Failed(DialerError::Io(e)),
                None,
            ),
            _ => end_poll(v, PingDialerState::Idle, DialerPollView::NotReady, None),
        },
    }
}

/// The view of a queue with one more ping at its back.
proof fn lemma_pings_view_push(q: Seq<(Bytes, Instant)>, p: (Bytes, Instant))
    ensures
        pings_view(q.push(p)) == pings_view(q).push(ping_view(p)),
{
    assert(pings_view(q.push(p)) =~= pings_view(q).push(ping_view(p)));
}

/// The view of a queue with one more ping at its front.
proof fn lemma_pings_view_push_front(q: Seq<(Bytes, Instant)>, p: (Bytes, Instant))
    ensures
        pings_view(seq![p] + q) == seq![ping_view(p)] + pings_view(q),
{
    assert(pings_view(seq![p] + q) =~= seq![ping_view(p)] + pings_view(q));
}

/// The view of a queue without its front ping.
proof fn lemma_pings_view_pop_front(q: Seq<(Bytes, Instant)>)
    requires
        q.len() > 0,
    ensures
        pings_view(q.subrange(1, q.len() as int)) == pings_view(q).drop_first(),
{
    assert(pings_view(q.subrange(1, q.len() as int)) =~= pings_view(q).drop_first());
}

/// The view of a queue without the ping at `i`.
proof fn lemma_pings_view_remove(q: Seq<(Bytes, Instant)>, i: int)
    requires
        0 <= i < q.len(),
    ensures
        pings_view(q.remove(i)) == pings_view(q).remove(i),
{
    assert(pings_view(q.remove(i)) =~= pings_view(q).remove(i));
}

/// A first match is the place that `pong_position` names.
pub(crate) proof fn lemma_first_match_unique(sent: Seq<PingView>, pong: Seq<u8>, i: int)
    requires
        is_first_match(sent, pong, i),
    ensures
        pong_position(sent, pong) == Some(i),
{
    let k = choose|k: int| is_first_match(sent, pong, k);
    assert(is_first_match(sent, pong, k));
    if k < i {
        assert(sent[k].0 != pong);
    } else if i < k {
        assert(sent[i].0 != pong);
    }
}

impl PingDialer {
    /// A dialer in the idle phase, with nothing queued. Its driver sets the
    /// timer to fire `PING_TIMEOUT_SECS` from now, before the first ping.
    pub fn new() -> (d: PingDialer)
        ensures
            d@ == (DialerView {
                sent: Seq::empty(),
                to_send: Seq::empty(),
                state: PingDialerState::Idle,
                need_flush: false,
                needs_close: false,
                ping_timeout_secs: PING_TIMEOUT_SECS,
                delay_to_next_ping_secs: DELAY_TO_NEXT_PING_SECS,
                waiting: None,
                in_flight: None,
            }),
            dialer_wf(d@),
    {
        let d = PingDialer {
            sent_pings: VecDeque::with_capacity(4),
            rng: entropy_rng_default(),
            pings_to_send: VecDeque::with_capacity(4),
            state: PingDialerState::Idle,
            need_writer_flush: false,
            needs_close: false,
            ping_timeout_secs: PING_TIMEOUT_SECS,
            delay_to_next_ping_secs: DELAY_TO_NEXT_PING_SECS,
            waiting: None,
            in_flight: None,
        };
        assert(pings_view(d.sent_pings@) =~= Seq::empty());
        assert(pings_view(d.pings_to_send@) =~= Seq::empty());
        d
    }

    /// How long the dialer waits for a pong, and before its first ping.
    pub fn ping_timeout_secs(&self) -> (s: u64)
        ensures
            s == self@.ping_timeout_secs,
    {
        self.ping_timeout_secs
    }

    /// Queues a ping with `payload`, stamped with `now`, to be sent on the
    /// next poll that sends. Nothing else changes.
    pub fn queue_ping(&mut self, payload: Vec<u8>, now: Instant)
        requires
            payload@.len() == PING_SIZE,
        ensures
            final(self)@ == (DialerView { to_send: old(self)@.to_send.push((payload@, now)), ..old(self)@ }),
    {
        let ping = (bytes_from_vec(payload), now);
        proof {
            lemma_pings_view_push(self.pings_to_send@, ping);
        }
        self.pings_to_send.push_back(ping);
    }

    /// Draws `PING_SIZE` random bytes and queues them as a ping stamped with
    /// `now` (as `queue_ping` does), answering `true`. When no random bytes
    /// can be had it answers `false` and nothing changes.
    pub fn ping_at(&mut self, now: Instant) -> (queued: bool)
        ensures
            queued ==> final(self)@.to_send == old(self)@.to_send.push(
                (final(self)@.to_send.last().0, now),
            ),
            queued ==> final(self)@.to_send.last().0.len() == PING_SIZE,
            !queued ==> final(self)@ == old(self)@,
            final(self)@ == (DialerView { to_send: final(self)@.to_send, ..old(self)@ }),
    {
        let mut payload: Vec<u8> = Vec::new();
        let mut i: usize = 0;
        while i < PING_SIZE
            invariant
                i <= PING_SIZE,
                payload@.len() == i,
            decreases PING_SIZE - i,
        {
            payload.push(0u8);
            i = i + 1;
        }
        if try_fill_bytes(&mut self.rng, payload.as_mut_slice()) {
            self.queue_ping(payload, now);
            true
        } else {
            false
        }
    }

    /// Queues a ping of 32 random bytes, stamped with the current reading of
    /// the clock, as `ping_at` does; `false` when no random bytes can be had.
    pub fn ping(&mut self) -> (queued: bool)
        ensures
            queued ==> final(self)@.to_send.len() == old(self)@.to_send.len() + 1,
            queued ==> final(self)@.to_send.drop_last() == old(self)@.to_send,
            queued ==> final(self)@.to_send.last().0.len() == PING_SIZE,
            !queued ==> final(self)@ == old(self)@,
            final(self)@ == (DialerView { to_send: final(self)@.to_send, ..old(self)@ }),
    {
        let now = instant_now();
        let queued = self.ping_at(now);
        proof {
            if queued {
                assert(self@.to_send.drop_last() =~= old(self)@.to_send);
            }
        }
        queued
    }

    /// Makes the next poll close the transport and end the stream.
    pub fn shutdown(&mut self)
        requires
            old(self)@.waiting is None,
        ensures
            final(self)@ == (DialerView { needs_close: true, ..old(self)@ }),
    {
        self.needs_close = true;
    }

    /// Whether the dialer may be polled (no call is under way, and it is to
    /// close or not poisoned). Polling it otherwise is an error of the
    /// driver: the dialer is poisoned only after its timer failed.
    pub fn is_pollable(&self) -> (r: bool)
        ensures
            r == dialer_pollable(self@),
    {
        self.waiting.is_none() && (self.needs_close || self.state != PingDialerState::Poisoned)
    }

    /// The phase of the dialer.
    pub fn state(&self) -> (s: PingDialerState)
        ensures
            s == self@.state,
    {
        self.state
    }

    fn await_call(&mut self, call: DialerCall, action: DialerAction) -> (r: DialerAction)
        ensures
            (final(self)@, r@) == await_call(old(self)@, call, action@),
    {
        self.waiting = Some(call);
        action
    }

    fn end_poll(&mut self, state: PingDialerState, result: DialerPoll, rearm: Option<u64>) -> (r: DialerAction)
        ensures
            (final(self)@, r@) == end_poll(old(self)@, state, result@, rearm),
    {
        self.state = state;
        self.waiting = None;
        DialerAction::Done(result, rearm)
    }

    /// Reading frames, in search of a pong.
    fn receive_pings(&mut self) -> (r: DialerAction)
        ensures
            (final(self)@, r@) == receive_spec(old(self)@),
    {
        self.await_call(DialerCall::Frame, DialerAction::PollFrame)
    }

    /// Flushes what was sent, if anything, then reads frames.
    fn flush(&mut self) -> (r: DialerAction)
        ensures
            (final(self)@, r@) == flush_spec(old(self)@),
    {
        if self.need_writer_flush {
            self.await_call(DialerCall::Flush, DialerAction::PollComplete)
        } else {
            self.receive_pings()
        }
    }

    /// The sending loop: hands the oldest queued ping to the transport, or
    /// goes on to flushing once the queue is empty.
    fn send_pings(&mut self) -> (r: DialerAction)
        ensures
            (final(self)@, r@) == send_spec(old(self)@),
    {
        let ghost q = self.pings_to_send@;
        match self.pings_to_send.pop_front() {
            Some(ping) => {
                proof {
                    lemma_pings_view_pop_front(q);
                }
                let copy = bytes_clone(&ping.0);
                self.in_flight = Some(ping);
                self.await_call(DialerCall::Send, DialerAction::StartSend(copy))
            },
            None => {
                assert(pings_view(q).len() == 0);
                self.flush()
            },
        }
    }

    /// Checks whether the remote has run out of time to answer.
    fn expiry(&mut self) -> (r: DialerAction)
        ensures
            (final(self)@, r@) == expiry_spec(old(self)@),
    {
        self.await_call(DialerCall::TimerExpiry, DialerAction::PollTimer)
    }

    /// Looks for the oldest sent ping whose payload is `pong`.
    fn find_pong(&self, pong: &BytesMut) -> (r: Option<usize>)
        ensures
            match r {
                Some(i) => pong_position(self@.sent, bytes_mut_content(*pong)) == Some(i as int),
                None => pong_position(self@.sent, bytes_mut_content(*pong)) is None,
            },
    {
        let ghost sent = self@.sent;
        let ghost p = bytes_mut_content(*pong);
        let n = self.sent_pings.len();
        let mut i: usize = 0;
        while i < n
            invariant
                n == self.sent_pings@.len(),
                sent == pings_view(self.sent_pings@),
                p == bytes_mut_content(*pong),
                i <= n,
                forall|j: int| 0 <= j < i ==> sent[j].0 != p,
            decreases n - i,
        {
            if bytes_eq_bytes_mut(&self.sent_pings[i].0, pong) {
                proof {
                    lemma_first_match_unique(sent, p, i as int);
                }
                return Some(i);
            }
            i = i + 1;
        }
        proof {
            if exists|k: int| is_first_match(sent, p, k) {
                let k = choose|k: int| is_first_match(sent, p, k);
                assert(sent[k].0 != p);
            }
        }
        None
    }

    /// Takes in `event` and names the next transport or timer call, or ends
    /// the poll, as `dialer_next` describes:
    /// - a dialer that was shut down closes its transport and ends the stream;
    /// - an idle dialer waits for its timer; when it fires, a ping is queued,
    ///   the poll reports `PingStart` and the timer is set to the timeout;
    /// - a dialer waiting for a pong hands its queued pings to the transport
    ///   one by one, flushes what it sent, then reads frames: the first frame
    ///   that equals a sent ping removes that ping and reports `PingSuccess`
    ///   (the timer set to the delay before the next ping), other frames are
    ///   skipped, an ended transport is closed and reported as `Shutdown`, and
    ///   when nothing comes an expired timer ends the dialer as unresponsive.
    /// Errors of sending, flushing and reading are passed over; a failed
    /// timer fails the poll and leaves the dialer poisoned.
    pub fn step(&mut self, event: DialerEvent) -> (action: DialerAction)
        requires
            dialer_accepts(old(self)@, event@),
        ensures
            dialer_step_ok(old(self)@, event@, final(self)@, action@),
            dialer_wf(final(self)@),
    {
        let ghost v0 = self@;
        let ghost ev = event@;
        let ghost mut fresh: Option<Seq<u8>> = None;
        let action = match self.waiting {
            None => {
                if self.needs_close {
                    self.await_call(DialerCall::Close, DialerAction::Close)
                } else {
                    let taken = self.state;
                    self.state = PingDialerState::Poisoned;
                    match taken {
                        PingDialerState::WaitingForPong => self.send_pings(),
                        PingDialerState::Idle => self.await_call(
                            DialerCall::TimerNextPing,
                            DialerAction::PollTimer,
                        ),
                        PingDialerState::Shutdown => self.end_poll(
                            PingDialerState::Shutdown,
                            DialerPoll::Ready(None),
                            None,
                        ),
                        PingDialerState::Poisoned => self.end_poll(
                            PingDialerState::Poisoned,
                            DialerPoll::NotReady,
                            None,
                        ),
                    }
                }
            },
            Some(DialerCall::Close) => {
                let state = self.state;
                match event {
                    DialerEvent::CloseReady => self.end_poll(state, DialerPoll::Ready(None), None),
                    DialerEvent::CloseError(e) => self.end_poll(
                        state,
                        DialerPoll::Failed(DialerError::Io(e)),
                        None,
                    ),
                    _ => self.end_poll(state, DialerPoll::NotReady, None),
                }
            },
            Some(DialerCall::Send) => {
                let ping = self.in_flight.take().unwrap();
                match event {
                    DialerEvent::SendReady => {
                        self.need_writer_flush = true;
                        proof {
                            lemma_pings_view_push(self.sent_pings@, ping);
                        }
                        self.sent_pings.push_back(ping);
                        self.send_pings()
                    },
                    DialerEvent::SendNotReady => {
                        proof {
                            lemma_pings_view_push_front(self.pings_to_send@, ping);
                        }
                        self.pings_to_send.push_front(ping);
                        self.flush()
                    },
                    _ => self.receive_pings(),
                }
            },
            Some(DialerCall::Flush) => {
                match event {
                    DialerEvent::FlushReady => {
                        self.need_writer_flush = false;
                        self.receive_pings()
                    },
                    _ => self.receive_pings(),
                }
            },
            Some(DialerCall::Frame) => {
                match event {
                    DialerEvent::Frame(pong) => {
                        match self.find_pong(&pong) {
                            Some(i) => {
                                proof {
                                    lemma_pings_view_remove(self.sent_pings@, i as int);
                                }
                                let removed = self.sent_pings.remove(i);
                                let started = removed.unwrap().1;
                                let delay = self.delay_to_next_ping_secs;
                                self.end_poll(
                                    PingDialerState::Idle,
                                    DialerPoll::Ready(Some(DialerItem::PingSuccess(started))),
                                    Some(delay),
                                )
                            },
                            None => self.receive_pings(),
                        }
                    },
                    DialerEvent::FrameEnd => {
                        self.needs_close = true;
                        self.await_call(DialerCall::CloseAfterEnd, DialerAction::Close)
                    },
                    _ => self.expiry(),
                }
            },
            Some(DialerCall::CloseAfterEnd) => {
                match event {
                    DialerEvent::CloseReady => self.end_poll(
                        PingDialerState::Shutdown,
                        DialerPoll::Ready(Some(DialerItem::Shutdown)),
                        None,
                    ),
                    _ => self.expiry(),
                }
            },
            Some(DialerCall::TimerExpiry) => {
                match event {
                    DialerEvent::TimerReady(_) => self.end_poll(
                        PingDialerState::Shutdown,
                        DialerPoll::Failed(DialerError::Unresponsive),
                        None,
                    ),
                    DialerEvent::TimerError(e) => self.end_poll(
                        PingDialerState::Poisoned,
                        DialerPoll::Failed(DialerError::Io(e)),
                        None,
                    ),
                    _ => self.end_poll(PingDialerState::WaitingForPong, DialerPoll::NotReady, None),
                }
            },
            Some(DialerCall::TimerNextPing) => {
                match event {
                    DialerEvent::TimerReady(now) => {
                        if self.ping_at(now) {
                            proof {
                                fresh = Some(self@.to_send.last().0);
                            }
                            let timeout = self.ping_timeout_secs;
                            self.end_poll(
                                PingDialerState::WaitingForPong,
                                DialerPoll::Ready(Some(DialerItem::PingStart)),
                                Some(timeout),
                            )
                        } else {
                            self.end_poll(
                                PingDialerState::Idle,
                                DialerPoll::Failed(DialerError::Entropy),
                                None,
                            )
                        }
                    },
                    DialerEvent::TimerError(e) => self.end_poll(
                        PingDialerState::Poisoned,
                        DialerPoll::Failed(DialerError::Io(e)),
                        None,
                    ),
                    _ => self.end_poll(PingDialerState::Idle, DialerPoll::NotReady, None),
                }
            },
        };
        proof {
            assert(fresh_ok(fresh));
            assert((self@, action@) == dialer_next(v0, ev, fresh));
        }
        action
    }
}

} // verus!
