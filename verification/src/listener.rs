//! The listening side of the ping protocol: every frame that arrives is sent
//! back unchanged, and the sent frame is flushed before the next one is read.
//!
//! One poll of the listener is a run of `step` calls. The listener names the
//! transport call to make next (`ListenerAction`), its driver makes the call
//! and hands the answer back (`ListenerEvent`), until the action is `Done`.
use crate::buffers::{bytes_content, bytes_mut_content, bytes_mut_freeze};
use crate::platform::IoError;
use bytes::{Bytes, BytesMut};
use vstd::prelude::*;

verus! {

/// The call on the transport that the listener waits on.
#[derive(PartialEq, Eq, Structural, Debug, Clone, Copy)]
pub enum ListenerCall {
    /// Reading the next frame.
    Frame,
    /// Handing a frame to the transport.
    Send,
    /// Flushing the transport.
    Flush,
    /// Closing the transport.
    Close,
}

/// Where the listener stands between two transport calls.
pub enum PingListenerState {
    /// Waiting for a ping.
    Listening,
    /// A ping to send back.
    Sending(Bytes),
    /// A ping was handed to the transport and has to be flushed.
    Flushing,
    /// The transport is to be closed.
    Closing,
    /// A transport call is under way, or one failed.
    Poisoned,
}

/// The spec form of `PingListenerState`, with payloads as byte sequences.
pub enum ListenerStateView {
    Listening,
    Sending(Seq<u8>),
    Flushing,
    Closing,
    Poisoned,
}

/// What the driver hands the listener: the start of a poll, or the answer
/// of the transport call that the listener asked for.
pub enum ListenerEvent {
    /// The listener is polled.
    Poll,
    /// A frame arrived.
    Frame(BytesMut),
    /// The transport has no more frames.
    FrameEnd,
    /// No frame is there yet.
    FrameNotReady,
    /// Reading failed.
    FrameError(IoError),
    /// The frame was taken by the transport.
    SendReady,
    /// The transport cannot take the frame now and gives it back.
    SendNotReady(Bytes),
    /// Sending failed.
    SendError(IoError),
    /// Everything was flushed.
    FlushReady,
    /// Flushing is still under way.
    FlushNotReady,
    /// Flushing failed.
    FlushError(IoError),
    /// The transport is closed.
    CloseReady,
    /// Closing is still under way.
    CloseNotReady,
    /// Closing failed.
    CloseError(IoError),
}

/// The spec form of `ListenerEvent`.
pub enum ListenerEventView {
    Poll,
    Frame(Seq<u8>),
    FrameEnd,
    FrameNotReady,
    FrameError(IoError),
    SendReady,
    SendNotReady(Seq<u8>),
    SendError(IoError),
    FlushReady,
    FlushNotReady,
    FlushError(IoError),
    CloseReady,
    CloseNotReady,
    CloseError(IoError),
}

/// How a poll of the listener ends.
pub enum ListenerPoll {
    /// The transport was closed: the listener is finished.
    Ready,
    /// The listener waits for the transport.
    NotReady,
    /// A transport call failed.
    Failed(IoError),
}

/// What the listener asks its driver to do next.
pub enum ListenerAction {
    /// Read the next frame and answer with a `Frame*` event.
    PollFrame,
    /// Hand this frame to the transport and answer with a `Send*` event.
    StartSend(Bytes),
    /// Flush the transport and answer with a `Flush*` event.
    PollComplete,
    /// Close the transport and answer with a `Close*` event.
    Close,
    /// The poll is over, with this result.
    Done(ListenerPoll),
}

/// The spec form of `ListenerAction`.
pub enum ListenerActionView {
    PollFrame,
    StartSend(Seq<u8>),
    PollComplete,
    Close,
    Done(ListenerPoll),
}

/// The spec form of the listener.
pub struct ListenerView {
    pub state: ListenerStateView,
    pub waiting: Option<ListenerCall>,
}

/// The listening endpoint of a ping substream.
pub struct PingListener {
    state: PingListenerState,
    waiting: Option<ListenerCall>,
}

impl View for PingListenerState {
    type V = ListenerStateView;

    open spec fn view(&self) -> ListenerStateView {
        match self {
            PingListenerState::Listening => ListenerStateView::Listening,
            PingListenerState::Sending(b) => ListenerStateView::Sending(bytes_content(*b)),
            PingListenerState::Flushing => ListenerStateView::Flushing,
            PingListenerState::Closing => ListenerStateView::Closing,
            PingListenerState::Poisoned => ListenerStateView::Poisoned,
        }
    }
}

impl View for ListenerEvent {
    type V = ListenerEventView;

    open spec fn view(&self) -> ListenerEventView {
        match self {
            ListenerEvent::Poll => ListenerEventView::Poll,
            ListenerEvent::Frame(b) => ListenerEventView::Frame(bytes_mut_content(*b)),
            ListenerEvent::FrameEnd => ListenerEventView::FrameEnd,
            ListenerEvent::FrameNotReady => ListenerEventView::FrameNotReady,
            ListenerEvent::FrameError(e) => ListenerEventView::FrameError(*e),
            ListenerEvent::SendReady => ListenerEventView::SendReady,
            ListenerEvent::SendNotReady(b) => ListenerEventView::SendNotReady(bytes_content(*b)),
            ListenerEvent::SendError(e) => ListenerEventView::SendError(*e),
            ListenerEvent::FlushReady => ListenerEventView::FlushReady,
            ListenerEvent::FlushNotReady => ListenerEventView::FlushNotReady,
            ListenerEvent::FlushError(e) => ListenerEventView::FlushError(*e),
            ListenerEvent::CloseReady => ListenerEventView::CloseReady,
            ListenerEvent::CloseNotReady => ListenerEventView::CloseNotReady,
            ListenerEvent::CloseError(e) => ListenerEventView::CloseError(*e),
        }
    }
}

impl View for ListenerAction {
    type V = ListenerActionView;

    open spec fn view(&self) -> ListenerActionView {
        match self {
            ListenerAction::PollFrame => ListenerActionView::PollFrame,
            ListenerAction::StartSend(b) => ListenerActionView::StartSend(bytes_content(*b)),
            ListenerAction::PollComplete => ListenerActionView::PollComplete,
            ListenerAction::Close => ListenerActionView::Close,
            ListenerAction::Done(p) => ListenerActionView::Done(*p),
        }
    }
}

impl View for PingListener {
    type V = ListenerView;

    closed spec fn view(&self) -> ListenerView {
        ListenerView { state: self.state@, waiting: self.waiting }
    }
}

/// Whether `event` is something the listener can take in: the start of a
/// poll when no call is under way (and the listener is not poisoned), and
/// otherwise an answer to the call under way.
pub open spec fn listener_accepts(v: ListenerView, event: ListenerEventView) -> bool {
    match v.waiting {
        None => event is Poll && !(v.state is Poisoned),
        Some(ListenerCall::Frame) => event is Frame || event is FrameEnd || event is FrameNotReady
            || event is FrameError,
        Some(ListenerCall::Send) => event is SendReady || event is SendNotReady
            || event is SendError,
        Some(ListenerCall::Flush) => event is FlushReady || event is FlushNotReady
            || event is FlushError,
        Some(ListenerCall::Close) => event is CloseReady || event is CloseNotReady
            || event is CloseError,
    }
}

/// The call that the listener makes from `state` when no call is under way:
/// the state is taken out (leaving `Poisoned`) while the call runs.
pub open spec fn listener_resume(state: ListenerStateView) -> (ListenerView, ListenerActionView) {
    let poisoned = |w: ListenerCall| ListenerView { state: ListenerStateView::Poisoned, waiting: Some(w) };
    match state {
        ListenerStateView::Listening => (poisoned(ListenerCall::Frame), ListenerActionView::PollFrame),
        ListenerStateView::Sending(data) => (
            poisoned(ListenerCall::Send),
            ListenerActionView::StartSend(data),
        ),
        ListenerStateView::Flushing => (poisoned(ListenerCall::Flush), ListenerActionView::PollComplete),
        ListenerStateView::Closing => (poisoned(ListenerCall::Close), ListenerActionView::Close),
        // Not reached from `step`: `listener_accepts` rules out polling a
        // poisoned listener.
        ListenerStateView::Poisoned => (
            ListenerView { state: ListenerStateView::Poisoned, waiting: None },
            ListenerActionView::Done(ListenerPoll::NotReady),
        ),
    }
}

/// The end of a poll, in `state`.
pub open spec fn listener_done(state: ListenerStateView, result: ListenerPoll) -> (ListenerView, ListenerActionView) {
    (ListenerView { state, waiting: None }, ListenerActionView::Done(result))
}

/// One step of the listener: its state and the action it asks for after
/// taking in `event`.
pub open spec fn listener_next(v: ListenerView, event: ListenerEventView) -> (ListenerView, ListenerActionView) {
    match event {
        ListenerEventView::Poll => listener_resume(v.state),
        ListenerEventView::Frame(payload) => listener_resume(ListenerStateView::Sending(payload)),
        ListenerEventView::FrameEnd => listener_resume(ListenerStateView::Closing),
        ListenerEventView::FrameNotReady => listener_done(ListenerStateView::Listening, ListenerPoll::NotReady),
        ListenerEventView::FrameError(e) => listener_done(ListenerStateView::Poisoned, ListenerPoll::Failed(e)),
        ListenerEventView::SendReady => listener_resume(ListenerStateView::Flushing),
        ListenerEventView::SendNotReady(data) => listener_done(
            ListenerStateView::Sending(data),
            ListenerPoll::NotReady,
        ),
        ListenerEventView::SendError(e) => listener_done(ListenerStateView::Poisoned, ListenerPoll::Failed(e)),
        ListenerEventView::FlushReady => listener_resume(ListenerStateView::Listening),
        ListenerEventView::FlushNotReady => listener_done(ListenerStateView::Flushing, ListenerPoll::NotReady),
        ListenerEventView::FlushError(e) => listener_done(ListenerStateView::Poisoned, ListenerPoll::Failed(e)),
        ListenerEventView::CloseReady => listener_done(ListenerStateView::Poisoned, ListenerPoll::Ready),
        ListenerEventView::CloseNotReady => listener_done(ListenerStateView::Closing, ListenerPoll::NotReady),
        ListenerEventView::CloseError(e) => listener_done(ListenerStateView::Poisoned, ListenerPoll::Failed(e)),
    }
}

impl PingListener {
    /// A listener that waits for pings.
    pub fn new() -> (l: PingListener)
        ensures
            l@ == (ListenerView { state: ListenerStateView::Listening, waiting: None }),
    {
        PingListener { state: PingListenerState::Listening, waiting: None }
    }

    /// Makes the next poll close the transport.
    pub fn shutdown(&mut self)
        requires
            old(self)@.waiting is None,
        ensures
            final(self)@ == (ListenerView { state: ListenerStateView::Closing, waiting: None }),
    {
        self.state = PingListenerState::Closing;
    }

    /// Whether a transport call is under way.
    pub fn is_waiting(&self) -> (r: bool)
        ensures
            r == (self@.waiting is Some),
    {
        self.waiting.is_some()
    }

    /// Whether a transport call failed (or the transport was closed), after
    /// which the listener cannot be polled again.
    pub fn is_poisoned(&self) -> (r: bool)
        ensures
            r == (self@.state is Poisoned),
    {
        match self.state {
            PingListenerState::Poisoned => true,
            _ => false,
        }
    }

    /// The call to make from `state`, which is taken out of the listener.
    fn resume(&mut self, state: PingListenerState) -> (action: ListenerAction)
        ensures
            (final(self)@, action@) == listener_resume(state@),
    {
        match state {
            PingListenerState::Listening => {
                self.state = PingListenerState::Poisoned;
                self.waiting = Some(ListenerCall::Frame);
                ListenerAction::PollFrame
            },
            PingListenerState::Sending(data) => {
                self.state = PingListenerState::Poisoned;
                self.waiting = Some(ListenerCall::Send);
                ListenerAction::StartSend(data)
            },
            PingListenerState::Flushing => {
                self.state = PingListenerState::Poisoned;
                self.waiting = Some(ListenerCall::Flush);
                ListenerAction::PollComplete
            },
            PingListenerState::Closing => {
                self.state = PingListenerState::Poisoned;
                self.waiting = Some(ListenerCall::Close);
                ListenerAction::Close
            },
            PingListenerState::Poisoned => {
                self.state = PingListenerState::Poisoned;
                self.waiting = None;
                ListenerAction::Done(ListenerPoll::NotReady)
            },
        }
    }

    /// Ends the poll in `state`.
    fn done(&mut self, state: PingListenerState, result: ListenerPoll) -> (action: ListenerAction)
        ensures
            (final(self)@, action@) == listener_done(state@, result),
    {
        self.state = state;
        self.waiting = None;
        ListenerAction::Done(result)
    }

    /// Takes in `event` and names the next transport call, or ends the poll.
    /// A received frame is sent back with the same bytes; a sent frame is
    /// flushed before the next frame is read; an ended transport is closed.
    /// A failed call ends the poll with its error and leaves the listener
    /// poisoned; so does closing, after which the listener is finished.
    pub fn step(&mut self, event: ListenerEvent) -> (action: ListenerAction)
        requires
            listener_accepts(old(self)@, event@),
        ensures
            (final(self)@, action@) == listener_next(old(self)@, event@),
    {
        match event {
            ListenerEvent::Poll => {
                let mut state = PingListenerState::Poisoned;
                std::mem::swap(&mut state, &mut self.state);
                self.resume(state)
            },
            ListenerEvent::Frame(payload) => self.resume(
                PingListenerState::Sending(bytes_mut_freeze(payload)),
            ),
            ListenerEvent::FrameEnd => self.resume(PingListenerState::Closing),
            ListenerEvent::FrameNotReady => self.done(PingListenerState::Listening, ListenerPoll::NotReady),
            ListenerEvent::FrameError(e) => self.done(PingListenerState::Poisoned, ListenerPoll::Failed(e)),
            ListenerEvent::SendReady => self.resume(PingListenerState::Flushing),
            ListenerEvent::SendNotReady(data) => self.done(
                PingListenerState::Sending(data),
                ListenerPoll::NotReady,
            ),
            ListenerEvent::SendError(e) => self.done(PingListenerState::Poisoned, ListenerPoll::Failed(e)),
            ListenerEvent::FlushReady => self.resume(PingListenerState::Listening),
            ListenerEvent::FlushNotReady => self.done(PingListenerState::Flushing, ListenerPoll::NotReady),
            ListenerEvent::FlushError(e) => self.done(PingListenerState::Poisoned, ListenerPoll::Failed(e)),
            ListenerEvent::CloseReady => self.done(PingListenerState::Poisoned, ListenerPoll::Ready),
            ListenerEvent::CloseNotReady => self.done(PingListenerState::Closing, ListenerPoll::NotReady),
            ListenerEvent::CloseError(e) => self.done(PingListenerState::Poisoned, ListenerPoll::Failed(e)),
        }
    }
}

/// Whether the listener may be polled: no call is under way and it is not
/// poisoned.
pub open spec fn listener_pollable(v: ListenerView) -> bool {
    v.waiting is None && !(v.state is Poisoned)
}

/// A listener never gets stuck: whatever state a step leaves, either a call
/// is under way and its answers are accepted, or the poll is over; and a
/// poll that ends without a result (`NotReady`) leaves the listener pollable
/// again.
pub proof fn lemma_listener_step_well_formed(v: ListenerView, event: ListenerEventView)
    requires
        listener_accepts(v, event),
    ensures
        ({
            let (w, action) = listener_next(v, event);
            &&& (w.waiting is Some) == !(action is Done)
            &&& w.waiting is Some ==> w.state is Poisoned
            &&& action matches ListenerActionView::Done(ListenerPoll::NotReady) ==> listener_pollable(w)
            &&& action matches ListenerActionView::Done(ListenerPoll::Ready) ==> !listener_pollable(w)
            &&& action matches ListenerActionView::Done(ListenerPoll::Failed(_)) ==> !listener_pollable(w)
        }),
{
}

/// A finished or failed listener refuses to be polled again: once a poll
/// has ended with `Ready` (the transport was closed) or with an error, no
/// event is accepted any more; its driver stops there (the listener is
/// poisoned).
pub proof fn lemma_listener_finished_refuses_poll(v: ListenerView, event: ListenerEventView, next: ListenerEventView)
    requires
        listener_accepts(v, event),
    ensures
        ({
            let (w, action) = listener_next(v, event);
            (action matches ListenerActionView::Done(ListenerPoll::Ready) || action matches ListenerActionView::Done(
                ListenerPoll::Failed(_),
            )) ==> !listener_accepts(w, next) && w.state is Poisoned
        }),
{
}

/// A poll that ends without a result loses nothing: when the transport is
/// not ready for the call under way, the listener stays pollable and the next
/// poll makes the same call again. In particular, when no frame has arrived
/// yet it keeps listening instead of closing, and a refused frame is offered
/// again.
pub proof fn lemma_listener_not_ready_retries(v: ListenerView, event: ListenerEventView)
    requires
        listener_accepts(v, event),
        v.waiting is Some,
    ensures
        ({
            let (w, action) = listener_next(v, event);
            action == ListenerActionView::Done(ListenerPoll::NotReady) ==> {
                &&& listener_pollable(w)
                &&& listener_next(w, ListenerEventView::Poll).0.waiting == v.waiting
                &&& v.waiting == Some(ListenerCall::Frame) ==> w == (ListenerView {
                    state: ListenerStateView::Listening,
                    waiting: None,
                }) && listener_next(w, ListenerEventView::Poll).1 is PollFrame
            }
        }),
{
}

/// A ping is answered with itself: a listener that reads a frame asks to
/// send back exactly the bytes it read; once the transport has taken and
/// flushed them, it goes back to reading the next frame.
pub proof fn lemma_listener_echoes(v: ListenerView, payload: Seq<u8>)
    requires
        v.waiting == Some(ListenerCall::Frame),
    ensures
        ({
            let (after_frame, send) = listener_next(v, ListenerEventView::Frame(payload));
            let (after_send, flush) = listener_next(after_frame, ListenerEventView::SendReady);
            let (after_flush, read) = listener_next(after_send, ListenerEventView::FlushReady);
            &&& send == ListenerActionView::StartSend(payload)
            &&& after_frame.waiting == Some(ListenerCall::Send)
            &&& flush is PollComplete
            &&& after_send.waiting == Some(ListenerCall::Flush)
            &&& read is PollFrame
            &&& after_flush.waiting == Some(ListenerCall::Frame)
        }),
{
}

/// A frame that the transport cannot take yet is kept: the poll ends
/// without a result and the next poll offers the same bytes again.
pub proof fn lemma_listener_retries_send(v: ListenerView, payload: Seq<u8>)
    requires
        v.waiting == Some(ListenerCall::Send),
    ensures
        ({
            let (w, action) = listener_next(v, ListenerEventView::SendNotReady(payload));
            let (_, retry) = listener_next(w, ListenerEventView::Poll);
            &&& action == ListenerActionView::Done(ListenerPoll::NotReady)
            &&& listener_pollable(w)
            &&& retry == ListenerActionView::StartSend(payload)
        }),
{
}

/// The listener after the first `k` events of a run from `v`.
pub open spec fn listener_state_at(v: ListenerView, events: Seq<ListenerEventView>, k: nat) -> ListenerView
    decreases k,
{
    if k == 0 {
        v
    } else {
        listener_next(listener_state_at(v, events, (k - 1) as nat), events[k - 1]).0
    }
}

/// The action that the listener asks for after the event `k` of a run.
pub open spec fn listener_action_at(v: ListenerView, events: Seq<ListenerEventView>, k: nat) -> ListenerActionView {
    listener_next(listener_state_at(v, events, k), events[k as int]).1
}

/// Every event of the run is one that the listener can take in, and a
/// transport that refuses a frame hands back the frame it was given.
pub open spec fn listener_run_ok(v: ListenerView, events: Seq<ListenerEventView>) -> bool {
    forall|k: nat|
        k < events.len() ==> {
            &&& listener_accepts(#[trigger] listener_state_at(v, events, k), events[k as int])
            &&& events[k as int] matches ListenerEventView::SendNotReady(d) ==> k > 0
                && listener_action_at(v, events, (k - 1) as nat) == ListenerActionView::StartSend(d)
        }
}

/// The frames read in the first `k` events of a run, in order.
pub open spec fn frames_read(events: Seq<ListenerEventView>, k: nat) -> Seq<Seq<u8>>
    decreases k,
{
    if k == 0 {
        Seq::empty()
    } else {
        frames_read(events, (k - 1) as nat) + match events[k - 1] {
            ListenerEventView::Frame(p) => seq![p],
            _ => Seq::empty(),
        }
    }
}

/// The frames written back in the first `k` events of a run, in order: a
/// frame counts as written when the transport takes it (`SendReady`).
pub open spec fn replies_written(v: ListenerView, events: Seq<ListenerEventView>, k: nat) -> Seq<Seq<u8>>
    decreases k,
{
    if k == 0 {
        Seq::empty()
    } else {
        replies_written(v, events, (k - 1) as nat) + if k >= 2 && events[k - 1] is SendReady
            && listener_action_at(v, events, (k - 2) as nat) is StartSend {
            seq![listener_action_at(v, events, (k - 2) as nat)->StartSend_0]
        } else {
            Seq::empty()
        }
    }
}

/// The listener's replies stand in order for the frames it read: the
/// replies are a prefix of the frames, and at most one frame is read ahead.
pub open spec fn replies_follow_frames(replies: Seq<Seq<u8>>, frames: Seq<Seq<u8>>) -> bool {
    &&& replies.len() <= frames.len() <= replies.len() + 1
    &&& frames.take(replies.len() as int) == replies
}

/// What holds after `k` events of a run from a new listener.
spec fn echo_inv(v: ListenerView, events: Seq<ListenerEventView>, k: nat) -> bool {
    let s = listener_state_at(v, events, k);
    let f = frames_read(events, k);
    let r = replies_written(v, events, k);
    &&& replies_follow_frames(r, f)
    &&& s.waiting is Some ==> s.state is Poisoned
    &&& s.state matches ListenerStateView::Sending(d) ==> f == r.push(d)
    &&& s.waiting == Some(ListenerCall::Send) ==> k > 0 && listener_action_at(
        v,
        events,
        (k - 1) as nat,
    ) is StartSend && f == r.push(listener_action_at(v, events, (k - 1) as nat)->StartSend_0)
    &&& (s.state is Listening || s.state is Flushing || s.state is Closing || s.waiting == Some(
        ListenerCall::Frame,
    ) || s.waiting == Some(ListenerCall::Flush) || s.waiting == Some(ListenerCall::Close)) ==> f
        == r
}

proof fn lemma_echo_inv(v: ListenerView, events: Seq<ListenerEventView>, k: nat)
    requires
        listener_run_ok(v, events),
        v == (ListenerView { state: ListenerStateView::Listening, waiting: None }),
        k <= events.len(),
    ensures
        echo_inv(v, events, k),
    decreases k,
{
    if k == 0 {
        assert(frames_read(events, 0) =~= Seq::<Seq<u8>>::empty());
        assert(Seq::<Seq<u8>>::empty().take(0) =~= Seq::<Seq<u8>>::empty());
    } else {
        let p = (k - 1) as nat;
        lemma_echo_inv(v, events, p);
        let s = listener_state_at(v, events, p);
        let e = events[p as int];
        assert(listener_accepts(s, e));
        let f = frames_read(events, p);
        let r = replies_written(v, events, p);
        let f2 = frames_read(events, k);
        let r2 = replies_written(v, events, k);
        if e is Frame {
            assert(f2 =~= f.push(e->Frame_0));
        } else {
            assert(f2 =~= f);
        }
        if e is SendReady {
            assert(r2 =~= r.push(listener_action_at(v, events, (p - 1) as nat)->StartSend_0));
        } else {
            assert(r2 =~= r);
        }
        assert(f2.take(r2.len() as int) =~= r2) by {
            if f2.len() == r2.len() + 1 {
                assert(f2.take(r2.len() as int) =~= f2.drop_last());
            } else {
                assert(f2.take(r2.len() as int) =~= f2);
            }
        }
    }
}

/// The listener sends back exactly what it reads, in order: in every run of
/// events that a new listener takes in (where a transport that refuses a
/// frame hands back that frame), the frames it has written are, at every
/// point, the frames it has read, byte for byte and in order, but for at
/// most one frame read and not yet written.
pub proof fn lemma_listener_replies_in_order(v: ListenerView, events: Seq<ListenerEventView>)
    requires
        listener_run_ok(v, events),
        v == (ListenerView { state: ListenerStateView::Listening, waiting: None }),
    ensures
        forall|k: nat|
            k <= events.len() ==> replies_follow_frames(
                #[trigger] replies_written(v, events, k),
                frames_read(events, k),
            ),
{
    assert forall|k: nat| k <= events.len() implies replies_follow_frames(
        #[trigger] replies_written(v, events, k),
        frames_read(events, k),
    ) by {
        lemma_echo_inv(v, events, k);
    }
}

} // verus!
