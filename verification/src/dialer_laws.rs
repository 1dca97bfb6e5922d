//! Laws of the dialer: what holds of each step, and of whole runs of steps.
use crate::dialer::{
    dialer_accepts, dialer_next, dialer_pollable, dialer_wf, is_first_match,
    lemma_first_match_unique, pong_position, DialerActionView, DialerCall, DialerError,
    DialerEventView, DialerItem, DialerPollView, DialerView, PingDialerState, PingView,
};
use crate::platform::IoError;
use std::time::Instant;
use vstd::prelude::*;

verus! {

/// All pings of the dialer, in the order in which they go out and come
/// back: those sent, the one in flight, those still queued.
pub open spec fn pipeline(v: DialerView) -> Seq<PingView> {
    v.sent + match v.in_flight {
        Some(p) => seq![p],
        None => Seq::<PingView>::empty(),
    } + v.to_send
}

/// The dialer never gets stuck: after every step either a call is under way
/// (and the dialer stays consistent) or the poll is over; and the only poll
/// after which the dialer cannot be polled again is one that failed because
/// its timer failed.
pub proof fn lemma_dialer_step_well_formed(v: DialerView, event: DialerEventView, fresh: Option<Seq<u8>>)
    requires
        dialer_accepts(v, event),
    ensures
        ({
            let (w, action) = dialer_next(v, event, fresh);
            &&& dialer_wf(w)
            &&& (w.waiting is None) == (action is Done)
            &&& (action is Done && !dialer_pollable(w)) ==> action matches DialerActionView::Done(
                DialerPollView::Failed(DialerError::Io(_)),
                _,
            )
        }),
{
}

/// A dialer whose timer failed refuses to be polled again, unless it is to
/// close: the poll fails with the timer's error and the dialer is poisoned.
pub proof fn lemma_dialer_timer_failure_poisons(v: DialerView, e: IoError, fresh: Option<Seq<u8>>)
    requires
        v.waiting == Some(DialerCall::TimerExpiry) || v.waiting == Some(DialerCall::TimerNextPing),
        !v.needs_close,
    ensures
        ({
            let (w, action) = dialer_next(v, DialerEventView::TimerError(e), fresh);
            &&& action == DialerActionView::Done(DialerPollView::Failed(DialerError::Io(e)), None)
            &&& w.state == PingDialerState::Poisoned
            &&& !dialer_accepts(w, DialerEventView::Poll)
        }),
{
}

/// The dialer loses, duplicates and reorders no ping: a step leaves the
/// sequence of its pings as it was, except that a timer that fires while
/// idle queues one new ping at the back (when random bytes could be had),
/// stamped with the instant the timer was seen to fire, a pong removes the oldest ping with
/// the same payload, and a failed send drops the ping that was in flight.
pub proof fn lemma_dialer_keeps_pings(v: DialerView, event: DialerEventView, fresh: Option<Seq<u8>>)
    requires
        dialer_accepts(v, event),
    ensures
        ({
            let (w, _) = dialer_next(v, event, fresh);
            if v.waiting == Some(DialerCall::TimerNextPing) && event is TimerReady
                && fresh is Some {
                pipeline(w) == pipeline(v).push((fresh.unwrap(), event->TimerReady_0))
            } else if v.waiting == Some(DialerCall::Send) && event is SendError {
                pipeline(w) == v.sent + v.to_send
            } else if v.waiting == Some(DialerCall::Frame) && event is Frame
                && pong_position(v.sent, event->Frame_0) is Some {
                pipeline(w) == pipeline(v).remove(pong_position(v.sent, event->Frame_0).unwrap())
            } else {
                pipeline(w) == pipeline(v)
            }
        }),
{
    let (w, _) = dialer_next(v, event, fresh);
    let none = Seq::<PingView>::empty();
    match v.waiting {
        None => {
            if !v.needs_close && v.state == PingDialerState::WaitingForPong && v.to_send.len() > 0 {
                assert(v.sent + none + v.to_send =~= v.sent + seq![v.to_send[0]]
                    + v.to_send.drop_first());
            }
        },
        Some(DialerCall::Send) => {
            let x = v.in_flight.unwrap();
            match event {
                DialerEventView::SendReady => {
                    let sent = v.sent.push(x);
                    if v.to_send.len() > 0 {
                        assert(sent + seq![v.to_send[0]] + v.to_send.drop_first() =~= v.sent
                            + seq![x] + v.to_send);
                    } else {
                        assert(sent + none + v.to_send =~= v.sent + seq![x] + v.to_send);
                    }
                },
                DialerEventView::SendNotReady => {
                    assert(v.sent + none + (seq![x] + v.to_send) =~= v.sent + seq![x]
                        + v.to_send);
                },
                _ => {
                    assert(v.sent + none + v.to_send =~= v.sent + v.to_send);
                },
            }
        },
        Some(DialerCall::Frame) => {
            if event is Frame {
                if let Some(i) = pong_position(v.sent, event->Frame_0) {
                    let k = choose|k: int| is_first_match(v.sent, event->Frame_0, k);
                    assert(is_first_match(v.sent, event->Frame_0, k));
                    assert(v.in_flight is None);
                    assert(v.sent.remove(i) + none + v.to_send =~= (v.sent + none
                        + v.to_send).remove(i));
                }
            }
        },
        Some(DialerCall::TimerNextPing) => {
            if event is TimerReady && fresh is Some {
                let p = (fresh.unwrap(), event->TimerReady_0);
                assert(v.sent + none + v.to_send.push(p) =~= (v.sent + none + v.to_send).push(p));
            }
        },
        _ => {},
    }
}

/// A pong is matched to its ping: a frame that equals a sent ping ends the
/// poll with `PingSuccess` carrying that ping's stamp, removes the oldest such ping, makes the dialer
/// idle and sets the timer to the delay before the next ping; a frame that
/// equals no sent ping changes nothing and the dialer reads on.
pub proof fn lemma_dialer_matches_pong(v: DialerView, pong: Seq<u8>, i: int, fresh: Option<Seq<u8>>)
    requires
        v.waiting == Some(DialerCall::Frame),
    ensures
        is_first_match(v.sent, pong, i) ==> dialer_next(v, DialerEventView::Frame(pong), fresh) == (
        DialerView { sent: v.sent.remove(i), state: PingDialerState::Idle, waiting: None, ..v },
        DialerActionView::Done(
            DialerPollView::Ready(Some(DialerItem::PingSuccess(v.sent[i].1))),
            Some(v.delay_to_next_ping_secs),
        )),
        (forall|j: int| 0 <= j < v.sent.len() ==> v.sent[j].0 != pong) ==> dialer_next(
            v,
            DialerEventView::Frame(pong),
            fresh,
        ) == (v, DialerActionView::PollFrame),
{
    if is_first_match(v.sent, pong, i) {
        lemma_first_match_unique(v.sent, pong, i);
    }
    if forall|j: int| 0 <= j < v.sent.len() ==> v.sent[j].0 != pong {
        if exists|k: int| is_first_match(v.sent, pong, k) {
            let k = choose|k: int| is_first_match(v.sent, pong, k);
            assert(v.sent[k].0 != pong);
        }
    }
}

/// One ping round from the idle phase: when the idle timer fires the poll
/// reports `PingStart`, queues the new ping stamped with the instant the
/// timer was seen to fire, and sets the timer to the pong timeout; the next
/// poll hands the oldest queued ping to the transport. Without random bytes
/// the poll fails with `Entropy` and the dialer stays idle, unchanged.
pub proof fn lemma_dialer_ping_round(v: DialerView, now: Instant, payload: Seq<u8>)
    requires
        v.waiting == Some(DialerCall::TimerNextPing),
    ensures
        ({
            let fresh = Some(payload);
            let (w, action) = dialer_next(v, DialerEventView::TimerReady(now), fresh);
            let (x, send) = dialer_next(w, DialerEventView::Poll, fresh);
            &&& action == DialerActionView::Done(
                DialerPollView::Ready(Some(DialerItem::PingStart)),
                Some(v.ping_timeout_secs),
            )
            &&& w.state == PingDialerState::WaitingForPong
            &&& w.to_send == v.to_send.push((payload, now))
            &&& !v.needs_close ==> send == DialerActionView::StartSend(w.to_send[0].0)
                && x.in_flight == Some(w.to_send[0]) && x.waiting == Some(DialerCall::Send)
            &&& dialer_next(v, DialerEventView::TimerReady(now), None) == (
                DialerView { state: PingDialerState::Idle, waiting: None, ..v },
                DialerActionView::Done(DialerPollView::Failed(DialerError::Entropy), None),
            )
        }),
{
}

/// A remote that does not answer is given up: when nothing arrives and the
/// pong timer has fired, the poll fails with `Unresponsive` and the dialer
/// is shut down; a shut-down dialer ends the stream on every later poll.
pub proof fn lemma_dialer_gives_up(v: DialerView, now: Instant, fresh: Option<Seq<u8>>)
    requires
        v.waiting == Some(DialerCall::TimerExpiry),
    ensures
        ({
            let (w, action) = dialer_next(v, DialerEventView::TimerReady(now), fresh);
            let (x, again) = dialer_next(w, DialerEventView::Poll, fresh);
            &&& action == DialerActionView::Done(DialerPollView::Failed(DialerError::Unresponsive), None)
            &&& w.state == PingDialerState::Shutdown
            &&& !v.needs_close ==> again == DialerActionView::Done(DialerPollView::Ready(None), None)
                && x == w
        }),
{
}

/// A dialer that is shut down closes its transport on the next poll and then
/// ends the stream, whatever its phase.
pub proof fn lemma_dialer_shutdown_closes(v: DialerView, fresh: Option<Seq<u8>>)
    requires
        v.waiting is None,
        v.needs_close,
    ensures
        ({
            let (w, action) = dialer_next(v, DialerEventView::Poll, fresh);
            let (x, done) = dialer_next(w, DialerEventView::CloseReady, fresh);
            &&& action == DialerActionView::Close
            &&& done == DialerActionView::Done(DialerPollView::Ready(None), None)
            &&& x == v
        }),
{
}


/// One step of a run of the dialer: the event handed in, and the payload
/// drawn in that step (used only when the idle timer fires).
pub type DialerStep = (DialerEventView, Option<Seq<u8>>);

/// The dialer after the first `k` steps of a run from `v`.
pub open spec fn dialer_state_at(v: DialerView, steps: Seq<DialerStep>, k: nat) -> DialerView
    decreases k,
{
    if k == 0 {
        v
    } else {
        let s = dialer_state_at(v, steps, (k - 1) as nat);
        dialer_next(s, steps[k - 1].0, steps[k - 1].1).0
    }
}

/// The action that the step `k` of a run from `v` asks for.
pub open spec fn dialer_action_at(v: DialerView, steps: Seq<DialerStep>, k: nat) -> DialerActionView {
    dialer_next(dialer_state_at(v, steps, k), steps[k as int].0, steps[k as int].1).1
}

/// Every step of the run hands in an event that the dialer can take in.
pub open spec fn dialer_run_ok(v: DialerView, steps: Seq<DialerStep>) -> bool {
    forall|k: nat| k < steps.len() ==> dialer_accepts(#[trigger] dialer_state_at(v, steps, k), steps[k as int].0)
}

/// Whether an action ends a poll with `PingSuccess`.
pub open spec fn is_ping_success(a: DialerActionView) -> bool {
    a matches DialerActionView::Done(DialerPollView::Ready(Some(DialerItem::PingSuccess(_))), _)
}

/// Whether an action ends a poll with `PingStart`.
pub open spec fn is_ping_start(a: DialerActionView) -> bool {
    a matches DialerActionView::Done(DialerPollView::Ready(Some(DialerItem::PingStart)), _)
}

/// Whether the dialer is in a ping round: waiting for a pong, or inside a
/// poll that started in that phase.
pub open spec fn in_round(v: DialerView) -> bool {
    ||| v.state == PingDialerState::WaitingForPong
    ||| v.state == PingDialerState::Poisoned && (v.waiting == Some(DialerCall::Send) || v.waiting
        == Some(DialerCall::Flush) || v.waiting == Some(DialerCall::Frame) || v.waiting == Some(
        DialerCall::CloseAfterEnd) || v.waiting == Some(DialerCall::TimerExpiry))
}

/// A step enters a ping round only by reporting `PingStart`, and reports
/// `PingSuccess` only inside a round, which that ends.
proof fn lemma_round_step(v: DialerView, event: DialerEventView, fresh: Option<Seq<u8>>)
    requires
        dialer_accepts(v, event),
    ensures
        ({
            let (w, a) = dialer_next(v, event, fresh);
            &&& is_ping_success(a) ==> in_round(v) && !in_round(w)
            &&& is_ping_start(a) ==> in_round(w)
            &&& (!is_ping_start(a) && in_round(w)) ==> in_round(v)
        }),
{
}

/// A step leaves in flight only the ping it asks to send, and changes the
/// sent pings only by adding the ping in flight when the transport takes it,
/// or by removing the ping a pong answers.
proof fn lemma_sent_step(v: DialerView, event: DialerEventView, fresh: Option<Seq<u8>>)
    requires
        dialer_accepts(v, event),
    ensures
        ({
            let (w, a) = dialer_next(v, event, fresh);
            &&& w.in_flight matches Some(x) ==> a == DialerActionView::StartSend(x.0)
            &&& if v.waiting == Some(DialerCall::Send) && event is SendReady {
                w.sent == v.sent.push(v.in_flight.unwrap())
            } else if v.waiting == Some(DialerCall::Frame) && event is Frame && pong_position(
                v.sent,
                event->Frame_0,
            ) is Some {
                w.sent == v.sent.remove(pong_position(v.sent, event->Frame_0).unwrap())
            } else {
                w.sent == v.sent
            }
        }),
{
}

/// Inside a run from a dialer that is not in a ping round, whenever the
/// dialer is in a round, some earlier step reported `PingStart` and no step
/// since has reported `PingSuccess`.
proof fn lemma_round_has_start(v: DialerView, steps: Seq<DialerStep>, k: nat)
    requires
        dialer_run_ok(v, steps),
        !in_round(v),
        k <= steps.len(),
    ensures
        in_round(dialer_state_at(v, steps, k)) ==> exists|j: nat|
            j < k && is_ping_start(#[trigger] dialer_action_at(v, steps, j)) && forall|m: nat|
                j < m < k ==> !is_ping_success(#[trigger] dialer_action_at(v, steps, m)),
    decreases k,
{
    if k > 0 {
        let p = (k - 1) as nat;
        lemma_round_has_start(v, steps, p);
        let s = dialer_state_at(v, steps, p);
        assert(dialer_accepts(s, steps[p as int].0));
        lemma_round_step(s, steps[p as int].0, steps[p as int].1);
        let a = dialer_action_at(v, steps, p);
        if in_round(dialer_state_at(v, steps, k)) {
            if is_ping_start(a) {
                assert forall|m: nat| p < m < k implies !is_ping_success(
                    #[trigger] dialer_action_at(v, steps, m),
                ) by {}
            } else {
                let j = choose|j: nat|
                    j < p && is_ping_start(#[trigger] dialer_action_at(v, steps, j)) && forall|m: nat|
                        j < m < p ==> !is_ping_success(#[trigger] dialer_action_at(v, steps, m));
                assert forall|m: nat| j < m < k implies !is_ping_success(
                    #[trigger] dialer_action_at(v, steps, m),
                ) by {
                    if m == p {
                    } else {
                        assert(m < p);
                    }
                }
            }
        }
    }
}

/// A pong is reported only within a ping round: in every run of steps that
/// the dialer takes in, starting from a dialer outside a round (such as a new
/// one), each `PingSuccess` comes after a `PingStart` with no other
/// `PingSuccess` between the two.
pub proof fn lemma_dialer_success_follows_start(v: DialerView, steps: Seq<DialerStep>)
    requires
        dialer_run_ok(v, steps),
        !in_round(v),
    ensures
        forall|i: nat|
            i < steps.len() && is_ping_success(#[trigger] dialer_action_at(v, steps, i)) ==> exists|
                j: nat,
            |
                j < i && is_ping_start(#[trigger] dialer_action_at(v, steps, j)) && forall|m: nat|
                    j < m < i ==> !is_ping_success(#[trigger] dialer_action_at(v, steps, m)),
{
    assert forall|i: nat|
        i < steps.len() && is_ping_success(#[trigger] dialer_action_at(v, steps, i)) implies exists|
            j: nat,
        |
            j < i && is_ping_start(#[trigger] dialer_action_at(v, steps, j)) && forall|m: nat|
                j < m < i ==> !is_ping_success(#[trigger] dialer_action_at(v, steps, m)) by {
        let s = dialer_state_at(v, steps, i);
        assert(dialer_accepts(s, steps[i as int].0));
        lemma_round_step(s, steps[i as int].0, steps[i as int].1);
        lemma_round_has_start(v, steps, i);
    }
}

/// Every ping the dialer holds as sent was handed to the transport by an
/// earlier step, which the transport answered with `SendReady`; and a ping in
/// flight is the one that the step just before asked to send.
pub open spec fn sent_pings_were_sent(v: DialerView, steps: Seq<DialerStep>, k: nat) -> bool {
    &&& forall|idx: int|
        0 <= idx < dialer_state_at(v, steps, k).sent.len() ==> exists|j: nat|
            j + 1 < k && #[trigger] dialer_action_at(v, steps, j) == DialerActionView::StartSend(
                (#[trigger] dialer_state_at(v, steps, k).sent[idx]).0,
            ) && steps[j + 1int].0 is SendReady
    &&& dialer_state_at(v, steps, k).in_flight matches Some(x) ==> k > 0 && dialer_action_at(
        v,
        steps,
        (k - 1) as nat,
    ) == DialerActionView::StartSend(x.0)
}

/// In a run from a dialer that holds no sent ping and none in flight (such as
/// a new one), the dialer holds as sent only pings that were handed to the
/// transport and taken by it.
proof fn lemma_sent_were_sent(v: DialerView, steps: Seq<DialerStep>, k: nat)
    requires
        dialer_run_ok(v, steps),
        v.sent.len() == 0,
        v.in_flight is None,
        k <= steps.len(),
    ensures
        sent_pings_were_sent(v, steps, k),
    decreases k,
{
    if k > 0 {
        let p = (k - 1) as nat;
        lemma_sent_were_sent(v, steps, p);
        let s = dialer_state_at(v, steps, p);
        let w = dialer_state_at(v, steps, k);
        assert(dialer_accepts(s, steps[p as int].0));
        lemma_sent_step(s, steps[p as int].0, steps[p as int].1);
        let e = steps[p as int].0;
        assert forall|idx: int| 0 <= idx < w.sent.len() implies exists|j: nat|
            j + 1 < k && #[trigger] dialer_action_at(v, steps, j) == DialerActionView::StartSend(
                (#[trigger] w.sent[idx]).0,
            ) && steps[j + 1int].0 is SendReady by {
            let send_case = s.waiting == Some(DialerCall::Send) && e is SendReady;
            let frame_case = !send_case && s.waiting == Some(DialerCall::Frame) && e is Frame
                && pong_position(s.sent, e->Frame_0) is Some;
            let fresh_send = send_case && idx == s.sent.len();
            if frame_case {
                let c = choose|c: int| is_first_match(s.sent, e->Frame_0, c);
                assert(is_first_match(s.sent, e->Frame_0, c));
            }
            let idx2 = if frame_case && idx >= pong_position(s.sent, e->Frame_0).unwrap() {
                idx + 1
            } else {
                idx
            };
            if fresh_send {
                let j = (p - 1) as nat;
                assert(j + 1 == p);
                assert(dialer_action_at(v, steps, j) == DialerActionView::StartSend(w.sent[idx].0));
            } else {
                assert(0 <= idx2 < s.sent.len() && s.sent[idx2] == w.sent[idx]);
                let j = choose|j: nat|
                    j + 1 < p && #[trigger] dialer_action_at(v, steps, j)
                        == DialerActionView::StartSend(s.sent[idx2].0) && steps[j + 1int].0 is SendReady;
                assert(j + 1 < k);
            }
        }
    }
}

/// A pong is reported only for a ping that was sent: in every run of steps
/// that the dialer takes in, starting from a dialer with no ping sent or in
/// flight (such as a new one), a step that reports `PingSuccess` took in a
/// frame whose bytes are exactly those of a ping that an earlier step handed
/// to the transport and that the transport took.
pub proof fn lemma_dialer_success_for_sent_ping(v: DialerView, steps: Seq<DialerStep>)
    requires
        dialer_run_ok(v, steps),
        v.sent.len() == 0,
        v.in_flight is None,
    ensures
        forall|i: nat|
            i < steps.len() && is_ping_success(#[trigger] dialer_action_at(v, steps, i)) ==> {
                &&& steps[i as int].0 is Frame
                &&& exists|j: nat|
                    j + 1 < i && #[trigger] dialer_action_at(v, steps, j)
                        == DialerActionView::StartSend(steps[i as int].0->Frame_0) && steps[j
                        + 1int].0 is SendReady
            },
{
    assert forall|i: nat| i < steps.len() && is_ping_success(
        #[trigger] dialer_action_at(v, steps, i),
    ) implies {
        &&& steps[i as int].0 is Frame
        &&& exists|j: nat|
            j + 1 < i && #[trigger] dialer_action_at(v, steps, j) == DialerActionView::StartSend(
                steps[i as int].0->Frame_0,
            ) && steps[j + 1int].0 is SendReady
    } by {
        let s = dialer_state_at(v, steps, i);
        let e = steps[i as int].0;
        assert(dialer_accepts(s, e));
        lemma_sent_were_sent(v, steps, i);
        assert(s.waiting == Some(DialerCall::Frame) && e is Frame);
        let pong = e->Frame_0;
        let q = pong_position(s.sent, pong).unwrap();
        let k = choose|k: int| is_first_match(s.sent, pong, k);
        assert(is_first_match(s.sent, pong, k));
        assert(s.sent[q].0 == pong);
    }
}

} // verus!
