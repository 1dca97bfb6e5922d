//! The endpoint that runs the ping protocol on one substream.
use crate::codec::PING_SIZE;
use crate::dialer::{
    DialerView, PingDialer, PingDialerState, DELAY_TO_NEXT_PING_SECS, PING_TIMEOUT_SECS,
};
use crate::listener::{ListenerStateView, ListenerView, PingListener};
use crate::substream::{Direction, PingStreamKey};
use std::time::Instant;
use vstd::prelude::*;

verus! {

/// The endpoint of a substream: a dialer on the side that opened it, a
/// listener on the other side.
pub enum PingEndpoint {
    Dialer(PingDialer),
    Listener(PingListener),
}

impl PingEndpoint {
    /// The endpoint for a newly arrived substream: an inbound substream gets
    /// a listener waiting for pings; an outbound one gets a new dialer with
    /// its first ping already queued, stamped `now`. There is no endpoint only
    /// when no random bytes could be had for that first ping.
    pub fn for_key(key: &PingStreamKey, now: Instant) -> (e: Option<PingEndpoint>)
        ensures
            key.spec_direction() == Direction::Inbound ==> e is Some,
            match e {
                None => key.spec_direction() == Direction::Outbound,
                Some(PingEndpoint::Listener(l)) => key.spec_direction() == Direction::Inbound && l@
                    == (ListenerView { state: ListenerStateView::Listening, waiting: None }),
                Some(PingEndpoint::Dialer(d)) => {
                    &&& key.spec_direction() == Direction::Outbound
                    &&& d@ == (DialerView {
                        sent: Seq::empty(),
                        to_send: seq![(d@.to_send[0].0, now)],
                        state: PingDialerState::Idle,
                        need_flush: false,
                        needs_close: false,
                        ping_timeout_secs: PING_TIMEOUT_SECS,
                        delay_to_next_ping_secs: DELAY_TO_NEXT_PING_SECS,
                        waiting: None,
                        in_flight: None,
                    })
                    &&& d@.to_send[0].0.len() == PING_SIZE
                },
            },
    {
        if key.direction() == Direction::Inbound {
            Some(PingEndpoint::Listener(PingListener::new()))
        } else {
            let mut dialer = PingDialer::new();
            if dialer.ping_at(now) {
                assert(dialer@.to_send =~= seq![(dialer@.to_send[0].0, now)]);
                Some(PingEndpoint::Dialer(dialer))
            } else {
                None
            }
        }
    }
}

} // verus!
