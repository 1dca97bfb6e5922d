use bytes::{Bytes, BytesMut};
use ping::codec::Codec;
use ping::dialer::{
    DialerAction, DialerError, DialerEvent, DialerItem, DialerPoll, PingDialer, PingDialerState,
    DELAY_TO_NEXT_PING_SECS, PING_TIMEOUT_SECS,
};
use ping::endpoint::PingEndpoint;
use ping::listener::{ListenerAction, ListenerEvent, ListenerPoll, PingListener};
use ping::substream::{
    Direction, PingStream, ReceiveStep, ReceiverEvent, SendOutcome, StreamError,
    MAX_RECEIVES_PER_READ,
};
use std::io;
use std::time::{Duration, Instant};

fn payload(seed: u8) -> Vec<u8> {
    (0..32u8).map(|i| i.wrapping_mul(7).wrapping_add(seed)).collect()
}

#[test]
fn it_works() {
    assert_eq!(2 + 2, 4);
}

#[test]
fn decode_waits_for_a_whole_frame() {
    let mut codec = Codec;
    let mut buf = BytesMut::from(&payload(1)[..31]);
    let res = codec.decode(&mut buf).unwrap();
    assert!(res.is_none());
    assert_eq!(buf.len(), 31);
}

#[test]
fn decode_takes_exactly_one_frame() {
    let mut codec = Codec;
    let mut wire = payload(1);
    wire.extend_from_slice(&[9, 8, 7]);
    let mut buf = BytesMut::from(&wire[..]);
    let frame = codec.decode(&mut buf).unwrap().unwrap();
    assert_eq!(&frame[..], &payload(1)[..]);
    assert_eq!(&buf[..], &[9u8, 8, 7][..]);
}

#[test]
fn encode_appends_whole_payloads() {
    let mut codec = Codec;
    let mut buf = BytesMut::from(&b"ab"[..]);
    codec.encode(Bytes::from(payload(3)), &mut buf).unwrap();
    assert_eq!(buf.len(), 34);
    assert_eq!(&buf[..2], b"ab");
    assert_eq!(&buf[2..], &payload(3)[..]);
}

#[test]
fn encodable_payloads() {
    let buf = BytesMut::from(&b"ab"[..]);
    assert!(Codec::encodable(&Bytes::from(payload(1)), &buf));
    assert!(Codec::encodable(&Bytes::new(), &buf));
    assert!(!Codec::encodable(&Bytes::from(vec![1u8; 31]), &buf));
    assert!(Codec::encodable(&Bytes::from(vec![1u8; 64]), &buf));
}

#[test]
fn encode_of_nothing_leaves_the_buffer() {
    let mut codec = Codec;
    let mut buf = BytesMut::from(&b"xyz"[..]);
    codec.encode(Bytes::new(), &mut buf).unwrap();
    assert_eq!(&buf[..], b"xyz");
}

#[test]
fn frames_come_back_in_order() {
    let mut codec = Codec;
    let mut buf = BytesMut::new();
    codec.encode(Bytes::from(payload(1)), &mut buf).unwrap();
    codec.encode(Bytes::from(payload(2)), &mut buf).unwrap();
    let first = codec.decode(&mut buf).unwrap().unwrap();
    let second = codec.decode(&mut buf).unwrap().unwrap();
    assert_eq!(&first[..], &payload(1)[..]);
    assert_eq!(&second[..], &payload(2)[..]);
    assert!(codec.decode(&mut buf).unwrap().is_none());
    assert!(buf.is_empty());
}

#[test]
fn direction_follows_the_session_role() {
    assert_eq!(Direction::for_session(true), Direction::Inbound);
    assert_eq!(Direction::for_session(false), Direction::Outbound);
}

#[test]
fn stream_key_names_the_substream() {
    let s = PingStream::new(Direction::Outbound, 3, 42);
    let k = s.key();
    assert_eq!(k.direction(), Direction::Outbound);
    assert_eq!(k, PingStream::new(Direction::Outbound, 3, 42).key());
    assert_ne!(k, PingStream::new(Direction::Inbound, 3, 42).key());
    assert_ne!(k, PingStream::new(Direction::Outbound, 3, 43).key());
    assert_eq!(s.pending_len(), 0);
}

#[test]
fn stream_reads_what_arrived_in_order() {
    let mut s = PingStream::new(Direction::Inbound, 0, 1);
    assert_eq!(s.on_receiver_event(0, ReceiverEvent::Data(vec![1, 2, 3])), ReceiveStep::Continue);
    assert_eq!(s.on_receiver_event(0, ReceiverEvent::Data(vec![4, 5])), ReceiveStep::Continue);
    assert_eq!(s.pending_len(), 5);
    let mut out = [0u8; 4];
    assert_eq!(s.read_buffered(&mut out), Ok(4));
    assert_eq!(out, [1, 2, 3, 4]);
    let mut out = [9u8; 3];
    assert_eq!(s.read_buffered(&mut out), Ok(1));
    assert_eq!(out, [5, 9, 9]);
    assert_eq!(s.read_buffered(&mut out), Err(StreamError::WouldBlock));
    assert_eq!(out, [5, 9, 9]);
}

#[test]
fn stream_read_into_no_room_would_block() {
    let mut s = PingStream::new(Direction::Inbound, 0, 1);
    s.on_receiver_event(0, ReceiverEvent::Data(vec![1]));
    let mut out: [u8; 0] = [];
    assert_eq!(s.read_buffered(&mut out), Err(StreamError::WouldBlock));
    assert_eq!(s.pending_len(), 1);
}

#[test]
fn stream_receiver_answers() {
    let mut s = PingStream::new(Direction::Inbound, 0, 1);
    assert_eq!(s.on_receiver_event(0, ReceiverEvent::Pending), ReceiveStep::Stop);
    assert_eq!(
        s.on_receiver_event(0, ReceiverEvent::Closed),
        ReceiveStep::Fail(StreamError::UnexpectedEof)
    );
    assert_eq!(
        s.on_receiver_event(0, ReceiverEvent::Failed),
        ReceiveStep::Fail(StreamError::BrokenPipe)
    );
    assert_eq!(s.pending_len(), 0);
    assert_eq!(MAX_RECEIVES_PER_READ, 10);
}

#[test]
fn stream_read_asks_at_most_ten_times() {
    let mut s = PingStream::new(Direction::Inbound, 0, 1);
    for asked in 0..MAX_RECEIVES_PER_READ - 1 {
        assert_eq!(
            s.on_receiver_event(asked, ReceiverEvent::Data(vec![asked as u8])),
            ReceiveStep::Continue
        );
    }
    assert_eq!(
        s.on_receiver_event(MAX_RECEIVES_PER_READ - 1, ReceiverEvent::Data(vec![9])),
        ReceiveStep::Stop
    );
    let mut out = [0u8; 16];
    assert_eq!(s.read_buffered(&mut out), Ok(10));
    assert_eq!(&out[..10], &[0u8, 1, 2, 3, 4, 5, 6, 7, 8, 9][..]);
}

#[test]
fn stream_write_results() {
    assert_eq!(PingStream::write_result(7, SendOutcome::Sent), Ok(7));
    assert_eq!(PingStream::write_result(7, SendOutcome::Full), Err(StreamError::WouldBlock));
    assert_eq!(
        PingStream::write_result(7, SendOutcome::Disconnected),
        Err(StreamError::BrokenPipe)
    );
}

#[test]
fn listener_echoes_a_ping() {
    let mut l = PingListener::new();
    assert!(matches!(l.step(ListenerEvent::Poll), ListenerAction::PollFrame));
    let ping = BytesMut::from(&payload(5)[..]);
    match l.step(ListenerEvent::Frame(ping)) {
        ListenerAction::StartSend(b) => assert_eq!(&b[..], &payload(5)[..]),
        _ => panic!("expected the ping to be sent back"),
    }
    assert!(matches!(l.step(ListenerEvent::SendReady), ListenerAction::PollComplete));
    assert!(matches!(l.step(ListenerEvent::FlushReady), ListenerAction::PollFrame));
    assert!(matches!(
        l.step(ListenerEvent::FrameNotReady),
        ListenerAction::Done(ListenerPoll::NotReady)
    ));
    assert!(!l.is_waiting());
    assert!(!l.is_poisoned());
}

#[test]
fn listener_keeps_a_ping_the_transport_refused() {
    let mut l = PingListener::new();
    l.step(ListenerEvent::Poll);
    l.step(ListenerEvent::Frame(BytesMut::from(&payload(6)[..])));
    let back = Bytes::from(payload(6));
    assert!(matches!(
        l.step(ListenerEvent::SendNotReady(back)),
        ListenerAction::Done(ListenerPoll::NotReady)
    ));
    match l.step(ListenerEvent::Poll) {
        ListenerAction::StartSend(b) => assert_eq!(&b[..], &payload(6)[..]),
        _ => panic!("expected the same ping again"),
    }
}

#[test]
fn listener_closes_at_end_of_input() {
    let mut l = PingListener::new();
    l.step(ListenerEvent::Poll);
    assert!(matches!(l.step(ListenerEvent::FrameEnd), ListenerAction::Close));
    assert!(matches!(l.step(ListenerEvent::CloseReady), ListenerAction::Done(ListenerPoll::Ready)));
    assert!(l.is_poisoned());
}

#[test]
fn listener_shutdown_closes() {
    let mut l = PingListener::new();
    l.shutdown();
    assert!(matches!(l.step(ListenerEvent::Poll), ListenerAction::Close));
    assert!(matches!(
        l.step(ListenerEvent::CloseNotReady),
        ListenerAction::Done(ListenerPoll::NotReady)
    ));
    assert!(matches!(l.step(ListenerEvent::Poll), ListenerAction::Close));
}

#[test]
fn listener_failure_is_reported() {
    let mut l = PingListener::new();
    l.step(ListenerEvent::Poll);
    let err = io::Error::new(io::ErrorKind::Other, "boom");
    match l.step(ListenerEvent::FrameError(err)) {
        ListenerAction::Done(ListenerPoll::Failed(e)) => assert_eq!(e.to_string(), "boom"),
        _ => panic!("expected the error"),
    }
    assert!(l.is_poisoned());
}

/// Runs a dialer from idle through its first ping and hands back the ping.
fn dialer_after_ping_start() -> (PingDialer, Bytes) {
    let mut d = PingDialer::new();
    assert_eq!(d.ping_timeout_secs(), PING_TIMEOUT_SECS);
    assert!(matches!(d.step(DialerEvent::Poll), DialerAction::PollTimer));
    match d.step(DialerEvent::TimerReady(Instant::now())) {
        DialerAction::Done(DialerPoll::Ready(Some(DialerItem::PingStart)), Some(secs)) => {
            assert_eq!(secs, 30)
        }
        _ => panic!("expected PingStart"),
    }
    assert_eq!(d.state(), PingDialerState::WaitingForPong);
    let ping = match d.step(DialerEvent::Poll) {
        DialerAction::StartSend(b) => b,
        _ => panic!("expected the ping to be sent"),
    };
    assert_eq!(ping.len(), 32);
    (d, ping)
}

#[test]
fn dialer_idle_timer_not_fired() {
    let mut d = PingDialer::new();
    assert!(matches!(d.step(DialerEvent::Poll), DialerAction::PollTimer));
    assert!(matches!(
        d.step(DialerEvent::TimerNotReady),
        DialerAction::Done(DialerPoll::NotReady, None)
    ));
    assert_eq!(d.state(), PingDialerState::Idle);
    assert!(d.is_pollable());
}

#[test]
fn dialer_ping_and_pong() {
    let (mut d, ping) = dialer_after_ping_start();
    assert!(matches!(d.step(DialerEvent::SendReady), DialerAction::PollComplete));
    assert!(matches!(d.step(DialerEvent::FlushReady), DialerAction::PollFrame));
    let other = BytesMut::from(&[0u8; 32][..]);
    let is_other_than_ping = &other[..] != &ping[..];
    if is_other_than_ping {
        assert!(matches!(d.step(DialerEvent::Frame(other)), DialerAction::PollFrame));
    }
    let pong = BytesMut::from(&ping[..]);
    match d.step(DialerEvent::Frame(pong)) {
        DialerAction::Done(DialerPoll::Ready(Some(DialerItem::PingSuccess(_))), Some(secs)) => {
            assert_eq!(secs, DELAY_TO_NEXT_PING_SECS)
        }
        _ => panic!("expected PingSuccess"),
    }
    assert_eq!(d.state(), PingDialerState::Idle);
    assert!(d.is_pollable());
}

#[test]
fn dialer_reports_the_stamp_of_the_answered_ping() {
    let mut d = PingDialer::new();
    d.step(DialerEvent::Poll);
    let fired = Instant::now() - Duration::from_millis(250);
    assert!(matches!(
        d.step(DialerEvent::TimerReady(fired)),
        DialerAction::Done(DialerPoll::Ready(Some(DialerItem::PingStart)), Some(30))
    ));
    let ping = match d.step(DialerEvent::Poll) {
        DialerAction::StartSend(b) => b,
        _ => panic!("expected the ping to be sent"),
    };
    d.step(DialerEvent::SendReady);
    d.step(DialerEvent::FlushReady);
    match d.step(DialerEvent::Frame(BytesMut::from(&ping[..]))) {
        DialerAction::Done(DialerPoll::Ready(Some(DialerItem::PingSuccess(started))), Some(15)) => {
            assert_eq!(started, fired);
            assert!(started.elapsed() >= Duration::from_millis(250));
        }
        _ => panic!("expected PingSuccess"),
    }
}

#[test]
fn dialer_ping_at_stamps_the_given_instant() {
    let mut d = PingDialer::new();
    let at = Instant::now() - Duration::from_secs(3);
    assert!(d.ping_at(at));
    d.shutdown();
    let mut d2 = PingDialer::new();
    assert!(d2.ping_at(at));
    d2.step(DialerEvent::Poll);
    let later = Instant::now();
    d2.step(DialerEvent::TimerReady(later));
    // The first ping queued goes out first, and is answered with its own stamp.
    let first = match d2.step(DialerEvent::Poll) {
        DialerAction::StartSend(b) => b,
        _ => panic!("expected a ping"),
    };
    d2.step(DialerEvent::SendReady);
    d2.step(DialerEvent::SendReady);
    d2.step(DialerEvent::FlushReady);
    match d2.step(DialerEvent::Frame(BytesMut::from(&first[..]))) {
        DialerAction::Done(DialerPoll::Ready(Some(DialerItem::PingSuccess(started))), _) => {
            assert_eq!(started, at)
        }
        _ => panic!("expected PingSuccess"),
    }
}

#[test]
fn dialer_sends_the_queued_payload() {
    let mut d = PingDialer::new();
    let at = Instant::now();
    d.queue_ping(payload(7), at);
    d.step(DialerEvent::Poll);
    d.step(DialerEvent::TimerReady(at));
    match d.step(DialerEvent::Poll) {
        DialerAction::StartSend(b) => assert_eq!(&b[..], &payload(7)[..]),
        _ => panic!("expected the queued payload"),
    }
    d.step(DialerEvent::SendReady);
    match d.step(DialerEvent::SendReady) {
        DialerAction::PollComplete => {}
        _ => panic!("expected a flush after both pings"),
    }
    d.step(DialerEvent::FlushReady);
    match d.step(DialerEvent::Frame(BytesMut::from(&payload(7)[..]))) {
        DialerAction::Done(DialerPoll::Ready(Some(DialerItem::PingSuccess(started))), _) => {
            assert_eq!(started, at)
        }
        _ => panic!("expected PingSuccess"),
    }
}

#[test]
fn dialer_gives_up_on_silent_remote() {
    let (mut d, _) = dialer_after_ping_start();
    d.step(DialerEvent::SendReady);
    d.step(DialerEvent::FlushReady);
    assert!(matches!(d.step(DialerEvent::FrameNotReady), DialerAction::PollTimer));
    assert!(matches!(
        d.step(DialerEvent::TimerNotReady),
        DialerAction::Done(DialerPoll::NotReady, None)
    ));
    assert_eq!(d.state(), PingDialerState::WaitingForPong);
    // Everything was flushed: the next poll reads frames at once.
    assert!(matches!(d.step(DialerEvent::Poll), DialerAction::PollFrame));
    assert!(matches!(d.step(DialerEvent::FrameNotReady), DialerAction::PollTimer));
    assert!(matches!(
        d.step(DialerEvent::TimerReady(Instant::now())),
        DialerAction::Done(DialerPoll::Failed(DialerError::Unresponsive), None)
    ));
    assert_eq!(d.state(), PingDialerState::Shutdown);
    assert!(matches!(d.step(DialerEvent::Poll), DialerAction::Done(DialerPoll::Ready(None), None)));
}

#[test]
fn dialer_requeues_a_refused_ping() {
    let (mut d, ping) = dialer_after_ping_start();
    assert!(matches!(d.step(DialerEvent::SendNotReady), DialerAction::PollFrame));
    d.step(DialerEvent::FrameNotReady);
    d.step(DialerEvent::TimerNotReady);
    match d.step(DialerEvent::Poll) {
        DialerAction::StartSend(b) => assert_eq!(b, ping),
        _ => panic!("expected the same ping again"),
    }
}

#[test]
fn dialer_remote_end_is_shutdown() {
    let (mut d, _) = dialer_after_ping_start();
    d.step(DialerEvent::SendReady);
    d.step(DialerEvent::FlushReady);
    assert!(matches!(d.step(DialerEvent::FrameEnd), DialerAction::Close));
    assert!(matches!(
        d.step(DialerEvent::CloseReady),
        DialerAction::Done(DialerPoll::Ready(Some(DialerItem::Shutdown)), None)
    ));
    assert_eq!(d.state(), PingDialerState::Shutdown);
    assert!(matches!(d.step(DialerEvent::Poll), DialerAction::Close));
    assert!(matches!(
        d.step(DialerEvent::CloseReady),
        DialerAction::Done(DialerPoll::Ready(None), None)
    ));
}

#[test]
fn dialer_shutdown_closes_first() {
    let mut d = PingDialer::new();
    d.shutdown();
    assert!(matches!(d.step(DialerEvent::Poll), DialerAction::Close));
    assert!(matches!(d.step(DialerEvent::CloseNotReady), DialerAction::Done(DialerPoll::NotReady, None)));
    assert!(matches!(d.step(DialerEvent::Poll), DialerAction::Close));
    let err = io::Error::new(io::ErrorKind::Other, "closing failed");
    assert!(matches!(
        d.step(DialerEvent::CloseError(err)),
        DialerAction::Done(DialerPoll::Failed(DialerError::Io(_)), None)
    ));
}

#[test]
fn dialer_timer_failure_poisons() {
    let mut d = PingDialer::new();
    d.step(DialerEvent::Poll);
    let err = io::Error::new(io::ErrorKind::Other, "timer");
    assert!(matches!(
        d.step(DialerEvent::TimerError(err)),
        DialerAction::Done(DialerPoll::Failed(DialerError::Io(_)), None)
    ));
    assert_eq!(d.state(), PingDialerState::Poisoned);
    assert!(!d.is_pollable());
}

#[test]
fn dialer_send_error_drops_the_ping() {
    let (mut d, ping) = dialer_after_ping_start();
    let err = io::Error::new(io::ErrorKind::Other, "send");
    assert!(matches!(d.step(DialerEvent::SendError(err)), DialerAction::PollFrame));
    // The dropped ping is no longer matched.
    assert!(matches!(d.step(DialerEvent::Frame(BytesMut::from(&ping[..]))), DialerAction::PollFrame));
}

#[test]
fn dialer_queues_random_pings() {
    let mut d = PingDialer::new();
    assert!(d.ping());
    assert!(d.ping());
    assert!(matches!(d.step(DialerEvent::Poll), DialerAction::PollTimer));
    assert!(matches!(
        d.step(DialerEvent::TimerReady(Instant::now())),
        DialerAction::Done(DialerPoll::Ready(Some(DialerItem::PingStart)), Some(30))
    ));
    let mut sent = Vec::new();
    let mut event = DialerEvent::Poll;
    loop {
        match d.step(event) {
            DialerAction::StartSend(b) => {
                assert_eq!(b.len(), 32);
                sent.push(b);
                event = DialerEvent::SendReady;
            }
            DialerAction::PollComplete => break,
            _ => panic!("expected the queued pings to be sent, then a flush"),
        }
    }
    assert_eq!(sent.len(), 3);
    assert_ne!(sent[0], sent[1]);
    assert_ne!(sent[1], sent[2]);
    // The pings are answered out of order: each pong removes its own ping.
    d.step(DialerEvent::FlushReady);
    let pong = BytesMut::from(&sent[1][..]);
    assert!(matches!(
        d.step(DialerEvent::Frame(pong)),
        DialerAction::Done(DialerPoll::Ready(Some(DialerItem::PingSuccess(_))), Some(15))
    ));
}

#[test]
fn endpoint_follows_direction() {
    let inbound = PingStream::new(Direction::Inbound, 0, 1).key();
    match PingEndpoint::for_key(&inbound, Instant::now()) {
        Some(PingEndpoint::Listener(l)) => assert!(!l.is_waiting()),
        _ => panic!("inbound substreams listen"),
    }
    let outbound = PingStream::new(Direction::Outbound, 0, 1).key();
    match PingEndpoint::for_key(&outbound, Instant::now()) {
        Some(PingEndpoint::Dialer(mut d)) => {
            // The first ping is queued at once: a poll in the waiting phase would
            // send it, but the dialer starts idle and waits for its timer.
            assert_eq!(d.state(), PingDialerState::Idle);
            assert!(matches!(d.step(DialerEvent::Poll), DialerAction::PollTimer));
            d.step(DialerEvent::TimerReady(Instant::now()));
            match d.step(DialerEvent::Poll) {
                DialerAction::StartSend(b) => assert_eq!(b.len(), 32),
                _ => panic!("expected a ping"),
            }
        }
        _ => panic!("outbound substreams dial"),
    }
}
