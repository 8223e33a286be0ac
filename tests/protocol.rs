use at_commander::handlers::{AckWait, Reaction};
use at_commander::{
    connect_frame, handle, publish_frame, AckWaiter, Event, EventLoop, StateStore, TrackWifiState,
    WaitStatus, WifiEvent, WifiState,
};

const ALL_STATES: [WifiState; 6] = [
    WifiState::Ready,
    WifiState::WaitingConnectAck,
    WifiState::Connected,
    WifiState::WaitingPublishAck,
    WifiState::Sent,
    WifiState::Invalid,
];

const ALL_EVENTS: [WifiEvent; 8] = [
    WifiEvent::Configure,
    WifiEvent::PublishConnectRequest,
    WifiEvent::Timeout,
    WifiEvent::ConnAck,
    WifiEvent::Publish,
    WifiEvent::AckReceived,
    WifiEvent::Close,
    WifiEvent::Reset,
];

fn event(kind: WifiEvent, data: &str) -> Event {
    Event::new(kind, data.to_string())
}

fn wait_of(r: &Reaction) -> &AckWait {
    r.wait.as_ref().expect("a wait")
}

fn precondition(kind: WifiEvent) -> Option<WifiState> {
    match kind {
        WifiEvent::Configure | WifiEvent::PublishConnectRequest => Some(WifiState::Ready),
        WifiEvent::ConnAck => Some(WifiState::WaitingConnectAck),
        WifiEvent::Publish => Some(WifiState::Connected),
        WifiEvent::AckReceived => Some(WifiState::WaitingPublishAck),
        _ => None,
    }
}

#[test]
fn rejected_events_write_nothing_and_keep_state() {
    for state in ALL_STATES {
        for kind in ALL_EVENTS {
            match precondition(kind) {
                Some(required) if required != state => {
                    let r = handle(state, &event(kind, "x:t:m"));
                    assert!(r.writes.is_empty(), "{:?} in {:?}", kind, state);
                    assert!(!r.clear_buffer);
                    assert!(r.wait.is_none());
                    assert_eq!(r.settle(state, true), state);
                    assert_eq!(r.settle(state, false), state);
                }
                _ => {}
            }
        }
    }
}

#[test]
fn connect_frame_is_fixed() {
    let expected: Vec<u8> = vec![
        0x10, 0x13, 0x00, 0x04, b'M', b'Q', b'T', b'T', 0x04, 0x02, 0x00, 0x3C, 0x00, 0x07, b'c',
        b'l', b'i', b'e', b'n', b't', b'1',
    ];
    assert_eq!(connect_frame(), expected);
    assert_eq!(connect_frame(), connect_frame());
    assert_eq!(connect_frame().len(), 21);
}

#[test]
fn publish_frame_for_default_topic() {
    let f = publish_frame(b"/test/topic", b"hello");
    let mut expected: Vec<u8> = vec![0x30, 0x12, 0x00, 0x0B];
    expected.extend_from_slice(b"/test/topichello");
    assert_eq!(f, expected);
    assert_eq!(f.len(), 20);
}

#[test]
fn publish_frame_length_saturates() {
    let topic = vec![b'a'; 200];
    let message = vec![b'b'; 100];
    let f = publish_frame(&topic, &message);
    assert_eq!(f[1], 0xFF);
    assert_eq!(f[2], 0x00);
    assert_eq!(f[3], 200);
    assert_eq!(f.len(), 304);
    let edge = publish_frame(&vec![b'a'; 253], b"");
    assert_eq!(edge[1], 0xFF);
    let below = publish_frame(&vec![b'a'; 252], b"");
    assert_eq!(below[1], 0xFE);
}

#[test]
fn publish_frame_long_topic_keeps_low_byte() {
    let topic = vec![b't'; 300];
    let f = publish_frame(&topic, b"m");
    assert_eq!(f[3], (300 % 256) as u8);
}

#[test]
fn waiter_finds_marker_anywhere() {
    let mut w = AckWaiter::new("OK", 5);
    assert_eq!(w.poll(""), WaitStatus::Pending);
    assert_eq!(w.poll("AT+CIPSEND=21\r\n"), WaitStatus::Pending);
    assert_eq!(w.poll("O"), WaitStatus::Pending);
    assert_eq!(w.poll("\r\nbusy\r\nOK\r\n> "), WaitStatus::Found);
    let mut prefix = AckWaiter::new("SEND OK", 5);
    assert_eq!(prefix.poll("SEND OK"), WaitStatus::Found);
    let mut split = AckWaiter::new("SEND OK", 5);
    assert_eq!(split.poll("SEND  OK"), WaitStatus::Pending);
}

#[test]
fn waiter_times_out_after_budget() {
    let budget: u64 = 1000;
    let mut w = AckWaiter::new("OK", budget);
    for _ in 0..budget {
        assert_eq!(w.poll("ERROR"), WaitStatus::Pending);
    }
    assert_eq!(w.poll("ERROR"), WaitStatus::TimedOut);
    let mut none = AckWaiter::new("OK", 0);
    assert_eq!(none.poll(""), WaitStatus::TimedOut);
}

#[test]
fn connect_request_opens_socket() {
    let r = handle(WifiState::Ready, &event(WifiEvent::PublishConnectRequest, "243"));
    assert_eq!(r.writes, vec![b"AT+CIPSTART=\"TCP\",\"192.168.0.243\",1883\r\n".to_vec()]);
    assert!(r.clear_buffer);
    assert!(r.wait.is_none());
    assert_eq!(r.settle(WifiState::Ready, true), WifiState::WaitingConnectAck);
    assert_eq!(r.settle(WifiState::Ready, false), WifiState::Ready);
}

#[test]
fn conn_ack_sends_handshake_after_ok() {
    let r = handle(WifiState::WaitingConnectAck, &event(WifiEvent::ConnAck, ""));
    assert_eq!(r.writes, vec![b"AT+CIPSEND=21\r\n".to_vec()]);
    assert_eq!(r.settle(WifiState::WaitingConnectAck, true), WifiState::WaitingConnectAck);
    assert_eq!(r.settle(WifiState::WaitingConnectAck, false), WifiState::Ready);
    let wait = wait_of(&r);
    assert_eq!(wait.budget, 1000);
    assert_eq!(wait.frame, connect_frame());
    let mut waiter = wait.waiter();
    let status = waiter.poll("OK");
    assert_eq!(status, WaitStatus::Found);
    assert_eq!(wait.conclude(status, true), WifiState::Connected);
    assert_eq!(wait.conclude(status, false), WifiState::Ready);
}

#[test]
fn publish_without_ok_times_out_to_ready() {
    let r = handle(WifiState::Connected, &event(WifiEvent::Publish, "x:mytopic:hi"));
    assert_eq!(r.writes, vec![b"AT+CIPSEND=13\r\n".to_vec()]);
    let wait = wait_of(&r);
    assert_eq!(wait.budget, 10000);
    assert_eq!(wait.frame, publish_frame(b"mytopic", b"hi"));
    assert_eq!(wait.on_sent, WifiState::WaitingPublishAck);
    let mut waiter = wait.waiter();
    let mut polls: u64 = 0;
    let status = loop {
        polls += 1;
        match waiter.poll("") {
            WaitStatus::Pending => continue,
            other => break other,
        }
    };
    assert_eq!(status, WaitStatus::TimedOut);
    assert_eq!(polls, 10001);
    assert_eq!(wait.conclude(status, false), WifiState::Ready);
}

#[test]
fn publish_defaults_topic_and_message() {
    let r = handle(WifiState::Connected, &event(WifiEvent::Publish, ""));
    let wait = wait_of(&r);
    assert_eq!(wait.frame, publish_frame(b"/test/topic", b"hello"));
    assert_eq!(r.writes, vec![b"AT+CIPSEND=20\r\n".to_vec()]);
    let only_topic = handle(WifiState::Connected, &event(WifiEvent::Publish, ":room"));
    assert_eq!(wait_of(&only_topic).frame, publish_frame(b"room", b"hello"));
}

#[test]
fn ack_received_sends_close_frame() {
    let r = handle(WifiState::WaitingPublishAck, &event(WifiEvent::AckReceived, ""));
    assert_eq!(r.writes, vec![b"AT+CIPSEND=2\r\n".to_vec()]);
    assert_eq!(r.settle(WifiState::WaitingPublishAck, false), WifiState::WaitingPublishAck);
    let wait = wait_of(&r);
    assert_eq!(wait.frame, vec![0xE0, 0x00]);
    assert_eq!(wait.budget, 10000);
    assert_eq!(wait.conclude(WaitStatus::Found, true), WifiState::Ready);
}

#[test]
fn configure_disables_echo() {
    let r = handle(WifiState::Ready, &event(WifiEvent::Configure, ""));
    assert_eq!(r.writes, vec![b"ATE0\r\n".to_vec()]);
    assert!(!r.clear_buffer);
    assert_eq!(r.settle(WifiState::Ready, true), WifiState::Ready);
    assert_eq!(r.settle(WifiState::Ready, false), WifiState::Ready);
}

#[test]
fn reset_close_timeout_return_to_ready() {
    for state in ALL_STATES {
        let reset = handle(state, &event(WifiEvent::Reset, "reset"));
        assert_eq!(reset.writes, vec![vec![0xE0, 0x00], b"AT+CIPCLOSE\r\n".to_vec()]);
        assert!(reset.clear_buffer);
        assert_eq!(reset.settle(state, true), WifiState::Ready);
        assert_eq!(reset.settle(state, false), WifiState::Ready);
        for kind in [WifiEvent::Close, WifiEvent::Timeout] {
            let r = handle(state, &event(kind, ""));
            assert!(r.writes.is_empty());
            assert!(r.clear_buffer);
            assert_eq!(r.settle(state, true), WifiState::Ready);
        }
    }
}

#[test]
fn same_event_twice_gives_same_outcome() {
    let cases = [
        (WifiState::Ready, WifiEvent::PublishConnectRequest, "17"),
        (WifiState::WaitingConnectAck, WifiEvent::ConnAck, ""),
        (WifiState::Connected, WifiEvent::Publish, "m:a/b:payload"),
        (WifiState::WaitingPublishAck, WifiEvent::AckReceived, ""),
    ];
    for (state, kind, data) in cases {
        let first = handle(state, &event(kind, data));
        let second = handle(state, &event(kind, data));
        assert_eq!(first.writes, second.writes);
        assert_eq!(first.settle(state, true), second.settle(state, true));
        assert_eq!(first.wait.as_ref().map(|w| w.frame.clone()), second.wait.as_ref().map(|w| w.frame.clone()));
    }
}

#[test]
fn event_loop_queues_in_order_and_drops_unregistered() {
    let mut lp = EventLoop::new();
    lp.on(WifiEvent::Configure);
    lp.send(event(WifiEvent::Configure, ""));
    lp.send(event(WifiEvent::Publish, "a:b:c"));
    let first = lp.next_event().unwrap();
    assert_eq!(first.kind(), WifiEvent::Configure);
    assert!(lp.dispatch(WifiState::Ready, &first).is_some());
    let second = lp.next_event().unwrap();
    assert_eq!(second.kind(), WifiEvent::Publish);
    assert_eq!(second.data, "a:b:c");
    assert!(lp.dispatch(WifiState::Connected, &second).is_none());
    assert!(lp.next_event().is_none());
    assert!(lp.is_registered(WifiEvent::Configure));
    assert!(!lp.is_registered(WifiEvent::Reset));
}

#[test]
fn state_store_starts_ready_and_overwrites() {
    let mut s = StateStore::new();
    assert_eq!(s.get(), WifiState::Ready);
    s.change_to(WifiState::Connected);
    assert_eq!(s.get(), WifiState::Connected);
    s.change_to(WifiState::Ready);
    assert_eq!(s.get(), WifiState::Ready);
}

#[test]
fn missed_polls_count_against_budget() {
    let mut w = AckWaiter::new("OK", 3);
    assert_eq!(w.miss(), WaitStatus::Pending);
    assert_eq!(w.poll(""), WaitStatus::Pending);
    assert_eq!(w.miss(), WaitStatus::Pending);
    assert_eq!(w.miss(), WaitStatus::TimedOut);
    let mut found = AckWaiter::new("OK", 3);
    assert_eq!(found.miss(), WaitStatus::Pending);
    assert_eq!(found.poll("OK"), WaitStatus::Found);
}

#[test]
fn wait_starts_only_after_successful_writes() {
    let r = handle(WifiState::WaitingConnectAck, &event(WifiEvent::ConnAck, ""));
    assert!(r.into_wait(false).is_none());
    let r = handle(WifiState::WaitingConnectAck, &event(WifiEvent::ConnAck, ""));
    let wait = r.into_wait(true).expect("a wait");
    assert_eq!(wait.frame_to_write(WaitStatus::Found), Some(connect_frame().as_slice()));
    assert_eq!(wait.frame_to_write(WaitStatus::TimedOut), None);
    let none = handle(WifiState::Ready, &event(WifiEvent::Close, ""));
    assert!(none.into_wait(true).is_none());
}

#[test]
fn only_reset_flushes_first() {
    for state in ALL_STATES {
        for kind in ALL_EVENTS {
            let r = handle(state, &event(kind, ""));
            assert_eq!(r.flush_first, kind == WifiEvent::Reset);
        }
    }
}
