use chat_node::addr::Addr;
use chat_node::channel::MessageChannel;
use chat_node::inbound::{accept_step, inbound_step, AcceptDecision, HandlerStep, ReadEvent};
use chat_node::message::Message;
use chat_node::outbound::{DriverAction, DriverEvent, DriverState, OutboundDriver};
use chat_node::protocol::{ProtocolAction, StubProtocol};
use chat_node::CHANNEL_CAPACITY;

fn addr(a: u8, b: u8, c: u8, d: u8, port: u16) -> Addr {
    Addr { a, b, c, d, port }
}

#[test]
fn render_is_canonical_text() {
    assert_eq!(addr(192, 168, 0, 1, 65535).render(), "192.168.0.1:65535");
    assert_eq!(addr(127, 0, 0, 1, 9001).render(), "127.0.0.1:9001");
    assert_eq!(addr(0, 0, 0, 0, 0).render(), "0.0.0.0:0");
}

#[test]
fn parse_accepts_canonical_text() {
    assert_eq!(Addr::parse("127.0.0.1:8080"), Some(addr(127, 0, 0, 1, 8080)));
    assert_eq!(Addr::parse("0.0.0.0:0"), Some(addr(0, 0, 0, 0, 0)));
    assert_eq!(Addr::parse("255.255.255.255:65535"), Some(addr(255, 255, 255, 255, 65535)));
}

#[test]
fn parse_render_round_trip() {
    let samples = vec![
        addr(127, 0, 0, 1, 9001),
        addr(10, 0, 0, 5, 9),
        addr(255, 255, 255, 255, 65535),
        addr(0, 0, 0, 0, 0),
        addr(8, 8, 8, 8, 53),
    ];
    for a in samples {
        assert_eq!(Addr::parse(&a.render()), Some(a));
    }
}

#[test]
fn parse_rejects_malformed_text() {
    let bad = vec![
        "",
        "q",
        "hello",
        "1.2.3.4",
        "1.2.3.4:",
        "1.2.3:80",
        "1.2.3.4.5:80",
        "256.0.0.1:80",
        "1.2.3.4:65536",
        "01.2.3.4:80",
        "1.2.3.4:007",
        "1.2.3.4:80x",
        " 1.2.3.4:80",
        "1.2.3.4 :80",
        "1.2.3.4::80",
        "-1.2.3.4:80",
    ];
    for s in bad {
        assert_eq!(Addr::parse(s), None, "accepted {:?}", s);
    }
}

#[test]
fn message_decodes_bytes() {
    let m = Message::from_bytes(addr(127, 0, 0, 1, 9001), b"hello");
    assert_eq!(m.text, "hello");
    assert_eq!(m.origin, addr(127, 0, 0, 1, 9001));
}

#[test]
fn message_decoding_replaces_invalid_bytes() {
    let m = Message::from_bytes(addr(1, 2, 3, 4, 5), &[0xff, b'a']);
    assert_eq!(m.text, "\u{FFFD}a");
}

#[test]
fn display_line_shows_origin_and_text() {
    let m = Message::from_bytes(addr(127, 0, 0, 1, 9001), b"hello");
    let line = m.display_line();
    assert_eq!(line, "127.0.0.1:9001: hello");
    assert!(line.contains("127.0.0.1"));
    assert!(line.contains("hello"));
}

#[test]
fn handler_forwards_each_nonempty_chunk() {
    let origin = addr(10, 1, 1, 1, 4000);
    let step = inbound_step(origin, ReadEvent::Data { bytes: b"one".to_vec() });
    match step {
        HandlerStep::Forward { message } => {
            assert_eq!(message.text, "one");
            assert_eq!(message.origin, origin);
        }
        other => panic!("expected a forward, got {:?}", other),
    }
}

#[test]
fn handler_stops_cleanly_on_zero_read() {
    let origin = addr(10, 1, 1, 1, 4000);
    let step = inbound_step(origin, ReadEvent::Data { bytes: Vec::new() });
    assert_eq!(step, HandlerStep::StopClean);
}

#[test]
fn handler_stops_on_read_error() {
    let origin = addr(10, 1, 1, 1, 4000);
    assert_eq!(inbound_step(origin, ReadEvent::ReadError), HandlerStep::StopError);
}

#[test]
fn accept_loop_survives_accept_errors() {
    assert_eq!(accept_step(true), AcceptDecision::SpawnHandler);
    assert_eq!(accept_step(false), AcceptDecision::KeepListening);
}

#[test]
fn channel_is_first_in_first_out() {
    let mut ch = MessageChannel::new();
    assert_eq!(ch.len(), 0);
    let m1 = Message::from_bytes(addr(1, 1, 1, 1, 1), b"first");
    let m2 = Message::from_bytes(addr(2, 2, 2, 2, 2), b"second");
    ch.send(m1.clone());
    ch.send(m2.clone());
    assert_eq!(ch.recv(), Some(m1));
    assert_eq!(ch.recv(), Some(m2));
    assert_eq!(ch.recv(), None);
}

#[test]
fn channel_capacity_is_bounded() {
    let mut ch = MessageChannel::new();
    for i in 0..CHANNEL_CAPACITY {
        let m = Message::from_bytes(addr(1, 1, 1, 1, i as u16), b"x");
        assert_eq!(ch.try_send(m), Ok(()));
    }
    assert!(ch.is_full());
    let extra = Message::from_bytes(addr(9, 9, 9, 9, 9), b"extra");
    assert_eq!(ch.try_send(extra.clone()), Err(extra));
    assert_eq!(ch.len(), CHANNEL_CAPACITY);
    let first = ch.recv().expect("one message out");
    assert_eq!(first.origin, addr(1, 1, 1, 1, 0));
    let again = Message::from_bytes(addr(9, 9, 9, 9, 9), b"extra");
    assert_eq!(ch.try_send(again), Ok(()));
}

#[test]
fn n_connections_deliver_n_messages() {
    let mut ch = MessageChannel::new();
    let origins = vec![addr(10, 0, 0, 1, 1), addr(10, 0, 0, 2, 2), addr(10, 0, 0, 3, 3)];
    for (i, o) in origins.iter().enumerate() {
        let text = format!("message {}", i);
        match inbound_step(*o, ReadEvent::Data { bytes: text.into_bytes() }) {
            HandlerStep::Forward { message } => ch.send(message),
            other => panic!("expected a forward, got {:?}", other),
        }
    }
    let out = ch.drain();
    assert_eq!(out.len(), origins.len());
    for (i, m) in out.iter().enumerate() {
        assert_eq!(m.origin, origins[i]);
        assert_eq!(m.text, format!("message {}", i));
    }
    assert_eq!(ch.len(), 0);
}

#[test]
fn driver_quits_on_sentinel_at_prompt() {
    let mut d = OutboundDriver::new();
    assert_eq!(d.state(), DriverState::Prompting);
    let a = d.step(DriverEvent::PromptLine { line: "q".to_string() });
    assert_eq!(a, DriverAction::Quit);
    assert_eq!(d.state(), DriverState::Finished);
}

#[test]
fn driver_reports_invalid_address_and_reprompts() {
    let mut d = OutboundDriver::new();
    let a = d.step(DriverEvent::PromptLine { line: "not an address".to_string() });
    assert_eq!(a, DriverAction::ReportInvalidAddress);
    assert_eq!(d.state(), DriverState::Prompting);
}

#[test]
fn driver_recovers_from_failed_connect() {
    let mut d = OutboundDriver::new();
    let peer = addr(10, 0, 0, 5, 9);
    let a = d.step(DriverEvent::PromptLine { line: "10.0.0.5:9".to_string() });
    assert_eq!(a, DriverAction::Connect { peer });
    assert_eq!(d.state(), DriverState::Connecting { peer });
    let a = d.step(DriverEvent::ConnectResult { ok: false });
    assert_eq!(a, DriverAction::ReportConnectFailed);
    assert_eq!(d.state(), DriverState::Prompting);
    let a = d.step(DriverEvent::PromptLine { line: "10.0.0.5:9".to_string() });
    assert_eq!(a, DriverAction::Connect { peer });
}

#[test]
fn driver_sends_lines_verbatim_in_session() {
    let mut d = OutboundDriver::new();
    let peer = addr(127, 0, 0, 1, 9001);
    d.step(DriverEvent::PromptLine { line: "127.0.0.1:9001".to_string() });
    let a = d.step(DriverEvent::ConnectResult { ok: true });
    assert_eq!(a, DriverAction::SessionStarted { peer });
    let a = d.step(DriverEvent::SessionLine { line: "hello".to_string() });
    assert_eq!(a, DriverAction::Send { line: "hello".to_string() });
    let a = d.step(DriverEvent::WriteResult { ok: true });
    assert_eq!(a, DriverAction::Proceed);
    assert_eq!(d.state(), DriverState::InSession { peer });
}

#[test]
fn session_sentinel_ends_only_the_session() {
    let mut d = OutboundDriver::new();
    let peer = addr(127, 0, 0, 1, 9001);
    d.step(DriverEvent::PromptLine { line: "127.0.0.1:9001".to_string() });
    d.step(DriverEvent::ConnectResult { ok: true });
    let a = d.step(DriverEvent::SessionLine { line: "q".to_string() });
    assert_eq!(a, DriverAction::Disconnect);
    assert_ne!(a, DriverAction::Quit);
    assert_eq!(d.state(), DriverState::Prompting);
    let a = d.step(DriverEvent::PromptLine { line: "127.0.0.1:9001".to_string() });
    assert_eq!(a, DriverAction::Connect { peer });
}

#[test]
fn driver_leaves_session_on_write_failure() {
    let mut d = OutboundDriver::new();
    d.step(DriverEvent::PromptLine { line: "1.2.3.4:5".to_string() });
    d.step(DriverEvent::ConnectResult { ok: true });
    let a = d.step(DriverEvent::SessionLine { line: "payload".to_string() });
    assert_eq!(a, DriverAction::Send { line: "payload".to_string() });
    let a = d.step(DriverEvent::WriteResult { ok: false });
    assert_eq!(a, DriverAction::ReportWriteFailed);
    assert_eq!(d.state(), DriverState::Prompting);
}

#[test]
fn two_nodes_exchange_hello() {
    // Node A listens on 127.0.0.1:9001; node B connects and sends "hello".
    let listen = Addr::parse("127.0.0.1:9001").expect("a canonical endpoint");

    // B's driver: the operator types the address, the connect succeeds,
    // then types "hello".
    let mut b = OutboundDriver::new();
    let a1 = b.step(DriverEvent::PromptLine { line: "127.0.0.1:9001".to_string() });
    assert_eq!(a1, DriverAction::Connect { peer: listen });
    b.step(DriverEvent::ConnectResult { ok: true });
    let a2 = b.step(DriverEvent::SessionLine { line: "hello".to_string() });
    let sent = match a2 {
        DriverAction::Send { line } => line,
        other => panic!("expected a send, got {:?}", other),
    };
    assert_eq!(b.step(DriverEvent::WriteResult { ok: true }), DriverAction::Proceed);

    // A's side: the accepted connection's handler reads those bytes
    // and forwards them; the display loop renders the message.
    let b_remote = addr(127, 0, 0, 1, 51514);
    let mut ch = MessageChannel::new();
    match inbound_step(b_remote, ReadEvent::Data { bytes: sent.into_bytes() }) {
        HandlerStep::Forward { message } => ch.send(message),
        other => panic!("expected a forward, got {:?}", other),
    }
    let shown = ch.recv().expect("one message for the display loop").display_line();
    assert!(shown.contains("127.0.0.1"));
    assert!(shown.contains("hello"));

    // B types the sentinel: only B's session ends, back to the
    // address prompt; A's handler sees no event at all from it.
    let a3 = b.step(DriverEvent::SessionLine { line: "q".to_string() });
    assert_eq!(a3, DriverAction::Disconnect);
    assert_eq!(b.state(), DriverState::Prompting);
    assert_eq!(ch.recv(), None);
}

#[test]
fn stub_protocol_always_waits() {
    let mut p = StubProtocol::new();
    assert_eq!(p.poke(), Ok(ProtocolAction::Wait));
    p.on_message(7, b"ignored".to_vec());
    assert_eq!(p.poke(), Ok(ProtocolAction::Wait));
}
