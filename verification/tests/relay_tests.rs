use chat_loop::bus::{Bus, BusRecv};
use chat_loop::framed::{Frame, FramedSink, FramedStream};
use chat_loop::line::{LineSink, LineStream};
use chat_loop::relay::{chat_loop, on_bus_recv, on_send_result, on_transport_recv, BusStep,
    RelayState, TransportStep};
use chat_loop::traits::{ChatCommErr, ChatSink, ChatStream};

#[test]
fn publish_then_recv_yields_item() {
    let mut bus: Bus<String> = Bus::new(100);
    let mut sub = bus.subscribe();
    bus.publish("one".to_string());
    bus.publish("two".to_string());
    match bus.recv(&mut sub) {
        BusRecv::Item(m) => assert_eq!(m, "one"),
        _ => panic!("expected an item"),
    }
    match bus.recv(&mut sub) {
        BusRecv::Item(m) => assert_eq!(m, "two"),
        _ => panic!("expected an item"),
    }
    assert!(matches!(bus.recv(&mut sub), BusRecv::Empty));
}

#[test]
fn items_before_subscribe_are_invisible() {
    let mut bus: Bus<String> = Bus::new(100);
    bus.publish("early".to_string());
    let mut sub = bus.subscribe();
    assert!(matches!(bus.recv(&mut sub), BusRecv::Empty));
}

#[test]
fn no_loss_when_not_lagging() {
    // Liveness: every item published while the subscriber is active and
    // within capacity is received, in order, with no loss.
    let mut bus: Bus<String> = Bus::new(100);
    let mut sub = bus.subscribe();
    for i in 0..100usize {
        bus.publish(format!("m{}", i));
    }
    let got = bus.collect_available(&mut sub);
    assert_eq!(got.len(), 100);
    for i in 0..100usize {
        assert_eq!(got[i], format!("m{}", i));
    }
}

#[test]
fn overflow_reports_lagged_then_continues() {
    // A subscriber that fell more than the capacity behind sees Lagged
    // once -- not a fatal result -- and can then keep receiving.
    let mut bus: Bus<String> = Bus::new(100);
    let mut sub = bus.subscribe();
    for i in 0..150usize {
        bus.publish(format!("m{}", i));
    }
    match bus.recv(&mut sub) {
        BusRecv::Lagged(n) => assert_eq!(n, 50),
        _ => panic!("expected a lag report"),
    }
    // The relay treats a lag report as "keep running".
    let step: BusStep<String> = on_bus_recv(BusRecv::Lagged(50));
    assert!(matches!(step, BusStep::Skip));
    match bus.recv(&mut sub) {
        BusRecv::Item(m) => assert_eq!(m, "m50"),
        _ => panic!("expected an item after the lag report"),
    }
}

#[test]
fn overflow_keeps_most_recent_items() {
    // Scenario: a paused subscriber misses 50 of 150 items at capacity
    // 100; on resumption it gets the most recent 100, not the oldest.
    let mut bus: Bus<String> = Bus::new(100);
    let mut sub = bus.subscribe();
    for i in 0..150usize {
        bus.publish(format!("m{}", i));
    }
    match bus.recv(&mut sub) {
        BusRecv::Lagged(n) => assert_eq!(n, 50),
        _ => panic!("expected a lag report first"),
    }
    let got = bus.collect_available(&mut sub);
    assert_eq!(got.len(), 100);
    assert_eq!(got[0], "m50");
    assert_eq!(got[99], "m149");
}

#[test]
fn closed_bus_terminates_after_drain() {
    let mut bus: Bus<String> = Bus::new(100);
    let mut sub = bus.subscribe();
    bus.publish("last".to_string());
    bus.close();
    assert!(matches!(bus.recv(&mut sub), BusRecv::Item(_)));
    assert!(matches!(bus.recv(&mut sub), BusRecv::Closed));
    let step: BusStep<String> = on_bus_recv(BusRecv::Closed);
    assert!(matches!(step, BusStep::Stop));
}

#[test]
fn relay_policy_on_events() {
    match on_transport_recv(Ok("x".to_string())) {
        TransportStep::Publish(m) => assert_eq!(m, "x"),
        TransportStep::Stop => panic!("an item is published, not dropped"),
    }
    assert!(matches!(
        on_transport_recv::<String>(Err(ChatCommErr::new())),
        TransportStep::Stop
    ));
    match on_bus_recv(BusRecv::Item("y".to_string())) {
        BusStep::Deliver(m) => assert_eq!(m, "y"),
        _ => panic!("an item goes to the send side"),
    }
    assert!(matches!(on_bus_recv::<String>(BusRecv::Empty), BusStep::Skip));
    assert_eq!(on_send_result(&Ok(())), RelayState::Running);
    assert_eq!(on_send_result(&Err(ChatCommErr::new())), RelayState::Terminated);
}

#[test]
fn relay_publishes_in_receive_order() {
    // Per-connection order preservation: what the transport yielded is
    // published to the bus in exactly that order.
    let mut bus: Bus<String> = Bus::new(100);
    let mut witness = bus.subscribe();
    let sub = bus.subscribe();
    let mut stream = LineStream::new("alpha\nbeta\ngamma\n".to_string());
    let mut sink = LineSink::new();
    let schedule = vec![true, true, true, true];
    let (state, _) = chat_loop(&mut sink, &mut stream, &mut bus, sub, &schedule);
    // The fourth receive hits the end of the stream: terminal.
    assert_eq!(state, RelayState::Terminated);
    let published = bus.collect_available(&mut witness);
    assert_eq!(published, vec!["alpha\n", "beta\n", "gamma\n"]);
}

#[test]
fn empty_schedule_leaves_the_relay_running() {
    let mut bus: Bus<String> = Bus::new(100);
    let sub = bus.subscribe();
    let mut stream = LineStream::new("pending\n".to_string());
    let mut sink = LineSink::new();
    let schedule: Vec<bool> = vec![];
    let (state, _) = chat_loop(&mut sink, &mut stream, &mut bus, sub, &schedule);
    assert_eq!(state, RelayState::Running);
}

#[test]
fn running_result_means_every_receive_was_consumed() {
    // While the relay reports Running, no scheduled event was skipped:
    // each transport arm received and published one item, and each bus
    // arm forwarded the item it found.
    let mut bus: Bus<String> = Bus::new(100);
    let mut witness = bus.subscribe();
    let sub = bus.subscribe();
    let mut stream = LineStream::new("a\nb\n".to_string());
    let mut sink = LineSink::new();
    let schedule = vec![true, false, true, false];
    let (state, _) = chat_loop(&mut sink, &mut stream, &mut bus, sub, &schedule);
    assert_eq!(state, RelayState::Running);
    assert_eq!(bus.collect_available(&mut witness), vec!["a\n", "b\n"]);
    assert_eq!(sink.written(), &vec!["a\n".to_string(), "b\n".to_string()]);
}

#[test]
fn relay_survives_lag() {
    // A lag report reaches the relay as an event and is ignored: the
    // relay keeps running and delivers the retained items.
    let mut bus: Bus<String> = Bus::new(2);
    let sub = bus.subscribe();
    let mut stream = LineStream::new("a\nb\nc\nd\ne\n".to_string());
    let mut sink = LineSink::new();
    let schedule = vec![true, true, true, true, true, false, false, false, false];
    let (state, _) = chat_loop(&mut sink, &mut stream, &mut bus, sub, &schedule);
    assert_eq!(state, RelayState::Running);
    assert_eq!(sink.written(), &vec!["d\n".to_string(), "e\n".to_string()]);
}

#[test]
fn relay_releases_subscription_on_exit() {
    // A terminal result ends that connection's relay and releases its
    // subscription: the subscriber count returns to its baseline.
    let mut bus: Bus<String> = Bus::new(100);
    let baseline = bus.subscribers();
    let sub = bus.subscribe();
    assert_eq!(bus.subscribers(), baseline + 1);
    let mut stream = LineStream::new(String::new());
    let mut sink = LineSink::new();
    let schedule = vec![true];
    let (state, _) = chat_loop(&mut sink, &mut stream, &mut bus, sub, &schedule);
    assert_eq!(state, RelayState::Terminated);
    assert_eq!(bus.subscribers(), baseline);
}

#[test]
fn two_connections_see_each_item() {
    // Scenario A: two connections subscribe; C1's transport yields
    // "hi"; both C1 (self-delivery) and C2 receive it.
    let mut bus: Bus<Frame> = Bus::new(100);
    let sub1 = bus.subscribe();
    let mut sub2 = bus.subscribe();
    let mut stream1 = FramedStream::new(vec![Frame::Text("hi".to_string())]);
    let mut sink1 = FramedSink::new();
    // C1 receives "hi", publishes it, then gets its own copy back.
    let schedule = vec![true, false];
    chat_loop(&mut sink1, &mut stream1, &mut bus, sub1, &schedule);
    assert_eq!(sink1.written().len(), 1);
    assert_eq!(sink1.written()[0], Frame::Text("hi".to_string()));
    match bus.recv(&mut sub2) {
        BusRecv::Item(f) => assert_eq!(f, Frame::Text("hi".to_string())),
        _ => panic!("the second connection receives the item too"),
    }
}

#[test]
fn send_failure_ends_one_relay_only() {
    // Scenario B: C1's transport send fails on the first attempt; C1's
    // relay terminates; C2 keeps publishing and receiving.
    let mut bus: Bus<Frame> = Bus::new(100);
    let baseline = bus.subscribers();
    let sub1 = bus.subscribe();
    let sub2 = bus.subscribe();
    let mut stream1 = FramedStream::new(vec![Frame::Text("from c1".to_string())]);
    let mut sink1 = FramedSink::failing_after(0);
    let schedule1 = vec![true, false];
    let (state1, _) = chat_loop(&mut sink1, &mut stream1, &mut bus, sub1, &schedule1);
    assert_eq!(state1, RelayState::Terminated);
    assert_eq!(sink1.written().len(), 0);
    // C2 still relays: it receives what C1 published, then its own.
    let mut stream2 = FramedStream::new(vec![Frame::Text("from c2".to_string())]);
    let mut sink2 = FramedSink::new();
    let schedule2 = vec![false, true, false];
    chat_loop(&mut sink2, &mut stream2, &mut bus, sub2, &schedule2);
    assert_eq!(sink2.written().len(), 2);
    assert_eq!(sink2.written()[0], Frame::Text("from c1".to_string()));
    assert_eq!(sink2.written()[1], Frame::Text("from c2".to_string()));
    assert_eq!(bus.subscribers(), baseline);
}

#[test]
fn line_binding_keeps_terminator() {
    // Scenario D: an inbound byte stream delivers "exit\n"; the line
    // binding yields and the relay publishes the literal "exit\n".
    let mut bus: Bus<String> = Bus::new(100);
    let mut witness = bus.subscribe();
    let sub = bus.subscribe();
    let mut stream = LineStream::new("exit\n".to_string());
    let mut sink = LineSink::new();
    let schedule = vec![true, true];
    chat_loop(&mut sink, &mut stream, &mut bus, sub, &schedule);
    let published = bus.collect_available(&mut witness);
    assert_eq!(published, vec!["exit\n"]);
}

#[test]
fn line_stream_reads_lines_verbatim() {
    let mut stream = LineStream::new("one\ntwo\nrest".to_string());
    assert_eq!(stream.recv_msg().unwrap(), "one\n");
    assert_eq!(stream.recv_msg().unwrap(), "two\n");
    assert_eq!(stream.recv_msg().unwrap(), "rest");
    assert!(stream.recv_msg().is_err());
}

#[test]
fn line_sink_writes_verbatim() {
    let mut sink = LineSink::new();
    sink.send_msg("ab\n".to_string()).unwrap();
    sink.send_msg("cd".to_string()).unwrap();
    assert_eq!(sink.wire(), "ab\ncd");
    let mut failing = LineSink::failing_after(1);
    failing.send_msg("kept".to_string()).unwrap();
    assert!(failing.send_msg("dropped".to_string()).is_err());
    assert_eq!(failing.wire(), "kept");
}

#[test]
fn framed_stream_yields_frames_then_terminal() {
    let mut stream = FramedStream::new(vec![
        Frame::Binary(vec![1, 2, 3]),
        Frame::Close,
    ]);
    assert_eq!(stream.recv_msg().unwrap(), Frame::Binary(vec![1, 2, 3]));
    assert_eq!(stream.recv_msg().unwrap(), Frame::Close);
    assert!(stream.recv_msg().is_err());
}

#[test]
fn chat_comm_err_message() {
    let e = ChatCommErr::new();
    assert_eq!(e.message(), "Error Error Chatting");
}
