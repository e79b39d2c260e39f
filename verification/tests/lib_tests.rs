use chat_loop::add;
use chat_loop::echo::{echo_reply, inbound_step, is_exit_line, outbound_step, InboundStep, Msg,
    OutboundStep, Tagged};
use chat_loop::greet::{hello, hi};
use chat_loop::lotto::{lotto_draw, Lotto};
use chat_loop::numbers::{get_number_from_file, parse_u64, trim, ErrorWithId, NumberFromFileError,
    ParseNumError};
use chat_loop::{fibonacci, fibonacci_iter, fibonacci_rec, Fibonacci};

#[test]
fn it_works() {
    let result = add(2, 2);
    assert_eq!(result, 4);
}

#[test]
fn fibonacci_values() {
    assert_eq!(fibonacci(0), 1);
    assert_eq!(fibonacci(1), 1);
    assert_eq!(fibonacci(2), 2);
    assert_eq!(fibonacci(9), 55);
    assert_eq!(fibonacci_rec(9), 55);
    assert_eq!(fibonacci_iter(9), 55);
}

#[test]
fn fibonacci_generator_steps() {
    let mut gen = Fibonacci::default();
    assert_eq!(gen.next(), Some(1));
    assert_eq!(gen.next(), Some(1));
    assert_eq!(gen.next(), Some(2));
    assert_eq!(gen.next(), Some(3));
    assert_eq!(gen.next(), Some(5));
}

#[test]
fn fibonacci_generator_stops_at_overflow() {
    let mut gen = Fibonacci::default();
    let mut last = 0u64;
    let mut count = 0usize;
    while let Some(v) = gen.next() {
        last = v;
        count += 1;
    }
    assert_eq!(count, 92);
    assert_eq!(last, 7540113804746346429);
    assert_eq!(gen.next(), None);
}

#[test]
fn trim_strips_both_ends() {
    assert_eq!(trim("  42\n"), "42");
    assert_eq!(trim("\t\r\n "), "");
    assert_eq!(trim("x"), "x");
    assert_eq!(trim("a b"), "a b");
}

#[test]
fn trim_agrees_with_std_on_unicode_whitespace() {
    let samples = ["\u{a0}42\u{3000}", "\u{b}7\u{c}", "\u{2028}x\u{205f}", " plain ", "\u{85}\u{2003}"];
    for s in samples {
        assert_eq!(trim(s), s.trim());
    }
}

#[test]
fn parse_u64_accepts_decimals() {
    assert_eq!(parse_u64("0"), Ok(0));
    assert_eq!(parse_u64("42"), Ok(42));
    assert_eq!(parse_u64("+7"), Ok(7));
    assert_eq!(parse_u64("18446744073709551615"), Ok(u64::MAX));
}

#[test]
fn parse_u64_reports_each_error() {
    assert_eq!(parse_u64(""), Err(ParseNumError::Empty));
    assert_eq!(parse_u64("+"), Err(ParseNumError::InvalidDigit));
    assert_eq!(parse_u64("12x"), Err(ParseNumError::InvalidDigit));
    assert_eq!(parse_u64("-3"), Err(ParseNumError::InvalidDigit));
    assert_eq!(parse_u64("18446744073709551616"), Err(ParseNumError::Overflow));
}

#[test]
fn number_from_file_paths() {
    assert_eq!(get_number_from_file(Ok(" 41\n".to_string())).unwrap(), 41);
    let r = get_number_from_file(Ok("nope".to_string()));
    match r {
        Err(e @ NumberFromFileError::ParseError(ParseNumError::InvalidDigit)) => {
            assert_eq!(
                e.message(),
                "Error parsing number from File invalid digit found in string"
            );
        }
        _ => panic!("a bad text surfaces as ParseError"),
    }
    let io = ErrorWithId::from((1, "gone".to_string()));
    let r = get_number_from_file(Err(io));
    match r {
        Err(e @ NumberFromFileError::IoError(_)) => {
            assert_eq!(e.message(), "Error reading number from File gone");
        }
        _ => panic!("a read failure surfaces as IoError"),
    }
}

#[test]
fn lotto_draw_is_within_range_and_distinct() {
    let numbers = lotto_draw(6, 45);
    assert_eq!(numbers.len(), 6);
    for (i, n) in numbers.iter().enumerate() {
        assert!((1..=45).contains(n));
        for m in numbers.iter().skip(i + 1) {
            assert_ne!(n, m);
        }
    }
    assert_eq!(lotto_draw(10, 3).len(), 3);
}

#[test]
fn lotto_shuffle_keeps_the_pot() {
    let mut lotto = Lotto::new(5, 50);
    lotto.shuffle();
    let mut pot = lotto.pot.clone();
    pot.sort();
    let expected: Vec<usize> = (1..=50).collect();
    assert_eq!(pot, expected);
    let result = lotto.take();
    assert_eq!(result.len(), 5);
    assert_eq!(result[..], lotto.pot[..5]);
}

#[test]
fn greetings() {
    assert_eq!(hello(None), "Hello World");
    assert_eq!(hello(Some("Ada".to_string())), "Hello Ada");
    assert_eq!(hi("Grace"), "Hello Grace");
}

#[test]
fn echo_reply_prefixes_the_line() {
    assert_eq!(echo_reply("hej\n"), "Echo > hej\n");
}

#[test]
fn exit_detection_trims_first() {
    assert!(is_exit_line("exit\n"));
    assert!(is_exit_line("  exit \r\n"));
    assert!(!is_exit_line("exit now\n"));
}

#[test]
fn inbound_policy_tags_and_stops() {
    let addr = "1.2.3.4:5000".to_string();
    match inbound_step(&addr, Some("hello\n".to_string())) {
        InboundStep::Publish(Msg::Message(m)) => assert_eq!(m, "hello\n"),
        _ => panic!("an ordinary line is published untrimmed"),
    }
    match inbound_step(&addr, Some("exit\n".to_string())) {
        InboundStep::Leave(Msg::Disconnect(a)) => assert_eq!(a, addr),
        _ => panic!("an exit line announces the departure"),
    }
    match inbound_step(&addr, None) {
        InboundStep::Leave(Msg::Disconnect(a)) => assert_eq!(a, addr),
        _ => panic!("a failed read announces the departure"),
    }
}

#[test]
fn outbound_policy_filters_self() {
    let me = "1.1.1.1:1".to_string();
    let other = "2.2.2.2:2".to_string();
    let from_other = Tagged { from: other.clone(), msg: Msg::Message("hi\n".to_string()) };
    match outbound_step(&me, &from_other) {
        OutboundStep::Write(w) => assert_eq!(w, "2.2.2.2:2 > hi\n"),
        _ => panic!("another peer's text is written"),
    }
    let from_me = Tagged { from: me.clone(), msg: Msg::Message("hi\n".to_string()) };
    assert!(matches!(outbound_step(&me, &from_me), OutboundStep::Ignore));
    let other_leaves = Tagged { from: other.clone(), msg: Msg::Disconnect(other.clone()) };
    assert!(matches!(outbound_step(&me, &other_leaves), OutboundStep::Ignore));
    let i_leave = Tagged { from: me.clone(), msg: Msg::Disconnect(me.clone()) };
    assert!(matches!(outbound_step(&me, &i_leave), OutboundStep::Stop));
}
