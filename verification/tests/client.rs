use wurth_calypso::argument::Argument;
use wurth_calypso::calypso::Event;
use wurth_calypso::client::{Config, UrcChannel, INGRESS_BUF_SIZE, URC_CAPACITY, URC_SUBSCRIBERS};
use wurth_calypso::codec::{Command, FieldKind, FieldType};
use wurth_calypso::command::device::{Get, Test};
use wurth_calypso::command::{classify, Urc};
use wurth_calypso::error::{EncodingError, Error, FramingError};
use wurth_calypso::exchange::{dispatch, Disposition, Pending, Response};
use wurth_calypso::ingress::{Frame, Ingress};
use wurth_calypso::number::Radix;
use wurth_calypso::text::Text;
use wurth_calypso::Calypso;

fn client() -> Calypso {
    Calypso::new(Config::new())
}

fn small(ingress_capacity: usize) -> Calypso {
    Calypso::new(Config { ingress_capacity, urc_capacity: 2, urc_subscribers: 2 })
}

fn decimal(value: u32) -> Argument {
    Argument::Integer { value, radix: Radix::Decimal }
}

fn query() -> Command {
    Command::new("+get").timeout_ms(100).response(vec![
        FieldKind { ty: FieldType::Integer { radix: Radix::Decimal, max: 255 }, optional: false },
        FieldKind { ty: FieldType::Text { capacity: 8 }, optional: true },
    ])
}

#[test]
fn default_sizes() {
    assert_eq!(INGRESS_BUF_SIZE, 1024);
    assert_eq!(URC_CAPACITY, 128);
    assert_eq!(URC_SUBSCRIBERS, 3);
    let config = Config::new();
    assert_eq!(config.ingress_capacity, 1024);
    assert_eq!(config.urc_capacity, 128);
    assert_eq!(config.urc_subscribers, 3);
}

#[test]
fn test_command_is_answered_at_once() {
    let mut calypso = client();
    assert!(!calypso.is_awaiting());
    assert_eq!(calypso.test(0), Ok(b"AT+test\r\n".to_vec()));
    assert!(calypso.is_awaiting());
    assert_eq!(calypso.feed(b"OK\r\n", 5), vec![Event::Resolved(Response::NoData)]);
    assert!(!calypso.is_awaiting());
    assert!(!calypso.poll(1000));
}

#[test]
fn no_answer_times_out_after_the_deadline() {
    let mut calypso = client();
    assert_eq!(calypso.test(1000), Ok(b"AT+test\r\n".to_vec()));
    assert!(!calypso.poll(1000));
    assert!(!calypso.poll(1099));
    assert!(!calypso.poll(1100));
    assert!(calypso.is_awaiting());
    assert!(calypso.poll(1101));
    assert!(!calypso.is_awaiting());
    assert_eq!(calypso.owed(), 1);
    assert!(!calypso.poll(1102));
    assert_eq!(calypso.owed(), 1);
    assert_eq!(calypso.test(1102), Ok(b"AT+test\r\n".to_vec()));
}

#[test]
fn answer_at_the_deadline_still_counts() {
    let mut calypso = client();
    calypso.test(0).unwrap();
    assert_eq!(calypso.feed(b"OK\r\n", 100), vec![Event::Resolved(Response::NoData)]);
}

#[test]
fn deadline_near_the_end_of_time() {
    let mut calypso = client();
    calypso.test(u64::MAX - 10).unwrap();
    assert!(!calypso.poll(u64::MAX));
    assert!(!calypso.poll(0));
    assert_eq!(calypso.feed(b"OK\r\n", u64::MAX), vec![Event::Resolved(Response::NoData)]);
}

#[test]
fn event_while_idle_reaches_every_subscriber() {
    let mut calypso = client();
    assert_eq!(calypso.subscribe(), Some(0));
    assert_eq!(calypso.subscribe(), Some(1));
    assert_eq!(calypso.subscribe(), Some(2));
    assert_eq!(calypso.subscribe(), None);
    assert_eq!(calypso.feed(b"+eventstartup\r\n", 0), vec![Event::Urc(Urc::StartUp)]);
    assert!(!calypso.is_awaiting());
    for subscriber in 0..3 {
        assert_eq!(calypso.next_urc(subscriber), Some(Urc::StartUp));
        assert_eq!(calypso.next_urc(subscriber), None);
    }
    assert_eq!(calypso.next_urc(3), None);
}

#[test]
fn stale_lines_of_a_timed_out_exchange_are_noise() {
    let mut calypso = client();
    assert!(calypso.send(&query(), 0).is_ok());
    assert!(calypso.poll(101));
    // the late terminator finds nobody
    assert_eq!(calypso.feed(b"OK\r\n", 150), vec![Event::Noise]);
    assert!(!calypso.is_awaiting());
    // a new exchange is not ended by what the old one left behind
    calypso.test(200).unwrap();
    assert_eq!(calypso.feed(b"+get:1,\"late\"\r\n", 210), vec![Event::Noise]);
    assert!(calypso.is_awaiting());
    assert_eq!(calypso.feed(b"OK\r\n", 220), vec![Event::Resolved(Response::NoData)]);
}

#[test]
fn line_after_the_deadline_finds_the_exchange_timed_out() {
    let mut calypso = client();
    calypso.test(0).unwrap();
    assert_eq!(calypso.feed(b"OK\r\n", 101), vec![Event::TimedOut, Event::Noise]);
    assert!(!calypso.is_awaiting());
    calypso.test(200).unwrap();
    assert_eq!(
        calypso.feed(b"+eventwlan:connect\r\n", 301),
        vec![Event::TimedOut, Event::Urc(Urc::Wlan)]
    );
    assert!(!calypso.is_awaiting());
}

#[test]
fn sending_while_awaiting_is_refused() {
    let mut calypso = client();
    assert!(calypso.send(&query(), 0).is_ok());
    assert_eq!(calypso.test(1), Err(Error::NotReady));
    assert_eq!(calypso.send(&Command::new("+bad\n"), 1), Err(Error::NotReady));
    assert_eq!(calypso.wlan_connect_open(&"x".repeat(40), None, 1), Err(Error::NotReady));
    assert!(calypso.is_awaiting());
    // the first exchange goes on undisturbed
    assert_eq!(calypso.feed(b"+get:7\r\n", 2), vec![Event::Accepted]);
    assert_eq!(
        calypso.feed(b"OK\r\n", 3),
        vec![Event::Resolved(Response::Data(vec![vec![decimal(7), Argument::Absent]]))]
    );
    assert_eq!(calypso.test(4), Ok(b"AT+test\r\n".to_vec()));
}

#[test]
fn command_that_cannot_be_encoded_sends_nothing() {
    let mut calypso = client();
    assert_eq!(
        calypso.send(&Command::new("+bad\n"), 0),
        Err(Error::Encoding(EncodingError::InvalidPrefix))
    );
    assert!(!calypso.is_awaiting());
    let comma = Command::new("+x").quoting(false).argument(Argument::Text(b"a,b".to_vec()));
    assert_eq!(
        calypso.send(&comma, 0),
        Err(Error::Encoding(EncodingError::Unencodable { position: 0 }))
    );
    assert!(!calypso.is_awaiting());
}

#[test]
fn data_lines_come_before_the_terminator() {
    let mut calypso = client();
    calypso.send(&query(), 0).unwrap();
    let events = calypso.feed(b"+get:1,\"a\"\r\n+get:2\r\nAT+get:3,\"c,d\"\r\nOK\r\n", 10);
    assert_eq!(
        events,
        vec![
            Event::Accepted,
            Event::Accepted,
            Event::Accepted,
            Event::Resolved(Response::Data(vec![
                vec![decimal(1), Argument::Text(b"a".to_vec())],
                vec![decimal(2), Argument::Absent],
                vec![decimal(3), Argument::Text(b"c,d".to_vec())],
            ])),
        ]
    );
}

#[test]
fn terminator_alone_answers_a_query_with_no_rows() {
    let mut calypso = client();
    calypso.send(&query(), 0).unwrap();
    assert_eq!(calypso.feed(b"OK\r\n", 1), vec![Event::Resolved(Response::Data(Vec::new()))]);
}

#[test]
fn error_line_fails_the_exchange_at_once() {
    let mut calypso = client();
    calypso.send(&query(), 0).unwrap();
    let events = calypso.feed(b"+get:1\r\nerror,4,not allowed\r\n+get:2\r\nOK\r\n", 10);
    assert_eq!(
        events,
        vec![
            Event::Accepted,
            Event::Failed(Error::Module { code: 4, description: b"not allowed".to_vec() }),
            Event::Noise,
            Event::Noise,
        ]
    );
    assert!(!calypso.is_awaiting());
}

#[test]
fn lines_that_do_not_read_fail_the_exchange() {
    let mut calypso = client();
    calypso.send(&query(), 0).unwrap();
    assert_eq!(
        calypso.feed(b"+get:x\r\n", 1),
        vec![Event::Failed(Error::Framing(FramingError::MalformedData))]
    );
    // the terminator of that exchange is still to come
    assert_eq!(calypso.owed(), 1);
    assert_eq!(calypso.feed(b"OK\r\n", 1), vec![Event::Noise]);
    assert_eq!(calypso.owed(), 0);
    calypso.send(&query(), 2).unwrap();
    assert_eq!(
        calypso.feed(b"error\r\n", 3),
        vec![Event::Failed(Error::Framing(FramingError::MalformedTerminator))]
    );
    assert_eq!(calypso.owed(), 0);
    calypso.test(4).unwrap();
    assert_eq!(
        calypso.feed(b"+test:1\r\n", 5),
        vec![Event::Failed(Error::Framing(FramingError::MalformedData))]
    );
    assert!(!calypso.is_awaiting());
    assert_eq!(calypso.owed(), 1);
}

#[test]
fn stale_terminator_does_not_end_a_newer_exchange() {
    let mut calypso = client();
    calypso.test(0).unwrap();
    assert!(calypso.poll(101));
    assert_eq!(calypso.owed(), 1);
    assert_eq!(calypso.start(200), Ok(b"AT+start\r\n".to_vec()));
    // what the first exchange left behind
    assert_eq!(calypso.feed(b"OK\r\n", 210), vec![Event::Noise]);
    assert!(calypso.is_awaiting());
    assert_eq!(calypso.owed(), 0);
    assert_eq!(calypso.deadline(), Some(300));
    // its own terminator
    assert_eq!(calypso.feed(b"OK\r\n", 220), vec![Event::Resolved(Response::NoData)]);
    assert!(!calypso.is_awaiting());
}

#[test]
fn stale_error_line_does_not_fail_a_newer_exchange() {
    let mut calypso = client();
    calypso.send(&query(), 0).unwrap();
    assert!(calypso.poll(500));
    calypso.send(&query(), 600).unwrap();
    assert_eq!(calypso.feed(b"error,9,too late\r\n", 610), vec![Event::Noise]);
    assert!(calypso.is_awaiting());
    assert_eq!(calypso.feed(b"+get:4\r\n", 620), vec![Event::Accepted]);
    assert_eq!(
        calypso.feed(b"error,2,no\r\n", 630),
        vec![Event::Failed(Error::Module { code: 2, description: b"no".to_vec() })]
    );
}

#[test]
fn newer_exchange_can_only_time_out_while_terminators_are_owed() {
    let mut calypso = client();
    calypso.test(0).unwrap();
    assert!(calypso.poll(101));
    calypso.test(200).unwrap();
    assert!(calypso.poll(301));
    assert_eq!(calypso.owed(), 2);
    calypso.test(400).unwrap();
    assert_eq!(calypso.feed(b"OK\r\nOK\r\n", 410), vec![Event::Noise, Event::Noise]);
    assert!(calypso.is_awaiting());
    assert_eq!(calypso.owed(), 0);
    assert_eq!(calypso.feed(b"OK\r\n", 420), vec![Event::Resolved(Response::NoData)]);
}

#[test]
fn late_terminator_of_the_exchange_that_times_out_is_not_owed() {
    let mut calypso = client();
    calypso.test(0).unwrap();
    assert_eq!(calypso.feed(b"OK\r\n", 101), vec![Event::TimedOut, Event::Noise]);
    assert_eq!(calypso.owed(), 0);
    calypso.test(200).unwrap();
    assert_eq!(calypso.feed(b"hello\r\n", 301), vec![Event::TimedOut, Event::Noise]);
    assert_eq!(calypso.owed(), 1);
    assert_eq!(calypso.feed(b"OK\r\n", 302), vec![Event::Noise]);
    assert_eq!(calypso.owed(), 0);
    assert_eq!(calypso.feed(b"OK\r\n", 303), vec![Event::Noise]);
    assert_eq!(calypso.owed(), 0);
}

#[test]
fn passed_deadline_does_not_stand_in_the_way_of_the_next_command() {
    let mut calypso = client();
    calypso.send(&query(), 0).unwrap();
    assert_eq!(calypso.test(100), Err(Error::NotReady));
    assert_eq!(calypso.test(101), Ok(b"AT+test\r\n".to_vec()));
    assert_eq!(calypso.owed(), 1);
    assert_eq!(calypso.deadline(), Some(201));
    // time passes also where the command has no line
    let mut other = client();
    other.test(0).unwrap();
    assert_eq!(
        other.send(&Command::new("+bad\n"), 500),
        Err(Error::Encoding(EncodingError::InvalidPrefix))
    );
    assert!(!other.is_awaiting());
    assert_eq!(other.owed(), 1);
    let mut third = client();
    third.test(0).unwrap();
    assert_eq!(
        third.wlan_connect_open(&"x".repeat(40), None, 500),
        Err(Error::Encoding(EncodingError::CapacityExceeded))
    );
    assert!(!third.is_awaiting());
    assert_eq!(third.owed(), 1);
}

#[test]
fn events_interleave_with_an_exchange() {
    let mut calypso = client();
    let subscriber = calypso.subscribe().unwrap();
    calypso.send(&query(), 0).unwrap();
    let events = calypso.feed(b"+eventsocket:1\r\n+get:9\r\nhello\r\n\r\nOK\r\n", 10);
    assert_eq!(
        events,
        vec![
            Event::Urc(Urc::Socket),
            Event::Accepted,
            Event::Noise,
            Event::Noise,
            Event::Resolved(Response::Data(vec![vec![decimal(9), Argument::Absent]])),
        ]
    );
    assert_eq!(calypso.next_urc(subscriber), Some(Urc::Socket));
}

#[test]
fn lines_are_put_together_across_reads() {
    let mut calypso = client();
    calypso.test(0).unwrap();
    assert_eq!(calypso.feed(b"O", 1), Vec::new());
    assert_eq!(calypso.feed(b"K\r", 2), Vec::new());
    assert_eq!(calypso.feed(b"\n+event", 3), vec![Event::Resolved(Response::NoData)]);
    assert_eq!(calypso.feed(b"mqtt\r\n", 4), vec![Event::Urc(Urc::Mqtt)]);
    assert_eq!(calypso.feed(b"", 5), Vec::new());
}

#[test]
fn oversized_line_gives_one_overflow_and_the_next_line_comes_through() {
    let mut calypso = small(16);
    assert_eq!(calypso.feed(&[b'x'; 16], 0), Vec::new());
    assert_eq!(calypso.feed(b"x", 0), vec![Event::Fault(FramingError::Overflow)]);
    assert_eq!(calypso.feed(&[b'y'; 100], 0), Vec::new());
    assert_eq!(calypso.feed(b"\r\n", 0), Vec::new());
    assert_eq!(calypso.feed(b"+eventcustom\r\n", 0), vec![Event::Urc(Urc::Custom)]);
    // a line of exactly the capacity, carriage return included, fits
    assert_eq!(calypso.feed(b"123456789012345\r\n", 0), vec![Event::Noise]);
    assert_eq!(calypso.feed(b"1234567890123456\r\n", 0), vec![Event::Fault(FramingError::Overflow)]);
}

#[test]
fn overflow_fails_the_pending_exchange() {
    let mut calypso = small(8);
    calypso.test(0).unwrap();
    assert_eq!(
        calypso.feed(b"0123456789abcdef\r\nOK\r\n", 1),
        vec![Event::Failed(Error::Framing(FramingError::Overflow)), Event::Noise]
    );
    assert!(!calypso.is_awaiting());
    calypso.test(10).unwrap();
    assert_eq!(
        calypso.feed(b"0123456789abcdef", 200),
        vec![Event::TimedOut, Event::Fault(FramingError::Overflow)]
    );
}

#[test]
fn line_feed_without_carriage_return_is_malformed() {
    let mut calypso = client();
    assert_eq!(calypso.feed(b"OK\n", 0), vec![Event::Fault(FramingError::MalformedTerminator)]);
    assert_eq!(calypso.feed(b"\n", 0), vec![Event::Fault(FramingError::MalformedTerminator)]);
    calypso.test(0).unwrap();
    assert_eq!(
        calypso.feed(b"OK\nOK\r\n", 1),
        vec![Event::Failed(Error::Framing(FramingError::MalformedTerminator)), Event::Noise]
    );
}

#[test]
fn ingestion_buffer_steps() {
    let mut ingress = Ingress::new(4);
    assert_eq!(ingress.capacity(), 4);
    assert_eq!(ingress.push(b'a'), None);
    assert_eq!(ingress.push(b'\r'), None);
    assert_eq!(ingress.push(b'\r'), None);
    assert_eq!(ingress.push(b'\n'), Some(Frame::Line(b"a\r".to_vec())));
    assert_eq!(ingress.push(b'\r'), None);
    assert_eq!(ingress.push(b'\n'), Some(Frame::Line(Vec::new())));
    assert_eq!(ingress.push(b'\n'), Some(Frame::Malformed));
    for _ in 0..4 {
        assert_eq!(ingress.push(b'z'), None);
    }
    assert_eq!(ingress.push(b'\r'), Some(Frame::Overflow));
    assert_eq!(ingress.push(b'z'), None);
    assert_eq!(ingress.push(b'\n'), None);
    assert_eq!(ingress.push(b'b'), None);
    assert_eq!(ingress.push(b'\r'), None);
    assert_eq!(ingress.push(b'\n'), Some(Frame::Line(b"b".to_vec())));
    let mut none = Ingress::new(0);
    assert_eq!(none.push(b'\r'), Some(Frame::Overflow));
    assert_eq!(none.push(b'\n'), None);
    assert_eq!(none.push(b'\n'), Some(Frame::Malformed));
}

#[test]
fn events_are_told_by_their_prefix() {
    assert_eq!(classify(b"+eventstartup"), Some(Urc::StartUp));
    assert_eq!(classify(b"+eventgeneral:reset"), Some(Urc::General));
    assert_eq!(classify(b"+eventwlan:connect,net"), Some(Urc::Wlan));
    assert_eq!(classify(b"+eventsocket"), Some(Urc::Socket));
    assert_eq!(classify(b"+eventnetapp:ipv4_acquired"), Some(Urc::NetApp));
    assert_eq!(classify(b"+eventmqtt"), Some(Urc::Mqtt));
    assert_eq!(classify(b"+eventfatalerror:1"), Some(Urc::Fatal));
    assert_eq!(classify(b"+eventcustom"), Some(Urc::Custom));
    assert_eq!(classify(b"AT+eventwlan"), Some(Urc::Wlan));
    assert_eq!(classify(b"+eventwlanx"), Some(Urc::Wlan));
}

#[test]
fn what_is_no_event() {
    assert_eq!(classify(b""), None);
    assert_eq!(classify(b"+event"), None);
    assert_eq!(classify(b"+eventwla"), None);
    assert_eq!(classify(b"+EVENTWLAN"), None);
    assert_eq!(classify(b"+Eventwlan"), None);
    assert_eq!(classify(b" +eventwlan"), None);
    assert_eq!(classify(b"x+eventwlan"), None);
    assert_eq!(classify(b"ATAT+eventwlan"), None);
    assert_eq!(classify(b"OK"), None);
    assert_eq!(classify(b"error,1,x"), None);
}

#[test]
fn event_prefixes() {
    assert_eq!(Urc::StartUp.text(), "+eventstartup");
    assert_eq!(Urc::General.text(), "+eventgeneral");
    assert_eq!(Urc::Wlan.text(), "+eventwlan");
    assert_eq!(Urc::Socket.text(), "+eventsocket");
    assert_eq!(Urc::NetApp.text(), "+eventnetapp");
    assert_eq!(Urc::Mqtt.text(), "+eventmqtt");
    assert_eq!(Urc::Fatal.text(), "+eventfatalerror");
    assert_eq!(Urc::Custom.text(), "+eventcustom");
}

#[test]
fn each_line_goes_one_way() {
    let pending = || Some(Pending::open(&query(), 0));
    let (left, owed, timed_out, what) = dispatch(pending(), 0, b"OK", 50);
    assert!(left.is_none());
    assert_eq!(owed, 0);
    assert!(!timed_out);
    assert_eq!(what, Disposition::Resolved(Ok(Response::Data(Vec::new()))));
    let (left, owed, timed_out, what) = dispatch(pending(), 0, b"+get:5", 50);
    assert!(left.is_some());
    assert_eq!(owed, 0);
    assert!(!timed_out);
    assert_eq!(what, Disposition::Accepted);
    let (left, owed, _, what) = dispatch(pending(), 3, b"+eventmqtt", 50);
    assert!(left.is_some());
    assert_eq!(owed, 3);
    assert_eq!(what, Disposition::Urc(Urc::Mqtt));
    let (left, _, _, what) = dispatch(pending(), 0, b"garbage", 50);
    assert!(left.is_some());
    assert_eq!(what, Disposition::Noise);
    let (left, owed, timed_out, what) = dispatch(pending(), 0, b"OK", 101);
    assert!(left.is_none());
    assert_eq!(owed, 0);
    assert!(timed_out);
    assert_eq!(what, Disposition::Noise);
    let (left, owed, timed_out, what) = dispatch(pending(), 0, b"+eventmqtt", 101);
    assert!(left.is_none());
    assert_eq!(owed, 1);
    assert!(timed_out);
    assert_eq!(what, Disposition::Urc(Urc::Mqtt));
    let (left, owed, timed_out, what) = dispatch(None, 0, b"OK", 0);
    assert!(left.is_none());
    assert_eq!(owed, 0);
    assert!(!timed_out);
    assert_eq!(what, Disposition::Noise);
    let (_, _, _, what) = dispatch(None, 0, b"+eventwlan", 0);
    assert_eq!(what, Disposition::Urc(Urc::Wlan));
}

#[test]
fn owed_terminator_goes_before_the_pending_exchange() {
    let pending = || Some(Pending::open(&query(), 0));
    let (left, owed, timed_out, what) = dispatch(pending(), 2, b"OK", 50);
    assert!(left.is_some());
    assert_eq!(owed, 1);
    assert!(!timed_out);
    assert_eq!(what, Disposition::Noise);
    let (left, owed, _, what) = dispatch(pending(), 1, b"ATerror,1,x", 50);
    assert!(left.is_some());
    assert_eq!(owed, 0);
    assert_eq!(what, Disposition::Noise);
    let (left, owed, _, what) = dispatch(pending(), 1, b"+get:5", 50);
    assert!(left.is_some());
    assert_eq!(owed, 1);
    assert_eq!(what, Disposition::Accepted);
    let (left, owed, _, what) = dispatch(pending(), 1, b"+get:x", 50);
    assert!(left.is_none());
    assert_eq!(owed, 2);
    assert_eq!(
        what,
        Disposition::Resolved(Err(Error::Framing(FramingError::MalformedData)))
    );
    let (left, owed, _, what) = dispatch(None, 1, b"OK", 50);
    assert!(left.is_none());
    assert_eq!(owed, 0);
    assert_eq!(what, Disposition::Noise);
    let (_, owed, timed_out, what) = dispatch(pending(), usize::MAX, b"x", 101);
    assert_eq!(owed, usize::MAX);
    assert!(timed_out);
    assert_eq!(what, Disposition::Noise);
}

#[test]
fn exchange_takes_its_own_lines_before_the_events() {
    // a command whose data lines begin like an event keeps them
    let command = Command::new("+eventwlan").timeout_ms(100).response(vec![FieldKind {
        ty: FieldType::Token { capacity: 16 },
        optional: false,
    }]);
    let mut calypso = client();
    let subscriber = calypso.subscribe().unwrap();
    calypso.send(&command, 0).unwrap();
    assert_eq!(calypso.feed(b"+eventwlan:connect\r\n", 1), vec![Event::Accepted]);
    assert_eq!(calypso.next_urc(subscriber), None);
    assert_eq!(
        calypso.feed(b"OK\r\n", 2),
        vec![Event::Resolved(Response::Data(vec![vec![Argument::Token(b"connect".to_vec())]]))]
    );
    assert_eq!(calypso.feed(b"+eventwlan:connect\r\n", 3), vec![Event::Urc(Urc::Wlan)]);
    assert_eq!(calypso.next_urc(subscriber), Some(Urc::Wlan));
}

#[test]
fn full_queue_drops_its_oldest_event() {
    let mut channel = UrcChannel::new(2, 2);
    assert_eq!(channel.subscribe(), Some(0));
    channel.publish(Urc::StartUp);
    assert_eq!(channel.subscribe(), Some(1));
    assert_eq!(channel.subscribe(), None);
    channel.publish(Urc::Wlan);
    channel.publish(Urc::Mqtt);
    assert_eq!(channel.waiting(0), 2);
    assert_eq!(channel.waiting(1), 2);
    assert_eq!(channel.waiting(2), 0);
    assert_eq!(channel.next(0), Some(Urc::Wlan));
    assert_eq!(channel.next(0), Some(Urc::Mqtt));
    assert_eq!(channel.next(0), None);
    assert_eq!(channel.next(1), Some(Urc::Wlan));
    channel.publish(Urc::Fatal);
    assert_eq!(channel.next(1), Some(Urc::Mqtt));
    assert_eq!(channel.next(1), Some(Urc::Fatal));
    assert_eq!(channel.next(2), None);
}

#[test]
fn queue_without_room_keeps_nothing() {
    let mut channel = UrcChannel::new(0, 1);
    assert_eq!(channel.subscribe(), Some(0));
    channel.publish(Urc::StartUp);
    assert_eq!(channel.waiting(0), 0);
    assert_eq!(channel.next(0), None);
}

#[test]
fn slow_subscriber_does_not_hold_up_the_client() {
    let mut calypso = small(64);
    let slow = calypso.subscribe().unwrap();
    let quick = calypso.subscribe().unwrap();
    for line in [&b"+eventstartup\r\n"[..], b"+eventwlan\r\n", b"+eventmqtt\r\n"] {
        assert_eq!(calypso.feed(line, 0).len(), 1);
        assert!(calypso.next_urc(quick).is_some());
    }
    assert_eq!(calypso.next_urc(slow), Some(Urc::Wlan));
    assert_eq!(calypso.next_urc(slow), Some(Urc::Mqtt));
    assert_eq!(calypso.next_urc(slow), None);
}

#[test]
fn typed_requests_go_through_the_client() {
    let mut calypso = client();
    let get = Get { id: Text::from_str("wlan").unwrap(), option: Text::from_str("mac").unwrap() };
    assert_eq!(calypso.send(&get.command(), 0), Ok(b"AT+get=\"wlan\",\"mac\"\r\n".to_vec()));
    assert_eq!(calypso.feed(b"OK\r\n", 1), vec![Event::Resolved(Response::NoData)]);
    assert_eq!(calypso.send(&(Test {}).command(), 2), Ok(b"AT+test\r\n".to_vec()));
}

#[test]
fn lost_transport_fails_the_exchange_at_once() {
    let mut calypso = client();
    assert_eq!(calypso.transport_lost(), None);
    calypso.test(0).unwrap();
    assert!(calypso.poll(101));
    calypso.test(200).unwrap();
    assert_eq!(calypso.owed(), 1);
    assert_eq!(calypso.transport_lost(), Some(Error::Transport));
    assert!(!calypso.is_awaiting());
    assert_eq!(calypso.owed(), 0);
    assert_eq!(calypso.transport_lost(), None);
    assert_eq!(calypso.feed(b"OK\r\n", 1), vec![Event::Noise]);
}

#[test]
fn deadline_of_the_pending_exchange() {
    let mut calypso = client();
    assert_eq!(calypso.deadline(), None);
    calypso.test(250).unwrap();
    assert_eq!(calypso.deadline(), Some(350));
    calypso.feed(b"OK\r\n", 260);
    assert_eq!(calypso.deadline(), None);
    calypso.factory_reset(u64::MAX - 5).unwrap();
    assert_eq!(calypso.deadline(), Some(u64::MAX));
}
