use wurth_calypso::argument::{serialize, Argument};
use wurth_calypso::codec::{encode, Command, FieldKind, FieldType};
use wurth_calypso::MAX_LINE_SIZE;
use wurth_calypso::command::device::{Get, Stop, Test};
use wurth_calypso::error::{DecodeError, EncodingError};
use wurth_calypso::number::{parse, render, Radix};
use wurth_calypso::response::{decode, echo, Decoded};
use wurth_calypso::text::Text;

fn text(s: &str) -> Argument {
    Argument::Text(s.as_bytes().to_vec())
}

fn token(s: &str) -> Argument {
    Argument::Token(s.as_bytes().to_vec())
}

fn decimal(value: u32) -> Argument {
    Argument::Integer { value, radix: Radix::Decimal }
}

fn required(ty: FieldType) -> FieldKind {
    FieldKind { ty, optional: false }
}

fn optional(ty: FieldType) -> FieldKind {
    FieldKind { ty, optional: true }
}

fn number(max: u32) -> FieldType {
    FieldType::Integer { radix: Radix::Decimal, max }
}

#[test]
fn command_without_arguments_is_the_bare_prefix() {
    let line = encode(&(Test {}).command()).unwrap();
    assert_eq!(line, b"AT+test\r\n".to_vec());
}

#[test]
fn one_integer_argument_of_zero() {
    let line = encode(&(Stop { timeout: 0 }).command()).unwrap();
    assert_eq!(line, b"AT+stop=0\r\n".to_vec());
}

#[test]
fn decimal_rendering_has_no_leading_zeros() {
    assert_eq!(render(0, Radix::Decimal), b"0".to_vec());
    assert_eq!(render(7, Radix::Decimal), b"7".to_vec());
    assert_eq!(render(1460, Radix::Decimal), b"1460".to_vec());
    assert_eq!(render(u32::MAX, Radix::Decimal), b"4294967295".to_vec());
}

#[test]
fn hexadecimal_rendering_is_upper_case_without_prefix() {
    assert_eq!(render(0, Radix::Hexadecimal), b"0".to_vec());
    assert_eq!(render(255, Radix::Hexadecimal), b"FF".to_vec());
    assert_eq!(render(0x1a2b, Radix::Hexadecimal), b"1A2B".to_vec());
    assert_eq!(render(u32::MAX, Radix::Hexadecimal), b"FFFFFFFF".to_vec());
}

#[test]
fn integers_read_back() {
    assert_eq!(parse(b"0", Radix::Decimal, 255), Some(0));
    assert_eq!(parse(b"255", Radix::Decimal, 255), Some(255));
    assert_eq!(parse(b"4294967295", Radix::Decimal, u32::MAX), Some(u32::MAX));
    assert_eq!(parse(b"1A2B", Radix::Hexadecimal, u32::MAX), Some(0x1a2b));
    for value in [0u32, 9, 10, 99, 100, 65535, 65536, u32::MAX] {
        assert_eq!(parse(&render(value, Radix::Decimal), Radix::Decimal, u32::MAX), Some(value));
        assert_eq!(
            parse(&render(value, Radix::Hexadecimal), Radix::Hexadecimal, u32::MAX),
            Some(value)
        );
    }
}

#[test]
fn integers_that_do_not_read() {
    assert_eq!(parse(b"", Radix::Decimal, 255), None);
    assert_eq!(parse(b"256", Radix::Decimal, 255), None);
    assert_eq!(parse(b"007", Radix::Decimal, 255), None);
    assert_eq!(parse(b"00", Radix::Decimal, 255), None);
    assert_eq!(parse(b"-1", Radix::Decimal, 255), None);
    assert_eq!(parse(b"+1", Radix::Decimal, 255), None);
    assert_eq!(parse(b"1 ", Radix::Decimal, 255), None);
    assert_eq!(parse(b"FF", Radix::Decimal, 255), None);
    assert_eq!(parse(b"ff", Radix::Hexadecimal, 255), None);
    assert_eq!(parse(b"4294967296", Radix::Decimal, u32::MAX), None);
    assert_eq!(parse(b"99999999999999999999999", Radix::Decimal, u32::MAX), None);
    assert_eq!(parse(b"100000000", Radix::Hexadecimal, u32::MAX), None);
}

#[test]
fn fragments_of_each_kind() {
    assert_eq!(serialize(&decimal(42), 0, true), Ok(b"42".to_vec()));
    assert_eq!(serialize(&text("abc"), 0, false), Ok(b"abc".to_vec()));
    assert_eq!(serialize(&text("abc"), 0, true), Ok(b"\"abc\"".to_vec()));
    assert_eq!(serialize(&text(""), 0, true), Ok(b"\"\"".to_vec()));
    assert_eq!(serialize(&token("STA"), 0, true), Ok(b"STA".to_vec()));
    assert_eq!(serialize(&Argument::Absent, 0, true), Ok(Vec::new()));
}

#[test]
fn quoted_text_is_escaped() {
    assert_eq!(serialize(&text("a\"b"), 0, true), Ok(b"\"a\\\"b\"".to_vec()));
    assert_eq!(serialize(&text("a\\b"), 0, true), Ok(b"\"a\\\\b\"".to_vec()));
    assert_eq!(serialize(&text("a,b"), 0, true), Ok(b"\"a,b\"".to_vec()));
}

#[test]
fn what_cannot_be_written_is_refused_with_its_position() {
    let refused = Err(EncodingError::Unencodable { position: 3 });
    assert_eq!(serialize(&text("a,b"), 3, false), refused);
    assert_eq!(serialize(&text("a\"b"), 3, false), refused);
    assert_eq!(serialize(&text("a\rb"), 3, false), refused);
    assert_eq!(serialize(&text("a\nb"), 3, true), refused);
    assert_eq!(serialize(&token("a,b"), 3, true), refused);
    assert_eq!(serialize(&token("a\"b"), 3, true), refused);
}

#[test]
fn first_unencodable_argument_is_reported() {
    let command = Command::new("+x")
        .quoting(false)
        .argument(text("fine"))
        .argument(text("not,fine"))
        .argument(text("nor\nthis"));
    assert_eq!(encode(&command), Err(EncodingError::Unencodable { position: 1 }));
}

#[test]
fn prefix_with_a_line_break_is_refused() {
    assert_eq!(encode(&Command::new("+te\rst")), Err(EncodingError::InvalidPrefix));
    assert_eq!(encode(&Command::new("+te\nst")), Err(EncodingError::InvalidPrefix));
}

#[test]
fn line_length_is_limited() {
    let limit = MAX_LINE_SIZE as usize;
    // marker, prefix, `=` and terminator take 7 bytes
    let fits = vec![b'a'; limit - 7];
    let line = encode(&Command::new("+x").quoting(false).argument(Argument::Text(fits))).unwrap();
    assert_eq!(line.len(), limit);
    let over = vec![b'a'; limit - 6];
    assert_eq!(
        encode(&Command::new("+x").quoting(false).argument(Argument::Text(over))),
        Err(EncodingError::LineTooLong)
    );
}

#[test]
fn arguments_are_joined_by_commas() {
    let command = Command::new("+bind")
        .argument(decimal(1))
        .argument(text("INET"))
        .argument(decimal(8080))
        .argument(text("10.0.0.1"));
    assert_eq!(encode(&command).unwrap(), b"AT+bind=1,\"INET\",8080,\"10.0.0.1\"\r\n".to_vec());
}

#[test]
fn trailing_absent_arguments_are_dropped() {
    let short = Command::new("+c").quoting(false).argument(text("a")).argument(decimal(2));
    let long = Command::new("+c")
        .quoting(false)
        .argument(text("a"))
        .argument(decimal(2))
        .argument(Argument::Absent)
        .argument(Argument::Absent);
    assert_eq!(encode(&short).unwrap(), b"AT+c=a,2\r\n".to_vec());
    assert_eq!(encode(&long), encode(&short));
}

#[test]
fn absent_argument_before_a_present_one_leaves_an_empty_field() {
    let command = Command::new("+c")
        .quoting(false)
        .argument(text("a"))
        .argument(Argument::Absent)
        .argument(Argument::Absent)
        .argument(decimal(2))
        .argument(Argument::Absent);
    assert_eq!(encode(&command).unwrap(), b"AT+c=a,,,2\r\n".to_vec());
}

#[test]
fn only_absent_arguments_give_the_bare_prefix() {
    let command = Command::new("+c").argument(Argument::Absent).argument(Argument::Absent);
    assert_eq!(encode(&command).unwrap(), b"AT+c\r\n".to_vec());
}

#[test]
fn only_empty_fragments_give_the_bare_prefix() {
    let command = Command::new("+c").quoting(false).argument(text("")).argument(text(""));
    assert_eq!(encode(&command).unwrap(), b"AT+c\r\n".to_vec());
    let quoted = Command::new("+c").argument(text(""));
    assert_eq!(encode(&quoted).unwrap(), b"AT+c=\"\"\r\n".to_vec());
}

#[test]
fn quoting_command_quotes_its_texts() {
    let get = Get { id: Text::from_str("wlan").unwrap(), option: Text::from_str("mac\"x").unwrap() };
    assert_eq!(encode(&get.command()).unwrap(), b"AT+get=\"wlan\",\"mac\\\"x\"\r\n".to_vec());
}

#[test]
fn builder_keeps_what_it_is_given() {
    let shape = vec![required(number(255))];
    let command = Command::new("+q")
        .argument(decimal(5))
        .quoting(false)
        .timeout_ms(250)
        .response(shape.clone());
    assert_eq!(command.prefix(), b"+q");
    assert_eq!(command.arguments(), &vec![decimal(5)]);
    assert!(!command.is_quoting());
    assert_eq!(command.timeout(), 250);
    assert_eq!(command.shape(), &shape);
    let plain = Command::new("+q");
    assert!(plain.is_quoting());
    assert_eq!(plain.timeout(), 1000);
    assert!(plain.shape().is_empty());
}

#[test]
fn success_terminator_decodes() {
    let none: Vec<FieldKind> = Vec::new();
    assert_eq!(decode(b"OK", b"+test", &none, true), Ok(Decoded::Success));
    assert_eq!(decode(b"ATOK", b"+test", &none, true), Ok(Decoded::Success));
    assert_eq!(decode(b"ok", b"+test", &none, true), Err(DecodeError::Unrecognized));
    assert_eq!(decode(b"OK ", b"+test", &none, true), Err(DecodeError::Unrecognized));
    assert_eq!(decode(b"", b"+test", &none, true), Err(DecodeError::Unrecognized));
}

#[test]
fn error_terminator_decodes_with_code_and_description() {
    let none: Vec<FieldKind> = Vec::new();
    assert_eq!(
        decode(b"error,17,no such socket", b"+close", &none, true),
        Ok(Decoded::Failure { code: 17, description: b"no such socket".to_vec() })
    );
    assert_eq!(
        decode(b"ATerror,0,a,b", b"+close", &none, true),
        Ok(Decoded::Failure { code: 0, description: b"a,b".to_vec() })
    );
    assert_eq!(
        decode(b"error,3,", b"+close", &none, true),
        Ok(Decoded::Failure { code: 3, description: Vec::new() })
    );
}

#[test]
fn error_terminator_without_code_or_description_is_malformed() {
    let none: Vec<FieldKind> = Vec::new();
    for line in [&b"error"[..], b"error,", b"error,5", b"error,x,y", b"error:5,y", b"errors", b"error,,y"]
    {
        assert_eq!(decode(line, b"+close", &none, true), Err(DecodeError::MalformedTerminator));
    }
}

#[test]
fn data_line_is_read_by_position() {
    let shape = vec![
        required(number(255)),
        required(FieldType::Text { capacity: 8 }),
        required(FieldType::Token { capacity: 8 }),
    ];
    assert_eq!(
        decode(b"+get:7,\"a,b\",STA", b"+get", &shape, true),
        Ok(Decoded::Data(vec![decimal(7), text("a,b"), token("STA")]))
    );
    assert_eq!(
        decode(b"AT+get:7,ab,STA", b"+get", &shape, false),
        Ok(Decoded::Data(vec![decimal(7), text("ab"), token("STA")]))
    );
}

#[test]
fn data_line_with_wrong_fields_is_malformed() {
    let shape = vec![required(number(255)), required(FieldType::Text { capacity: 3 })];
    let bad: [&[u8]; 9] = [
        b"+get:7",
        b"+get:7,ab,1",
        b"+get:x,ab",
        b"+get:256,ab",
        b"+get:7,abcd",
        b"+get:7,\"ab",
        b"+get:7,\"ab\"x",
        b"+get:,ab",
        b"+get:",
    ];
    for line in bad {
        assert_eq!(decode(line, b"+get", &shape, line.contains(&b'"')), Err(DecodeError::MalformedData));
    }
    let none: Vec<FieldKind> = Vec::new();
    assert_eq!(decode(b"+get:1", b"+get", &none, true), Err(DecodeError::MalformedData));
}

#[test]
fn line_of_another_command_is_not_recognized() {
    let shape = vec![required(number(255))];
    assert_eq!(decode(b"+set:7", b"+get", &shape, true), Err(DecodeError::Unrecognized));
    assert_eq!(decode(b"+get", b"+get", &shape, true), Err(DecodeError::Unrecognized));
    assert_eq!(decode(b"+eventwlan:x", b"+get", &shape, true), Err(DecodeError::Unrecognized));
}

#[test]
fn optional_fields_may_be_empty_or_missing() {
    let shape = vec![
        required(number(255)),
        optional(FieldType::Text { capacity: 8 }),
        optional(number(65535)),
    ];
    assert_eq!(
        decode(b"+get:1", b"+get", &shape, true),
        Ok(Decoded::Data(vec![decimal(1), Argument::Absent, Argument::Absent]))
    );
    assert_eq!(
        decode(b"+get:1,,9", b"+get", &shape, true),
        Ok(Decoded::Data(vec![decimal(1), Argument::Absent, decimal(9)]))
    );
    assert_eq!(
        decode(b"+get:1,\"\"", b"+get", &shape, true),
        Ok(Decoded::Data(vec![decimal(1), text(""), Argument::Absent]))
    );
}

#[test]
fn echo_writes_the_data_line() {
    let row = vec![decimal(7), text("a\"b"), Argument::Absent, token("STA"), Argument::Absent];
    assert_eq!(echo(b"+get", &row, true), Ok(b"AT+get:7,\"a\\\"b\",,STA".to_vec()));
    assert_eq!(
        echo(b"+get", &vec![text("a,b")], false),
        Err(EncodingError::Unencodable { position: 0 })
    );
}

#[test]
fn decoding_an_echo_gives_the_row_back() {
    let shape = vec![
        required(number(255)),
        required(FieldType::Text { capacity: 16 }),
        optional(FieldType::Text { capacity: 16 }),
        required(FieldType::Integer { radix: Radix::Hexadecimal, max: u32::MAX }),
        optional(FieldType::Token { capacity: 4 }),
        optional(number(9)),
    ];
    let rows = vec![
        vec![
            decimal(0),
            text("with \"quotes\", \\ and commas"[..16].trim_end()),
            Argument::Absent,
            Argument::Integer { value: 0xdead_beef, radix: Radix::Hexadecimal },
            token("AP"),
            decimal(9),
        ],
        vec![
            decimal(255),
            text(""),
            text(","),
            Argument::Integer { value: 0, radix: Radix::Hexadecimal },
            Argument::Absent,
            Argument::Absent,
        ],
    ];
    for row in rows {
        let line = echo(b"+get", &row, true).unwrap();
        assert_eq!(decode(&line, b"+get", &shape, true), Ok(Decoded::Data(row)));
    }
    let plain = vec![decimal(3), text("ab"), text("c"), Argument::Integer { value: 16, radix: Radix::Hexadecimal }, Argument::Absent, Argument::Absent];
    let line = echo(b"+get", &plain, false).unwrap();
    assert_eq!(line, b"AT+get:3,ab,c,10".to_vec());
    assert_eq!(decode(&line, b"+get", &shape, false), Ok(Decoded::Data(plain)));
}

#[test]
fn text_keeps_to_its_capacity() {
    assert_eq!(Text::<3>::from_str("abc").unwrap().as_bytes(), b"abc");
    assert_eq!(Text::<3>::from_str("abcd"), Err(EncodingError::CapacityExceeded));
    assert_eq!(Text::<3>::from_bytes(b"abcd"), Err(EncodingError::CapacityExceeded));
    // two bytes each in UTF-8
    assert_eq!(Text::<3>::from_str("\u{e9}\u{e9}"), Err(EncodingError::CapacityExceeded));
    let t = Text::<8>::from_bytes(b"abc").unwrap();
    assert_eq!(t.len(), 3);
    assert_eq!(t.capacity(), 8);
    assert!(!t.is_empty());
    assert!(Text::<8>::new().is_empty());
    assert_eq!(t.clone(), t);
    assert_eq!(t.to_argument(), text("abc"));
}
