use libosu::replay::{
    decompressing_action_parser, read_actions, Outcome, ReplayAction, ReplayActionParser, ReplayError,
};
use libosu::text::{FloatErrorKind, IntErrorKind};
use std::io::Write;

fn position(bytes: &[u8]) -> f32 {
    std::str::from_utf8(bytes).unwrap().parse::<f32>().unwrap()
}

#[test]
fn test_replay_action_parser() {
    let actions_text = "1|32.1|300.734|0,32|500.5123|0|10,-12345|0|0|734243";

    let mut parser = ReplayActionParser::new(actions_text.as_bytes().to_vec());
    let mut iter = parser.iter();
    let mut actions: Vec<ReplayAction> = Vec::new();
    while let Some(action) = iter.next() {
        actions.push(action.unwrap());
    }

    assert_eq!(actions.len(), 3);

    assert_eq!(actions[0].time, 1);
    assert_eq!(position(&actions[0].x), 32.1);
    assert_eq!(position(&actions[0].y), 300.734);
    assert_eq!(actions[0].buttons, 0);

    assert_eq!(actions[1].time, 32);
    assert_eq!(position(&actions[1].x), 500.5123);
    assert_eq!(position(&actions[1].y), 0.0);
    assert_eq!(actions[1].buttons, 10);

    assert_eq!(actions[2].time, -12345);
    assert_eq!(position(&actions[2].x), 0.0);
    assert_eq!(position(&actions[2].y), 0.0);
    assert_eq!(actions[2].buttons, 734243);
}

#[test]
fn replay_test_read_uleb128() {
    let num = [0xE5u8, 0x8E, 0x26];
    let mut reader = libosu::binary::ByteReader::new(&num);
    assert_eq!(reader.read_uleb128().unwrap(), 624485u128);
}

#[test]
fn replay_test_read_uleb128_string() {
    let text = "Hello World";
    let mut replay_string = vec![0x0Bu8];
    replay_string.push(text.len() as u8);
    replay_string.extend(text.bytes());

    let mut reader = libosu::binary::ByteReader::new(&replay_string);
    assert_eq!(reader.read_uleb128_string().unwrap(), text.to_string());

    let empty = vec![0x00u8];
    let mut reader_empty = libosu::binary::ByteReader::new(&empty);
    assert_eq!(reader_empty.read_uleb128_string().unwrap(), String::new());

    let zero_length = vec![0x0Bu8, 0x00];
    let mut reader_zero_length = libosu::binary::ByteReader::new(&zero_length);
    assert_eq!(reader_zero_length.read_uleb128_string().unwrap(), String::new());
}

#[test]
fn parser_gives_back_its_stream() {
    let parser = ReplayActionParser::new(b"1|2|3|4".to_vec());
    assert_eq!(parser.into_inner(), b"1|2|3|4".to_vec());
}

fn first_step(text: &[u8]) -> Option<Result<ReplayAction, ReplayError>> {
    let mut parser = ReplayActionParser::new(text.to_vec());
    let mut iter = parser.iter();
    assert!(!iter.peek_malformed());
    iter.next()
}

#[test]
fn action_coordinate_must_be_a_number() {
    assert!(matches!(
        first_step(b"1|abc|3|4"),
        Some(Err(ReplayError::ParseFloat(FloatErrorKind::Invalid)))
    ));
    assert!(matches!(
        first_step(b"1|2||4"),
        Some(Err(ReplayError::ParseFloat(FloatErrorKind::Empty)))
    ));
    // the last byte of a coordinate read up to the end is dropped, as a `|` would be
    assert!(matches!(
        first_step(b"1|2"),
        Some(Err(ReplayError::ParseFloat(FloatErrorKind::Empty)))
    ));
}

#[test]
fn action_time_and_buttons_must_be_integers() {
    assert!(matches!(
        first_step(b"x|2|3|4"),
        Some(Err(ReplayError::ParseInt(IntErrorKind::InvalidDigit)))
    ));
    assert!(matches!(
        first_step(b"1|2|3|-4"),
        Some(Err(ReplayError::ParseInt(IntErrorKind::InvalidDigit)))
    ));
    assert!(matches!(
        first_step(b"1|2|3|4294967296"),
        Some(Err(ReplayError::ParseInt(IntErrorKind::PosOverflow)))
    ));
}

#[test]
fn action_stream_ending_after_a_coordinate_is_malformed() {
    let mut parser = ReplayActionParser::new(b"1|2.5|".to_vec());
    let iter = parser.iter();
    assert!(iter.peek_malformed());
    assert!(matches!(read_actions(b"1|2.5|"), Err(Outcome::Malformed)));
    assert!(matches!(read_actions(b"12|"), Err(Outcome::Malformed)));
}

#[test]
fn read_actions_reads_all_in_order() {
    let actions = match read_actions(b"1|1e2|-3.5|1,2|inf|0|2,") {
        Ok(a) => a,
        Err(_) => panic!("the stream is well formed"),
    };
    assert_eq!(actions.len(), 2);
    assert_eq!(actions[0].x, b"1e2".to_vec());
    assert_eq!(actions[0].y, b"-3.5".to_vec());
    assert_eq!(actions[1].time, 2);
    assert_eq!(actions[1].x, b"inf".to_vec());
    assert_eq!(actions[1].buttons, 2);
    assert!(matches!(read_actions(b""), Ok(v) if v.is_empty()));
}

#[test]
fn decompressing_parser_reads_the_compressed_actions() {
    let opts = xz2::stream::LzmaOptions::new_preset(6).unwrap();
    let stream = xz2::stream::Stream::new_lzma_encoder(&opts).unwrap();
    let mut enc = xz2::write::XzEncoder::new_stream(Vec::new(), stream);
    enc.write_all(b"1|32.5|10|0,-12345|0|0|7").unwrap();
    let data = enc.finish().unwrap();

    let mut parser = decompressing_action_parser(&data).unwrap();
    let mut iter = parser.iter();
    let mut actions: Vec<ReplayAction> = Vec::new();
    while let Some(action) = iter.next() {
        actions.push(action.unwrap());
    }
    assert_eq!(actions.len(), 2);
    assert_eq!(position(&actions[0].x), 32.5);
    assert_eq!(actions[1].time, -12345);
    assert_eq!(actions[1].buttons, 7);
    assert_eq!(parser.into_inner(), b"1|32.5|10|0,-12345|0|0|7".to_vec());

    assert!(matches!(
        decompressing_action_parser(b"not an lzma stream"),
        Err(ReplayError::Decompress)
    ));
}
