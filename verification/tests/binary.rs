use libosu::binary::{ByteReader, Error, WriteBytesOsu};

#[test]
fn binary_test_read_uleb128() {
    let num = [0xE5u8, 0x8E, 0x26];
    let mut reader = ByteReader::new(&num);
    assert_eq!(reader.read_uleb128().unwrap(), 624485);
}

#[test]
fn test_write_uleb128() {
    let mut buf: Vec<u8> = Vec::new();
    buf.write_uleb128(624485).unwrap();
    assert_eq!(buf, [0xe5, 0x8e, 0x26]);
}

#[test]
fn binary_test_read_uleb128_string() {
    let text = "Hello World";
    let mut replay_string = vec![0x0Bu8];
    replay_string.push(text.len() as u8);
    replay_string.extend(text.bytes());

    let mut reader = ByteReader::new(&replay_string);
    assert_eq!(reader.read_uleb128_string().unwrap(), text.to_string());

    let empty = vec![0x00u8];
    let mut reader_empty = ByteReader::new(&empty);
    assert_eq!(reader_empty.read_uleb128_string().unwrap(), String::new());

    let zero_len = vec![0x0Bu8, 0x00];
    let mut reader_0_len = ByteReader::new(&zero_len);
    assert_eq!(reader_0_len.read_uleb128_string().unwrap(), String::new());
}

#[test]
fn test_write_uleb128_string() {
    let mut buf: Vec<u8> = Vec::new();
    buf.write_uleb128_string("Hello, world!").unwrap();
    assert_eq!(buf, b"\x0b\x0dHello, world!");
}

#[test]
fn uleb128_write_then_read_gives_back_the_number() {
    for n in [0u128, 1, 127, 128, 300, 624485, 1 << 40] {
        let mut buf: Vec<u8> = Vec::new();
        buf.write_uleb128(n).unwrap();
        let mut reader = ByteReader::new(&buf);
        assert_eq!(reader.read_uleb128().unwrap(), n);
        assert_eq!(reader.pos(), buf.len());
    }
}

#[test]
fn uleb128_of_zero_is_one_zero_byte() {
    let mut buf: Vec<u8> = vec![7];
    buf.write_uleb128(0).unwrap();
    assert_eq!(buf, vec![7, 0]);
}

#[test]
fn string_write_then_read_gives_back_the_text() {
    for text in ["", "a", "Hello, world!", "ünïcödé"] {
        let mut buf: Vec<u8> = Vec::new();
        buf.write_uleb128_string(text).unwrap();
        let mut reader = ByteReader::new(&buf);
        assert_eq!(reader.read_uleb128_string().unwrap(), text.to_string());
    }
}

#[test]
fn little_endian_reads() {
    let data = [0x01u8, 0x02, 0x03, 0x04, 0x05, 0x06, 0x07, 0x08, 0xff, 0xff, 0xff, 0xff];
    let mut reader = ByteReader::new(&data);
    assert_eq!(reader.read_u16_le().unwrap(), 0x0201);
    assert_eq!(reader.read_u16_le().unwrap(), 0x0403);
    let mut reader = ByteReader::new(&data);
    assert_eq!(reader.read_u32_le().unwrap(), 0x04030201);
    assert_eq!(reader.read_u64_le().unwrap(), 0xffffffff08070605);
    let mut reader = ByteReader::at(&data, 8);
    assert_eq!(reader.read_i32_le().unwrap(), -1);
    assert_eq!(reader.read_u8(), Err(Error::UnexpectedEof));
}

#[test]
fn string_errors() {
    let bad_status = [0x05u8, 0x00];
    let mut reader = ByteReader::new(&bad_status);
    assert_eq!(reader.read_uleb128_string(), Err(Error::InvalidStringStatusChar(0x05)));

    let short = [0x0Bu8, 0x05, b'a'];
    let mut reader = ByteReader::new(&short);
    assert_eq!(reader.read_uleb128_string(), Err(Error::UnexpectedEof));

    let bad_utf8 = [0x0Bu8, 0x01, 0xff];
    let mut reader = ByteReader::new(&bad_utf8);
    assert_eq!(reader.read_uleb128_string(), Err(Error::Utf8));

    let unterminated = [0x80u8, 0x80];
    let mut reader = ByteReader::new(&unterminated);
    assert_eq!(reader.read_uleb128(), Err(Error::UnexpectedEof));

    let too_long = [0x80u8; 11];
    let mut reader = ByteReader::new(&too_long);
    assert_eq!(reader.read_uleb128(), Err(Error::UlebOverflow));
}
