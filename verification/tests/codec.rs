use ceolmund::file_reader::FileReader;
use ceolmund::file_writer::FileWriter;
use ceolmund::error::Error;

#[test]
fn integer_round_trips() {
    let mut w = FileWriter::new();
    w.push_u8(0xab);
    w.push_u16(0x1234);
    w.push_u32(0xdeadbeef);
    w.push_u64(0x0123456789abcdef);
    w.push_i64(-42);
    w.push_world_pos([-5, 7000000000]);
    let bytes = w.write_to_vec().unwrap();
    // The body must not begin with four zero bytes, so it frames as current.
    let (mut r, is_v0) = FileReader::from_bytes(bytes).unwrap();
    assert!(!is_v0);
    assert_eq!(r.read_u8().unwrap(), 0xab);
    assert_eq!(r.read_u16().unwrap(), 0x1234);
    assert_eq!(r.read_u32().unwrap(), 0xdeadbeef);
    assert_eq!(r.read_u64().unwrap(), 0x0123456789abcdef);
    assert_eq!(r.read_i64().unwrap(), -42);
    assert_eq!(r.read_world_pos().unwrap(), [-5, 7000000000]);
    assert!(matches!(r.read_u8(), Err(Error::OutOfBoundsFileRead)));
}

#[test]
fn little_endian_layout() {
    let mut w = FileWriter::new();
    w.push_u32(0x01020304);
    assert_eq!(w.data, vec![0x04, 0x03, 0x02, 0x01]);
}

#[test]
fn string_round_trip() {
    let mut w = FileWriter::new();
    w.push_u32(1); // keep the framing away from the legacy layout
    w.push_string(&String::from("héllo wörld"));
    w.push_str("second");
    let bytes = w.write_to_vec().unwrap();
    let (mut r, is_v0) = FileReader::from_bytes(bytes).unwrap();
    assert!(!is_v0);
    r.read_u32().unwrap();
    assert_eq!(r.read_string().unwrap(), "héllo wörld");
    assert_eq!(r.read_string().unwrap(), "second");
}

#[test]
fn unterminated_string_is_an_error() {
    let (mut r, _) = FileReader::from_bytes(vec![1, 0, 0, 1, b'h', b'i']).unwrap();
    r.read_u32().unwrap();
    assert!(matches!(r.read_string(), Err(Error::UnterminatedStringRead)));
}

#[test]
fn invalid_utf8_is_an_error() {
    let (mut r, _) = FileReader::from_bytes(vec![1, 0, 0, 1, 0xff, 0xfe, 0]).unwrap();
    r.read_u32().unwrap();
    assert!(matches!(r.read_string(), Err(Error::InvalidUTF8InString)));
}

#[test]
fn legacy_framing_detected() {
    // First four bytes zero: legacy framing with a string table at the
    // recorded offset. Header is eight bytes; the body runs from there.
    let bytes = vec![
        0, 0, 0, 0, // version marker
        11, 0, 0, 0, // string table offset
        7, 8, 9, // body bytes
        b'o', b'k', 0, // string table
    ];
    let (mut r, is_v0) = FileReader::from_bytes(bytes).unwrap();
    assert!(is_v0);
    assert_eq!(r.read_u8().unwrap(), 7);
    assert_eq!(r.get_string_v0(0).unwrap(), "ok");
    assert!(r.get_string_v0(100).is_none());
}

#[test]
fn too_short_files_are_refused() {
    assert!(FileReader::from_bytes(vec![1, 2]).is_err());
    assert!(FileReader::from_bytes(vec![0, 0, 0, 0, 1]).is_err());
}

#[test]
fn get_string_reports_consumed_length() {
    let mut w = FileWriter::new();
    w.push_u32(1);
    w.push_str("ab");
    let bytes = w.write_to_vec().unwrap();
    let (r, _) = FileReader::from_bytes(bytes).unwrap();
    let (s, consumed) = r.get_string(4).unwrap();
    assert_eq!(s, "ab");
    assert_eq!(consumed, 3);
}
