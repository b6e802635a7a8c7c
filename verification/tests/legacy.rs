use ceolmund::formatted_file_reader::FormattedFileReader;
use ceolmund::game_key::{GameKey, GAME_KEY_COUNT};
use ceolmund::formatted_file_writer::FormattedFileWriter;
use ceolmund::gui_rect::GUIRect;

#[test]
fn formatted_writer_interns_strings() {
    let mut w = FormattedFileWriter::new();
    let a = w.push_string(&String::from("hello")).unwrap();
    let b = w.push_string(&String::from("world")).unwrap();
    let again = w.push_string(&String::from("hello")).unwrap();
    assert_eq!(a, 0);
    assert_eq!(b, 6);
    assert_eq!(again, a);
    // A string that is a window of an existing one is reused too.
    let tail = w.push_string(&String::from("ello")).unwrap();
    assert_eq!(tail, 1);
}

#[test]
fn formatted_round_trip() {
    let mut w = FormattedFileWriter::new();
    w.body.push(42);
    w.body.push(7);
    let pos = w.push_string(&String::from("name")).unwrap();
    let bytes = w.write_to_vec().unwrap();
    let (r, is_version_0) = FormattedFileReader::from_bytes(bytes).unwrap();
    assert!(!is_version_0);
    assert_eq!(r.body, vec![42, 7]);
    assert_eq!(r.get_string(pos).unwrap(), "name");
    assert!(r.get_string(100).is_none());
}

#[test]
fn formatted_reader_handles_oldest_framing() {
    let mut bytes: Vec<u8> = Vec::new();
    bytes.extend(&0u32.to_le_bytes());
    bytes.extend(&11u32.to_le_bytes()); // string table offset
    bytes.extend(&[1, 2, 3]); // body
    bytes.extend(b"ok\0");
    let (r, is_version_0) = FormattedFileReader::from_bytes(bytes).unwrap();
    assert!(is_version_0);
    assert_eq!(r.body, vec![1, 2, 3]);
    assert_eq!(r.get_string(0).unwrap(), "ok");
}

#[test]
fn rect_arithmetic_saturates() {
    let r = GUIRect::new(10, 20, 30, 40);
    assert_eq!(r.get_end(), [40, 60]);
    let near_edge = GUIRect::new(0x7ffe, 0, 10, 1);
    assert_eq!(near_edge.get_end(), [0x7fff, 1]);
    let scrolled = r.scrolled([-15, 0x7fff]);
    assert_eq!(scrolled.pos, [-5, 0x7fff]);
    assert_eq!(scrolled.size, [30, 40]);
}

#[test]
fn rect_overlap_clips() {
    let a = GUIRect::new(0, 0, 10, 10);
    let b = GUIRect::new(5, 5, 10, 10);
    let o = a.overlap(b);
    assert_eq!(o.pos, [5, 5]);
    assert_eq!(o.size, [5, 5]);
    let disjoint = a.overlap(GUIRect::new(20, 20, 3, 3));
    assert_eq!(disjoint.size, [0, 0]);
}

#[test]
fn rect_outline_shrinks() {
    let r = GUIRect::new(1, 1, 8, 2).without_outline();
    assert_eq!(r.pos, [2, 2]);
    assert_eq!(r.size, [6, 0]);
    let tiny = GUIRect::new(0, 0, 1, 1).without_outline();
    assert_eq!(tiny.size, [0, 0]);
}

#[test]
fn game_key_ids_are_distinct_slots() {
    assert_eq!(GameKey::WalkNorth.get_id(), 0);
    assert_eq!(GameKey::OpenCraftingMenu.get_id(), GAME_KEY_COUNT - 1);
    assert_ne!(GameKey::Interact.get_id(), GameKey::Turbo.get_id());
}

#[test]
fn bit_order_matches_float_order() {
    let bits = |v: f64| v.to_bits();
    assert!(ceolmund::worldgen::f64_bits_lt(bits(-0.5), bits(-0.1)));
    assert!(ceolmund::worldgen::f64_bits_lt(bits(-0.1), bits(0.0)));
    assert!(ceolmund::worldgen::f64_bits_lt(bits(0.0), bits(0.1)));
    assert!(ceolmund::worldgen::f64_bits_lt(bits(0.25), bits(0.9)));
    assert!(!ceolmund::worldgen::f64_bits_lt(bits(0.9), bits(0.9)));
    assert!(!ceolmund::worldgen::f64_bits_lt(bits(0.0), bits(-0.0)));
    assert!(!ceolmund::worldgen::f64_bits_lt(bits(-0.0), bits(0.0)));
    assert_eq!(ceolmund::worldgen::BITS_NEG_0_1, bits(-0.1));
    assert_eq!(ceolmund::worldgen::BITS_POS_0_9, bits(0.9));
}
