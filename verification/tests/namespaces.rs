use ceolmund::file_reader::FileReader;
use ceolmund::file_writer::FileWriter;
use ceolmund::namespace::{build_namespace, namespace_blob_file_name, Namespace};
use ceolmund::tile::{Tile, TileVariant};
use ceolmund::tile_stack::TileStack;

fn current_namespace() -> Namespace {
    let (blob, _) = build_namespace().unwrap();
    let (mut reader, is_v0) = FileReader::from_bytes(blob).unwrap();
    assert!(!is_v0);
    Namespace::load(&mut reader, false).unwrap()
}

#[test]
fn blob_round_trip_gives_build_tables() {
    let ns = current_namespace();
    assert_eq!(ns.version, 1);
    assert_eq!(ns.tiles, TileVariant::all_variants());
    assert_eq!(ns.tiles[0], TileVariant::Empty);
    assert_eq!(ns.items.len(), 16);
    assert_eq!(ns.entities.len(), 1);
    assert_eq!(ns.direction_4s.len(), 4);
    assert_eq!(ns.entity_action_states.len(), 2);
    assert_eq!(ns.difficulties.len(), 4);
}

#[test]
fn namespace_hash_matches_the_crc() {
    let (blob, hash) = build_namespace().unwrap();
    assert_eq!(hash, crc64::crc64(0, blob.as_slice()));
    assert_ne!(hash & 0xffffffff, 0);
}

#[test]
fn blob_file_name_is_padded_hex() {
    assert_eq!(namespace_blob_file_name(0xff), "00000000000000ff.nsp");
    assert_eq!(
        namespace_blob_file_name(0x0123456789abcdef),
        "0123456789abcdef.nsp"
    );
}

#[test]
fn future_version_is_refused() {
    let mut w = FileWriter::new();
    w.push_u32(2);
    w.push_u8(0);
    let (mut reader, _) = FileReader::from_bytes(w.data).unwrap();
    assert!(Namespace::load(&mut reader, false).is_none());
}

#[test]
fn unknown_symbol_name_fails_the_load() {
    let mut w = FileWriter::new();
    w.push_u32(1);
    w.push_str("tile");
    w.push_str("no_such_tile");
    w.push_u8(0);
    w.push_u8(0);
    let (mut reader, _) = FileReader::from_bytes(w.data).unwrap();
    assert!(Namespace::load(&mut reader, false).is_none());
}

// A tile id recorded under a blob keeps its symbolic kind when the blob is
// reused, whatever order this build lists its own variants in: the blob's
// table alone translates the id.
#[test]
fn reordered_blob_keeps_symbolic_identity() {
    let mut w = FileWriter::new();
    w.push_u32(1);
    w.push_str("tile");
    w.push_str("none");
    w.push_str("water"); // id 1 means water under this blob
    w.push_str("grass"); // id 2 means grass under this blob
    w.push_u8(0);
    w.push_u8(0);
    let (mut reader, _) = FileReader::from_bytes(w.data).unwrap();
    let ns = Namespace::load(&mut reader, false).unwrap();
    assert_eq!(ns.tiles, vec![TileVariant::Empty, TileVariant::Water, TileVariant::Grass]);

    // A stack record saved under that blob: one layer with id 1, then the
    // terminator id 0.
    let (mut record, _) = FileReader::from_bytes(vec![9, 9, 9, 9, 1, 0]).unwrap();
    record.read_u32().unwrap();
    let mut stack = TileStack::new();
    stack.deserialize(&mut record, &ns, ns.version).unwrap();
    assert_eq!(stack.tiles, vec![Tile::Water]);
}

#[test]
fn repeated_categories_append() {
    let mut w = FileWriter::new();
    w.push_u32(1);
    w.push_str("tile");
    w.push_str("none");
    w.push_u8(0);
    w.push_str("tile");
    w.push_str("grass");
    w.push_u8(0);
    w.push_u8(0);
    let (mut reader, _) = FileReader::from_bytes(w.data).unwrap();
    let ns = Namespace::load(&mut reader, false).unwrap();
    assert_eq!(ns.tiles, vec![TileVariant::Empty, TileVariant::Grass]);
}

#[test]
fn legacy_namespace_layout_loads() {
    // Legacy framing: [0u32][string table offset], then the body holds
    // four-byte pointers into the string table, all-ones terminated.
    let mut strings: Vec<u8> = Vec::new();
    strings.extend(b"tile\0");
    strings.extend(b"none\0");
    strings.extend(b"grass\0");
    let mut bytes: Vec<u8> = Vec::new();
    bytes.extend(&0u32.to_le_bytes());
    let body_len = 4 * 5; // cat ptr, two name ptrs, two terminators
    bytes.extend(&((8 + body_len) as u32).to_le_bytes());
    bytes.extend(&0u32.to_le_bytes()); // "tile"
    bytes.extend(&5u32.to_le_bytes()); // "none"
    bytes.extend(&10u32.to_le_bytes()); // "grass"
    bytes.extend(&0xffffffffu32.to_le_bytes()); // end of names
    bytes.extend(&0xffffffffu32.to_le_bytes()); // end of categories
    bytes.extend(&strings);
    let (mut reader, is_v0) = FileReader::from_bytes(bytes).unwrap();
    assert!(is_v0);
    let ns = Namespace::load(&mut reader, true).unwrap();
    assert_eq!(ns.version, 0);
    assert_eq!(ns.tiles, vec![TileVariant::Empty, TileVariant::Grass]);
}
