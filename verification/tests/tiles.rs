use ceolmund::error::Error;
use ceolmund::file_reader::FileReader;
use ceolmund::file_writer::FileWriter;
use ceolmund::item::Item;
use ceolmund::item_drop::ItemDrop;
use ceolmund::namespace::{build_namespace, Namespace};
use ceolmund::tile::Tile;
use ceolmund::tile_movement_type::TileMovementType;
use ceolmund::tile_stack::TileStack;

fn current_namespace() -> Namespace {
    let (blob, _) = build_namespace().unwrap();
    let (mut reader, _) = FileReader::from_bytes(blob).unwrap();
    Namespace::load(&mut reader, false).unwrap()
}

fn reader_over(record: Vec<u8>) -> FileReader {
    // Prefix four nonzero bytes so the framing is the current one, then
    // skip them.
    let mut bytes = vec![9, 9, 9, 9];
    bytes.extend(record);
    let (mut r, _) = FileReader::from_bytes(bytes).unwrap();
    r.read_u32().unwrap();
    r
}

#[test]
fn simple_tile_record_is_one_ordinal_byte() {
    let mut w = FileWriter::new();
    Tile::Grass.serialize(&mut w);
    assert_eq!(w.data, vec![1]);
    let mut w2 = FileWriter::new();
    Tile::Sand.serialize(&mut w2);
    assert_eq!(w2.data, vec![11]);
}

#[test]
fn payload_tile_record_nests_the_item() {
    let mut w = FileWriter::new();
    Tile::DroppedItemStack(Box::new(Item::Rock), 0x0201).serialize(&mut w);
    // tile id 12, item id 6, count 0x0201 little endian
    assert_eq!(w.data, vec![12, 6, 1, 2]);
}

#[test]
fn stack_record_ends_with_the_reserved_id() {
    let mut w = FileWriter::new();
    let stack = TileStack { tiles: vec![Tile::Grass, Tile::Flowers], needs_redrawing: true };
    stack.serialize(&mut w);
    assert_eq!(w.data, vec![1, 6, 0]);
}

#[test]
fn round_trip_empty_stack() {
    let ns = current_namespace();
    let stack = TileStack::new();
    let mut w = FileWriter::new();
    stack.serialize(&mut w);
    let mut r = reader_over(w.data);
    let mut back = TileStack::new();
    back.deserialize(&mut r, &ns, ns.version).unwrap();
    assert!(back.tiles.is_empty());
}

#[test]
fn round_trip_single_layer() {
    let ns = current_namespace();
    let stack = TileStack { tiles: vec![Tile::PineTree], needs_redrawing: false };
    let mut w = FileWriter::new();
    stack.serialize(&mut w);
    let mut r = reader_over(w.data);
    let mut back = TileStack::new();
    back.deserialize(&mut r, &ns, ns.version).unwrap();
    assert_eq!(back.tiles, vec![Tile::PineTree]);
}

#[test]
fn round_trip_layered_with_boxed_payload() {
    let ns = current_namespace();
    let tiles = vec![
        Tile::Grass,
        Tile::DroppedItemStack(Box::new(Item::Tile(Tile::Flowers)), 17),
        Tile::Item(Box::new(Item::PineCone)),
    ];
    let stack = TileStack { tiles: tiles.clone(), needs_redrawing: true };
    let mut w = FileWriter::new();
    stack.serialize(&mut w);
    let mut r = reader_over(w.data);
    let mut back = TileStack::new();
    back.deserialize(&mut r, &ns, ns.version).unwrap();
    assert_eq!(back.tiles, tiles);
}

#[test]
fn unknown_id_fails_the_read() {
    let ns = current_namespace();
    let mut r = reader_over(vec![200, 0]);
    let mut back = TileStack::new();
    assert!(matches!(
        back.deserialize(&mut r, &ns, ns.version),
        Err(Error::IDOutOfNamespaceBounds)
    ));
}

#[test]
fn truncated_record_fails_the_read() {
    let ns = current_namespace();
    let mut r = reader_over(vec![1, 6]); // two layers, no terminator
    let mut back = TileStack::new();
    assert!(matches!(
        back.deserialize(&mut r, &ns, ns.version),
        Err(Error::OutOfBoundsFileRead)
    ));
}

#[test]
fn movement_classification() {
    assert!(matches!(Tile::Grass.get_tile_movement_type(), TileMovementType::Clear));
    assert!(matches!(Tile::Water.get_tile_movement_type(), TileMovementType::Wall));
    assert!(matches!(Tile::PineTree.get_tile_movement_type(), TileMovementType::Wall));
    assert!(matches!(
        Tile::DroppedItemStack(Box::new(Item::Rock), 1).get_tile_movement_type(),
        TileMovementType::Clear
    ));
}

#[test]
fn placement_rules() {
    let empty = TileStack::new();
    let grass = TileStack { tiles: vec![Tile::Grass], needs_redrawing: false };
    let sand = TileStack { tiles: vec![Tile::Sand], needs_redrawing: false };
    assert!(Tile::Grass.can_place_on(&empty));
    assert!(!Tile::Grass.can_place_on(&grass));
    assert!(Tile::Water.can_place_on(&sand));
    assert!(!Tile::Water.can_place_on(&grass));
    assert!(Tile::OakTree.can_place_on(&grass));
    assert!(!Tile::OakTree.can_place_on(&sand));
    assert!(Tile::DroppedItemStack(Box::new(Item::Rock), 1).can_place_on(&empty));
}

#[test]
fn tree_drops_are_forage() {
    let drops = Tile::OakTree.get_drops();
    assert_eq!(drops.len(), 2);
    assert!(matches!(
        &drops[0],
        ItemDrop::RangedRandomAmount { item: Item::Acorn, amount_min: 1, amount_max: 4 }
    ));
    let plain = Tile::Gravel.get_drops();
    assert_eq!(plain.len(), 1);
    assert!(matches!(&plain[0], ItemDrop::Single(Item::Tile(Tile::Gravel))));
}

#[test]
fn legacy_tile_record_is_one_byte() {
    let ns = current_namespace();
    let (tile, consumed) = Tile::deserialize_v0(&[2], &ns, 0).unwrap();
    assert_eq!(tile, Tile::Water);
    assert_eq!(consumed, 1);
    assert!(Tile::deserialize_v0(&[0], &ns, 0).is_none());
    assert!(Tile::deserialize_v0(&[12], &ns, 0).is_none());
}
