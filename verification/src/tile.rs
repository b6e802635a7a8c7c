use vstd::prelude::*;
use vstd::bytes::spec_u16_to_le_bytes;

use crate::error::Error;
use crate::file_reader::{spec_u16_at, FileReader};
use crate::file_writer::FileWriter;
use crate::item::{item_clone, item_eq, spec_item_bytes, spec_item_texture, spec_parse_item, Item};
use crate::namespace::Namespace;
use crate::parse::Parse;
use crate::texture::Texture;
use crate::tile_movement_type::TileMovementType;

verus! {

/// One layer of a tile stack: ground, growth, water, or content dropped or
/// placed on top. The reserved empty kind never appears in a live stack;
/// its id is the on-disk terminator of a stack record.
#[derive(Debug)]
pub enum Tile {
    Empty,
    Grass,
    Water,
    Path,
    PineTree,
    OakTree,
    Flowers,
    Rocks,
    FlowersRedYellow,
    Gravel,
    BlackSand,
    Sand,
    DroppedItemStack(Box<Item>, u16),
    Item(Box<Item>),
}

/// The symbolic kinds of tile, in build order.
#[derive(PartialEq, Eq, Structural, Clone, Copy, Debug)]
pub enum TileVariant {
    Empty,
    Grass,
    Water,
    Path,
    PineTree,
    OakTree,
    Flowers,
    Rocks,
    FlowersRedYellow,
    Gravel,
    BlackSand,
    Sand,
    DroppedItemStack,
    Item,
}

/// The kind of a tile.
pub open spec fn spec_tile_variant(t: Tile) -> TileVariant {
    match t {
        Tile::Empty => TileVariant::Empty,
        Tile::Grass => TileVariant::Grass,
        Tile::Water => TileVariant::Water,
        Tile::Path => TileVariant::Path,
        Tile::PineTree => TileVariant::PineTree,
        Tile::OakTree => TileVariant::OakTree,
        Tile::Flowers => TileVariant::Flowers,
        Tile::Rocks => TileVariant::Rocks,
        Tile::FlowersRedYellow => TileVariant::FlowersRedYellow,
        Tile::Gravel => TileVariant::Gravel,
        Tile::BlackSand => TileVariant::BlackSand,
        Tile::Sand => TileVariant::Sand,
        Tile::DroppedItemStack(_, _) => TileVariant::DroppedItemStack,
        Tile::Item(_) => TileVariant::Item,
    }
}

/// The kind's ordinal in this build, as written by the serializer.
pub open spec fn spec_tile_variant_id(v: TileVariant) -> u8 {
    match v {
        TileVariant::Empty => 0,
        TileVariant::Grass => 1,
        TileVariant::Water => 2,
        TileVariant::Path => 3,
        TileVariant::PineTree => 4,
        TileVariant::OakTree => 5,
        TileVariant::Flowers => 6,
        TileVariant::Rocks => 7,
        TileVariant::FlowersRedYellow => 8,
        TileVariant::Gravel => 9,
        TileVariant::BlackSand => 10,
        TileVariant::Sand => 11,
        TileVariant::DroppedItemStack => 12,
        TileVariant::Item => 13,
    }
}

/// The symbolic name under which the kind is persisted.
pub open spec fn spec_tile_variant_name(v: TileVariant) -> Seq<char> {
    match v {
        TileVariant::Empty => "none"@,
        TileVariant::Grass => "grass"@,
        TileVariant::Water => "water"@,
        TileVariant::Path => "path"@,
        TileVariant::PineTree => "pine_tree"@,
        TileVariant::OakTree => "oak_tree"@,
        TileVariant::Flowers => "flowers"@,
        TileVariant::Rocks => "rocks"@,
        TileVariant::FlowersRedYellow => "red_yellow_flowers"@,
        TileVariant::Gravel => "gravel"@,
        TileVariant::BlackSand => "black_sand"@,
        TileVariant::Sand => "sand"@,
        TileVariant::DroppedItemStack => "dropped_item_stack"@,
        TileVariant::Item => "item"@,
    }
}

/// Every kind, in build order.
pub open spec fn spec_all_tile_variants() -> Seq<TileVariant> {
    seq![
        TileVariant::Empty,
        TileVariant::Grass,
        TileVariant::Water,
        TileVariant::Path,
        TileVariant::PineTree,
        TileVariant::OakTree,
        TileVariant::Flowers,
        TileVariant::Rocks,
        TileVariant::FlowersRedYellow,
        TileVariant::Gravel,
        TileVariant::BlackSand,
        TileVariant::Sand,
        TileVariant::DroppedItemStack,
        TileVariant::Item,
    ]
}

/// The kind whose symbolic name is `s`, if any.
pub open spec fn spec_tile_variant_from_name(s: Seq<char>) -> Option<TileVariant> {
    spec_tile_variant_from_name_from(s, 0)
}

/// The first kind at or after position `k` of the build order whose
/// symbolic name is `s`.
pub open spec fn spec_tile_variant_from_name_from(s: Seq<char>, k: int) -> Option<TileVariant>
    decreases spec_all_tile_variants().len() - k,
{
    if k < 0 || k >= spec_all_tile_variants().len() {
        None
    } else if s == spec_tile_variant_name(spec_all_tile_variants()[k]) {
        Some(spec_all_tile_variants()[k])
    } else {
        spec_tile_variant_from_name_from(s, k + 1)
    }
}

/// The byte image of a tile: its kind's build ordinal, then for dropped
/// stacks the item's image and the count, and for an item on the ground the
/// item's image.
pub open spec fn spec_tile_bytes(t: Tile) -> Seq<u8>
    decreases t,
{
    match t {
        Tile::DroppedItemStack(item, amount) => seq![spec_tile_variant_id(
            TileVariant::DroppedItemStack,
        )] + spec_item_bytes(*item) + spec_u16_to_le_bytes(amount),
        Tile::Item(item) => seq![spec_tile_variant_id(TileVariant::Item)] + spec_item_bytes(*item),
        _ => seq![spec_tile_variant_id(spec_tile_variant(t))],
    }
}

/// Reading one tile record at `i`: the id byte is translated through the
/// namespace's tile table. Reading the reserved none id here is a broken
/// invariant, not data; a stack reader consumes that id itself as its
/// terminator and never hands it to the tile reader.
pub open spec fn spec_parse_tile(data: Seq<u8>, i: int, ns: Namespace) -> Parse<Tile>
    decreases data.len() - i, 1int,
{
    if i < 0 || i >= data.len() {
        Parse::Failed(Error::OutOfBoundsFileRead)
    } else if data[i] as int >= ns.tiles@.len() {
        Parse::Failed(Error::IDOutOfNamespaceBounds)
    } else {
        match ns.tiles@[data[i] as int] {
            TileVariant::Empty => Parse::Failed(Error::LogicError),
            TileVariant::Grass => Parse::Found(Tile::Grass, i + 1),
            TileVariant::Water => Parse::Found(Tile::Water, i + 1),
            TileVariant::Path => Parse::Found(Tile::Path, i + 1),
            TileVariant::PineTree => Parse::Found(Tile::PineTree, i + 1),
            TileVariant::OakTree => Parse::Found(Tile::OakTree, i + 1),
            TileVariant::Flowers => Parse::Found(Tile::Flowers, i + 1),
            TileVariant::Rocks => Parse::Found(Tile::Rocks, i + 1),
            TileVariant::FlowersRedYellow => Parse::Found(Tile::FlowersRedYellow, i + 1),
            TileVariant::Gravel => Parse::Found(Tile::Gravel, i + 1),
            TileVariant::BlackSand => Parse::Found(Tile::BlackSand, i + 1),
            TileVariant::Sand => Parse::Found(Tile::Sand, i + 1),
            TileVariant::DroppedItemStack => match spec_parse_item(data, i + 1, ns) {
                Parse::Found(item, j) => if j + 2 <= data.len() {
                    Parse::Found(
                        Tile::DroppedItemStack(Box::new(item), spec_u16_at(data, j)),
                        j + 2,
                    )
                } else {
                    Parse::Failed(Error::OutOfBoundsFileRead)
                },
                Parse::Failed(e) => Parse::Failed(e),
            },
            TileVariant::Item => match spec_parse_item(data, i + 1, ns) {
                Parse::Found(item, j) => Parse::Found(Tile::Item(Box::new(item)), j),
                Parse::Failed(e) => Parse::Failed(e),
            },
        }
    }
}

/// Reading one tile of the legacy version-0 layout out of its own slice:
/// a single id byte, translated through the namespace; kinds with payloads
/// did not exist in that version.
pub open spec fn spec_parse_tile_v0(data: Seq<u8>, ns: Namespace) -> Option<(Tile, int)> {
    if data.len() < 1 {
        None
    } else if data[0] as int >= ns.tiles@.len() {
        None
    } else {
        match ns.tiles@[data[0] as int] {
            TileVariant::Empty => None,
            TileVariant::Grass => Some((Tile::Grass, 1int)),
            TileVariant::Water => Some((Tile::Water, 1int)),
            TileVariant::Path => Some((Tile::Path, 1int)),
            TileVariant::PineTree => Some((Tile::PineTree, 1int)),
            TileVariant::OakTree => Some((Tile::OakTree, 1int)),
            TileVariant::Flowers => Some((Tile::Flowers, 1int)),
            TileVariant::Rocks => Some((Tile::Rocks, 1int)),
            TileVariant::FlowersRedYellow => Some((Tile::FlowersRedYellow, 1int)),
            TileVariant::Gravel => Some((Tile::Gravel, 1int)),
            TileVariant::BlackSand => Some((Tile::BlackSand, 1int)),
            TileVariant::Sand => Some((Tile::Sand, 1int)),
            TileVariant::DroppedItemStack => None,
            TileVariant::Item => None,
        }
    }
}

/// The texture that draws the tile.
pub open spec fn spec_tile_texture(t: Tile) -> Texture
    decreases t,
{
    match t {
        Tile::Empty => Texture::NoTexture,
        Tile::Grass => Texture::Grass,
        Tile::Water => Texture::Water,
        Tile::Sand => Texture::Sand,
        Tile::PineTree => Texture::PineTree,
        Tile::OakTree => Texture::OakTree,
        Tile::Flowers => Texture::Flowers,
        Tile::FlowersRedYellow => Texture::FlowersRedYellow,
        Tile::Rocks => Texture::Rocks,
        Tile::Gravel => Texture::Gravel,
        Tile::BlackSand => Texture::BlackSand,
        Tile::Path => Texture::Path,
        Tile::DroppedItemStack(_, _) => Texture::DroppedItems,
        Tile::Item(item) => spec_item_texture(*item),
    }
}

/// When an entity can step onto the tile.
pub open spec fn spec_tile_movement(t: Tile) -> TileMovementType {
    match t {
        Tile::Empty => TileMovementType::Wall,
        Tile::Grass => TileMovementType::Clear,
        Tile::Water => TileMovementType::Wall,
        Tile::Sand => TileMovementType::Clear,
        Tile::PineTree => TileMovementType::Wall,
        Tile::OakTree => TileMovementType::Wall,
        Tile::Flowers => TileMovementType::Clear,
        Tile::FlowersRedYellow => TileMovementType::Clear,
        Tile::Rocks => TileMovementType::Wall,
        Tile::BlackSand => TileMovementType::Clear,
        Tile::Gravel => TileMovementType::Clear,
        Tile::Path => TileMovementType::Clear,
        Tile::DroppedItemStack(_, _) => TileMovementType::Clear,
        Tile::Item(_) => TileMovementType::Clear,
    }
}

/// An axe can be used on the tile.
pub open spec fn spec_is_choppable(t: Tile) -> bool {
    t matches Tile::OakTree || t matches Tile::PineTree
}

/// Water can be placed on top of the tile.
pub open spec fn spec_is_floodable(t: Tile) -> bool {
    ||| t matches Tile::Sand
    ||| t matches Tile::BlackSand
    ||| t matches Tile::Gravel
    ||| t matches Tile::Rocks
}

/// Growth can stand on top of the tile.
pub open spec fn spec_is_fertile(t: Tile) -> bool {
    t matches Tile::Grass
}

/// The tile can be broken with a bare hand.
pub open spec fn spec_is_pluckable(t: Tile) -> bool {
    ||| t matches Tile::Flowers
    ||| t matches Tile::FlowersRedYellow
    ||| t matches Tile::Item(_)
}

/// The tile is flat ground.
pub open spec fn spec_is_plain(t: Tile) -> bool {
    ||| t matches Tile::Grass
    ||| t matches Tile::Gravel
    ||| t matches Tile::BlackSand
    ||| t matches Tile::Sand
}

/// A live tile: not the reserved none kind, recursively through payloads.
pub open spec fn spec_tile_wf(t: Tile) -> bool
    decreases t,
{
    match t {
        Tile::Empty => false,
        Tile::DroppedItemStack(item, _) => crate::item::spec_item_wf(*item),
        Tile::Item(item) => crate::item::spec_item_wf(*item),
        _ => true,
    }
}


/// Where a tile may be placed: ground kinds need an empty cell, water needs
/// a floodable top, growth needs a fertile top, rocks and paths refuse
/// selected tops, a dropped stack lands anywhere, and an item in item form
/// needs plain ground.
pub open spec fn spec_can_place_on(t: Tile, tiles: Seq<Tile>) -> bool {
    match t {
        Tile::Empty => false,
        Tile::Grass | Tile::Gravel | Tile::Sand | Tile::BlackSand => tiles.len() == 0,
        Tile::Water => tiles.len() > 0 && spec_is_floodable(tiles[tiles.len() - 1]),
        Tile::OakTree | Tile::PineTree | Tile::Flowers | Tile::FlowersRedYellow => tiles.len() > 0
            && spec_is_fertile(tiles[tiles.len() - 1]),
        Tile::Rocks => tiles.len() > 0 && match tiles[tiles.len() - 1] {
            Tile::OakTree | Tile::PineTree | Tile::Flowers | Tile::FlowersRedYellow | Tile::Path
                | Tile::Rocks | Tile::DroppedItemStack(_, _) => false,
            _ => true,
        },
        Tile::Path => tiles.len() > 0 && match tiles[tiles.len() - 1] {
            Tile::OakTree | Tile::PineTree | Tile::Flowers | Tile::FlowersRedYellow | Tile::Water
                | Tile::Path | Tile::Rocks => false,
            _ => true,
        },
        Tile::DroppedItemStack(_, _) => true,
        Tile::Item(_) => tiles.len() > 0 && spec_is_plain(tiles[tiles.len() - 1]),
    }
}

/// The drops that breaking the tile yields: the carried item for an item
/// in item form, forage for trees, and the tile itself in item form
/// otherwise.
pub open spec fn spec_tile_drops(t: Tile) -> Seq<crate::item_drop::ItemDrop> {
    match t {
        Tile::Item(item) => seq![crate::item_drop::ItemDrop::Single(*item)],
        Tile::OakTree => seq![
            crate::item_drop::ItemDrop::RangedRandomAmount {
                item: Item::Acorn,
                amount_min: 1u16,
                amount_max: 4u16,
            },
            crate::item_drop::ItemDrop::RangedRandomAmount {
                item: Item::OakStick,
                amount_min: 0u16,
                amount_max: 5u16,
            },
        ],
        Tile::PineTree => seq![
            crate::item_drop::ItemDrop::RangedRandomAmount {
                item: Item::PineCone,
                amount_min: 1u16,
                amount_max: 4u16,
            },
            crate::item_drop::ItemDrop::RangedRandomAmount {
                item: Item::PineStick,
                amount_min: 0u16,
                amount_max: 5u16,
            },
        ],
        _ => seq![crate::item_drop::ItemDrop::Single(Item::Tile(t))],
    }
}

/// A successful tile parse lands strictly past where it started and within
/// the data.
pub proof fn lemma_parse_tile_bounds(data: Seq<u8>, i: int, ns: Namespace)
    ensures
        spec_parse_tile(data, i, ns) matches Parse::Found(_, j) ==> i < j <= data.len(),
    decreases data.len() - i, 1int,
{
    if 0 <= i < data.len() && (data[i] as int) < ns.tiles@.len() {
        match ns.tiles@[data[i] as int] {
            TileVariant::DroppedItemStack => {
                crate::item::lemma_parse_item_bounds(data, i + 1, ns);
            },
            TileVariant::Item => {
                crate::item::lemma_parse_item_bounds(data, i + 1, ns);
            },
            _ => {},
        }
    }
}


/// Round trip, tile level: a tile written by this build and read back under
/// a namespace matching this build is reproduced exactly, wherever its
/// image sits in the stream.
pub proof fn lemma_parse_tile_round_trip(data: Seq<u8>, i: int, t: Tile, ns: Namespace)
    requires
        spec_tile_wf(t),
        crate::namespace::spec_namespace_is_current(ns),
        0 <= i,
        i + spec_tile_bytes(t).len() <= data.len(),
        data.subrange(i, i + spec_tile_bytes(t).len() as int) == spec_tile_bytes(t),
    ensures
        spec_parse_tile(data, i, ns) == Parse::<Tile>::Found(t, i + spec_tile_bytes(t).len()),
    decreases t,
{
    let bytes = spec_tile_bytes(t);
    assert forall|m: int| 0 <= m < bytes.len() implies data[i + m] == bytes[m] by {
        assert(data.subrange(i, i + bytes.len() as int)[m] == bytes[m]);
    }
    assert(data[i] == bytes[0]);
    assert(spec_all_tile_variants().len() == 14);
    match t {
        Tile::Empty => {
            assert(false);
        },
        Tile::DroppedItemStack(item, amount) => {
            let ib = crate::item::spec_item_bytes(*item);
            assert(data[i] == 12);
            assert(ns.tiles@[12] == TileVariant::DroppedItemStack);
            vstd::bytes::lemma_auto_spec_u16_to_from_le_bytes();
            assert(bytes =~= seq![12u8] + ib + spec_u16_to_le_bytes(amount));
            assert(bytes.len() == 3 + ib.len());
            assert forall|k: int| 0 <= k < ib.len() implies data.subrange(
                i + 1,
                i + 1 + ib.len() as int,
            )[k] == ib[k] by {
                assert(data[i + 1 + k] == bytes[1 + k]);
                assert(bytes[1 + k] == ib[k]);
            }
            assert(data.subrange(i + 1, i + 1 + ib.len() as int) =~= ib);
            crate::item::lemma_parse_item_round_trip(data, i + 1, *item, ns);
            let j = i + 1 + ib.len() as int;
            let ub = spec_u16_to_le_bytes(amount);
            assert forall|k: int| 0 <= k < 2 implies data.subrange(j, j + 2)[k] == ub[k] by {
                assert(data[j + k] == bytes[1 + ib.len() + k]);
                assert(bytes[1 + ib.len() + k] == ub[k]);
            }
            assert(data.subrange(j, j + 2) =~= spec_u16_to_le_bytes(amount));
            vstd::bytes::lemma_auto_spec_u16_to_from_le_bytes();
            assert(crate::file_reader::spec_u16_at(data, j) == amount);
            assert(spec_parse_tile(data, i, ns) == Parse::<Tile>::Found(t, i + bytes.len()));
        },
        Tile::Item(item) => {
            let ib = crate::item::spec_item_bytes(*item);
            assert(data[i] == 13);
            assert(ns.tiles@[13] == TileVariant::Item);
            assert(bytes =~= seq![13u8] + ib);
            assert forall|k: int| 0 <= k < ib.len() implies data.subrange(
                i + 1,
                i + 1 + ib.len() as int,
            )[k] == ib[k] by {
                assert(data[i + 1 + k] == bytes[1 + k]);
                assert(bytes[1 + k] == ib[k]);
            }
            assert(data.subrange(i + 1, i + 1 + ib.len() as int) =~= ib);
            crate::item::lemma_parse_item_round_trip(data, i + 1, *item, ns);
            assert(spec_parse_tile(data, i, ns) == Parse::<Tile>::Found(t, i + bytes.len()));
        },
        _ => {
            let v = spec_tile_variant(t);
            assert(bytes.len() == 1);
            assert(spec_parse_tile(data, i, ns) == Parse::<Tile>::Found(t, i + 1));
        },
    }
}


/// Namespace stability: what a tile or stack record deserializes to is a
/// function of the namespace's tables alone, never of this build's ordinal
/// layout. Two namespaces with the same tables read every byte sequence to
/// the same tiles, so data recorded under a blob keeps its symbolic
/// meaning as long as that blob is reused, however the build reorders its
/// own variants.
pub proof fn lemma_namespace_stability(data: Seq<u8>, i: int, ns1: Namespace, ns2: Namespace)
    requires
        ns1.tiles@ == ns2.tiles@,
        ns1.items@ == ns2.items@,
    ensures
        spec_parse_tile(data, i, ns1) == spec_parse_tile(data, i, ns2),
    decreases data.len() - i, 1int,
{
    if 0 <= i < data.len() && (data[i] as int) < ns1.tiles@.len() {
        match ns1.tiles@[data[i] as int] {
            TileVariant::DroppedItemStack => {
                crate::item::lemma_namespace_stability_item(data, i + 1, ns1, ns2);
            },
            TileVariant::Item => {
                crate::item::lemma_namespace_stability_item(data, i + 1, ns1, ns2);
            },
            _ => {},
        }
    }
}

/// True exactly when the two tiles are equal, payloads included.
pub fn tile_eq(a: &Tile, b: &Tile) -> (r: bool)
    ensures
        r == (a == b),
    decreases *a,
{
    match (a, b) {
        (Tile::Empty, Tile::Empty) => true,
        (Tile::Grass, Tile::Grass) => true,
        (Tile::Water, Tile::Water) => true,
        (Tile::Path, Tile::Path) => true,
        (Tile::PineTree, Tile::PineTree) => true,
        (Tile::OakTree, Tile::OakTree) => true,
        (Tile::Flowers, Tile::Flowers) => true,
        (Tile::Rocks, Tile::Rocks) => true,
        (Tile::FlowersRedYellow, Tile::FlowersRedYellow) => true,
        (Tile::Gravel, Tile::Gravel) => true,
        (Tile::BlackSand, Tile::BlackSand) => true,
        (Tile::Sand, Tile::Sand) => true,
        (Tile::DroppedItemStack(ia, na), Tile::DroppedItemStack(ib, nb)) => item_eq(ia, ib) && *na
            == *nb,
        (Tile::Item(ia), Tile::Item(ib)) => item_eq(ia, ib),
        _ => false,
    }
}

/// An exact copy of the tile, payloads included.
pub fn tile_clone(a: &Tile) -> (r: Tile)
    ensures
        r == *a,
    decreases *a,
{
    match a {
        Tile::Empty => Tile::Empty,
        Tile::Grass => Tile::Grass,
        Tile::Water => Tile::Water,
        Tile::Path => Tile::Path,
        Tile::PineTree => Tile::PineTree,
        Tile::OakTree => Tile::OakTree,
        Tile::Flowers => Tile::Flowers,
        Tile::Rocks => Tile::Rocks,
        Tile::FlowersRedYellow => Tile::FlowersRedYellow,
        Tile::Gravel => Tile::Gravel,
        Tile::BlackSand => Tile::BlackSand,
        Tile::Sand => Tile::Sand,
        Tile::DroppedItemStack(item, amount) => Tile::DroppedItemStack(
            Box::new(item_clone(item)),
            *amount,
        ),
        Tile::Item(item) => Tile::Item(Box::new(item_clone(item))),
    }
}

impl Clone for Tile {
    fn clone(&self) -> (r: Self)
        ensures
            r == *self,
    {
        tile_clone(self)
    }
}

impl PartialEq for Tile {
    fn eq(&self, other: &Self) -> (r: bool) {
        tile_eq(self, other)
    }
}

impl Eq for Tile {

}

impl vstd::std_specs::cmp::PartialEqSpecImpl for Tile {
    open spec fn obeys_eq_spec() -> bool {
        true
    }

    open spec fn eq_spec(&self, other: &Tile) -> bool {
        *self == *other
    }
}

impl Tile {
    /// The kind of this tile.
    pub fn variant(&self) -> (r: TileVariant)
        ensures
            r == spec_tile_variant(*self),
    {
        match self {
            Self::Empty => TileVariant::Empty,
            Self::Grass => TileVariant::Grass,
            Self::Water => TileVariant::Water,
            Self::Path => TileVariant::Path,
            Self::PineTree => TileVariant::PineTree,
            Self::OakTree => TileVariant::OakTree,
            Self::Flowers => TileVariant::Flowers,
            Self::Rocks => TileVariant::Rocks,
            Self::FlowersRedYellow => TileVariant::FlowersRedYellow,
            Self::Gravel => TileVariant::Gravel,
            Self::BlackSand => TileVariant::BlackSand,
            Self::Sand => TileVariant::Sand,
            Self::DroppedItemStack(_, _) => TileVariant::DroppedItemStack,
            Self::Item(_) => TileVariant::Item,
        }
    }

    /// The texture used to draw the tile.
    pub fn get_texture(&self) -> (r: Texture)
        ensures
            r == spec_tile_texture(*self),
        decreases *self,
    {
        match self {
            Self::Empty => Texture::NoTexture,
            Self::Grass => Texture::Grass,
            Self::Water => Texture::Water,
            Self::Sand => Texture::Sand,
            Self::PineTree => Texture::PineTree,
            Self::OakTree => Texture::OakTree,
            Self::Flowers => Texture::Flowers,
            Self::FlowersRedYellow => Texture::FlowersRedYellow,
            Self::Rocks => Texture::Rocks,
            Self::Gravel => Texture::Gravel,
            Self::BlackSand => Texture::BlackSand,
            Self::Path => Texture::Path,
            Self::DroppedItemStack(_, _) => Texture::DroppedItems,
            Self::Item(item) => item.get_texture(),
        }
    }

    /// When an entity can step onto the tile.
    pub fn get_tile_movement_type(&self) -> (r: TileMovementType)
        ensures
            r == spec_tile_movement(*self),
    {
        match self {
            Self::Empty => TileMovementType::Wall,
            Self::Grass => TileMovementType::Clear,
            Self::Water => TileMovementType::Wall,
            Self::Sand => TileMovementType::Clear,
            Self::PineTree => TileMovementType::Wall,
            Self::OakTree => TileMovementType::Wall,
            Self::Flowers => TileMovementType::Clear,
            Self::FlowersRedYellow => TileMovementType::Clear,
            Self::Rocks => TileMovementType::Wall,
            Self::BlackSand => TileMovementType::Clear,
            Self::Gravel => TileMovementType::Clear,
            Self::Path => TileMovementType::Clear,
            Self::DroppedItemStack(_, _) => TileMovementType::Clear,
            Self::Item(_) => TileMovementType::Clear,
        }
    }

    pub fn serialize(&self, file: &mut FileWriter)
        ensures
            final(file).data@ == old(file).data@ + spec_tile_bytes(*self),
        decreases *self,
    {
        file.push_u8(self.variant().id());
        match self {
            Self::DroppedItemStack(item, amount) => {
                item.serialize(file);
                file.push_u16(*amount);
            },
            Self::Item(item) => {
                item.serialize(file);
            },
            _ => {},
        }
        proof {
            assert(file.data@ =~= old(file).data@ + spec_tile_bytes(*self));
        }
    }

    pub fn deserialize(file: &mut FileReader, namespace: &Namespace, version: u32) -> (r: Result<
        Tile,
        Error,
    >)
        ensures
            final(file).data == old(file).data,
            final(file).strings_v0 == old(file).strings_v0,
            match spec_parse_tile(old(file).data@, old(file).read_index as int, *namespace) {
                Parse::Found(t, j) => r == Result::<Tile, Error>::Ok(t) && final(file).read_index
                    == j,
                Parse::Failed(e) => r == Result::<Tile, Error>::Err(e),
            },
        decreases file.data@.len() - file.read_index, 1int,
    {
        let id = match file.read_u8() {
            Ok(id) => id,
            Err(e) => {
                return Err(e);
            },
        };
        let variant = match crate::util::vec_get(&namespace.tiles, id as usize) {
            Some(v) => v,
            None => {
                return Err(Error::IDOutOfNamespaceBounds);
            },
        };
        match variant {
            TileVariant::Empty => Err(Error::LogicError),
            TileVariant::Grass => Ok(Tile::Grass),
            TileVariant::Water => Ok(Tile::Water),
            TileVariant::Path => Ok(Tile::Path),
            TileVariant::PineTree => Ok(Tile::PineTree),
            TileVariant::OakTree => Ok(Tile::OakTree),
            TileVariant::Flowers => Ok(Tile::Flowers),
            TileVariant::Rocks => Ok(Tile::Rocks),
            TileVariant::FlowersRedYellow => Ok(Tile::FlowersRedYellow),
            TileVariant::Gravel => Ok(Tile::Gravel),
            TileVariant::BlackSand => Ok(Tile::BlackSand),
            TileVariant::Sand => Ok(Tile::Sand),
            TileVariant::DroppedItemStack => {
                let item = match Item::deserialize(file, namespace, version) {
                    Ok(item) => item,
                    Err(e) => {
                        return Err(e);
                    },
                };
                let amount = match file.read_u16() {
                    Ok(amount) => amount,
                    Err(e) => {
                        return Err(e);
                    },
                };
                Ok(Tile::DroppedItemStack(Box::new(item), amount))
            },
            TileVariant::Item => {
                let item = match Item::deserialize(file, namespace, version) {
                    Ok(item) => item,
                    Err(e) => {
                        return Err(e);
                    },
                };
                Ok(Tile::Item(Box::new(item)))
            },
        }
    }

    /// Read one tile of the legacy version-0 layout out of its own slice,
    /// returning the tile and how many bytes it occupied.
    pub fn deserialize_v0(data: &[u8], namespace: &Namespace, _version: u32) -> (r: Option<
        (Tile, usize),
    >)
        ensures
            match spec_parse_tile_v0(data@, *namespace) {
                Some((t, n)) => r is Some && r.unwrap().0 == t && r.unwrap().1 == n,
                None => r is None,
            },
    {
        if data.len() < 1 {
            return None;
        }
        let id = *vstd::slice::slice_index_get(data, 0);
        let variant = match crate::util::vec_get(&namespace.tiles, id as usize) {
            Some(v) => v,
            None => {
                return None;
            },
        };
        match variant {
            TileVariant::Empty => None,
            TileVariant::Grass => Some((Tile::Grass, 1)),
            TileVariant::Water => Some((Tile::Water, 1)),
            TileVariant::Path => Some((Tile::Path, 1)),
            TileVariant::PineTree => Some((Tile::PineTree, 1)),
            TileVariant::OakTree => Some((Tile::OakTree, 1)),
            TileVariant::Flowers => Some((Tile::Flowers, 1)),
            TileVariant::Rocks => Some((Tile::Rocks, 1)),
            TileVariant::FlowersRedYellow => Some((Tile::FlowersRedYellow, 1)),
            TileVariant::Gravel => Some((Tile::Gravel, 1)),
            TileVariant::BlackSand => Some((Tile::BlackSand, 1)),
            TileVariant::Sand => Some((Tile::Sand, 1)),
            TileVariant::DroppedItemStack => None,
            TileVariant::Item => None,
        }
    }


    /// Whether an entity may step onto this tile, which never changes the
    /// tile or the entity.
    pub fn entity_try_move_to(&mut self, _entity: &mut crate::entity::Entity) -> (r: bool)
        ensures
            *final(self) == *old(self),
            *final(_entity) == *old(_entity),
            r == (spec_tile_movement(*old(self)) matches TileMovementType::Clear),
    {
        let out = match self.get_tile_movement_type() {
            TileMovementType::Clear => true,
            TileMovementType::Wall => false,
        };
        out
    }

    /// Whether this tile may be placed on the given stack. Asking about the
    /// reserved none tile is a broken invariant and is excluded.
    pub fn can_place_on(&self, tile_stack: &crate::tile_stack::TileStack) -> (r: bool)
        requires
            !(*self matches Tile::Empty),
        ensures
            r == spec_can_place_on(*self, tile_stack.tiles@),
    {
        let n = tile_stack.tiles.len();
        match self {
            Self::Empty => vstd::pervasive::unreached(),
            Self::Grass | Self::Gravel | Self::Sand | Self::BlackSand => n == 0,
            Self::Water => n > 0 && tile_stack.tiles[n - 1].is_floodable(),
            Self::OakTree | Self::PineTree | Self::Flowers | Self::FlowersRedYellow => n > 0
                && tile_stack.tiles[n - 1].is_fertile(),
            Self::Rocks => n > 0 && match &tile_stack.tiles[n - 1] {
                Self::OakTree | Self::PineTree | Self::Flowers | Self::FlowersRedYellow
                    | Self::Path | Self::Rocks | Self::DroppedItemStack(_, _) => false,
                _ => true,
            },
            Self::Path => n > 0 && match &tile_stack.tiles[n - 1] {
                Self::OakTree | Self::PineTree | Self::Flowers | Self::FlowersRedYellow
                    | Self::Water | Self::Path | Self::Rocks => false,
                _ => true,
            },
            Self::DroppedItemStack(_, _) => true,
            Self::Item(_) => n > 0 && tile_stack.tiles[n - 1].is_plain(),
        }
    }

    /// The drops that breaking this tile yields.
    pub fn get_drops(&self) -> (r: Vec<crate::item_drop::ItemDrop>)
        ensures
            r@ == spec_tile_drops(*self),
    {
        let mut out: Vec<crate::item_drop::ItemDrop> = Vec::new();
        match self {
            Self::Item(item) => {
                out.push(crate::item_drop::ItemDrop::Single(item_clone(item)));
            },
            Self::OakTree => {
                out.push(
                    crate::item_drop::ItemDrop::RangedRandomAmount {
                        item: Item::Acorn,
                        amount_min: 1,
                        amount_max: 4,
                    },
                );
                out.push(
                    crate::item_drop::ItemDrop::RangedRandomAmount {
                        item: Item::OakStick,
                        amount_min: 0,
                        amount_max: 5,
                    },
                );
            },
            Self::PineTree => {
                out.push(
                    crate::item_drop::ItemDrop::RangedRandomAmount {
                        item: Item::PineCone,
                        amount_min: 1,
                        amount_max: 4,
                    },
                );
                out.push(
                    crate::item_drop::ItemDrop::RangedRandomAmount {
                        item: Item::PineStick,
                        amount_min: 0,
                        amount_max: 5,
                    },
                );
            },
            _ => {
                out.push(crate::item_drop::ItemDrop::Single(Item::Tile(tile_clone(self))));
            },
        }
        proof {
            assert(out@ =~= spec_tile_drops(*self));
        }
        out
    }

    /// An axe can be used on the tile.
    pub fn is_choppable(&self) -> (r: bool)
        ensures
            r == spec_is_choppable(*self),
    {
        match self {
            Self::OakTree | Self::PineTree => true,
            _ => false,
        }
    }

    /// Water can be placed on top of the tile.
    pub fn is_floodable(&self) -> (r: bool)
        ensures
            r == spec_is_floodable(*self),
    {
        match self {
            Self::Sand | Self::BlackSand | Self::Gravel | Self::Rocks => true,
            _ => false,
        }
    }

    /// Growth can stand on top of the tile.
    pub fn is_fertile(&self) -> (r: bool)
        ensures
            r == spec_is_fertile(*self),
    {
        match self {
            Self::Grass => true,
            _ => false,
        }
    }

    /// The tile can be broken with a bare hand.
    pub fn is_pluckable(&self) -> (r: bool)
        ensures
            r == spec_is_pluckable(*self),
    {
        match self {
            Self::Flowers | Self::FlowersRedYellow | Self::Item(_) => true,
            _ => false,
        }
    }

    /// The tile is flat ground.
    pub fn is_plain(&self) -> (r: bool)
        ensures
            r == spec_is_plain(*self),
    {
        match self {
            Self::Grass | Self::Gravel | Self::BlackSand | Self::Sand => true,
            _ => false,
        }
    }
}

impl TileVariant {
    /// The kind's ordinal in this build.
    pub fn id(self) -> (r: u8)
        ensures
            r == spec_tile_variant_id(self),
    {
        match self {
            Self::Empty => 0,
            Self::Grass => 1,
            Self::Water => 2,
            Self::Path => 3,
            Self::PineTree => 4,
            Self::OakTree => 5,
            Self::Flowers => 6,
            Self::Rocks => 7,
            Self::FlowersRedYellow => 8,
            Self::Gravel => 9,
            Self::BlackSand => 10,
            Self::Sand => 11,
            Self::DroppedItemStack => 12,
            Self::Item => 13,
        }
    }

    pub fn get_name_id(self) -> (r: &'static str)
        ensures
            r@ == spec_tile_variant_name(self),
    {
        match self {
            Self::Empty => "none",
            Self::Grass => "grass",
            Self::Water => "water",
            Self::Path => "path",
            Self::PineTree => "pine_tree",
            Self::OakTree => "oak_tree",
            Self::Flowers => "flowers",
            Self::Rocks => "rocks",
            Self::FlowersRedYellow => "red_yellow_flowers",
            Self::Gravel => "gravel",
            Self::BlackSand => "black_sand",
            Self::Sand => "sand",
            Self::DroppedItemStack => "dropped_item_stack",
            Self::Item => "item",
        }
    }

    /// The kind carrying the given symbolic name.
    pub fn from_name(name: &String) -> (r: Option<TileVariant>)
        ensures
            r == spec_tile_variant_from_name(name@),
    {
        let all = Self::all_variants();
        let mut k: usize = 0;
        while k < all.len()
            invariant
                0 <= k <= all@.len(),
                all@ == spec_all_tile_variants(),
                spec_tile_variant_from_name(name@) == spec_tile_variant_from_name_from(
                    name@,
                    k as int,
                ),
            decreases all@.len() - k,
        {
            if crate::util::string_eq_lit(name, all[k].get_name_id()) {
                return Some(all[k]);
            }
            k = k + 1;
        }
        None
    }

    /// Every kind, in build order.
    pub fn all_variants() -> (r: Vec<TileVariant>)
        ensures
            r@ == spec_all_tile_variants(),
    {
        let mut out: Vec<TileVariant> = Vec::new();
        out.push(Self::Empty);
        out.push(Self::Grass);
        out.push(Self::Water);
        out.push(Self::Path);
        out.push(Self::PineTree);
        out.push(Self::OakTree);
        out.push(Self::Flowers);
        out.push(Self::Rocks);
        out.push(Self::FlowersRedYellow);
        out.push(Self::Gravel);
        out.push(Self::BlackSand);
        out.push(Self::Sand);
        out.push(Self::DroppedItemStack);
        out.push(Self::Item);
        proof {
            assert(out@ =~= spec_all_tile_variants());
        }
        out
    }
}

} // verus!
