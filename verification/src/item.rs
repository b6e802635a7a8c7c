use vstd::prelude::*;

use crate::error::Error;
use crate::file_reader::FileReader;
use crate::file_writer::FileWriter;
use crate::namespace::Namespace;
use crate::parse::Parse;
use crate::texture::Texture;
use crate::tile::{spec_parse_tile, spec_tile_bytes, spec_tile_texture, tile_clone, tile_eq, Tile};

verus! {

/// An item that can sit in an inventory, be dropped onto a tile, or be a
/// placeable tile carried in item form.
#[derive(Debug)]
pub enum Item {
    Empty,
    Hammer,
    Shovel,
    Axe,
    SandboxDestroyWand,
    Tile(Tile),
    Rock,
    FlintRock,
    PineStick,
    OakStick,
    SharpendFlint,
    FlintHammer,
    FlintShovel,
    FlintAxe,
    Acorn,
    PineCone,
}

/// The symbolic kinds of item, in build order.
#[derive(PartialEq, Eq, Structural, Clone, Copy, Debug)]
pub enum ItemVariant {
    Empty,
    Hammer,
    Shovel,
    Axe,
    SandboxDestroyWand,
    Tile,
    Rock,
    FlintRock,
    PineStick,
    OakStick,
    SharpendFlint,
    FlintHammer,
    FlintShovel,
    FlintAxe,
    Acorn,
    PineCone,
}

/// The kind of an item.
pub open spec fn spec_item_variant(it: Item) -> ItemVariant {
    match it {
        Item::Empty => ItemVariant::Empty,
        Item::Hammer => ItemVariant::Hammer,
        Item::Shovel => ItemVariant::Shovel,
        Item::Axe => ItemVariant::Axe,
        Item::SandboxDestroyWand => ItemVariant::SandboxDestroyWand,
        Item::Tile(_) => ItemVariant::Tile,
        Item::Rock => ItemVariant::Rock,
        Item::FlintRock => ItemVariant::FlintRock,
        Item::PineStick => ItemVariant::PineStick,
        Item::OakStick => ItemVariant::OakStick,
        Item::SharpendFlint => ItemVariant::SharpendFlint,
        Item::FlintHammer => ItemVariant::FlintHammer,
        Item::FlintShovel => ItemVariant::FlintShovel,
        Item::FlintAxe => ItemVariant::FlintAxe,
        Item::Acorn => ItemVariant::Acorn,
        Item::PineCone => ItemVariant::PineCone,
    }
}

/// The kind's ordinal in this build, as written by the serializer.
pub open spec fn spec_item_variant_id(v: ItemVariant) -> u8 {
    match v {
        ItemVariant::Empty => 0,
        ItemVariant::Hammer => 1,
        ItemVariant::Shovel => 2,
        ItemVariant::Axe => 3,
        ItemVariant::SandboxDestroyWand => 4,
        ItemVariant::Tile => 5,
        ItemVariant::Rock => 6,
        ItemVariant::FlintRock => 7,
        ItemVariant::PineStick => 8,
        ItemVariant::OakStick => 9,
        ItemVariant::SharpendFlint => 10,
        ItemVariant::FlintHammer => 11,
        ItemVariant::FlintShovel => 12,
        ItemVariant::FlintAxe => 13,
        ItemVariant::Acorn => 14,
        ItemVariant::PineCone => 15,
    }
}

/// The symbolic name under which the kind is persisted.
pub open spec fn spec_item_variant_name(v: ItemVariant) -> Seq<char> {
    match v {
        ItemVariant::Empty => "none"@,
        ItemVariant::Hammer => "hammer"@,
        ItemVariant::Shovel => "shovel"@,
        ItemVariant::Axe => "axe"@,
        ItemVariant::SandboxDestroyWand => "sandbox_destroy_wand"@,
        ItemVariant::Tile => "tile"@,
        ItemVariant::Rock => "rock"@,
        ItemVariant::FlintRock => "flint_rock"@,
        ItemVariant::PineStick => "pine_stick"@,
        ItemVariant::OakStick => "oak_stick"@,
        ItemVariant::SharpendFlint => "sharpend_flint"@,
        ItemVariant::FlintHammer => "flint_hammer"@,
        ItemVariant::FlintShovel => "flint_shovel"@,
        ItemVariant::FlintAxe => "flint_axe"@,
        ItemVariant::Acorn => "acorn"@,
        ItemVariant::PineCone => "pine_cone"@,
    }
}

/// Every kind, in build order.
pub open spec fn spec_all_item_variants() -> Seq<ItemVariant> {
    seq![
        ItemVariant::Empty,
        ItemVariant::Hammer,
        ItemVariant::Shovel,
        ItemVariant::Axe,
        ItemVariant::SandboxDestroyWand,
        ItemVariant::Tile,
        ItemVariant::Rock,
        ItemVariant::FlintRock,
        ItemVariant::PineStick,
        ItemVariant::OakStick,
        ItemVariant::SharpendFlint,
        ItemVariant::FlintHammer,
        ItemVariant::FlintShovel,
        ItemVariant::FlintAxe,
        ItemVariant::Acorn,
        ItemVariant::PineCone,
    ]
}

/// The kind whose symbolic name is `s`, if any.
pub open spec fn spec_item_variant_from_name(s: Seq<char>) -> Option<ItemVariant> {
    spec_item_variant_from_name_from(s, 0)
}

/// The first kind at or after position `k` of the build order whose
/// symbolic name is `s`.
pub open spec fn spec_item_variant_from_name_from(s: Seq<char>, k: int) -> Option<ItemVariant>
    decreases spec_all_item_variants().len() - k,
{
    if k < 0 || k >= spec_all_item_variants().len() {
        None
    } else if s == spec_item_variant_name(spec_all_item_variants()[k]) {
        Some(spec_all_item_variants()[k])
    } else {
        spec_item_variant_from_name_from(s, k + 1)
    }
}

/// The byte image of an item: its kind's build ordinal, and for a tile in
/// item form also the tile's own image.
pub open spec fn spec_item_bytes(it: Item) -> Seq<u8>
    decreases it,
{
    match it {
        Item::Tile(tile) => seq![spec_item_variant_id(ItemVariant::Tile)] + spec_tile_bytes(tile),
        _ => seq![spec_item_variant_id(spec_item_variant(it))],
    }
}

/// Reading one item record at `i`: the id byte is translated through the
/// namespace's item table, and a tile in item form carries a whole tile
/// record after it.
pub open spec fn spec_parse_item(data: Seq<u8>, i: int, ns: Namespace) -> Parse<Item>
    decreases data.len() - i, 0int,
{
    if i < 0 || i >= data.len() {
        Parse::Failed(Error::OutOfBoundsFileRead)
    } else if data[i] as int >= ns.items@.len() {
        Parse::Failed(Error::IDOutOfNamespaceBounds)
    } else {
        match ns.items@[data[i] as int] {
            ItemVariant::Empty => Parse::Found(Item::Empty, i + 1),
            ItemVariant::Hammer => Parse::Found(Item::Hammer, i + 1),
            ItemVariant::Shovel => Parse::Found(Item::Shovel, i + 1),
            ItemVariant::Axe => Parse::Found(Item::Axe, i + 1),
            ItemVariant::SandboxDestroyWand => Parse::Found(Item::SandboxDestroyWand, i + 1),
            ItemVariant::Tile => match spec_parse_tile(data, i + 1, ns) {
                Parse::Found(tile, j) => Parse::Found(Item::Tile(tile), j),
                Parse::Failed(e) => Parse::Failed(e),
            },
            ItemVariant::Rock => Parse::Found(Item::Rock, i + 1),
            ItemVariant::FlintRock => Parse::Found(Item::FlintRock, i + 1),
            ItemVariant::PineStick => Parse::Found(Item::PineStick, i + 1),
            ItemVariant::OakStick => Parse::Found(Item::OakStick, i + 1),
            ItemVariant::SharpendFlint => Parse::Found(Item::SharpendFlint, i + 1),
            ItemVariant::FlintHammer => Parse::Found(Item::FlintHammer, i + 1),
            ItemVariant::FlintShovel => Parse::Found(Item::FlintShovel, i + 1),
            ItemVariant::FlintAxe => Parse::Found(Item::FlintAxe, i + 1),
            ItemVariant::Acorn => Parse::Found(Item::Acorn, i + 1),
            ItemVariant::PineCone => Parse::Found(Item::PineCone, i + 1),
        }
    }
}

/// The texture that draws the item.
pub open spec fn spec_item_texture(it: Item) -> Texture
    decreases it,
{
    match it {
        Item::Empty => Texture::NoTexture,
        Item::Shovel => Texture::Shovel,
        Item::Axe => Texture::Axe,
        Item::SandboxDestroyWand => Texture::SandboxDestroyWand,
        Item::Hammer => Texture::Hammer,
        Item::Tile(tile) => spec_tile_texture(tile),
        Item::Rock => Texture::Rock,
        Item::FlintRock => Texture::FlintRock,
        Item::PineStick => Texture::PineStick,
        Item::OakStick => Texture::OakStick,
        Item::SharpendFlint => Texture::SharpendFlint,
        Item::FlintAxe => Texture::FlintAxe,
        Item::FlintHammer => Texture::FlintHammer,
        Item::FlintShovel => Texture::FlintShovel,
        Item::Acorn => Texture::Acorn,
        Item::PineCone => Texture::PineCone,
    }
}


/// What a tool can break: the creative wand breaks anything, shovels break
/// a lone ground layer, axes fell choppable growth, and a bare hand plucks
/// pluckable things.
pub open spec fn spec_can_break(it: Item, tiles: Seq<Tile>) -> bool {
    match it {
        Item::SandboxDestroyWand => true,
        Item::Shovel | Item::FlintShovel => tiles.len() == 1,
        Item::Axe | Item::FlintAxe => tiles.len() > 0 && crate::tile::spec_is_choppable(
            tiles[tiles.len() - 1],
        ),
        Item::Empty => tiles.len() > 0 && crate::tile::spec_is_pluckable(tiles[tiles.len() - 1]),
        _ => false,
    }
}

/// A live item: any kind, with a payload that is itself well formed.
pub open spec fn spec_item_wf(it: Item) -> bool
    decreases it,
{
    match it {
        Item::Tile(tile) => crate::tile::spec_tile_wf(tile),
        _ => true,
    }
}

/// A successful item parse lands strictly past where it started and within
/// the data.
pub proof fn lemma_parse_item_bounds(data: Seq<u8>, i: int, ns: Namespace)
    ensures
        spec_parse_item(data, i, ns) matches Parse::Found(_, j) ==> i < j <= data.len(),
    decreases data.len() - i, 0int,
{
    if 0 <= i < data.len() && (data[i] as int) < ns.items@.len() {
        if ns.items@[data[i] as int] == ItemVariant::Tile {
            crate::tile::lemma_parse_tile_bounds(data, i + 1, ns);
        }
    }
}


/// Round trip, item level: an item written by this build and read back
/// under a namespace matching this build is reproduced exactly, wherever
/// its image sits in the stream.
pub proof fn lemma_parse_item_round_trip(data: Seq<u8>, i: int, it: Item, ns: Namespace)
    requires
        spec_item_wf(it),
        crate::namespace::spec_namespace_is_current(ns),
        0 <= i,
        i + spec_item_bytes(it).len() <= data.len(),
        data.subrange(i, i + spec_item_bytes(it).len() as int) == spec_item_bytes(it),
    ensures
        spec_parse_item(data, i, ns) == Parse::<Item>::Found(it, i + spec_item_bytes(it).len()),
    decreases it,
{
    let bytes = spec_item_bytes(it);
    assert forall|m: int| 0 <= m < bytes.len() implies data[i + m] == bytes[m] by {
        assert(data.subrange(i, i + bytes.len() as int)[m] == bytes[m]);
    }
    assert(data[i] == bytes[0]);
    assert(spec_all_item_variants().len() == 16);
    match it {
        Item::Tile(tile) => {
            let tb = crate::tile::spec_tile_bytes(tile);
            assert(data[i] == 5);
            assert(ns.items@[5] == ItemVariant::Tile);
            assert(bytes =~= seq![5u8] + tb);
            assert forall|k: int| 0 <= k < tb.len() implies data.subrange(
                i + 1,
                i + 1 + tb.len() as int,
            )[k] == tb[k] by {
                assert(data[i + 1 + k] == bytes[1 + k]);
                assert(bytes[1 + k] == tb[k]);
            }
            assert(data.subrange(i + 1, i + 1 + tb.len() as int) =~= tb);
            crate::tile::lemma_parse_tile_round_trip(data, i + 1, tile, ns);
            assert(spec_parse_item(data, i, ns) == Parse::<Item>::Found(it, i + bytes.len()));
        },
        _ => {
            assert(bytes.len() == 1);
            assert(spec_parse_item(data, i, ns) == Parse::<Item>::Found(it, i + 1));
        },
    }
}


/// Namespace stability, item level: reading an item record depends only on
/// the namespace's tables.
pub proof fn lemma_namespace_stability_item(data: Seq<u8>, i: int, ns1: Namespace, ns2: Namespace)
    requires
        ns1.tiles@ == ns2.tiles@,
        ns1.items@ == ns2.items@,
    ensures
        spec_parse_item(data, i, ns1) == spec_parse_item(data, i, ns2),
    decreases data.len() - i, 0int,
{
    if 0 <= i < data.len() && (data[i] as int) < ns1.items@.len() {
        match ns1.items@[data[i] as int] {
            ItemVariant::Tile => {
                crate::tile::lemma_namespace_stability(data, i + 1, ns1, ns2);
            },
            _ => {},
        }
    }
}

/// True exactly when the two items are equal, payloads included.
pub fn item_eq(a: &Item, b: &Item) -> (r: bool)
    ensures
        r == (a == b),
    decreases *a,
{
    match (a, b) {
        (Item::Empty, Item::Empty) => true,
        (Item::Hammer, Item::Hammer) => true,
        (Item::Shovel, Item::Shovel) => true,
        (Item::Axe, Item::Axe) => true,
        (Item::SandboxDestroyWand, Item::SandboxDestroyWand) => true,
        (Item::Tile(ta), Item::Tile(tb)) => tile_eq(ta, tb),
        (Item::Rock, Item::Rock) => true,
        (Item::FlintRock, Item::FlintRock) => true,
        (Item::PineStick, Item::PineStick) => true,
        (Item::OakStick, Item::OakStick) => true,
        (Item::SharpendFlint, Item::SharpendFlint) => true,
        (Item::FlintHammer, Item::FlintHammer) => true,
        (Item::FlintShovel, Item::FlintShovel) => true,
        (Item::FlintAxe, Item::FlintAxe) => true,
        (Item::Acorn, Item::Acorn) => true,
        (Item::PineCone, Item::PineCone) => true,
        _ => false,
    }
}

/// An exact copy of the item, payloads included.
pub fn item_clone(a: &Item) -> (r: Item)
    ensures
        r == *a,
    decreases *a,
{
    match a {
        Item::Empty => Item::Empty,
        Item::Hammer => Item::Hammer,
        Item::Shovel => Item::Shovel,
        Item::Axe => Item::Axe,
        Item::SandboxDestroyWand => Item::SandboxDestroyWand,
        Item::Tile(tile) => Item::Tile(tile_clone(tile)),
        Item::Rock => Item::Rock,
        Item::FlintRock => Item::FlintRock,
        Item::PineStick => Item::PineStick,
        Item::OakStick => Item::OakStick,
        Item::SharpendFlint => Item::SharpendFlint,
        Item::FlintHammer => Item::FlintHammer,
        Item::FlintShovel => Item::FlintShovel,
        Item::FlintAxe => Item::FlintAxe,
        Item::Acorn => Item::Acorn,
        Item::PineCone => Item::PineCone,
    }
}

impl Clone for Item {
    fn clone(&self) -> (r: Self)
        ensures
            r == *self,
    {
        item_clone(self)
    }
}

impl PartialEq for Item {
    fn eq(&self, other: &Self) -> (r: bool) {
        item_eq(self, other)
    }
}

impl Eq for Item {

}

impl vstd::std_specs::cmp::PartialEqSpecImpl for Item {
    open spec fn obeys_eq_spec() -> bool {
        true
    }

    open spec fn eq_spec(&self, other: &Item) -> bool {
        *self == *other
    }
}

impl Item {
    /// The kind of this item.
    pub fn variant(&self) -> (r: ItemVariant)
        ensures
            r == spec_item_variant(*self),
    {
        match self {
            Self::Empty => ItemVariant::Empty,
            Self::Hammer => ItemVariant::Hammer,
            Self::Shovel => ItemVariant::Shovel,
            Self::Axe => ItemVariant::Axe,
            Self::SandboxDestroyWand => ItemVariant::SandboxDestroyWand,
            Self::Tile(_) => ItemVariant::Tile,
            Self::Rock => ItemVariant::Rock,
            Self::FlintRock => ItemVariant::FlintRock,
            Self::PineStick => ItemVariant::PineStick,
            Self::OakStick => ItemVariant::OakStick,
            Self::SharpendFlint => ItemVariant::SharpendFlint,
            Self::FlintHammer => ItemVariant::FlintHammer,
            Self::FlintShovel => ItemVariant::FlintShovel,
            Self::FlintAxe => ItemVariant::FlintAxe,
            Self::Acorn => ItemVariant::Acorn,
            Self::PineCone => ItemVariant::PineCone,
        }
    }

    /// The texture used to draw the item.
    pub fn get_texture(&self) -> (r: Texture)
        ensures
            r == spec_item_texture(*self),
        decreases *self,
    {
        match self {
            Self::Empty => Texture::NoTexture,
            Self::Shovel => Texture::Shovel,
            Self::Axe => Texture::Axe,
            Self::SandboxDestroyWand => Texture::SandboxDestroyWand,
            Self::Hammer => Texture::Hammer,
            Self::Tile(tile) => tile.get_texture(),
            Self::Rock => Texture::Rock,
            Self::FlintRock => Texture::FlintRock,
            Self::PineStick => Texture::PineStick,
            Self::OakStick => Texture::OakStick,
            Self::SharpendFlint => Texture::SharpendFlint,
            Self::FlintAxe => Texture::FlintAxe,
            Self::FlintHammer => Texture::FlintHammer,
            Self::FlintShovel => Texture::FlintShovel,
            Self::Acorn => Texture::Acorn,
            Self::PineCone => Texture::PineCone,
        }
    }

    /// True exactly when the item is the empty item.
    pub fn is_none(&self) -> (r: bool)
        ensures
            r == (*self matches Item::Empty),
    {
        match self {
            Self::Empty => true,
            _ => false,
        }
    }


    /// Whether this item, used as a tool, can break the top of the stack.
    pub fn can_break(&self, tile_stack: &crate::tile_stack::TileStack) -> (r: bool)
        ensures
            r == spec_can_break(*self, tile_stack.tiles@),
    {
        let n = tile_stack.tiles.len();
        match self {
            Self::SandboxDestroyWand => true,
            Self::Shovel | Self::FlintShovel => n == 1,
            Self::Axe | Self::FlintAxe => n > 0 && tile_stack.tiles[n - 1].is_choppable(),
            Self::Empty => n > 0 && tile_stack.tiles[n - 1].is_pluckable(),
            _ => false,
        }
    }

    /// Use the selected item stack on a tile stack: tools and the bare hand
    /// break the top layer and yield its drops, placeable things go on top
    /// when the stack accepts them, and a flint rock struck on rocks
    /// sharpens instead of being placed. Returns whether the used item is
    /// consumed, and the drops to collect. The item stack itself is only
    /// read; consuming it is the caller's move.
    #[verifier::rlimit(30)]
    pub fn use_stack_mut_self(
        self_stack: &mut (Item, u8),
        tile_stack: &mut crate::tile_stack::TileStack,
    ) -> (r: (bool, Vec<crate::item_drop::ItemDrop>))
        requires
            old(self_stack).0 matches Item::Tile(t) ==> !(t matches Tile::Empty),
        ensures
            *final(self_stack) == *old(self_stack),
            match old(self_stack).0 {
                Item::SandboxDestroyWand | Item::Axe | Item::Hammer | Item::Shovel | Item::FlintAxe
                    | Item::FlintHammer | Item::FlintShovel | Item::Empty => {
                    if spec_can_break(old(self_stack).0, old(tile_stack).tiles@) && old(
                        tile_stack,
                    ).tiles@.len() > 0 {
                        &&& final(tile_stack).tiles@ == old(tile_stack).tiles@.drop_last()
                        &&& final(tile_stack).needs_redrawing == true
                        &&& r.0 == false
                        &&& r.1@ == crate::tile::spec_tile_drops(
                            old(tile_stack).tiles@[old(tile_stack).tiles@.len() - 1],
                        )
                    } else {
                        final(tile_stack).tiles@ == old(tile_stack).tiles@ && final(tile_stack).needs_redrawing == old(tile_stack).needs_redrawing && r.0 == false && r.1@.len() == 0
                    }
                },
                Item::Tile(tile) => {
                    if crate::tile::spec_can_place_on(tile, old(tile_stack).tiles@) {
                        &&& final(tile_stack).tiles@ == old(tile_stack).tiles@.push(tile)
                        &&& final(tile_stack).needs_redrawing == true
                        &&& r.0 == true
                        &&& r.1@.len() == 0
                    } else {
                        final(tile_stack).tiles@ == old(tile_stack).tiles@ && final(tile_stack).needs_redrawing == old(tile_stack).needs_redrawing && r.0 == false && r.1@.len() == 0
                    }
                },
                Item::Rock | Item::PineStick | Item::OakStick | Item::SharpendFlint => {
                    let to_place = Tile::Item(Box::new(old(self_stack).0));
                    if crate::tile::spec_can_place_on(to_place, old(tile_stack).tiles@) {
                        &&& final(tile_stack).tiles@ == old(tile_stack).tiles@.push(to_place)
                        &&& final(tile_stack).needs_redrawing == true
                        &&& r.0 == true
                        &&& r.1@.len() == 0
                    } else {
                        final(tile_stack).tiles@ == old(tile_stack).tiles@ && final(tile_stack).needs_redrawing == old(tile_stack).needs_redrawing && r.0 == false && r.1@.len() == 0
                    }
                },
                Item::FlintRock => {
                    if old(tile_stack).tiles@.len() == 0 {
                        final(tile_stack).tiles@ == old(tile_stack).tiles@ && final(tile_stack).needs_redrawing == old(tile_stack).needs_redrawing && r.0 == false && r.1@.len() == 0
                    } else if old(tile_stack).tiles@[old(tile_stack).tiles@.len() - 1]
                        == Tile::Rocks {
                        &&& final(tile_stack).tiles@ == old(tile_stack).tiles@
                        &&& final(tile_stack).needs_redrawing == old(tile_stack).needs_redrawing
                        &&& r.0 == true
                        &&& r.1@ == seq![
                            crate::item_drop::ItemDrop::Single(Item::SharpendFlint),
                        ]
                    } else {
                        let to_place = Tile::Item(Box::new(Item::FlintRock));
                        if crate::tile::spec_can_place_on(to_place, old(tile_stack).tiles@) {
                            &&& final(tile_stack).tiles@ == old(tile_stack).tiles@.push(to_place)
                            &&& final(tile_stack).needs_redrawing == true
                            &&& r.0 == true
                            &&& r.1@.len() == 0
                        } else {
                            *final(tile_stack) == *old(tile_stack) && r.0 == false && r.1@.len()
                                == 0
                        }
                    }
                },
                Item::Acorn => {
                    if crate::tile::spec_can_place_on(Tile::OakTree, old(tile_stack).tiles@) {
                        &&& final(tile_stack).tiles@ == old(tile_stack).tiles@.push(Tile::OakTree)
                        &&& final(tile_stack).needs_redrawing == true
                        &&& r.0 == true
                        &&& r.1@.len() == 0
                    } else {
                        final(tile_stack).tiles@ == old(tile_stack).tiles@ && final(tile_stack).needs_redrawing == old(tile_stack).needs_redrawing && r.0 == false && r.1@.len() == 0
                    }
                },
                Item::PineCone => {
                    if crate::tile::spec_can_place_on(Tile::PineTree, old(tile_stack).tiles@) {
                        &&& final(tile_stack).tiles@ == old(tile_stack).tiles@.push(Tile::PineTree)
                        &&& final(tile_stack).needs_redrawing == true
                        &&& r.0 == true
                        &&& r.1@.len() == 0
                    } else {
                        final(tile_stack).tiles@ == old(tile_stack).tiles@ && final(tile_stack).needs_redrawing == old(tile_stack).needs_redrawing && r.0 == false && r.1@.len() == 0
                    }
                },
            },
    {
        let empty_drops: Vec<crate::item_drop::ItemDrop> = Vec::new();
        let item = &self_stack.0;
        match item {
            Item::SandboxDestroyWand | Item::Axe | Item::Hammer | Item::Shovel | Item::FlintAxe
                | Item::FlintHammer | Item::FlintShovel | Item::Empty => {
                if !item.can_break(tile_stack) {
                    return (false, empty_drops);
                }
                let tile = match tile_stack.tiles.pop() {
                    Some(tile) => tile,
                    None => {
                        return (false, empty_drops);
                    },
                };
                tile_stack.needs_redrawing = true;
                (false, tile.get_drops())
            },
            Item::Tile(tile) => {
                if !tile.can_place_on(tile_stack) {
                    return (false, empty_drops);
                }
                tile_stack.tiles.push(tile_clone(tile));
                tile_stack.needs_redrawing = true;
                (true, empty_drops)
            },
            Item::Rock | Item::PineStick | Item::OakStick | Item::SharpendFlint => {
                let to_place = Tile::Item(Box::new(item_clone(item)));
                if !to_place.can_place_on(tile_stack) {
                    return (false, empty_drops);
                }
                tile_stack.tiles.push(to_place);
                tile_stack.needs_redrawing = true;
                (true, empty_drops)
            },
            Item::FlintRock => {
                let n = tile_stack.tiles.len();
                if n == 0 {
                    return (false, empty_drops);
                }
                if tile_eq(&tile_stack.tiles[n - 1], &Tile::Rocks) {
                    let mut drops: Vec<crate::item_drop::ItemDrop> = Vec::new();
                    drops.push(crate::item_drop::ItemDrop::Single(Item::SharpendFlint));
                    proof {
                        assert(drops@ =~= seq![
                            crate::item_drop::ItemDrop::Single(Item::SharpendFlint),
                        ]);
                    }
                    return (true, drops);
                }
                let to_place = Tile::Item(Box::new(Item::FlintRock));
                if !to_place.can_place_on(tile_stack) {
                    return (false, empty_drops);
                }
                tile_stack.tiles.push(to_place);
                tile_stack.needs_redrawing = true;
                (true, empty_drops)
            },
            Item::Acorn => {
                let tile = Tile::OakTree;
                if !tile.can_place_on(tile_stack) {
                    return (false, empty_drops);
                }
                tile_stack.tiles.push(tile);
                tile_stack.needs_redrawing = true;
                (true, empty_drops)
            },
            Item::PineCone => {
                let tile = Tile::PineTree;
                if !tile.can_place_on(tile_stack) {
                    return (false, empty_drops);
                }
                tile_stack.tiles.push(tile);
                tile_stack.needs_redrawing = true;
                (true, empty_drops)
            },
        }
    }

    /// Using one item of a stack: the count drops by one (never below
    /// zero), and a stack that reaches zero becomes the empty item.
    pub fn consume_item(&mut self, stack_size: &mut u8)
        ensures
            *final(stack_size) == if *old(stack_size) > 0 {
                *old(stack_size) - 1
            } else {
                0int
            },
            *final(stack_size) == 0 ==> *final(self) matches Item::Empty,
            *final(stack_size) != 0 ==> *final(self) == *old(self),
    {
        if *stack_size > 0 {
            *stack_size = *stack_size - 1;
        }
        if *stack_size == 0 {
            *self = Item::Empty;
        }
    }

    pub fn serialize(&self, file: &mut FileWriter)
        ensures
            final(file).data@ == old(file).data@ + spec_item_bytes(*self),
        decreases *self,
    {
        file.push_u8(self.variant().id());
        match self {
            Self::Tile(tile) => tile.serialize(file),
            _ => {},
        }
        proof {
            assert(file.data@ =~= old(file).data@ + spec_item_bytes(*self));
        }
    }

    pub fn deserialize(file: &mut FileReader, namespace: &Namespace, version: u32) -> (r: Result<
        Item,
        Error,
    >)
        ensures
            final(file).data == old(file).data,
            final(file).strings_v0 == old(file).strings_v0,
            match spec_parse_item(old(file).data@, old(file).read_index as int, *namespace) {
                Parse::Found(it, j) => r == Result::<Item, Error>::Ok(it) && final(file).read_index
                    == j,
                Parse::Failed(e) => r == Result::<Item, Error>::Err(e),
            },
        decreases file.data@.len() - file.read_index, 0int,
    {
        let id = match file.read_u8() {
            Ok(id) => id,
            Err(e) => {
                return Err(e);
            },
        };
        let variant = match crate::util::vec_get(&namespace.items, id as usize) {
            Some(v) => v,
            None => {
                return Err(Error::IDOutOfNamespaceBounds);
            },
        };
        match variant {
            ItemVariant::Empty => Ok(Item::Empty),
            ItemVariant::Hammer => Ok(Item::Hammer),
            ItemVariant::Shovel => Ok(Item::Shovel),
            ItemVariant::Axe => Ok(Item::Axe),
            ItemVariant::SandboxDestroyWand => Ok(Item::SandboxDestroyWand),
            ItemVariant::Tile => match Tile::deserialize(file, namespace, version) {
                Ok(tile) => Ok(Item::Tile(tile)),
                Err(e) => Err(e),
            },
            ItemVariant::Rock => Ok(Item::Rock),
            ItemVariant::FlintRock => Ok(Item::FlintRock),
            ItemVariant::PineStick => Ok(Item::PineStick),
            ItemVariant::OakStick => Ok(Item::OakStick),
            ItemVariant::SharpendFlint => Ok(Item::SharpendFlint),
            ItemVariant::FlintHammer => Ok(Item::FlintHammer),
            ItemVariant::FlintShovel => Ok(Item::FlintShovel),
            ItemVariant::FlintAxe => Ok(Item::FlintAxe),
            ItemVariant::Acorn => Ok(Item::Acorn),
            ItemVariant::PineCone => Ok(Item::PineCone),
        }
    }
}

impl ItemVariant {
    /// The kind's ordinal in this build.
    pub fn id(self) -> (r: u8)
        ensures
            r == spec_item_variant_id(self),
    {
        match self {
            Self::Empty => 0,
            Self::Hammer => 1,
            Self::Shovel => 2,
            Self::Axe => 3,
            Self::SandboxDestroyWand => 4,
            Self::Tile => 5,
            Self::Rock => 6,
            Self::FlintRock => 7,
            Self::PineStick => 8,
            Self::OakStick => 9,
            Self::SharpendFlint => 10,
            Self::FlintHammer => 11,
            Self::FlintShovel => 12,
            Self::FlintAxe => 13,
            Self::Acorn => 14,
            Self::PineCone => 15,
        }
    }

    pub fn get_name_id(self) -> (r: &'static str)
        ensures
            r@ == spec_item_variant_name(self),
    {
        match self {
            Self::Empty => "none",
            Self::Hammer => "hammer",
            Self::Shovel => "shovel",
            Self::Axe => "axe",
            Self::SandboxDestroyWand => "sandbox_destroy_wand",
            Self::Tile => "tile",
            Self::Rock => "rock",
            Self::FlintRock => "flint_rock",
            Self::PineStick => "pine_stick",
            Self::OakStick => "oak_stick",
            Self::SharpendFlint => "sharpend_flint",
            Self::FlintHammer => "flint_hammer",
            Self::FlintShovel => "flint_shovel",
            Self::FlintAxe => "flint_axe",
            Self::Acorn => "acorn",
            Self::PineCone => "pine_cone",
        }
    }

    /// The kind carrying the given symbolic name.
    pub fn from_name(name: &String) -> (r: Option<ItemVariant>)
        ensures
            r == spec_item_variant_from_name(name@),
    {
        let all = Self::all_variants();
        let mut k: usize = 0;
        while k < all.len()
            invariant
                0 <= k <= all@.len(),
                all@ == spec_all_item_variants(),
                spec_item_variant_from_name(name@) == spec_item_variant_from_name_from(
                    name@,
                    k as int,
                ),
            decreases all@.len() - k,
        {
            if crate::util::string_eq_lit(name, all[k].get_name_id()) {
                return Some(all[k]);
            }
            k = k + 1;
        }
        None
    }

    /// Every kind, in build order.
    pub fn all_variants() -> (r: Vec<ItemVariant>)
        ensures
            r@ == spec_all_item_variants(),
    {
        let mut out: Vec<ItemVariant> = Vec::new();
        out.push(Self::Empty);
        out.push(Self::Hammer);
        out.push(Self::Shovel);
        out.push(Self::Axe);
        out.push(Self::SandboxDestroyWand);
        out.push(Self::Tile);
        out.push(Self::Rock);
        out.push(Self::FlintRock);
        out.push(Self::PineStick);
        out.push(Self::OakStick);
        out.push(Self::SharpendFlint);
        out.push(Self::FlintHammer);
        out.push(Self::FlintShovel);
        out.push(Self::FlintAxe);
        out.push(Self::Acorn);
        out.push(Self::PineCone);
        proof {
            assert(out@ =~= spec_all_item_variants());
        }
        out
    }
}

} // verus!
