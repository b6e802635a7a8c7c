use vstd::prelude::*;

use crate::error::Error;
use crate::file_reader::FileReader;
use crate::file_writer::FileWriter;
use crate::namespace::Namespace;
use crate::parse::Parse;
use crate::tile::{
    lemma_parse_tile_bounds, spec_parse_tile, spec_parse_tile_v0, spec_tile_bytes,
    spec_tile_variant_id, spec_tile_wf, Tile, TileVariant,
};

verus! {

/// One cell's layered content: the ordered tile layers from the ground up,
/// and a flag telling the renderer that the cell must be redrawn. The
/// renderer's vertex caches live outside this library.
pub struct TileStack {
    pub tiles: Vec<Tile>,
    pub needs_redrawing: bool,
}

/// Every layer of the stack is a well-formed tile.
pub open spec fn spec_tile_stack_wf(tiles: Seq<Tile>) -> bool {
    forall|k: int| 0 <= k < tiles.len() ==> spec_tile_wf(#[trigger] tiles[k])
}

/// The byte images of the tiles, one after the other, without a terminator.
pub open spec fn spec_tiles_bytes(tiles: Seq<Tile>) -> Seq<u8>
    decreases tiles.len(),
{
    if tiles.len() == 0 {
        Seq::<u8>::empty()
    } else {
        spec_tile_bytes(tiles[0]) + spec_tiles_bytes(tiles.skip(1))
    }
}

/// The byte image of a whole stack record: each layer's image in order,
/// terminated by the reserved none id.
pub open spec fn spec_tile_stack_bytes(tiles: Seq<Tile>) -> Seq<u8> {
    spec_tiles_bytes(tiles) + seq![0u8]
}

pub proof fn lemma_tiles_bytes_push(tiles: Seq<Tile>, t: Tile)
    ensures
        spec_tiles_bytes(tiles.push(t)) == spec_tiles_bytes(tiles) + spec_tile_bytes(t),
    decreases tiles.len(),
{
    if tiles.len() == 0 {
        assert(tiles.push(t)[0] == t);
        assert(tiles.push(t).skip(1) =~= Seq::<Tile>::empty());
        assert(spec_tiles_bytes(Seq::<Tile>::empty()) == Seq::<u8>::empty());
        assert(spec_tiles_bytes(tiles.push(t)) == spec_tile_bytes(t) + Seq::<u8>::empty());
        assert(spec_tiles_bytes(tiles.push(t)) =~= spec_tiles_bytes(tiles) + spec_tile_bytes(t));
    } else {
        assert(tiles.push(t)[0] == tiles[0]);
        assert(tiles.push(t).skip(1) =~= tiles.skip(1).push(t));
        lemma_tiles_bytes_push(tiles.skip(1), t);
        assert(spec_tiles_bytes(tiles.push(t)) == spec_tile_bytes(tiles[0]) + (spec_tiles_bytes(
            tiles.skip(1),
        ) + spec_tile_bytes(t)));
        assert(spec_tiles_bytes(tiles.push(t)) =~= spec_tiles_bytes(tiles) + spec_tile_bytes(t));
    }
}

/// Reading a whole stack record at `i`: tile records until the reserved
/// none id, which the stack reader consumes itself.
pub open spec fn spec_parse_tile_stack(data: Seq<u8>, i: int, ns: Namespace) -> Parse<Seq<Tile>>
    decreases data.len() - i,
    via spec_parse_tile_stack_decreases
{
    if i < 0 || i >= data.len() {
        Parse::Failed(Error::OutOfBoundsFileRead)
    } else if data[i] as int >= ns.tiles@.len() {
        Parse::Failed(Error::IDOutOfNamespaceBounds)
    } else if ns.tiles@[data[i] as int] == TileVariant::Empty {
        Parse::Found(Seq::<Tile>::empty(), i + 1)
    } else {
        match spec_parse_tile(data, i, ns) {
            Parse::Found(t, j) => match spec_parse_tile_stack(data, j, ns) {
                Parse::Found(rest, k) => Parse::Found(seq![t] + rest, k),
                Parse::Failed(e) => Parse::Failed(e),
            },
            Parse::Failed(e) => Parse::Failed(e),
        }
    }
}

#[via_fn]
proof fn spec_parse_tile_stack_decreases(data: Seq<u8>, i: int, ns: Namespace) {
    lemma_parse_tile_bounds(data, i, ns);
}


/// Namespace stability, stack level: a whole stack record reads the same
/// under any two namespaces with the same tables.
pub proof fn lemma_namespace_stability_stack(data: Seq<u8>, i: int, ns1: Namespace, ns2: Namespace)
    requires
        ns1.tiles@ == ns2.tiles@,
        ns1.items@ == ns2.items@,
    ensures
        spec_parse_tile_stack(data, i, ns1) == spec_parse_tile_stack(data, i, ns2),
    decreases data.len() - i,
{
    if 0 <= i < data.len() && (data[i] as int) < ns1.tiles@.len() {
        if ns1.tiles@[data[i] as int] != TileVariant::Empty {
            crate::tile::lemma_namespace_stability(data, i, ns1, ns2);
            match spec_parse_tile(data, i, ns1) {
                crate::parse::Parse::Found(t, j) => {
                    lemma_parse_tile_bounds(data, i, ns1);
                    lemma_namespace_stability_stack(data, j, ns1, ns2);
                },
                crate::parse::Parse::Failed(_) => {},
            }
        }
    }
}

/// A parse continuation with `prefix` already read: the rest of the stack
/// is prepended to it.
pub open spec fn spec_parse_prepend(prefix: Seq<Tile>, p: Parse<Seq<Tile>>) -> Parse<Seq<Tile>> {
    match p {
        Parse::Found(rest, k) => Parse::Found(prefix + rest, k),
        Parse::Failed(e) => Parse::Failed(e),
    }
}

/// Reading a whole stack of the legacy version-0 layout: record lengths
/// come from their own table, a zero length ends the stack, and each record
/// is decoded out of its slice of the data area. Returns the tiles and the
/// positions just past what was consumed in both areas.
pub open spec fn spec_parse_tile_stack_v0(
    lengths: Seq<u8>,
    datas: Seq<u8>,
    li: int,
    di: int,
    ns: Namespace,
) -> Option<(Seq<Tile>, int, int)>
    decreases lengths.len() - li,
{
    if li < 0 || li >= lengths.len() {
        None
    } else if lengths[li] == 0 {
        Some((Seq::<Tile>::empty(), li + 1, di))
    } else if di < 0 || di + lengths[li] > datas.len() {
        None
    } else {
        match spec_parse_tile_v0(datas.subrange(di, di + lengths[li]), ns) {
            None => None,
            Some((t, n)) => match spec_parse_tile_stack_v0(lengths, datas, li + 1, di + n, ns) {
                None => None,
                Some((rest, lj, dj)) => Some((seq![t] + rest, lj, dj)),
            },
        }
    }
}


/// Round trip, stack level: a stack record written by this build and read
/// back under a namespace matching this build reproduces the same layer
/// sequence, wherever the record sits in the stream.
pub proof fn lemma_parse_tile_stack_round_trip(data: Seq<u8>, i: int, tiles: Seq<Tile>, ns: Namespace)
    requires
        spec_tile_stack_wf(tiles),
        crate::namespace::spec_namespace_is_current(ns),
        0 <= i,
        i + spec_tile_stack_bytes(tiles).len() <= data.len(),
        data.subrange(i, i + spec_tile_stack_bytes(tiles).len() as int) == spec_tile_stack_bytes(
            tiles,
        ),
    ensures
        spec_parse_tile_stack(data, i, ns) == Parse::<Seq<Tile>>::Found(
            tiles,
            i + spec_tile_stack_bytes(tiles).len(),
        ),
    decreases tiles.len(),
{
    let bytes = spec_tile_stack_bytes(tiles);
    assert forall|m: int| 0 <= m < bytes.len() implies data[i + m] == bytes[m] by {
        assert(data.subrange(i, i + bytes.len() as int)[m] == bytes[m]);
    }
    assert(crate::tile::spec_all_tile_variants().len() == 14);
    if tiles.len() == 0 {
        assert(spec_tiles_bytes(tiles) == Seq::<u8>::empty());
        assert(bytes =~= seq![0u8]);
        assert(data[i + 0] == bytes[0]);
        assert(data[i] == 0);
        assert(ns.tiles@[0] == TileVariant::Empty);
        assert(spec_parse_tile_stack(data, i, ns) == Parse::<Seq<Tile>>::Found(
            Seq::<Tile>::empty(),
            i + 1,
        ));
        assert(tiles =~= Seq::<Tile>::empty());
    } else {
        let t0 = tiles[0];
        let tb = spec_tile_bytes(t0);
        let sb = spec_tile_stack_bytes(tiles.skip(1));
        assert(spec_tiles_bytes(tiles) == tb + spec_tiles_bytes(tiles.skip(1)));
        assert(bytes =~= tb + sb);
        assert forall|k: int| 0 <= k < tb.len() implies data.subrange(i, i + tb.len() as int)[k]
            == tb[k] by {
            assert(data[i + k] == bytes[k]);
            assert(bytes[k] == tb[k]);
        }
        assert(data.subrange(i, i + tb.len() as int) =~= tb);
        crate::tile::lemma_parse_tile_round_trip(data, i, t0, ns);
        let j = i + tb.len() as int;
        assert forall|k: int| 0 <= k < sb.len() implies data.subrange(j, j + sb.len() as int)[k]
            == sb[k] by {
            assert(data[i + (tb.len() + k)] == bytes[tb.len() + k]);
            assert(bytes[tb.len() + k] == sb[k]);
        }
        assert(data.subrange(j, j + sb.len() as int) =~= sb);
        assert(spec_tile_stack_wf(tiles.skip(1))) by {
            assert(forall|k: int|
                0 <= k < tiles.skip(1).len() ==> #[trigger] tiles.skip(1)[k] == tiles[k + 1]);
        }
        lemma_parse_tile_stack_round_trip(data, j, tiles.skip(1), ns);
        assert(spec_tile_variant_id(crate::tile::spec_tile_variant(t0)) != 0) by {
            assert(crate::tile::spec_tile_wf(t0));
        }
        assert(data[i + 0] == bytes[0]);
        assert(ns.tiles@[data[i] as int] != TileVariant::Empty) by {
            assert(data[i] == tb[0]);
        }
        assert(seq![t0] + tiles.skip(1) =~= tiles);
        assert(spec_parse_tile_stack(data, i, ns) == Parse::<Seq<Tile>>::Found(
            tiles,
            i + bytes.len(),
        ));
    }
}


/// An entity may step onto a stack with no layers, or one whose top layer
/// is clear.
pub open spec fn spec_stack_enterable(tiles: Seq<Tile>) -> bool {
    tiles.len() == 0 || crate::tile::spec_tile_movement(tiles[tiles.len() - 1])
        matches crate::tile_movement_type::TileMovementType::Clear
}

/// The total count of one item held in dropped stacks across the layers.
pub open spec fn spec_dropped_count(tiles: Seq<Tile>, it: crate::item::Item) -> int
    decreases tiles.len(),
{
    if tiles.len() == 0 {
        0
    } else {
        (match tiles[0] {
            Tile::DroppedItemStack(layer_item, amount) => if *layer_item == it {
                amount as int
            } else {
                0
            },
            _ => 0,
        }) + spec_dropped_count(tiles.skip(1), it)
    }
}

/// Changing one layer changes a dropped item's count by the layer's
/// contribution.
pub proof fn lemma_dropped_count_update(
    tiles: Seq<Tile>,
    k: int,
    layer: Tile,
    it: crate::item::Item,
)
    requires
        0 <= k < tiles.len(),
    ensures
        spec_dropped_count(tiles.update(k, layer), it) + spec_layer_count(tiles[k], it)
            == spec_dropped_count(tiles, it) + spec_layer_count(layer, it),
    decreases k,
{
    if k == 0 {
        assert(tiles.update(0, layer).skip(1) =~= tiles.skip(1));
        assert(tiles.update(0, layer)[0] == layer);
    } else {
        assert(tiles.update(k, layer)[0] == tiles[0]);
        assert(tiles.update(k, layer).skip(1) =~= tiles.skip(1).update(k - 1, layer));
        lemma_dropped_count_update(tiles.skip(1), k - 1, layer, it);
    }
}

/// One layer's contribution to a dropped item's count.
pub open spec fn spec_layer_count(layer: Tile, it: crate::item::Item) -> int {
    match layer {
        Tile::DroppedItemStack(layer_item, amount) => if *layer_item == it {
            amount as int
        } else {
            0
        },
        _ => 0,
    }
}

/// Appending a layer adds its contribution.
pub proof fn lemma_dropped_count_push(tiles: Seq<Tile>, layer: Tile, it: crate::item::Item)
    ensures
        spec_dropped_count(tiles.push(layer), it) == spec_dropped_count(tiles, it)
            + spec_layer_count(layer, it),
    decreases tiles.len(),
{
    if tiles.len() == 0 {
        assert(tiles.push(layer)[0] == layer);
        assert(tiles.push(layer).skip(1) =~= Seq::<Tile>::empty());
        assert(spec_dropped_count(Seq::<Tile>::empty(), it) == 0);
    } else {
        assert(tiles.push(layer)[0] == tiles[0]);
        assert(tiles.push(layer).skip(1) =~= tiles.skip(1).push(layer));
        lemma_dropped_count_push(tiles.skip(1), layer, it);
    }
}


/// Both layers are dropped stacks of the given item.
pub open spec fn spec_same_dropped_item(a: Tile, b: Tile, it: crate::item::Item) -> bool {
    match (a, b) {
        (Tile::DroppedItemStack(i1, _), Tile::DroppedItemStack(i2, _)) => *i1 == it && *i2 == it,
        _ => false,
    }
}

/// Removing one layer removes its contribution.
pub proof fn lemma_dropped_count_remove(tiles: Seq<Tile>, k: int, it: crate::item::Item)
    requires
        0 <= k < tiles.len(),
    ensures
        spec_dropped_count(tiles.remove(k), it) + spec_layer_count(tiles[k], it)
            == spec_dropped_count(tiles, it),
    decreases k,
{
    if k == 0 {
        assert(tiles.remove(0) =~= tiles.skip(1));
    } else {
        assert(tiles.remove(k)[0] == tiles[0]);
        assert(tiles.remove(k).skip(1) =~= tiles.skip(1).remove(k - 1));
        lemma_dropped_count_remove(tiles.skip(1), k - 1, it);
    }
}

/// A fully processed layer: a surviving dropped stack keeps a positive
/// count, and only because the inventory has no room left for its item.
pub open spec fn spec_layer_settled(layer: Tile, items: Seq<(crate::item::Item, u8)>) -> bool {
    match layer {
        Tile::DroppedItemStack(it, amt) => amt > 0 && crate::inventory::spec_full_for(items, *it),
        _ => true,
    }
}

/// The stack was drained into the inventory. Three facts together: the new
/// layers are the old ones with dropped stacks shrunk or removed and every
/// other layer kept in place; each item's total across the stack's dropped
/// layers and the inventory is conserved; and every surviving dropped layer
/// keeps a positive count only because the inventory is full for its item.
pub open spec fn spec_drained_into(
    old_tiles: Seq<Tile>,
    new_tiles: Seq<Tile>,
    old_items: Seq<(crate::item::Item, u8)>,
    new_items: Seq<(crate::item::Item, u8)>,
) -> bool {
    &&& spec_is_drain(old_tiles, new_tiles)
    &&& (forall|it: crate::item::Item|
        !(it matches crate::item::Item::Empty) ==> spec_dropped_count(new_tiles, it)
            + crate::inventory::spec_count_of(new_items, it) == spec_dropped_count(old_tiles, it)
            + crate::inventory::spec_count_of(old_items, it))
    &&& (forall|k: int|
        0 <= k < new_tiles.len() ==> spec_layer_settled(#[trigger] new_tiles[k], new_items))
}

/// The new layers are the old ones with some dropped stacks shrunk (same
/// item, amount no larger) or removed outright, and every other layer kept
/// exactly, in order.
pub open spec fn spec_is_drain(old_tiles: Seq<Tile>, new_tiles: Seq<Tile>) -> bool
    decreases old_tiles.len(),
{
    if old_tiles.len() == 0 {
        new_tiles.len() == 0
    } else {
        match old_tiles[0] {
            Tile::DroppedItemStack(it, amt) => (new_tiles.len() > 0 && (
            match new_tiles[0] {
                Tile::DroppedItemStack(it2, amt2) => it2 == it && amt2 <= amt,
                _ => false,
            }) && spec_is_drain(old_tiles.skip(1), new_tiles.skip(1))) || spec_is_drain(
                old_tiles.skip(1),
                new_tiles,
            ),
            _ => new_tiles.len() > 0 && new_tiles[0] == old_tiles[0] && spec_is_drain(
                old_tiles.skip(1),
                new_tiles.skip(1),
            ),
        }
    }
}


/// Round trip, the law: writing any well-formed stack and reading the
/// record back under a namespace whose tables match this build reproduces
/// the same layer sequence, consuming exactly the record.
pub proof fn lemma_stack_round_trip(tiles: Seq<Tile>, ns: Namespace)
    requires
        spec_tile_stack_wf(tiles),
        crate::namespace::spec_namespace_is_current(ns),
    ensures
        spec_parse_tile_stack(spec_tile_stack_bytes(tiles), 0, ns) == Parse::<Seq<Tile>>::Found(
            tiles,
            spec_tile_stack_bytes(tiles).len() as int,
        ),
{
    let bytes = spec_tile_stack_bytes(tiles);
    assert(bytes.subrange(0, bytes.len() as int) =~= bytes);
    lemma_parse_tile_stack_round_trip(bytes, 0, tiles, ns);
}

impl TileStack {
    /// An empty tile stack that still needs its first draw.
    pub fn new() -> (r: Self)
        ensures
            r.tiles@ == Seq::<Tile>::empty(),
            r.needs_redrawing == true,
    {
        Self { tiles: Vec::new(), needs_redrawing: true }
    }


    /// Generate this stack's layers from the world seed and the tile's
    /// global position: two coherent-noise fields pick the base layers, a
    /// third decides whether a decoration appears, and a fourth picks which
    /// one. On water the decoration is a rock, pushed on top where the
    /// water is shallow and slipped beneath the surface where it is deep.
    pub fn generate(&mut self, pos: [i64; 2], world_seed: u32)
        ensures
            final(self).tiles@ == crate::worldgen::spec_generated_tiles(
                pos[0],
                pos[1],
                world_seed,
            ),
            final(self).needs_redrawing == old(self).needs_redrawing,
    {
        let fields = crate::worldgen::WorldFields::new(world_seed);
        self.generate_with(pos, world_seed, &fields);
    }

    /// Generate this stack's layers, sampling noise fields already built
    /// for the world seed.
    pub(crate) fn generate_with(
        &mut self,
        pos: [i64; 2],
        world_seed: u32,
        fields: &crate::worldgen::WorldFields,
    )
        requires
            fields.wf(world_seed),
        ensures
            final(self).tiles@ == crate::worldgen::spec_generated_tiles(
                pos[0],
                pos[1],
                world_seed,
            ),
            final(self).needs_redrawing == old(self).needs_redrawing,
    {
        let x = pos[0];
        let y = pos[1];
        let height = crate::worldgen::fbm_sample_bits(&fields.height, x, y, 1, 64);
        let sand = crate::worldgen::fbm_sample_bits(&fields.sand, x, y, 1, 64);
        let mut tiles: Vec<Tile> = Vec::new();
        if crate::worldgen::f64_bits_lt(height, crate::worldgen::BITS_NEG_0_1) {
            tiles.push(Tile::Sand);
            tiles.push(Tile::Water);
        } else if crate::worldgen::f64_bits_lt(height, crate::worldgen::BITS_POS_0_1) {
            if crate::worldgen::f64_bits_lt(crate::worldgen::BITS_POS_0_4, sand) {
                tiles.push(Tile::BlackSand);
            } else if crate::worldgen::f64_bits_lt(sand, crate::worldgen::BITS_NEG_0_4) {
                tiles.push(Tile::Gravel);
            } else {
                tiles.push(Tile::Sand);
            }
        } else if crate::worldgen::f64_bits_lt(crate::worldgen::BITS_POS_0_9, height) {
            tiles.push(Tile::Grass);
            tiles.push(Tile::PineTree);
        } else {
            tiles.push(Tile::Grass);
        }
        proof {
            assert(tiles@ =~= crate::worldgen::spec_base_tiles(height, sand));
        }
        let decoration = crate::worldgen::fbm_sample_bits(&fields.decoration, x, y, 4, 1);
        let occurrence = crate::worldgen::fbm_sample_bits(&fields.occurrence, x, y, 1, 1);
        if crate::worldgen::f64_bits_lt(crate::worldgen::BITS_POS_0_3, occurrence) {
            let n = tiles.len();
            let top_is_grass = matches!(&tiles[n - 1], Tile::Grass);
            let top_is_water = matches!(&tiles[n - 1], Tile::Water);
            if top_is_grass {
                tiles.push(crate::worldgen::grass_decoration(decoration));
            } else if top_is_water {
                if crate::worldgen::f64_bits_lt(crate::worldgen::BITS_NEG_0_3, height) {
                    tiles.push(Tile::Rocks);
                } else {
                    tiles.insert(n - 1, Tile::Rocks);
                }
            }
        }
        proof {
            assert(tiles@ =~= crate::worldgen::spec_generated_tiles(x, y, world_seed));
        }
        self.tiles = tiles;
    }

    /// Append the stack's record to the file: every layer, then the
    /// reserved none id as terminator.
    #[verifier::loop_isolation(false)]
    pub fn serialize(&self, file: &mut FileWriter)
        ensures
            final(file).data@ == old(file).data@ + spec_tile_stack_bytes(self.tiles@),
    {
        let mut x: usize = 0;
        while x < self.tiles.len()
            invariant
                0 <= x <= self.tiles@.len(),
                file.data@ == old(file).data@ + spec_tiles_bytes(self.tiles@.take(x as int)),
            decreases self.tiles@.len() - x,
        {
            proof {
                assert(self.tiles@.take(x as int).push(self.tiles@[x as int]) =~= self.tiles@.take(
                    x as int + 1,
                ));
                lemma_tiles_bytes_push(self.tiles@.take(x as int), self.tiles@[x as int]);
            }
            self.tiles[x].serialize(file);
            x = x + 1;
        }
        proof {
            assert(self.tiles@.take(self.tiles@.len() as int) =~= self.tiles@);
        }
        file.push_u8(TileVariant::Empty.id());
        proof {
            assert(file.data@ =~= old(file).data@ + spec_tile_stack_bytes(self.tiles@));
        }
    }

    /// Read one stack record at the cursor, appending its layers to this
    /// stack, and consume the terminator.
    #[verifier::loop_isolation(false)]
    pub fn deserialize(&mut self, file: &mut FileReader, namespace: &Namespace, version: u32) -> (r:
        Result<(), Error>)
        ensures
            final(file).data@ == old(file).data@,
            final(file).strings_v0@ == old(file).strings_v0@,
            final(self).needs_redrawing == old(self).needs_redrawing,
            match spec_parse_tile_stack(old(file).data@, old(file).read_index as int, *namespace) {
                Parse::Found(tiles, j) => {
                    &&& r is Ok
                    &&& final(self).tiles@ == old(self).tiles@ + tiles
                    &&& final(file).read_index == j
                },
                Parse::Failed(e) => r == Result::<(), Error>::Err(e),
            },
    {
        let ghost data = old(file).data@;
        let ghost sv0 = old(file).strings_v0@;
        let ghost i0 = old(file).read_index as int;
        let ghost n0 = old(self).tiles@.len() as int;
        let ghost tiles0 = old(self).tiles@;
        let ghost nr0 = old(self).needs_redrawing;
        proof {
            assert(self.tiles@.skip(n0) =~= Seq::<Tile>::empty());
            match spec_parse_tile_stack(data, i0, *namespace) {
                Parse::Found(tiles, _) => {
                    assert(Seq::<Tile>::empty() + tiles =~= tiles);
                },
                Parse::Failed(_) => {},
            }
            assert(self.tiles@.take(n0) =~= old(self).tiles@);
        }
        loop
            invariant
                file.data@ == data,
                file.strings_v0@ == sv0,
                self.needs_redrawing == nr0,
                n0 <= self.tiles@.len(),
                self.tiles@.take(n0) == tiles0,
                spec_parse_tile_stack(data, i0, *namespace) == spec_parse_prepend(
                    self.tiles@.skip(n0),
                    spec_parse_tile_stack(data, file.read_index as int, *namespace),
                ),
            decreases data.len() - file.read_index,
        {
            let ghost cur = file.read_index as int;
            if file.read_index >= file.data.len() {
                return Err(Error::OutOfBoundsFileRead);
            }
            let tile_id = self.peek_byte(file);
            let variant = match crate::util::vec_get(&namespace.tiles, tile_id as usize) {
                Some(v) => v,
                None => {
                    return Err(Error::IDOutOfNamespaceBounds);
                },
            };
            if matches!(variant, TileVariant::Empty) {
                file.read_index = file.read_index + 1;
                proof {
                    assert(spec_parse_tile_stack(data, cur, *namespace) == Parse::<Seq<Tile>>::Found(
                        Seq::<Tile>::empty(),
                        cur + 1,
                    ));
                    assert(self.tiles@.skip(n0) + Seq::<Tile>::empty() =~= self.tiles@.skip(n0));
                    assert(self.tiles@.take(n0) + self.tiles@.skip(n0) =~= self.tiles@);
                }
                return Ok(());
            }
            let tile = match Tile::deserialize(file, namespace, version) {
                Ok(t) => t,
                Err(e) => {
                    return Err(e);
                },
            };
            proof {
                lemma_parse_tile_bounds(data, cur, *namespace);
            }
            let ghost j = file.read_index as int;
            let ghost pre = self.tiles@;
            self.tiles.push(tile);
            proof {
                assert(self.tiles@.take(n0) =~= tiles0);
                assert(self.tiles@.skip(n0) =~= pre.skip(n0).push(tile));
                match spec_parse_tile_stack(data, j, *namespace) {
                    Parse::Found(rest, k) => {
                        assert(pre.skip(n0) + (seq![tile] + rest) =~= self.tiles@.skip(n0) + rest);
                    },
                    Parse::Failed(_) => {},
                }
            }
        }
    }


    /// An entity tries to step here: when the stack has no layers or a
    /// clear top, the entity starts walking in the given direction; nothing
    /// else changes.
    pub fn entity_try_move_to(
        &mut self,
        entity: &mut crate::entity::Entity,
        direction: crate::direction::Direction4,
    )
        ensures
            final(self).tiles@ == old(self).tiles@,
            final(self).needs_redrawing == old(self).needs_redrawing,
            final(entity).pos == old(entity).pos,
            final(entity).facing == old(entity).facing,
            final(entity).entity_type == old(entity).entity_type,
            final(entity).health == old(entity).health,
            final(entity).action_state == if spec_stack_enterable(old(self).tiles@) {
                crate::entity_action_state::EntityActionState::Walking(direction, 0u8)
            } else {
                old(entity).action_state
            },
    {
        let mut walk = false;
        let n = self.tiles.len();
        if n > 0 {
            walk = self.tiles[n - 1].entity_try_move_to(entity);
        }
        if n == 0 {
            walk = true;
        }
        if walk {
            entity.action_state = crate::entity_action_state::EntityActionState::Walking(
                direction,
                0,
            );
        }
    }

    /// An entity steps onto the stack: every dropped-item layer is drained
    /// into the entering player's inventory, an unabsorbed remainder stays
    /// on its layer, and a fully absorbed layer disappears. Each item's
    /// total across the stack and the inventory is conserved, and a
    /// remainder stays behind only when the inventory has no room left for
    /// that item.
    #[verifier::loop_isolation(false)]
    #[verifier::rlimit(100)]
    pub fn entity_move_to(&mut self, entity: &mut crate::entity::Entity)
        requires
            (old(entity).entity_type matches crate::entity_type::EntityType::Player {
                inventory,
                ..
            } && inventory.wf()),
        ensures
            final(self).needs_redrawing == old(self).needs_redrawing,
            final(entity).pos == old(entity).pos,
            final(entity).facing == old(entity).facing,
            final(entity).action_state == old(entity).action_state,
            final(entity).health == old(entity).health,
            (final(entity).entity_type matches crate::entity_type::EntityType::Player {
                inventory,
                selected_item,
                respawn_pos,
                is_swaping_item,
            } && inventory.wf() && (old(entity).entity_type
                matches crate::entity_type::EntityType::Player {
                inventory: inv0,
                selected_item: sel0,
                respawn_pos: rp0,
                is_swaping_item: sw0,
            } && selected_item == sel0 && respawn_pos == rp0 && is_swaping_item == sw0
                && spec_drained_into(
                old(self).tiles@,
                final(self).tiles@,
                inv0.items@,
                inventory.items@,
            ))),
    {
        let ghost tiles0 = self.tiles@;
        let ghost inv00 = match &old(entity).entity_type {
            crate::entity_type::EntityType::Player { inventory, .. } => inventory.items@,
        };
        let mut x = self.tiles.len();
        while x > 0
            invariant
                x <= self.tiles@.len(),
                self.tiles@.len() <= tiles0.len(),
                self.needs_redrawing == old(self).needs_redrawing,
                self.tiles@.take(x as int) == tiles0.take(x as int),
                spec_is_drain(tiles0.skip(x as int), self.tiles@.skip(x as int)),
                entity.pos == old(entity).pos,
                entity.facing == old(entity).facing,
                entity.action_state == old(entity).action_state,
                entity.health == old(entity).health,
                (entity.entity_type matches crate::entity_type::EntityType::Player {
                    inventory,
                    selected_item,
                    respawn_pos,
                    is_swaping_item,
                } && inventory.wf() && (old(entity).entity_type
                    matches crate::entity_type::EntityType::Player {
                    inventory: inv0,
                    selected_item: sel0,
                    respawn_pos: rp0,
                    is_swaping_item: sw0,
                } && selected_item == sel0 && respawn_pos == rp0 && is_swaping_item == sw0 && (
                forall|it: crate::item::Item|
                    !(it matches crate::item::Item::Empty) ==> spec_dropped_count(
                        self.tiles@,
                        it,
                    ) + crate::inventory::spec_count_of(inventory.items@, it)
                        == spec_dropped_count(tiles0, it) + crate::inventory::spec_count_of(
                        inv0.items@,
                        it,
                    )) && (forall|k: int|
                    x <= k < self.tiles@.len() ==> spec_layer_settled(
                        #[trigger] self.tiles@[k],
                        inventory.items@,
                    )))),
            decreases x,
        {
            x = x - 1;
            let ghost pre = self.tiles@;
            let ghost inv_pre = match &entity.entity_type {
                crate::entity_type::EntityType::Player { inventory, .. } => inventory.items@,
            };
            proof {
                assert forall|m: int| 0 <= m <= x as int implies pre[m] == tiles0[m] by {
                    assert(pre.take(x as int + 1)[m] == tiles0.take(x as int + 1)[m]);
                }
            }
            let is_dropped = matches!(&self.tiles[x], Tile::DroppedItemStack(_, _));
            if is_dropped {
                let (stack_item, stack_amount) = match &self.tiles[x] {
                    Tile::DroppedItemStack(stack_item, stack_amount) => (
                        crate::item::item_clone(stack_item),
                        *stack_amount,
                    ),
                    _ => vstd::pervasive::unreached(),
                };
                let inventory = match &mut entity.entity_type {
                    crate::entity_type::EntityType::Player { inventory, .. } => inventory,
                };
                let stack_item2 = crate::item::item_clone(&stack_item);
                let leftover = inventory.add_items((stack_item2, stack_amount)).1;
                let ghost inv_post = match &entity.entity_type {
                    crate::entity_type::EntityType::Player { inventory, .. } => inventory.items@,
                };
                proof {
                    assert(spec_layer_count(pre[x as int], stack_item) == stack_amount as int);
                    assert forall|it: crate::item::Item|
                        it != stack_item implies spec_layer_count(pre[x as int], it) == 0 by {}
                    assert forall|it: crate::item::Item|
                        crate::inventory::spec_full_for(inv_pre, it) && !(
                        it matches crate::item::Item::Empty) implies crate::inventory::spec_full_for(
                        inv_post,
                        it,
                    ) by {
                        if (stack_item matches crate::item::Item::Empty) {
                        } else if stack_amount == 0 {
                        } else if it == stack_item {
                            if leftover == 0 {
                                assert forall|m: int|
                                    0 <= m < inv_pre.len() implies (if (
                                    #[trigger] inv_post[m]).0 == it {
                                    inv_post[m].1 as int
                                } else {
                                    0
                                }) <= (if inv_pre[m].0 == it {
                                    inv_pre[m].1 as int
                                } else {
                                    0
                                }) by {
                                    if inv_post[m].0 == it && inv_post[m] != inv_pre[m] {
                                        assert(inv_pre[m].0 == it);
                                    }
                                }
                                crate::inventory::lemma_count_of_mono(inv_pre, inv_post, it);
                                assert(false);
                            }
                        } else {
                            assert forall|m: int|
                                0 <= m < inv_post.len() implies !((#[trigger] inv_post[m]).0
                                matches crate::item::Item::Empty) && (inv_post[m].0 == it
                                ==> inv_post[m].1 >= 99) by {
                                if inv_post[m] != inv_pre[m] {
                                    assert(inv_post[m].0 == stack_item);
                                }
                            }
                        }
                    }
                }
                let ghost mid = self.tiles@;
                if leftover == 0 {
                    let _ = self.tiles.remove(x);
                    proof {
                        assert(self.tiles@.take(x as int) =~= tiles0.take(x as int));
                        assert(self.tiles@.skip(x as int) =~= mid.skip(x as int + 1));
                        assert(tiles0.skip(x as int)[0] == tiles0[x as int]);
                        assert(tiles0.skip(x as int).skip(1) =~= tiles0.skip(x as int + 1));
                        assert(mid.skip(x as int + 1) =~= pre.skip(x as int + 1));
                        assert(self.tiles@ =~= pre.remove(x as int));
                        assert forall|it: crate::item::Item|
                            !(it matches crate::item::Item::Empty) implies spec_dropped_count(
                            self.tiles@,
                            it,
                        ) + crate::inventory::spec_count_of(inv_post, it) == spec_dropped_count(
                            tiles0,
                            it,
                        ) + crate::inventory::spec_count_of(inv00, it) by {
                            lemma_dropped_count_remove(pre, x as int, it);
                        }
                        assert forall|k: int|
                            x <= k < self.tiles@.len() implies spec_layer_settled(
                            #[trigger] self.tiles@[k],
                            inv_post,
                        ) by {
                            assert(self.tiles@[k] == pre[k + 1]);
                            assert(spec_layer_settled(pre[k + 1], inv_pre));
                        }
                    }
                } else {
                    let it2 = crate::item::item_clone(&stack_item);
                    self.tiles[x] = Tile::DroppedItemStack(Box::new(it2), leftover);
                    proof {
                        let newlayer = Tile::DroppedItemStack(Box::new(stack_item), leftover);
                        assert(self.tiles@ =~= pre.update(x as int, newlayer));
                        assert(self.tiles@.take(x as int) =~= tiles0.take(x as int));
                        assert(self.tiles@.skip(x as int)[0] == newlayer);
                        assert(self.tiles@.skip(x as int).skip(1) =~= pre.skip(x as int + 1));
                        assert(tiles0.skip(x as int)[0] == tiles0[x as int]);
                        assert(tiles0.skip(x as int).skip(1) =~= tiles0.skip(x as int + 1));
                        assert(tiles0[x as int] == pre[x as int]);
                        assert(!(stack_item matches crate::item::Item::Empty));
                        assert(crate::inventory::spec_full_for(inv_post, stack_item));
                        assert forall|it: crate::item::Item|
                            !(it matches crate::item::Item::Empty) implies spec_dropped_count(
                            self.tiles@,
                            it,
                        ) + crate::inventory::spec_count_of(inv_post, it) == spec_dropped_count(
                            tiles0,
                            it,
                        ) + crate::inventory::spec_count_of(inv00, it) by {
                            lemma_dropped_count_update(pre, x as int, newlayer, it);
                        }
                        assert forall|k: int|
                            x <= k < self.tiles@.len() implies spec_layer_settled(
                            #[trigger] self.tiles@[k],
                            inv_post,
                        ) by {
                            if k > x {
                                assert(self.tiles@[k] == pre[k]);
                                assert(spec_layer_settled(pre[k], inv_pre));
                            }
                        }
                    }
                }
            } else {
                proof {
                    assert(tiles0.skip(x as int)[0] == tiles0[x as int]);
                    assert(tiles0.skip(x as int).skip(1) =~= tiles0.skip(x as int + 1));
                    assert(self.tiles@.skip(x as int)[0] == pre[x as int]);
                    assert(self.tiles@.skip(x as int).skip(1) =~= pre.skip(x as int + 1));
                    assert(pre[x as int] == tiles0[x as int]);
                }
            }
        }
        proof {
            assert(tiles0.skip(0) =~= tiles0);
            assert(self.tiles@.skip(0) =~= self.tiles@);
        }
    }

    /// Merge a dropped item count onto the stack: existing dropped layers
    /// of the same item fill toward the sixteen-bit cap first, and any
    /// remainder lands as one new dropped layer on top. The whole count is
    /// conserved onto the stack; every other layer, and layers of other
    /// items, stay exactly as they were.
    #[verifier::loop_isolation(false)]
    pub fn drop_item_onto(&mut self, to_drop_onto: (crate::item::Item, u16))
        ensures
            final(self).needs_redrawing == old(self).needs_redrawing,
            to_drop_onto.0 matches crate::item::Item::Empty ==> final(self).tiles@ == old(
                self,
            ).tiles@,
            !(to_drop_onto.0 matches crate::item::Item::Empty) ==> {
                &&& spec_dropped_count(final(self).tiles@, to_drop_onto.0) == spec_dropped_count(
                    old(self).tiles@,
                    to_drop_onto.0,
                ) + to_drop_onto.1
                &&& (forall|k: int|
                    0 <= k < old(self).tiles@.len() ==> (#[trigger] final(self).tiles@[k]) == old(
                        self,
                    ).tiles@[k] || spec_same_dropped_item(
                        old(self).tiles@[k],
                        final(self).tiles@[k],
                        to_drop_onto.0,
                    ))
                &&& final(self).tiles@.len() >= old(self).tiles@.len()
                &&& final(self).tiles@.len() <= old(self).tiles@.len() + 1
                &&& final(self).tiles@.take(old(self).tiles@.len() as int).len() == old(
                    self,
                ).tiles@.len()
            },
    {
        let item_to_add = to_drop_onto.0;
        let mut amount_left_to_add = to_drop_onto.1;
        if item_to_add.is_none() {
            return ;
        }
        let ghost tiles0 = old(self).tiles@;
        let mut k: usize = 0;
        while k < self.tiles.len()
            invariant
                0 <= k <= self.tiles@.len(),
                self.tiles@.len() == tiles0.len(),
                self.needs_redrawing == old(self).needs_redrawing,
                !(item_to_add matches crate::item::Item::Empty),
                item_to_add == to_drop_onto.0,
                amount_left_to_add <= to_drop_onto.1,
                spec_dropped_count(self.tiles@, item_to_add) + amount_left_to_add
                    == spec_dropped_count(tiles0, item_to_add) + to_drop_onto.1,
                forall|m: int|
                    0 <= m < tiles0.len() ==> (#[trigger] self.tiles@[m]) == tiles0[m]
                        || spec_same_dropped_item(tiles0[m], self.tiles@[m], item_to_add),
            decreases self.tiles@.len() - k,
        {
            let is_same_stack = match &self.tiles[k] {
                Tile::DroppedItemStack(stack_item, _) => crate::item::item_eq(
                    stack_item,
                    &item_to_add,
                ),
                _ => false,
            };
            if is_same_stack && amount_left_to_add > 0 {
                let stack_amount = match &self.tiles[k] {
                    Tile::DroppedItemStack(_, stack_amount) => *stack_amount,
                    _ => vstd::pervasive::unreached(),
                };
                let room: u16 = 0xffff - stack_amount;
                let amount_to_add_to_stack: u16 = if room < amount_left_to_add {
                    room
                } else {
                    amount_left_to_add
                };
                let ghost pre = self.tiles@;
                let it2 = crate::item::item_clone(&item_to_add);
                let new_layer = Tile::DroppedItemStack(
                    Box::new(it2),
                    stack_amount + amount_to_add_to_stack,
                );
                self.tiles[k] = new_layer;
                amount_left_to_add = amount_left_to_add - amount_to_add_to_stack;
                proof {
                    assert(self.tiles@ =~= pre.update(
                        k as int,
                        Tile::DroppedItemStack(
                            Box::new(item_to_add),
                            (stack_amount + amount_to_add_to_stack) as u16,
                        ),
                    ));
                    lemma_dropped_count_update(
                        pre,
                        k as int,
                        Tile::DroppedItemStack(
                            Box::new(item_to_add),
                            (stack_amount + amount_to_add_to_stack) as u16,
                        ),
                        item_to_add,
                    );
                }
                if amount_left_to_add == 0 {
                    return ;
                }
            }
            k = k + 1;
        }
        let ghost pre = self.tiles@;
        let it3 = crate::item::item_clone(&item_to_add);
        self.tiles.push(Tile::DroppedItemStack(Box::new(it3), amount_left_to_add));
        proof {
            lemma_dropped_count_push(
                pre,
                Tile::DroppedItemStack(Box::new(item_to_add), amount_left_to_add),
                item_to_add,
            );
            assert forall|m: int| 0 <= m < tiles0.len() implies (#[trigger] self.tiles@[m])
                == tiles0[m] || spec_same_dropped_item(
                tiles0[m],
                self.tiles@[m],
                item_to_add,
            ) by {
                assert(self.tiles@[m] == pre[m]);
            }
            assert(self.tiles@.take(tiles0.len() as int).len() == tiles0.len());
        }
    }

    /// The byte under the cursor; the cursor does not move.
    fn peek_byte(&self, file: &FileReader) -> (r: u8)
        requires
            file.read_index < file.data@.len(),
        ensures
            r == file.data@[file.read_index as int],
    {
        file.data[file.read_index]
    }

    /// Read one stack of the legacy version-0 layout, appending its layers
    /// to this stack and advancing both area cursors.
    #[verifier::loop_isolation(false)]
    pub fn load_v0(
        &mut self,
        tile_lengths: &[u8],
        tile_datas: &[u8],
        tile_lengths_index: &mut usize,
        tile_datas_index: &mut usize,
        namespace: &Namespace,
        version: u32,
    ) -> (r: Option<()>)
        ensures
            final(self).needs_redrawing == old(self).needs_redrawing,
            match spec_parse_tile_stack_v0(
                tile_lengths@,
                tile_datas@,
                *old(tile_lengths_index) as int,
                *old(tile_datas_index) as int,
                *namespace,
            ) {
                Some((tiles, lj, dj)) => {
                    &&& r is Some
                    &&& final(self).tiles@ == old(self).tiles@ + tiles
                    &&& *final(tile_lengths_index) == lj
                    &&& *final(tile_datas_index) == dj
                },
                None => r is None,
            },
    {
        let ghost li0 = *old(tile_lengths_index) as int;
        let ghost di0 = *old(tile_datas_index) as int;
        let ghost n0 = old(self).tiles@.len() as int;
        let ghost tiles0 = old(self).tiles@;
        let ghost nr0 = old(self).needs_redrawing;
        proof {
            assert(self.tiles@.skip(n0) =~= Seq::<Tile>::empty());
            match spec_parse_tile_stack_v0(tile_lengths@, tile_datas@, li0, di0, *namespace) {
                Some((tiles, _, _)) => {
                    assert(Seq::<Tile>::empty() + tiles =~= tiles);
                },
                None => {},
            }
            assert(self.tiles@.take(n0) =~= old(self).tiles@);
        }
        loop
            invariant
                self.needs_redrawing == nr0,
                n0 <= self.tiles@.len(),
                self.tiles@.take(n0) == tiles0,
                match spec_parse_tile_stack_v0(
                    tile_lengths@,
                    tile_datas@,
                    li0,
                    di0,
                    *namespace,
                ) {
                    Some((tiles, lj, dj)) => spec_parse_tile_stack_v0(
                        tile_lengths@,
                        tile_datas@,
                        *tile_lengths_index as int,
                        *tile_datas_index as int,
                        *namespace,
                    ) matches Some((rest, lj2, dj2)) && tiles == self.tiles@.skip(n0) + rest && lj
                        == lj2 && dj == dj2,
                    None => spec_parse_tile_stack_v0(
                        tile_lengths@,
                        tile_datas@,
                        *tile_lengths_index as int,
                        *tile_datas_index as int,
                        *namespace,
                    ) is None,
                },
            decreases tile_lengths@.len() - *tile_lengths_index,
        {
            if *tile_lengths_index >= tile_lengths.len() {
                return None;
            }
            let length = *vstd::slice::slice_index_get(tile_lengths, *tile_lengths_index);
            *tile_lengths_index = *tile_lengths_index + 1;
            if length == 0 {
                proof {
                    assert(self.tiles@.skip(n0) + Seq::<Tile>::empty() =~= self.tiles@.skip(n0));
                    assert(self.tiles@.take(n0) + self.tiles@.skip(n0) =~= self.tiles@);
                }
                return Some(());
            }
            if *tile_datas_index > tile_datas.len() || tile_datas.len() - *tile_datas_index < length
                as usize {
                return None;
            }
            let tile_data = vstd::slice::slice_subrange(
                tile_datas,
                *tile_datas_index,
                *tile_datas_index + length as usize,
            );
            let (tile, consumed) = match Tile::deserialize_v0(tile_data, namespace, version) {
                Some(p) => p,
                None => {
                    return None;
                },
            };
            let ghost pre = self.tiles@;
            self.tiles.push(tile);
            *tile_datas_index = *tile_datas_index + consumed;
            proof {
                assert(self.tiles@.take(n0) =~= tiles0);
                assert(self.tiles@.skip(n0) =~= pre.skip(n0).push(tile));
                match spec_parse_tile_stack_v0(
                    tile_lengths@,
                    tile_datas@,
                    *tile_lengths_index as int,
                    *tile_datas_index as int,
                    *namespace,
                ) {
                    Some((rest, lj2, dj2)) => {
                        assert(pre.skip(n0) + (seq![tile] + rest) =~= self.tiles@.skip(n0) + rest);
                    },
                    None => {},
                }
            }
        }
    }
}

} // verus!
