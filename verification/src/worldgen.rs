use vstd::prelude::*;

use crate::item::Item;
use crate::tile::Tile;

verus! {

/// The bit pattern of the fractal noise value that the `noise` crate's
/// `Fbm<Perlin>` field with the given seed takes at the sample point
/// (x*num/den, y*num/den). The value depends on the seed and the point
/// alone, so the same arguments always name the same bits.
pub uninterp spec fn fbm_bits(seed: u32, x: i64, y: i64, num: u32, den: u32) -> u64;

#[verifier::external_type_specification]
#[verifier::external_body]
#[verifier::reject_recursive_types(T)]
pub struct ExFbm<T>(noise::Fbm<T>);

#[verifier::external_type_specification]
#[verifier::external_body]
pub struct ExPerlin(noise::Perlin);

/// The seed a fractal noise field was built with: fixed at construction,
/// so it identifies everything the opaque field value can ever return.
pub uninterp spec fn fbm_seed(f: noise::Fbm<noise::Perlin>) -> u32;

/// Relies on noise's `Fbm::<Perlin>::new`: the returned field is a pure
/// function of the seed it is built with. Construction seeds each of the
/// six octave sources at `seed + 0` through `seed + 5` in unchecked 32-bit
/// addition, so the top five seed values would make the call panic; they
/// are excluded here and folded away by the callers.
#[verifier::external_body]
pub(crate) fn fbm_new(seed: u32) -> (r: noise::Fbm<noise::Perlin>)
    requires
        seed <= 0xFFFFFFFA,
    ensures
        fbm_seed(r) == seed,
{
    noise::Fbm::<noise::Perlin>::new(seed)
}

/// Relies on noise's `NoiseFn::get`: the fractal noise value is a pure
/// function of the field's seed and the sample point, for fields built by
/// `fbm_new` — the only constructor in this library, so every field carries
/// the crate's default octave count, frequency, lacunarity and persistence,
/// and the seed alone identifies it. The wrapper scales the integer tile
/// position into the crate's sample point and hands back the IEEE 754 bit
/// pattern of the value, so that the verified generator can compare fields
/// without holding floats.
#[verifier::external_body]
pub(crate) fn fbm_sample_bits(
    f: &noise::Fbm<noise::Perlin>,
    x: i64,
    y: i64,
    num: u32,
    den: u32,
) -> (r: u64)
    requires
        den > 0,
    ensures
        r == fbm_bits(fbm_seed(*f), x, y, num, den),
{
    let scale = num_traits::ToPrimitive::to_f64(&num).unwrap_or_default()
        / num_traits::ToPrimitive::to_f64(&den).unwrap_or_default();
    let fx = num_traits::ToPrimitive::to_f64(&x).unwrap_or_default() * scale;
    let fy = num_traits::ToPrimitive::to_f64(&y).unwrap_or_default() * scale;
    noise::NoiseFn::get(f, [fx, fy]).to_bits()
}

/// The four decorrelated noise fields of a world seed, built once and
/// sampled for every cell: terrain height, sand type, decoration type and
/// decoration occurrence. The fields stay inside the crate so that nothing
/// can slip in a differently configured field and break the tie between a
/// field and its seed.
pub(crate) struct WorldFields {
    pub(crate) height: noise::Fbm<noise::Perlin>,
    pub(crate) sand: noise::Fbm<noise::Perlin>,
    pub(crate) decoration: noise::Fbm<noise::Perlin>,
    pub(crate) occurrence: noise::Fbm<noise::Perlin>,
}

impl WorldFields {
    /// Each field was built with the base seed shifted by its per-purpose
    /// delta.
    pub(crate) open spec fn wf(self, seed: u32) -> bool {
        &&& fbm_seed(self.height) == spec_gen_seed(seed)
        &&& fbm_seed(self.sand) == spec_gen_seed(seed) + 3
        &&& fbm_seed(self.decoration) == spec_gen_seed(seed) + 2
        &&& fbm_seed(self.occurrence) == spec_gen_seed(seed) + 1
    }

    /// Build the four fields of a world seed.
    pub(crate) fn new(seed: u32) -> (r: WorldFields)
        ensures
            r.wf(seed),
    {
        let base = seed % 0xFFFFFFF8;
        WorldFields {
            height: fbm_new(base),
            sand: fbm_new(base + 3),
            decoration: fbm_new(base + 2),
            occurrence: fbm_new(base + 1),
        }
    }
}

/// The total-order key of an IEEE 754 double's bit pattern: sign-magnitude
/// order mapped monotonically onto the unsigned range.
pub open spec fn spec_f64_key(bits: u64) -> int {
    if bits < 0x8000000000000000 {
        bits + 0x8000000000000000
    } else {
        0xFFFFFFFFFFFFFFFF - bits
    }
}

/// `a` is strictly below `b` in the IEEE 754 order of the doubles whose
/// bit patterns they are, with the two zeros counting as equal. This
/// matches the comparison of finite doubles.
pub open spec fn spec_f64_lt(a: u64, b: u64) -> bool {
    if (a == 0 || a == 0x8000000000000000) && (b == 0 || b == 0x8000000000000000) {
        false
    } else {
        spec_f64_key(a) < spec_f64_key(b)
    }
}

/// Compare two doubles by their bit patterns.
pub fn f64_bits_lt(a: u64, b: u64) -> (r: bool)
    ensures
        r == spec_f64_lt(a, b),
{
    if (a == 0 || a == 0x8000000000000000) && (b == 0 || b == 0x8000000000000000) {
        false
    } else {
        let ka = if a < 0x8000000000000000 {
            a + 0x8000000000000000
        } else {
            0xFFFFFFFFFFFFFFFF - a
        };
        let kb = if b < 0x8000000000000000 {
            b + 0x8000000000000000
        } else {
            0xFFFFFFFFFFFFFFFF - b
        };
        ka < kb
    }
}

pub const BITS_NEG_0_1: u64 = 0xbfb999999999999a;
pub const BITS_POS_0_1: u64 = 0x3fb999999999999a;
pub const BITS_POS_0_9: u64 = 0x3feccccccccccccd;
pub const BITS_POS_0_4: u64 = 0x3fd999999999999a;
pub const BITS_NEG_0_4: u64 = 0xbfd999999999999a;
pub const BITS_POS_0_3: u64 = 0x3fd3333333333333;
pub const BITS_NEG_0_3: u64 = 0xbfd3333333333333;
pub const BITS_NEG_0_25: u64 = 0xbfd0000000000000;
pub const BITS_NEG_0_2: u64 = 0xbfc999999999999a;
pub const BITS_ZERO: u64 = 0x0;
pub const BITS_POS_0_2: u64 = 0x3fc999999999999a;
pub const BITS_POS_0_25: u64 = 0x3fd0000000000000;

/// The base seed the noise fields of a world seed are built from: folded
/// below the range where the noise crate's per-octave seed shifts could
/// overflow, so the base plus any per-field delta stays a buildable seed.
/// Only the top eight of the four billion world seeds are folded.
pub open spec fn spec_gen_seed(seed: u32) -> u32 {
    (seed % 0xFFFFFFF8) as u32
}

/// The height field at a tile: sampled once per 64 tiles.
pub open spec fn spec_height_bits(x: i64, y: i64, seed: u32) -> u64 {
    fbm_bits(spec_gen_seed(seed), x, y, 1, 64)
}

/// The sand-type field at a tile: sampled once per 64 tiles.
pub open spec fn spec_sand_bits(x: i64, y: i64, seed: u32) -> u64 {
    fbm_bits((spec_gen_seed(seed) + 3) as u32, x, y, 1, 64)
}

/// The decoration-type field at a tile: sampled four times per tile.
pub open spec fn spec_decoration_bits(x: i64, y: i64, seed: u32) -> u64 {
    fbm_bits((spec_gen_seed(seed) + 2) as u32, x, y, 4, 1)
}

/// The decoration-occurrence field at a tile: sampled once per tile.
pub open spec fn spec_occurrence_bits(x: i64, y: i64, seed: u32) -> u64 {
    fbm_bits((spec_gen_seed(seed) + 1) as u32, x, y, 1, 1)
}

/// The one- or two-layer base sequence that the height and sand fields
/// select: shore sand under water when low, a sand kind in the mid band,
/// grass with a pine tree when high, bare grass otherwise.
pub open spec fn spec_base_tiles(height: u64, sand: u64) -> Seq<Tile> {
    if spec_f64_lt(height, BITS_NEG_0_1) {
        seq![Tile::Sand, Tile::Water]
    } else if spec_f64_lt(height, BITS_POS_0_1) {
        if spec_f64_lt(BITS_POS_0_4, sand) {
            seq![Tile::BlackSand]
        } else if spec_f64_lt(sand, BITS_NEG_0_4) {
            seq![Tile::Gravel]
        } else {
            seq![Tile::Sand]
        }
    } else if spec_f64_lt(BITS_POS_0_9, height) {
        seq![Tile::Grass, Tile::PineTree]
    } else {
        seq![Tile::Grass]
    }
}

/// The decoration layer that the decoration field selects on grass.
pub open spec fn spec_grass_decoration(decoration: u64) -> Tile {
    if spec_f64_lt(decoration, BITS_NEG_0_3) {
        Tile::Item(Box::new(Item::Rock))
    } else if spec_f64_lt(decoration, BITS_NEG_0_25) {
        Tile::Item(Box::new(Item::OakStick))
    } else if spec_f64_lt(decoration, BITS_NEG_0_2) {
        Tile::PineTree
    } else if spec_f64_lt(decoration, BITS_ZERO) {
        Tile::OakTree
    } else if spec_f64_lt(decoration, BITS_POS_0_2) {
        Tile::Flowers
    } else if spec_f64_lt(decoration, BITS_POS_0_25) {
        Tile::Item(Box::new(Item::PineStick))
    } else if spec_f64_lt(decoration, BITS_POS_0_3) {
        Tile::Item(Box::new(Item::FlintRock))
    } else {
        Tile::FlowersRedYellow
    }
}

/// The whole generated layer sequence at a tile: the base sequence, with a
/// decoration pushed on grass where the occurrence field exceeds its
/// threshold, and rocks pushed onto shallow water or slipped beneath deep
/// water.
pub open spec fn spec_generated_tiles(x: i64, y: i64, seed: u32) -> Seq<Tile> {
    let height = spec_height_bits(x, y, seed);
    let base = spec_base_tiles(height, spec_sand_bits(x, y, seed));
    if spec_f64_lt(BITS_POS_0_3, spec_occurrence_bits(x, y, seed)) {
        match base[base.len() - 1] {
            Tile::Grass => base.push(spec_grass_decoration(spec_decoration_bits(x, y, seed))),
            Tile::Water => {
                if spec_f64_lt(BITS_NEG_0_3, height) {
                    base.push(Tile::Rocks)
                } else {
                    base.insert(base.len() - 1, Tile::Rocks)
                }
            },
            _ => base,
        }
    } else {
        base
    }
}

/// A freshly generated stack is well formed: no layer is the reserved
/// none tile.
pub proof fn lemma_generated_tiles_wf(x: i64, y: i64, seed: u32)
    ensures
        crate::tile_stack::spec_tile_stack_wf(spec_generated_tiles(x, y, seed)),
        1 <= spec_generated_tiles(x, y, seed).len() <= 3,
{
    let base = spec_base_tiles(spec_height_bits(x, y, seed), spec_sand_bits(x, y, seed));
    assert(crate::tile_stack::spec_tile_stack_wf(base));
    assert(1 <= base.len() <= 2);
    let tiles = spec_generated_tiles(x, y, seed);
    assert forall|k: int| 0 <= k < tiles.len() implies crate::tile::spec_tile_wf(
        #[trigger] tiles[k],
    ) by {
        assert(crate::tile::spec_tile_wf(spec_grass_decoration(spec_decoration_bits(x, y, seed))));
        assert(crate::tile::spec_tile_wf(Tile::Rocks));
    }
}

/// The decoration layer that the decoration field selects on grass.
pub(crate) fn grass_decoration(decoration: u64) -> (r: Tile)
    ensures
        r == spec_grass_decoration(decoration),
{
    if f64_bits_lt(decoration, BITS_NEG_0_3) {
        Tile::Item(Box::new(Item::Rock))
    } else if f64_bits_lt(decoration, BITS_NEG_0_25) {
        Tile::Item(Box::new(Item::OakStick))
    } else if f64_bits_lt(decoration, BITS_NEG_0_2) {
        Tile::PineTree
    } else if f64_bits_lt(decoration, BITS_ZERO) {
        Tile::OakTree
    } else if f64_bits_lt(decoration, BITS_POS_0_2) {
        Tile::Flowers
    } else if f64_bits_lt(decoration, BITS_POS_0_25) {
        Tile::Item(Box::new(Item::PineStick))
    } else if f64_bits_lt(decoration, BITS_POS_0_3) {
        Tile::Item(Box::new(Item::FlintRock))
    } else {
        Tile::FlowersRedYellow
    }
}

} // verus!
