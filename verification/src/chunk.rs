use vstd::prelude::*;
use vstd::bytes::spec_u64_to_le_bytes;

use crate::error::Error;
use crate::file_reader::{spec_u32_at, spec_u64_at, FileReader};
use crate::file_writer::FileWriter;
use crate::namespace::Namespace;
use crate::parse::Parse;
use crate::tile::Tile;
use crate::tile_stack::{
    spec_parse_tile_stack, spec_parse_tile_stack_v0, spec_tile_stack_bytes, TileStack,
};

verus! {

/// Tiles per chunk side.
pub const CHUNK_SIDE: usize = 64;

/// Cells per chunk: a full 64 by 64 grid.
pub const CHUNK_CELLS: usize = 4096;

/// A 64 by 64 grid of tile stacks in row-major order: the unit of
/// streaming and of persistence. The renderer's vertex caches live outside
/// this library.
pub struct Chunk {
    pub tile_stacks: Vec<TileStack>,
}

/// The chunk holds exactly one stack per cell.
pub open spec fn spec_chunk_wf(c: Chunk) -> bool {
    c.tile_stacks@.len() == CHUNK_CELLS
}

/// The byte images of the stacks' records, one after the other.
pub open spec fn spec_stacks_bytes(stacks: Seq<TileStack>) -> Seq<u8>
    decreases stacks.len(),
{
    if stacks.len() == 0 {
        Seq::<u8>::empty()
    } else {
        spec_tile_stack_bytes(stacks[0].tiles@) + spec_stacks_bytes(stacks.skip(1))
    }
}

pub proof fn lemma_stacks_bytes_push(stacks: Seq<TileStack>, s: TileStack)
    ensures
        spec_stacks_bytes(stacks.push(s)) == spec_stacks_bytes(stacks) + spec_tile_stack_bytes(
            s.tiles@,
        ),
    decreases stacks.len(),
{
    if stacks.len() == 0 {
        assert(stacks.push(s)[0] == s);
        assert(stacks.push(s).skip(1) =~= Seq::<TileStack>::empty());
        assert(spec_stacks_bytes(Seq::<TileStack>::empty()) == Seq::<u8>::empty());
        assert(spec_stacks_bytes(stacks.push(s)) == spec_tile_stack_bytes(s.tiles@)
            + Seq::<u8>::empty());
        assert(spec_stacks_bytes(stacks.push(s)) =~= spec_stacks_bytes(stacks)
            + spec_tile_stack_bytes(s.tiles@));
    } else {
        assert(stacks.push(s)[0] == stacks[0]);
        assert(stacks.push(s).skip(1) =~= stacks.skip(1).push(s));
        lemma_stacks_bytes_push(stacks.skip(1), s);
        assert(spec_stacks_bytes(stacks.push(s)) == spec_tile_stack_bytes(stacks[0].tiles@) + (
        spec_stacks_bytes(stacks.skip(1)) + spec_tile_stack_bytes(s.tiles@)));
        assert(spec_stacks_bytes(stacks.push(s)) =~= spec_stacks_bytes(stacks)
            + spec_tile_stack_bytes(s.tiles@));
    }
}

/// The byte image of a whole chunk file: the hash of the namespace the
/// chunk was saved under, then every cell's stack record in row-major
/// order.
pub open spec fn spec_chunk_bytes(namespace_hash: u64, stacks: Seq<TileStack>) -> Seq<u8> {
    spec_u64_to_le_bytes(namespace_hash) + spec_stacks_bytes(stacks)
}

/// Reading `n` stack records one after another at `i`.
pub open spec fn spec_parse_stacks(data: Seq<u8>, i: int, n: nat, ns: Namespace) -> Parse<
    Seq<Seq<Tile>>,
>
    decreases n,
{
    if n == 0 {
        Parse::Found(Seq::<Seq<Tile>>::empty(), i)
    } else {
        match spec_parse_tile_stack(data, i, ns) {
            Parse::Found(tiles, j) => match spec_parse_stacks(data, j, (n - 1) as nat, ns) {
                Parse::Found(rest, k) => Parse::Found(seq![tiles] + rest, k),
                Parse::Failed(e) => Parse::Failed(e),
            },
            Parse::Failed(e) => Parse::Failed(e),
        }
    }
}

/// Reading `n` stacks of the legacy version-0 layout out of the length and
/// data areas.
pub open spec fn spec_parse_stacks_v0(
    lengths: Seq<u8>,
    datas: Seq<u8>,
    li: int,
    di: int,
    n: nat,
    ns: Namespace,
) -> Option<Seq<Seq<Tile>>>
    decreases n,
{
    if n == 0 {
        Some(Seq::<Seq<Tile>>::empty())
    } else {
        match spec_parse_tile_stack_v0(lengths, datas, li, di, ns) {
            None => None,
            Some((tiles, lj, dj)) => match spec_parse_stacks_v0(
                lengths,
                datas,
                lj,
                dj,
                (n - 1) as nat,
                ns,
            ) {
                None => None,
                Some(rest) => Some(seq![tiles] + rest),
            },
        }
    }
}

/// The whole-file read of a version-0 chunk body, as the legacy loader
/// walks it: the cursor (just past the hash) yields a pointer to the data
/// area, record lengths sit at a fixed offset behind the framing, and the
/// records fill every cell.
pub open spec fn spec_parse_chunk_v0(data: Seq<u8>, i: int, ns: Namespace) -> Option<
    Seq<Seq<Tile>>,
> {
    if i < 0 || i + 4 > data.len() {
        None
    } else {
        let ptr = spec_u32_at(data, i) as int;
        if ptr < 12 || ptr > data.len() {
            None
        } else {
            spec_parse_stacks_v0(
                data.subrange(12, ptr),
                data.subrange(ptr, data.len() as int),
                0,
                0,
                CHUNK_CELLS as nat,
                ns,
            )
        }
    }
}

impl Chunk {
    /// A chunk of blank tile stacks, each awaiting its first draw.
    #[verifier::loop_isolation(false)]
    pub fn new_blank() -> (r: Chunk)
        ensures
            spec_chunk_wf(r),
            forall|k: int|
                0 <= k < CHUNK_CELLS ==> (#[trigger] r.tile_stacks@[k]).tiles@.len() == 0
                    && r.tile_stacks@[k].needs_redrawing == true,
    {
        let mut tile_stacks: Vec<TileStack> = Vec::new();
        let mut k: usize = 0;
        while k < CHUNK_CELLS
            invariant
                0 <= k <= CHUNK_CELLS,
                tile_stacks@.len() == k,
                forall|m: int|
                    0 <= m < k ==> (#[trigger] tile_stacks@[m]).tiles@.len() == 0
                        && tile_stacks@[m].needs_redrawing == true,
            decreases CHUNK_CELLS - k,
        {
            tile_stacks.push(TileStack::new());
            k = k + 1;
        }
        Chunk { tile_stacks }
    }

    /// Generate every cell from the world seed: a pure function of the
    /// chunk coordinate and the seed.
    #[verifier::loop_isolation(false)]
    pub fn generate(&mut self, pos: [i64; 2], seed: u32)
        requires
            spec_chunk_wf(*old(self)),
            -0x7fffffffffffffff <= pos[0] * 64,
            pos[0] * 64 + 63 <= 0x7fffffffffffffff,
            -0x7fffffffffffffff <= pos[1] * 64,
            pos[1] * 64 + 63 <= 0x7fffffffffffffff,
        ensures
            spec_chunk_wf(*final(self)),
            forall|x: int, y: int|
                0 <= x < 64 && 0 <= y < 64 ==> (#[trigger] final(self).tile_stacks@[y * 64
                    + x]).tiles@ == crate::worldgen::spec_generated_tiles(
                    (pos[0] * 64 + x) as i64,
                    (pos[1] * 64 + y) as i64,
                    seed,
                ),
            forall|k: int|
                0 <= k < CHUNK_CELLS ==> (#[trigger] final(self).tile_stacks@[k]).needs_redrawing
                    == old(self).tile_stacks@[k].needs_redrawing,
    {
        let fields = crate::worldgen::WorldFields::new(seed);
        let tile_x_start = pos[0] * 64;
        let tile_y_start = pos[1] * 64;
        let mut x: usize = 0;
        while x < 64
            invariant
                0 <= x <= 64,
                spec_chunk_wf(*self),
                tile_x_start == pos[0] * 64,
                tile_y_start == pos[1] * 64,
                forall|xx: int, yy: int|
                    0 <= xx < 64 && 0 <= yy < 64 && (xx < x) ==> (#[trigger] self.tile_stacks@[yy
                        * 64 + xx]).tiles@ == crate::worldgen::spec_generated_tiles(
                        (pos[0] * 64 + xx) as i64,
                        (pos[1] * 64 + yy) as i64,
                        seed,
                    ),
                forall|xx: int, yy: int|
                    0 <= xx < 64 && 0 <= yy < 64 && xx >= x ==> (#[trigger] self.tile_stacks@[yy
                        * 64 + xx]).tiles@ == old(self).tile_stacks@[yy * 64 + xx].tiles@,
                forall|k: int|
                    0 <= k < CHUNK_CELLS ==> (#[trigger] self.tile_stacks@[k]).needs_redrawing
                        == old(self).tile_stacks@[k].needs_redrawing,
            decreases 64 - x,
        {
            let mut y: usize = 0;
            while y < 64
                invariant
                    0 <= x < 64,
                    0 <= y <= 64,
                    spec_chunk_wf(*self),
                    tile_x_start == pos[0] * 64,
                    tile_y_start == pos[1] * 64,
                    forall|xx: int, yy: int|
                        0 <= xx < 64 && 0 <= yy < 64 && (xx < x || (xx == x && yy < y)) ==> (
                        #[trigger] self.tile_stacks@[yy * 64 + xx]).tiles@
                            == crate::worldgen::spec_generated_tiles(
                            (pos[0] * 64 + xx) as i64,
                            (pos[1] * 64 + yy) as i64,
                            seed,
                        ),
                    forall|xx: int, yy: int|
                        0 <= xx < 64 && 0 <= yy < 64 && (xx > x || (xx == x && yy >= y)) ==> (
                        #[trigger] self.tile_stacks@[yy * 64 + xx]).tiles@ == old(
                            self,
                        ).tile_stacks@[yy * 64 + xx].tiles@,
                    forall|k: int|
                        0 <= k < CHUNK_CELLS ==> (#[trigger] self.tile_stacks@[k]).needs_redrawing
                            == old(self).tile_stacks@[k].needs_redrawing,
                decreases 64 - y,
            {
                self.tile_stacks[y * 64 + x].generate_with(
                    [tile_x_start + x as i64, tile_y_start + y as i64],
                    seed,
                    &fields,
                );
                y = y + 1;
            }
            x = x + 1;
        }
    }

    /// The namespace hash in a chunk file's header, or nothing when the
    /// file is too short to carry one. The caller resolves the namespace
    /// blob under this hash before loading the body.
    pub fn chunk_file_namespace_hash(file_data: &Vec<u8>) -> (r: Option<u64>)
        ensures
            match spec_chunk_file_hash(file_data@) {
                Some(h) => r == Some(h),
                None => r is None,
            },
    {
        let framed = FileReader::from_bytes(file_data.clone());
        let mut file = match framed {
            Ok((file, _)) => file,
            Err(_) => {
                return None;
            },
        };
        match file.read_u64() {
            Ok(hash) => Some(hash),
            Err(_) => None,
        }
    }

    /// Load the chunk out of a whole file image under the resolved
    /// namespace. `Ok(true)` means every cell was read and now awaits its
    /// first draw; `Ok(false)` means the image is malformed, which a loader
    /// treats like a missing file, and the chunk is left exactly as it was
    /// so the caller can regenerate into it.
    #[verifier::loop_isolation(false)]
    #[verifier::rlimit(50)]
    pub fn load(&mut self, file_data: &Vec<u8>, namespace: &Namespace) -> (r: Result<bool, Error>)
        requires
            spec_chunk_wf(*old(self)),
        ensures
            spec_chunk_wf(*final(self)),
            match spec_chunk_load(file_data@, *namespace) {
                Some(stacks) => {
                    &&& r == Result::<bool, Error>::Ok(true)
                    &&& forall|k: int|
                        0 <= k < CHUNK_CELLS ==> (#[trigger] final(self).tile_stacks@[k]).tiles@
                            == stacks[k]
                    &&& forall|k: int|
                        0 <= k < CHUNK_CELLS ==> (
                        #[trigger] final(self).tile_stacks@[k]).needs_redrawing == true
                },
                None => {
                    &&& r == Result::<bool, Error>::Ok(false)
                    &&& final(self).tile_stacks@ == old(self).tile_stacks@
                },
            },
    {
        let framed = FileReader::from_bytes(file_data.clone());
        let mut file = match framed {
            Ok((file, _)) => file,
            Err(_) => {
                return Ok(false);
            },
        };
        match file.read_u64() {
            Ok(_) => {},
            Err(_) => {
                return Ok(false);
            },
        }
        let mut fresh = Chunk::new_blank();
        if namespace.version == 0 {
            match fresh.load_v0(&mut file, namespace) {
                Some(()) => {
                    self.tile_stacks = fresh.tile_stacks;
                    Ok(true)
                },
                None => Ok(false),
            }
        } else {
            let ghost data = file.data@;
            let ghost i0 = file.read_index as int;
            let mut s: usize = 0;
            proof {
                match spec_parse_stacks(data, i0, CHUNK_CELLS as nat, *namespace) {
                    Parse::Found(stacks, _) => {
                        assert(stacks.skip(0) =~= stacks);
                    },
                    Parse::Failed(_) => {},
                }
            }
            loop
                invariant
                    spec_chunk_wf(fresh),
                    spec_chunk_wf(*self),
                    self.tile_stacks@ == old(self).tile_stacks@,
                    0 <= s <= CHUNK_CELLS,
                    file.data@ == data,
                    forall|k: int|
                        0 <= k < CHUNK_CELLS ==> (#[trigger] fresh.tile_stacks@[k]).needs_redrawing
                            == true,
                    forall|k: int|
                        s <= k < CHUNK_CELLS ==> (#[trigger] fresh.tile_stacks@[k]).tiles@.len()
                            == 0,
                    match spec_parse_stacks(data, i0, CHUNK_CELLS as nat, *namespace) {
                        Parse::Found(stacks, j) => {
                            &&& spec_parse_stacks(
                                data,
                                file.read_index as int,
                                (CHUNK_CELLS - s) as nat,
                                *namespace,
                            ) == Parse::<Seq<Seq<Tile>>>::Found(stacks.skip(s as int), j)
                            &&& forall|k: int|
                                0 <= k < s ==> (#[trigger] fresh.tile_stacks@[k]).tiles@
                                    == stacks[k]
                        },
                        Parse::Failed(e) => spec_parse_stacks(
                            data,
                            file.read_index as int,
                            (CHUNK_CELLS - s) as nat,
                            *namespace,
                        ) == Parse::<Seq<Seq<Tile>>>::Failed(e),
                    },
                decreases CHUNK_CELLS - s,
            {
                if s >= CHUNK_CELLS {
                    proof {
                        match spec_parse_stacks(data, i0, CHUNK_CELLS as nat, *namespace) {
                            Parse::Found(stacks, j) => {
                                assert(stacks.skip(CHUNK_CELLS as int) =~= Seq::<Seq<Tile>>::empty());
                                assert(stacks.len() == CHUNK_CELLS) by {
                                    lemma_parse_stacks_count(data, i0, CHUNK_CELLS as nat, *namespace);
                                }
                            },
                            Parse::Failed(_) => {},
                        }
                    }
                    self.tile_stacks = fresh.tile_stacks;
                    return Ok(true);
                }
                let ghost cur = file.read_index as int;
                let ghost pre = fresh.tile_stacks@;
                let res = fresh.tile_stacks[s].deserialize(&mut file, namespace, namespace.version);
                match res {
                    Ok(()) => {},
                    Err(_) => {
                        return Ok(false);
                    },
                }
                s = s + 1;
                proof {
                    lemma_parse_stacks_count(data, i0, CHUNK_CELLS as nat, *namespace);
                    match spec_parse_stacks(data, i0, CHUNK_CELLS as nat, *namespace) {
                        Parse::Found(stacks, jj) => {
                            assert(stacks.len() == CHUNK_CELLS);
                            match spec_parse_tile_stack(data, cur, *namespace) {
                                Parse::Found(ts0, j0) => {
                                    lemma_parse_stacks_count(
                                        data,
                                        j0,
                                        (CHUNK_CELLS - s) as nat,
                                        *namespace,
                                    );
                                    match spec_parse_stacks(
                                        data,
                                        j0,
                                        (CHUNK_CELLS - s) as nat,
                                        *namespace,
                                    ) {
                                        Parse::Found(rest, _) => {
                                            assert(seq![ts0] + rest == stacks.skip(s - 1));
                                            assert(rest.len() == CHUNK_CELLS - s);
                                            assert forall|m: int|
                                                0 <= m < rest.len() implies rest[m] == stacks.skip(
                                                s as int,
                                            )[m] by {
                                                assert((seq![ts0] + rest)[m + 1] == rest[m]);
                                                assert(0 <= m + 1 < stacks.skip(s - 1).len());
                                                assert(stacks.skip(s - 1)[m + 1] == stacks[s - 1
                                                    + (m + 1)]);
                                                assert(s - 1 + (m + 1) == s + m);
                                            }
                                            assert(stacks.skip(s as int).len() == CHUNK_CELLS - s);
                                            assert(rest =~= stacks.skip(s as int));
                                            assert(stacks.skip(s - 1)[0] == ts0);
                                            assert(stacks[s - 1] == stacks.skip(s - 1)[0]);
                                            assert(pre[s - 1].tiles@ + ts0 =~= ts0);
                                        },
                                        Parse::Failed(_) => {},
                                    }
                                },
                                Parse::Failed(_) => {},
                            }
                        },
                        Parse::Failed(_) => {},
                    }
                }
            }
        }
    }

    /// Load the chunk's cells out of a version-0 file already framed by the
    /// reader, with the cursor just past the namespace hash.
    #[verifier::loop_isolation(false)]
    pub fn load_v0(&mut self, file: &mut FileReader, namespace: &Namespace) -> (r: Option<()>)
        requires
            spec_chunk_wf(*old(self)),
            forall|k: int|
                0 <= k < CHUNK_CELLS ==> (#[trigger] old(self).tile_stacks@[k]).tiles@.len() == 0,
        ensures
            spec_chunk_wf(*final(self)),
            forall|k: int|
                0 <= k < CHUNK_CELLS ==> (#[trigger] final(self).tile_stacks@[k]).needs_redrawing
                    == old(self).tile_stacks@[k].needs_redrawing,
            match spec_parse_chunk_v0(old(file).data@, old(file).read_index as int, *namespace) {
                Some(stacks) => {
                    &&& r is Some
                    &&& forall|k: int|
                        0 <= k < CHUNK_CELLS ==> (#[trigger] final(self).tile_stacks@[k]).tiles@
                            == stacks[k]
                },
                None => r is None,
            },
    {
        let ghost stacks0 = old(self).tile_stacks@;
        let tile_datas_ptr = match file.read_u32() {
            Ok(p) => p as usize,
            Err(_) => {
                return None;
            },
        };
        if tile_datas_ptr < 12 || tile_datas_ptr > file.data.len() {
            return None;
        }
        let tile_lengths = crate::file_reader::vec_subrange(&file.data, 12, tile_datas_ptr);
        let tile_datas = crate::file_reader::vec_subrange(&file.data, tile_datas_ptr, file.data.len());
        let mut tile_lengths_index: usize = 0;
        let mut tile_datas_index: usize = 0;
        let ghost lengths = tile_lengths@;
        let ghost datas = tile_datas@;
        let mut s: usize = 0;
        proof {
            match spec_parse_stacks_v0(lengths, datas, 0, 0, CHUNK_CELLS as nat, *namespace) {
                Some(stacks) => {
                    assert(stacks.skip(0) =~= stacks);
                },
                None => {},
            }
        }
        loop
            invariant
                spec_chunk_wf(*self),
                0 <= s <= CHUNK_CELLS,
                tile_lengths@ == lengths,
                tile_datas@ == datas,
                forall|k: int|
                    0 <= k < CHUNK_CELLS ==> (#[trigger] self.tile_stacks@[k]).needs_redrawing
                        == stacks0[k].needs_redrawing,
                forall|k: int|
                    s <= k < CHUNK_CELLS ==> (#[trigger] self.tile_stacks@[k]).tiles@.len() == 0,
                match spec_parse_stacks_v0(lengths, datas, 0, 0, CHUNK_CELLS as nat, *namespace) {
                    Some(stacks) => {
                        &&& spec_parse_stacks_v0(
                            lengths,
                            datas,
                            tile_lengths_index as int,
                            tile_datas_index as int,
                            (CHUNK_CELLS - s) as nat,
                            *namespace,
                        ) == Some(stacks.skip(s as int))
                        &&& forall|k: int|
                            0 <= k < s ==> (#[trigger] self.tile_stacks@[k]).tiles@ == stacks[k]
                    },
                    None => spec_parse_stacks_v0(
                        lengths,
                        datas,
                        tile_lengths_index as int,
                        tile_datas_index as int,
                        (CHUNK_CELLS - s) as nat,
                        *namespace,
                    ) is None,
                },
            decreases CHUNK_CELLS - s,
        {
            if s >= CHUNK_CELLS {
                proof {
                    match spec_parse_stacks_v0(lengths, datas, 0, 0, CHUNK_CELLS as nat, *namespace) {
                        Some(stacks) => {
                            assert(stacks.skip(CHUNK_CELLS as int) =~= Seq::<Seq<Tile>>::empty());
                            assert(stacks.len() == CHUNK_CELLS) by {
                                lemma_parse_stacks_v0_count(
                                    lengths,
                                    datas,
                                    0,
                                    0,
                                    CHUNK_CELLS as nat,
                                    *namespace,
                                );
                            }
                        },
                        None => {},
                    }
                }
                return Some(());
            }
            let res = self.tile_stacks[s].load_v0(
                tile_lengths.as_slice(),
                tile_datas.as_slice(),
                &mut tile_lengths_index,
                &mut tile_datas_index,
                namespace,
                0,
            );
            match res {
                Some(()) => {},
                None => {
                    return None;
                },
            }
            s = s + 1;
            proof {
                lemma_parse_stacks_v0_count(lengths, datas, 0, 0, CHUNK_CELLS as nat, *namespace);
                match spec_parse_stacks_v0(lengths, datas, 0, 0, CHUNK_CELLS as nat, *namespace) {
                    Some(stacks) => {
                        assert(stacks.len() == CHUNK_CELLS);
                        assert(stacks.skip(s - 1).skip(1) =~= stacks.skip(s as int));
                        assert(stacks.skip(s - 1)[0] == stacks[s - 1]);
                        assert(Seq::<Tile>::empty() + stacks[s - 1] =~= stacks[s - 1]);
                    },
                    None => {},
                }
            }
        }
    }

    /// Serialize the chunk into the byte image of its file, consuming it:
    /// the namespace hash, then every cell's stack record. After a save the
    /// chunk value is gone; no code path touches it again.
    #[verifier::loop_isolation(false)]
    pub fn save(self, namespace_hash: u64) -> (r: Vec<u8>)
        ensures
            r@ == spec_chunk_bytes(namespace_hash, self.tile_stacks@),
    {
        let mut file = FileWriter::new();
        file.push_u64(namespace_hash);
        let mut s: usize = 0;
        while s < self.tile_stacks.len()
            invariant
                0 <= s <= self.tile_stacks@.len(),
                file.data@ == spec_u64_to_le_bytes(namespace_hash) + spec_stacks_bytes(
                    self.tile_stacks@.take(s as int),
                ),
            decreases self.tile_stacks@.len() - s,
        {
            proof {
                assert(self.tile_stacks@.take(s as int).push(self.tile_stacks@[s as int])
                    =~= self.tile_stacks@.take(s as int + 1));
                lemma_stacks_bytes_push(
                    self.tile_stacks@.take(s as int),
                    self.tile_stacks@[s as int],
                );
            }
            self.tile_stacks[s].serialize(&mut file);
            s = s + 1;
        }
        proof {
            assert(self.tile_stacks@.take(self.tile_stacks@.len() as int) =~= self.tile_stacks@);
        }
        file.data
    }


    /// The load-or-generate unit of work for one coordinate, run by a
    /// background task. A whole saved file yields the saved chunk; a
    /// missing, truncated or malformed file is not distinguished and falls
    /// back to deterministic generation; only a namespace blob that could
    /// not be resolved aborts the whole load with an error.
    pub fn get(
        pos: [i64; 2],
        seed: u32,
        file_data: Option<&Vec<u8>>,
        namespace: Option<&Namespace>,
    ) -> (r: Result<Chunk, Error>)
        requires
            -0x7fffffffffffffff <= pos[0] * 64,
            pos[0] * 64 + 63 <= 0x7fffffffffffffff,
            -0x7fffffffffffffff <= pos[1] * 64,
            pos[1] * 64 + 63 <= 0x7fffffffffffffff,
        ensures
            match file_data {
                None => r matches Ok(c) && spec_generated_chunk(c, pos, seed),
                Some(bytes) => {
                    if spec_chunk_file_hash(bytes@) is None {
                        r matches Ok(c) && spec_generated_chunk(c, pos, seed)
                    } else {
                        match namespace {
                            None => r == Result::<Chunk, Error>::Err(Error::CannotReadNamespace),
                            Some(ns) => match spec_chunk_load(bytes@, *ns) {
                                Some(stacks) => {
                                    &&& r matches Ok(c)
                                    &&& spec_chunk_wf(c)
                                    &&& forall|k: int|
                                        0 <= k < CHUNK_CELLS ==> (
                                        #[trigger] r.unwrap().tile_stacks@[k]).tiles@ == stacks[k]
                                },
                                None => r matches Ok(c) && spec_generated_chunk(c, pos, seed),
                            },
                        }
                    }
                },
            },
    {
        let mut out = Chunk::new_blank();
        let bytes = match file_data {
            None => {
                out.generate(pos, seed);
                return Ok(out);
            },
            Some(bytes) => bytes,
        };
        if Self::chunk_file_namespace_hash(bytes).is_none() {
            out.generate(pos, seed);
            return Ok(out);
        }
        let ns = match namespace {
            None => {
                return Err(Error::CannotReadNamespace);
            },
            Some(ns) => ns,
        };
        match out.load(bytes, ns) {
            Ok(true) => Ok(out),
            Ok(false) => {
                out.generate(pos, seed);
                Ok(out)
            },
            Err(_) => vstd::pervasive::unreached(),
        }
    }

    /// Do a tick on the chunk. Nothing in the world changes per tick yet.
    pub fn tick(&mut self, _pos: &[i64; 2])
        ensures
            *final(self) == *old(self),
    {
    }
}

/// Every full parse yields one stack per cell.
pub proof fn lemma_parse_stacks_count(data: Seq<u8>, i: int, n: nat, ns: Namespace)
    ensures
        spec_parse_stacks(data, i, n, ns) matches Parse::Found(stacks, _) ==> stacks.len() == n,
    decreases n,
{
    if n > 0 {
        match spec_parse_tile_stack(data, i, ns) {
            Parse::Found(tiles, j) => {
                lemma_parse_stacks_count(data, j, (n - 1) as nat, ns);
            },
            Parse::Failed(_) => {},
        }
    }
}

/// Every full version-0 parse yields one stack per cell.
pub proof fn lemma_parse_stacks_v0_count(
    lengths: Seq<u8>,
    datas: Seq<u8>,
    li: int,
    di: int,
    n: nat,
    ns: Namespace,
)
    ensures
        spec_parse_stacks_v0(lengths, datas, li, di, n, ns) matches Some(stacks) ==> stacks.len()
            == n,
    decreases n,
{
    if n > 0 {
        match spec_parse_tile_stack_v0(lengths, datas, li, di, ns) {
            Some((tiles, lj, dj)) => {
                lemma_parse_stacks_v0_count(lengths, datas, lj, dj, (n - 1) as nat, ns);
            },
            None => {},
        }
    }
}

/// The namespace hash of a chunk file image: behind the framing, the first
/// eight bytes of the body.
pub open spec fn spec_chunk_file_hash(bytes: Seq<u8>) -> Option<u64> {
    if bytes.len() < 4 {
        None
    } else if spec_u32_at(bytes, 0) != 0 {
        if bytes.len() >= 8 {
            Some(spec_u64_at(bytes, 0))
        } else {
            None
        }
    } else {
        if bytes.len() >= 8 && spec_u32_at(bytes, 4) <= bytes.len() && bytes.len() - 8 >= 8 {
            Some(spec_u64_at(bytes.subrange(8, bytes.len() as int), 0))
        } else {
            None
        }
    }
}

/// The stacks that a whole chunk file image holds under the resolved
/// namespace, or nothing when the image is malformed.
pub open spec fn spec_chunk_load(bytes: Seq<u8>, ns: Namespace) -> Option<Seq<Seq<Tile>>> {
    if spec_chunk_file_hash(bytes) is None {
        None
    } else {
        let body = if spec_u32_at(bytes, 0) != 0 {
            bytes
        } else {
            bytes.subrange(8, bytes.len() as int)
        };
        if ns.version == 0 {
            spec_parse_chunk_v0(body, 8, ns)
        } else {
            match spec_parse_stacks(body, 8, CHUNK_CELLS as nat, ns) {
                Parse::Found(stacks, _) => Some(stacks),
                Parse::Failed(_) => None,
            }
        }
    }
}


/// The chunk's cells each hold exactly the deterministically generated
/// layers for their global tile position, and all await their first draw.
pub open spec fn spec_generated_chunk(c: Chunk, pos: [i64; 2], seed: u32) -> bool {
    &&& spec_chunk_wf(c)
    &&& (forall|x: int, y: int|
        0 <= x < 64 && 0 <= y < 64 ==> (#[trigger] c.tile_stacks@[y * 64 + x]).tiles@
            == crate::worldgen::spec_generated_tiles(
            (pos[0] * 64 + x) as i64,
            (pos[1] * 64 + y) as i64,
            seed,
        ))
    &&& (forall|k: int|
        0 <= k < CHUNK_CELLS ==> (#[trigger] c.tile_stacks@[k]).needs_redrawing == true)
}

/// Determinism: any two chunks generated at the same coordinate with the
/// same seed hold identical tile sequences, cell for cell.
pub proof fn lemma_generate_deterministic(a: Chunk, b: Chunk, pos: [i64; 2], seed: u32)
    requires
        spec_generated_chunk(a, pos, seed),
        spec_generated_chunk(b, pos, seed),
    ensures
        forall|k: int|
            0 <= k < CHUNK_CELLS ==> (#[trigger] a.tile_stacks@[k]).tiles@
                == b.tile_stacks@[k].tiles@,
{
    assert forall|k: int| 0 <= k < CHUNK_CELLS implies (#[trigger] a.tile_stacks@[k]).tiles@
        == b.tile_stacks@[k].tiles@ by {
        let x = k % 64;
        let y = k / 64;
        assert(k == y * 64 + x);
        assert(a.tile_stacks@[y * 64 + x].tiles@ == b.tile_stacks@[y * 64 + x].tiles@);
    }
}

} // verus!
