use vstd::prelude::*;

use crate::chunk::{spec_chunk_bytes, spec_chunk_wf, Chunk};
use crate::chunk_slot::{spec_slot_measure, spec_slot_task, spec_slot_wf, ChunkSlot};
use crate::direction::Direction4;
use crate::tile_stack::TileStack;

verus! {

/// An inclusive rectangle of chunk coordinates.
#[derive(PartialEq, Eq, Structural, Clone, Copy, Debug)]
pub struct ChunkRect {
    pub min_x: i64,
    pub max_x: i64,
    pub min_y: i64,
    pub max_y: i64,
}

impl ChunkRect {
    /// The rectangle holds the coordinate.
    pub open spec fn spec_contains(self, x: i64, y: i64) -> bool {
        self.min_x <= x <= self.max_x && self.min_y <= y <= self.max_y
    }

    pub fn contains(&self, x: i64, y: i64) -> (r: bool)
        ensures
            r == self.spec_contains(x, y),
    {
        self.min_x <= x && x <= self.max_x && self.min_y <= y && y <= self.max_y
    }
}

/// One live coordinate and its lifecycle stage.
pub struct ChunkPoolEntry {
    pub pos: [i64; 2],
    pub slot: ChunkSlot,
}

/// Work the pool hands to the background task driver. The driver performs
/// the file work and later hands back one `ChunkEvent` carrying the same
/// task id. A save request carries the chunk's serialized file image; the
/// chunk value itself was consumed to produce it. The driver keeps the
/// image until the save succeeds, so a retry request carries only the new
/// task id.
pub enum ChunkTask {
    Load { task_id: u64, pos: [i64; 2], seed: u32 },
    Save { task_id: u64, pos: [i64; 2], data: Vec<u8> },
    RetrySave { task_id: u64, pos: [i64; 2] },
}

/// The completion of a background task, handed back to the pool.
pub enum ChunkEvent {
    Loaded { task_id: u64, chunk: Chunk },
    LoadFailed { task_id: u64 },
    Saved { task_id: u64 },
    SaveFailed { task_id: u64 },
}

/// The first entry at the given chunk coordinate, if any.
pub open spec fn spec_find_pos(es: Seq<ChunkPoolEntry>, x: i64, y: i64) -> Option<int>
    decreases es.len(),
{
    if es.len() == 0 {
        None
    } else if es[0].pos[0] == x && es[0].pos[1] == y {
        Some(0)
    } else {
        match spec_find_pos(es.skip(1), x, y) {
            Some(i) => Some(i + 1),
            None => None,
        }
    }
}

/// The first entry waiting on the given task id, if any.
pub open spec fn spec_find_task(es: Seq<ChunkPoolEntry>, task_id: u64) -> Option<int>
    decreases es.len(),
{
    if es.len() == 0 {
        None
    } else if spec_slot_task(es[0].slot) == Some(task_id) {
        Some(0)
    } else {
        match spec_find_task(es.skip(1), task_id) {
            Some(i) => Some(i + 1),
            None => None,
        }
    }
}

/// How much lifecycle work the pool still owes before a shutdown can
/// finish: the sum of its slots' measures.
pub open spec fn spec_entries_measure(es: Seq<ChunkPoolEntry>) -> nat
    decreases es.len(),
{
    if es.len() == 0 {
        0
    } else {
        spec_slot_measure(es[0].slot) + spec_entries_measure(es.skip(1))
    }
}


/// Changing one entry changes the measure by the difference of the two
/// slots' measures.
pub proof fn lemma_measure_update(es: Seq<ChunkPoolEntry>, i: int, e: ChunkPoolEntry)
    requires
        0 <= i < es.len(),
    ensures
        spec_entries_measure(es.update(i, e)) + spec_slot_measure(es[i].slot)
            == spec_entries_measure(es) + spec_slot_measure(e.slot),
    decreases i,
{
    if i == 0 {
        assert(es.update(0, e).skip(1) =~= es.skip(1));
        assert(es.update(0, e)[0] == e);
    } else {
        assert(es.update(i, e)[0] == es[0]);
        assert(es.update(i, e).skip(1) =~= es.skip(1).update(i - 1, e));
        lemma_measure_update(es.skip(1), i - 1, e);
    }
}

/// Removing one entry removes its slot's measure.
pub proof fn lemma_measure_remove(es: Seq<ChunkPoolEntry>, i: int)
    requires
        0 <= i < es.len(),
    ensures
        spec_entries_measure(es.remove(i)) + spec_slot_measure(es[i].slot) == spec_entries_measure(
            es,
        ),
    decreases i,
{
    if i == 0 {
        assert(es.remove(0) =~= es.skip(1));
    } else {
        assert(es.remove(i)[0] == es[0]);
        assert(es.remove(i).skip(1) =~= es.skip(1).remove(i - 1));
        lemma_measure_remove(es.skip(1), i - 1);
    }
}

/// Appending an entry adds its slot's measure.
pub proof fn lemma_measure_push(es: Seq<ChunkPoolEntry>, e: ChunkPoolEntry)
    ensures
        spec_entries_measure(es.push(e)) == spec_entries_measure(es) + spec_slot_measure(e.slot),
    decreases es.len(),
{
    if es.len() == 0 {
        assert(es.push(e)[0] == e);
        assert(es.push(e).skip(1) =~= Seq::<ChunkPoolEntry>::empty());
        assert(spec_entries_measure(Seq::<ChunkPoolEntry>::empty()) == 0);
    } else {
        assert(es.push(e)[0] == es[0]);
        assert(es.push(e).skip(1) =~= es.skip(1).push(e));
        lemma_measure_push(es.skip(1), e);
    }
}

/// Holds all the chunks, whether loaded, loading or freeing, and drives
/// their lifecycle between the synchronous tick and the background task
/// driver. A coordinate is in the pool exactly while it is loaded, loading,
/// or awaiting its save's completion; renders and gameplay queries only
/// ever observe loaded slots.
pub struct ChunkPool {
    pub entries: Vec<ChunkPoolEntry>,
    pub next_task_id: u64,
    pub desired: ChunkRect,
    pub seed: u32,
    pub shutting_down: bool,
}

impl ChunkPool {
    /// Positions are unique, every waiting slot's task id is unique and was
    /// drawn below the next fresh id, and every loaded chunk is whole.
    pub open spec fn wf(self) -> bool {
        &&& (forall|i: int, j: int|
            0 <= i < j < self.entries@.len() ==> !((#[trigger] self.entries@[i]).pos[0]
                == (#[trigger] self.entries@[j]).pos[0] && self.entries@[i].pos[1]
                == self.entries@[j].pos[1]))
        &&& (forall|i: int|
            0 <= i < self.entries@.len() ==> match spec_slot_task(
                (#[trigger] self.entries@[i]).slot,
            ) {
                Some(id) => id < self.next_task_id,
                None => true,
            })
        &&& (forall|i: int, j: int|
            0 <= i < j < self.entries@.len() ==> !(spec_slot_task(
                (#[trigger] self.entries@[i]).slot,
            ) is Some && spec_slot_task(self.entries@[i].slot) == spec_slot_task(
                (#[trigger] self.entries@[j]).slot,
            )))
        &&& (forall|i: int|
            0 <= i < self.entries@.len() ==> spec_slot_wf((#[trigger] self.entries@[i]).slot))
    }



    /// An empty pool with no window, not shutting down.
    pub fn new() -> (r: ChunkPool)
        ensures
            r.wf(),
            r.entries@.len() == 0,
            r.next_task_id == 0,
            r.shutting_down == false,
    {
        ChunkPool {
            entries: Vec::new(),
            next_task_id: 0,
            desired: ChunkRect { min_x: 0, max_x: -1, min_y: 0, max_y: -1 },
            seed: 0,
            shutting_down: false,
        }
    }

    /// Ask the pool to retire every chunk: from here on no new loads start,
    /// and reconciling sweeps every loaded chunk out to disk.
    pub fn begin_shutdown(&mut self)
        requires
            old(self).wf(),
        ensures
            final(self).wf(),
            final(self).entries == old(self).entries,
            final(self).next_task_id == old(self).next_task_id,
            final(self).desired == old(self).desired,
            final(self).seed == old(self).seed,
            final(self).shutting_down == true,
    {
        self.shutting_down = true;
    }

    /// True once shutdown was requested and every coordinate has finished
    /// its save and left the pool.
    pub fn is_fully_shut_down(&self) -> (r: bool)
        ensures
            r == (self.shutting_down && self.entries@.len() == 0),
    {
        self.shutting_down && self.entries.len() == 0
    }


    /// Apply one background completion. A finished load promotes its
    /// loading slot to a loaded chunk; a finished save retires its
    /// coordinate from the pool; a failed load or save is retried under a
    /// fresh task id, whose new request is handed back. An event whose task
    /// id no slot awaits is stale and changes nothing, so a completion can
    /// never hit a coordinate that has moved on.
    pub fn apply_event(&mut self, event: ChunkEvent) -> (r: Option<ChunkTask>)
        requires
            old(self).wf(),
            old(self).next_task_id < 0xffffffffffffffff,
            event matches ChunkEvent::Loaded { chunk, .. } ==> spec_chunk_wf(chunk),
        ensures
            final(self).wf(),
            final(self).desired == old(self).desired,
            final(self).seed == old(self).seed,
            final(self).shutting_down == old(self).shutting_down,
            old(self).next_task_id <= final(self).next_task_id <= old(self).next_task_id + 1,
            spec_entries_measure(final(self).entries@) <= spec_entries_measure(old(self).entries@),
            match event {
                ChunkEvent::Loaded { task_id, chunk } => match spec_find_task(
                    old(self).entries@,
                    task_id,
                ) {
                    Some(i) => if old(self).entries@[i].slot matches ChunkSlot::Getting(_) {
                        &&& final(self).entries@ == old(self).entries@.update(
                            i,
                            ChunkPoolEntry {
                                pos: old(self).entries@[i].pos,
                                slot: ChunkSlot::Chunk(chunk),
                            },
                        )
                        &&& r is None
                        &&& spec_entries_measure(final(self).entries@) + 1 == spec_entries_measure(
                            old(self).entries@,
                        )
                    } else {
                        final(self).entries == old(self).entries && r is None
                    },
                    None => final(self).entries == old(self).entries && r is None,
                },
                ChunkEvent::LoadFailed { task_id } => match spec_find_task(
                    old(self).entries@,
                    task_id,
                ) {
                    Some(i) => if old(self).entries@[i].slot matches ChunkSlot::Getting(_) {
                        &&& final(self).entries@ == old(self).entries@.update(
                            i,
                            ChunkPoolEntry {
                                pos: old(self).entries@[i].pos,
                                slot: ChunkSlot::Getting(old(self).next_task_id),
                            },
                        )
                        &&& r == Some(
                            ChunkTask::Load {
                                task_id: old(self).next_task_id,
                                pos: old(self).entries@[i].pos,
                                seed: old(self).seed,
                            },
                        )
                        &&& spec_entries_measure(final(self).entries@) == spec_entries_measure(
                            old(self).entries@,
                        )
                    } else {
                        final(self).entries == old(self).entries && r is None
                    },
                    None => final(self).entries == old(self).entries && r is None,
                },
                ChunkEvent::Saved { task_id } => match spec_find_task(
                    old(self).entries@,
                    task_id,
                ) {
                    Some(i) => if old(self).entries@[i].slot matches ChunkSlot::Freeing(_) {
                        &&& final(self).entries@ == old(self).entries@.remove(i)
                        &&& r is None
                        &&& spec_entries_measure(final(self).entries@) + 1 == spec_entries_measure(
                            old(self).entries@,
                        )
                    } else {
                        final(self).entries == old(self).entries && r is None
                    },
                    None => final(self).entries == old(self).entries && r is None,
                },
                ChunkEvent::SaveFailed { task_id } => match spec_find_task(
                    old(self).entries@,
                    task_id,
                ) {
                    Some(i) => if old(self).entries@[i].slot matches ChunkSlot::Freeing(_) {
                        &&& final(self).entries@ == old(self).entries@.update(
                            i,
                            ChunkPoolEntry {
                                pos: old(self).entries@[i].pos,
                                slot: ChunkSlot::Freeing(old(self).next_task_id),
                            },
                        )
                        &&& r == Some(
                            ChunkTask::RetrySave {
                                task_id: old(self).next_task_id,
                                pos: old(self).entries@[i].pos,
                            },
                        )
                        &&& spec_entries_measure(final(self).entries@) == spec_entries_measure(
                            old(self).entries@,
                        )
                    } else {
                        final(self).entries == old(self).entries && r is None
                    },
                    None => final(self).entries == old(self).entries && r is None,
                },
            },
    {
        match event {
            ChunkEvent::Loaded { task_id, chunk } => {
                proof {
                    lemma_find_task_bounds(self.entries@, task_id);
                }
                match self.find_task(task_id) {
                    Some(i) => {
                        let is_getting = matches!(&self.entries[i].slot, ChunkSlot::Getting(_));
                        if is_getting {
                            let ghost es0 = self.entries@;
                            self.entries[i].slot = ChunkSlot::Chunk(chunk);
                            proof {
                                let e = ChunkPoolEntry {
                                    pos: es0[i as int].pos,
                                    slot: ChunkSlot::Chunk(chunk),
                                };
                                assert(self.entries@ =~= es0.update(i as int, e));
                                lemma_measure_update(es0, i as int, e);
                                self.lemma_wf_after_update(es0, i as int, e, old(self).next_task_id);
                            }
                            None
                        } else {
                            None
                        }
                    },
                    None => None,
                }
            },
            ChunkEvent::LoadFailed { task_id } => {
                proof {
                    lemma_find_task_bounds(self.entries@, task_id);
                }
                match self.find_task(task_id) {
                    Some(i) => {
                        let is_getting = matches!(&self.entries[i].slot, ChunkSlot::Getting(_));
                        if is_getting {
                            let ghost es0 = self.entries@;
                            let fresh = self.next_task_id;
                            self.next_task_id = self.next_task_id + 1;
                            self.entries[i].slot = ChunkSlot::Getting(fresh);
                            let pos = self.entries[i].pos;
                            proof {
                                let e = ChunkPoolEntry {
                                    pos: es0[i as int].pos,
                                    slot: ChunkSlot::Getting(fresh),
                                };
                                assert(self.entries@ =~= es0.update(i as int, e));
                                lemma_measure_update(es0, i as int, e);
                                self.lemma_wf_after_update(es0, i as int, e, old(self).next_task_id);
                            }
                            Some(ChunkTask::Load { task_id: fresh, pos, seed: self.seed })
                        } else {
                            None
                        }
                    },
                    None => None,
                }
            },
            ChunkEvent::Saved { task_id } => {
                proof {
                    lemma_find_task_bounds(self.entries@, task_id);
                }
                match self.find_task(task_id) {
                    Some(i) => {
                        let is_freeing = matches!(&self.entries[i].slot, ChunkSlot::Freeing(_));
                        if is_freeing {
                            let ghost es0 = self.entries@;
                            let _ = self.entries.remove(i);
                            proof {
                                lemma_measure_remove(es0, i as int);
                                self.lemma_wf_after_remove(es0, i as int, old(self).next_task_id);
                            }
                            None
                        } else {
                            None
                        }
                    },
                    None => None,
                }
            },
            ChunkEvent::SaveFailed { task_id } => {
                proof {
                    lemma_find_task_bounds(self.entries@, task_id);
                }
                match self.find_task(task_id) {
                    Some(i) => {
                        let is_freeing = matches!(&self.entries[i].slot, ChunkSlot::Freeing(_));
                        if is_freeing {
                            let ghost es0 = self.entries@;
                            let fresh = self.next_task_id;
                            self.next_task_id = self.next_task_id + 1;
                            self.entries[i].slot = ChunkSlot::Freeing(fresh);
                            let pos = self.entries[i].pos;
                            proof {
                                let e = ChunkPoolEntry {
                                    pos: es0[i as int].pos,
                                    slot: ChunkSlot::Freeing(fresh),
                                };
                                assert(self.entries@ =~= es0.update(i as int, e));
                                lemma_measure_update(es0, i as int, e);
                                self.lemma_wf_after_update(es0, i as int, e, old(self).next_task_id);
                            }
                            Some(ChunkTask::RetrySave { task_id: fresh, pos })
                        } else {
                            None
                        }
                    },
                    None => None,
                }
            },
        }
    }

    /// After one entry's slot is replaced, either by a task-free loaded
    /// chunk or by a slot waiting on the freshest id, the pool is still
    /// well formed.
    proof fn lemma_wf_after_update(
        &self,
        es0: Seq<ChunkPoolEntry>,
        i: int,
        e: ChunkPoolEntry,
        old_next: u64,
    )
        requires
            0 <= i < es0.len(),
            self.entries@ == es0.update(i, e),
            e.pos == es0[i].pos,
            spec_slot_wf(e.slot),
            match spec_slot_task(e.slot) {
                Some(id) => old_next <= id < self.next_task_id,
                None => true,
            },
            old_next <= self.next_task_id,
            // the old entries were well formed under the old fresh bound
            forall|a: int, b: int|
                0 <= a < b < es0.len() ==> !((#[trigger] es0[a]).pos[0] == (#[trigger] es0[b]).pos[0]
                    && es0[a].pos[1] == es0[b].pos[1]),
            forall|a: int|
                0 <= a < es0.len() ==> match spec_slot_task((#[trigger] es0[a]).slot) {
                    Some(id) => id < old_next,
                    None => true,
                },
            forall|a: int, b: int|
                0 <= a < b < es0.len() ==> !(spec_slot_task((#[trigger] es0[a]).slot) is Some
                    && spec_slot_task(es0[a].slot) == spec_slot_task((#[trigger] es0[b]).slot)),
            forall|a: int| 0 <= a < es0.len() ==> spec_slot_wf((#[trigger] es0[a]).slot),
        ensures
            self.wf(),
    {
        let es = self.entries@;
        assert forall|a: int, b: int| 0 <= a < b < es.len() implies !((#[trigger] es[a]).pos[0]
            == (#[trigger] es[b]).pos[0] && es[a].pos[1] == es[b].pos[1]) by {
            assert(es[a].pos == es0[a].pos);
            assert(es[b].pos == es0[b].pos);
        }
        assert forall|a: int| 0 <= a < es.len() implies match spec_slot_task(
            (#[trigger] es[a]).slot,
        ) {
            Some(id) => id < self.next_task_id,
            None => true,
        } by {
            if a != i {
                assert(es[a] == es0[a]);
            }
        }
        assert forall|a: int, b: int| 0 <= a < b < es.len() implies !(spec_slot_task(
            (#[trigger] es[a]).slot,
        ) is Some && spec_slot_task(es[a].slot) == spec_slot_task((#[trigger] es[b]).slot)) by {
            if a != i && b != i {
                assert(es[a] == es0[a]);
                assert(es[b] == es0[b]);
            } else if a == i {
                assert(es[b] == es0[b]);
            } else {
                assert(es[a] == es0[a]);
            }
        }
        assert forall|a: int| 0 <= a < es.len() implies spec_slot_wf((#[trigger] es[a]).slot) by {
            if a != i {
                assert(es[a] == es0[a]);
            }
        }
    }

    /// After one entry is removed the pool is still well formed.
    proof fn lemma_wf_after_remove(&self, es0: Seq<ChunkPoolEntry>, i: int, old_next: u64)
        requires
            0 <= i < es0.len(),
            self.entries@ == es0.remove(i),
            old_next <= self.next_task_id,
            forall|a: int, b: int|
                0 <= a < b < es0.len() ==> !((#[trigger] es0[a]).pos[0] == (#[trigger] es0[b]).pos[0]
                    && es0[a].pos[1] == es0[b].pos[1]),
            forall|a: int|
                0 <= a < es0.len() ==> match spec_slot_task((#[trigger] es0[a]).slot) {
                    Some(id) => id < old_next,
                    None => true,
                },
            forall|a: int, b: int|
                0 <= a < b < es0.len() ==> !(spec_slot_task((#[trigger] es0[a]).slot) is Some
                    && spec_slot_task(es0[a].slot) == spec_slot_task((#[trigger] es0[b]).slot)),
            forall|a: int| 0 <= a < es0.len() ==> spec_slot_wf((#[trigger] es0[a]).slot),
        ensures
            self.wf(),
    {
        let es = self.entries@;
        assert forall|a: int| 0 <= a < es.len() implies es[a] == es0[if a < i {
            a
        } else {
            a + 1
        }] by {}
        assert forall|a: int, b: int| 0 <= a < b < es.len() implies !((#[trigger] es[a]).pos[0]
            == (#[trigger] es[b]).pos[0] && es[a].pos[1] == es[b].pos[1]) by {
            let a0 = if a < i { a } else { a + 1 };
            let b0 = if b < i { b } else { b + 1 };
            assert(es[a] == es0[a0]);
            assert(es[b] == es0[b0]);
        }
        assert forall|a: int| 0 <= a < es.len() implies match spec_slot_task(
            (#[trigger] es[a]).slot,
        ) {
            Some(id) => id < self.next_task_id,
            None => true,
        } by {
            let a0 = if a < i { a } else { a + 1 };
            assert(es[a] == es0[a0]);
        }
        assert forall|a: int, b: int| 0 <= a < b < es.len() implies !(spec_slot_task(
            (#[trigger] es[a]).slot,
        ) is Some && spec_slot_task(es[a].slot) == spec_slot_task((#[trigger] es[b]).slot)) by {
            let a0 = if a < i { a } else { a + 1 };
            let b0 = if b < i { b } else { b + 1 };
            assert(es[a] == es0[a0]);
            assert(es[b] == es0[b0]);
        }
        assert forall|a: int| 0 <= a < es.len() implies spec_slot_wf((#[trigger] es[a]).slot) by {
            let a0 = if a < i { a } else { a + 1 };
            assert(es[a] == es0[a0]);
        }
    }


    /// One loaded entry swept out: its chunk was serialized into the save
    /// request's image, and the slot now waits on that request's task.
    pub open spec fn spec_swept(
        e0: ChunkPoolEntry,
        e1: ChunkPoolEntry,
        t: ChunkTask,
        namespace_hash: u64,
    ) -> bool {
        match (e0.slot, t) {
            (ChunkSlot::Chunk(c), ChunkTask::Save { task_id, pos, data }) => {
                &&& e1.pos == e0.pos
                &&& e1.slot == ChunkSlot::Freeing(task_id)
                &&& pos == e0.pos
                &&& data@ == spec_chunk_bytes(namespace_hash, c.tile_stacks@)
            },
            _ => false,
        }
    }

    /// The entry is loaded and due to be swept out: the pool is shutting
    /// down, or the coordinate fell outside the desired window.
    pub open spec fn spec_due_out(self, e: ChunkPoolEntry) -> bool {
        e.slot matches ChunkSlot::Chunk(_) && (self.shutting_down || !self.desired.spec_contains(
            e.pos[0],
            e.pos[1],
        ))
    }

    /// Reconcile the pool against its window: every loaded chunk that fell
    /// outside the desired rectangle, and every loaded chunk once shutdown
    /// has begun, is serialized (consuming the chunk) and its slot demoted
    /// to saving; the save requests are handed back for the driver to
    /// perform. A loaded chunk still in the window gets its tick. Loading
    /// and saving slots wait for their completions, which arrive through
    /// `apply_event`.
    #[verifier::loop_isolation(false)]
    #[verifier::rlimit(60)]
    pub fn reconcile(&mut self, namespace_hash: u64) -> (r: Vec<ChunkTask>)
        requires
            old(self).wf(),
            old(self).next_task_id + old(self).entries@.len() < 0xffffffffffffffff,
        ensures
            final(self).wf(),
            final(self).desired == old(self).desired,
            final(self).seed == old(self).seed,
            final(self).shutting_down == old(self).shutting_down,
            final(self).next_task_id >= old(self).next_task_id,
            final(self).entries@.len() == old(self).entries@.len(),
            forall|i: int|
                0 <= i < old(self).entries@.len() ==> (#[trigger] final(self).entries@[i]).pos
                    == old(self).entries@[i].pos,
            forall|i: int|
                0 <= i < old(self).entries@.len() ==> if old(self).spec_due_out(
                    #[trigger] old(self).entries@[i],
                ) {
                    exists|k: int|
                        0 <= k < r@.len() && Self::spec_swept(
                            old(self).entries@[i],
                            final(self).entries@[i],
                            #[trigger] r@[k],
                            namespace_hash,
                        )
                } else {
                    final(self).entries@[i] == old(self).entries@[i]
                },
            forall|k: int|
                0 <= k < r@.len() ==> exists|i: int|
                    0 <= i < old(self).entries@.len() && old(self).spec_due_out(
                        old(self).entries@[i],
                    ) && Self::spec_swept(
                        old(self).entries@[i],
                        final(self).entries@[i],
                        #[trigger] r@[k],
                        namespace_hash,
                    ),
            spec_entries_measure(final(self).entries@) + r@.len() == spec_entries_measure(
                old(self).entries@,
            ),
    {
        let ghost es0 = old(self).entries@;
        let mut out: Vec<ChunkTask> = Vec::new();
        let mut i: usize = 0;
        let ghost mut srcs: Seq<int> = Seq::empty();
        let ghost mut kof: Map<int, int> = Map::empty();
        while i < self.entries.len()
            invariant
                self.wf(),
                self.desired == old(self).desired,
                self.seed == old(self).seed,
                self.shutting_down == old(self).shutting_down,
                self.next_task_id >= old(self).next_task_id,
                self.next_task_id as int <= old(self).next_task_id + i,
                0 <= i <= self.entries@.len(),
                self.entries@.len() == es0.len(),
                forall|j: int|
                    0 <= j < es0.len() ==> (#[trigger] self.entries@[j]).pos == es0[j].pos,
                forall|j: int| i <= j < es0.len() ==> (#[trigger] self.entries@[j]) == es0[j],
                forall|j: int|
                    0 <= j < i && !old(self).spec_due_out(#[trigger] es0[j]) ==> self.entries@[j]
                        == es0[j],
                srcs.len() == out@.len(),
                forall|k: int|
                    0 <= k < srcs.len() ==> 0 <= #[trigger] srcs[k] < i && old(self).spec_due_out(
                        es0[srcs[k]],
                    ) && Self::spec_swept(
                        es0[srcs[k]],
                        self.entries@[srcs[k]],
                        out@[k],
                        namespace_hash,
                    ),
                forall|j: int|
                    0 <= j < i && old(self).spec_due_out(#[trigger] es0[j]) ==> kof.contains_key(j)
                        && 0 <= kof[j] < out@.len() && Self::spec_swept(
                        es0[j],
                        self.entries@[j],
                        out@[kof[j]],
                        namespace_hash,
                    ),
                spec_entries_measure(self.entries@) + out@.len() == spec_entries_measure(es0),
            decreases self.entries@.len() - i,
        {
            let is_loaded = matches!(&self.entries[i].slot, ChunkSlot::Chunk(_));
            let pos = self.entries[i].pos;
            if is_loaded && (self.shutting_down || !self.desired.contains(pos[0], pos[1])) {
                let ghost pre = self.entries@;
                let ghost outpre = out@;
                let fresh = self.next_task_id;
                self.next_task_id = self.next_task_id + 1;
                let mut tmp = ChunkSlot::Freeing(fresh);
                core::mem::swap(&mut self.entries[i].slot, &mut tmp);
                let chunk = match tmp {
                    ChunkSlot::Chunk(c) => c,
                    _ => vstd::pervasive::unreached(),
                };
                let data = chunk.save(namespace_hash);
                out.push(ChunkTask::Save { task_id: fresh, pos, data });
                proof {
                    let e = ChunkPoolEntry { pos: pre[i as int].pos, slot: ChunkSlot::Freeing(fresh) };
                    assert(self.entries@ =~= pre.update(i as int, e));
                    lemma_measure_update(pre, i as int, e);
                    self.lemma_wf_after_update(pre, i as int, e, fresh);
                    srcs = srcs.push(i as int);
                    kof = kof.insert(i as int, outpre.len() as int);
                    assert(Self::spec_swept(
                        es0[i as int],
                        self.entries@[i as int],
                        out@[outpre.len() as int],
                        namespace_hash,
                    ));
                    assert forall|k: int|
                        0 <= k < srcs.len() implies 0 <= #[trigger] srcs[k] < i + 1 && old(
                        self,
                    ).spec_due_out(es0[srcs[k]]) && Self::spec_swept(
                        es0[srcs[k]],
                        self.entries@[srcs[k]],
                        out@[k],
                        namespace_hash,
                    ) by {
                        if k < srcs.len() - 1 {
                            assert(out@[k] == outpre[k]);
                            assert(self.entries@[srcs[k]] == pre[srcs[k]]);
                        }
                    }
                    assert forall|j: int|
                        0 <= j < i + 1 && old(self).spec_due_out(#[trigger] es0[j]) implies kof
                        .contains_key(j) && 0 <= kof[j] < out@.len() && Self::spec_swept(
                        es0[j],
                        self.entries@[j],
                        out@[kof[j]],
                        namespace_hash,
                    ) by {
                        if j < i {
                            assert(out@[kof[j]] == outpre[kof[j]]);
                            assert(self.entries@[j] == pre[j]);
                        }
                    }
                }
            } else if is_loaded {
                let ghost pre = self.entries@;
                match self.entries[i].slot.get_loaded_mut() {
                    Some(c) => {
                        c.tick(&pos);
                    },
                    None => {},
                }
                proof {
                    assert(self.entries@[i as int] == pre[i as int]);
                    assert(self.entries@ =~= pre);
                }
            }
            i = i + 1;
        }
        proof {
            assert forall|ii: int|
                0 <= ii < es0.len() && old(self).spec_due_out(#[trigger] es0[ii]) implies exists|
                k: int,
            |
                0 <= k < out@.len() && Self::spec_swept(
                    es0[ii],
                    self.entries@[ii],
                    #[trigger] out@[k],
                    namespace_hash,
                ) by {
                assert(0 <= kof[ii] < out@.len() && Self::spec_swept(
                    es0[ii],
                    self.entries@[ii],
                    out@[kof[ii]],
                    namespace_hash,
                ));
            }
            assert forall|k: int| 0 <= k < out@.len() implies exists|ii: int|
                0 <= ii < es0.len() && old(self).spec_due_out(es0[ii]) && Self::spec_swept(
                    es0[ii],
                    self.entries@[ii],
                    #[trigger] out@[k],
                    namespace_hash,
                ) by {
                assert(0 <= srcs[k] < es0.len() && old(self).spec_due_out(es0[srcs[k]])
                    && Self::spec_swept(
                    es0[srcs[k]],
                    self.entries@[srcs[k]],
                    out@[k],
                    namespace_hash,
                ));
            }
        }
        out
    }


    /// After appending a fresh loading slot at a coordinate that had no
    /// entry, the pool is still well formed.
    proof fn lemma_wf_after_push(&self, es0: Seq<ChunkPoolEntry>, e: ChunkPoolEntry, old_next: u64)
        requires
            self.entries@ == es0.push(e),
            spec_slot_wf(e.slot),
            match spec_slot_task(e.slot) {
                Some(id) => old_next <= id < self.next_task_id,
                None => true,
            },
            old_next <= self.next_task_id,
            forall|i: int|
                0 <= i < es0.len() ==> !((#[trigger] es0[i]).pos[0] == e.pos[0] && es0[i].pos[1]
                    == e.pos[1]),
            forall|a: int, b: int|
                0 <= a < b < es0.len() ==> !((#[trigger] es0[a]).pos[0] == (#[trigger] es0[b]).pos[0]
                    && es0[a].pos[1] == es0[b].pos[1]),
            forall|a: int|
                0 <= a < es0.len() ==> match spec_slot_task((#[trigger] es0[a]).slot) {
                    Some(id) => id < old_next,
                    None => true,
                },
            forall|a: int, b: int|
                0 <= a < b < es0.len() ==> !(spec_slot_task((#[trigger] es0[a]).slot) is Some
                    && spec_slot_task(es0[a].slot) == spec_slot_task((#[trigger] es0[b]).slot)),
            forall|a: int| 0 <= a < es0.len() ==> spec_slot_wf((#[trigger] es0[a]).slot),
        ensures
            self.wf(),
    {
        let es = self.entries@;
        assert forall|a: int, b: int| 0 <= a < b < es.len() implies !((#[trigger] es[a]).pos[0]
            == (#[trigger] es[b]).pos[0] && es[a].pos[1] == es[b].pos[1]) by {
            if b < es0.len() {
                assert(es[a] == es0[a]);
                assert(es[b] == es0[b]);
            } else {
                assert(es[b] == e);
                assert(es[a] == es0[a]);
            }
        }
        assert forall|a: int| 0 <= a < es.len() implies match spec_slot_task(
            (#[trigger] es[a]).slot,
        ) {
            Some(id) => id < self.next_task_id,
            None => true,
        } by {
            if a < es0.len() {
                assert(es[a] == es0[a]);
            }
        }
        assert forall|a: int, b: int| 0 <= a < b < es.len() implies !(spec_slot_task(
            (#[trigger] es[a]).slot,
        ) is Some && spec_slot_task(es[a].slot) == spec_slot_task((#[trigger] es[b]).slot)) by {
            if b < es0.len() {
                assert(es[a] == es0[a]);
                assert(es[b] == es0[b]);
            } else {
                assert(es[a] == es0[a]);
            }
        }
        assert forall|a: int| 0 <= a < es.len() implies spec_slot_wf((#[trigger] es[a]).slot) by {
            if a < es0.len() {
                assert(es[a] == es0[a]);
            }
        }
    }

    /// Advance the desired window: the chunk rectangle covering the
    /// interest region of world tiles, expanded by one chunk of margin on
    /// every side, plus one more chunk in the walking direction to hide
    /// pop-in during the walk. Every window coordinate that is not yet live
    /// gets a loading slot under a fresh task id, and its load request is
    /// handed back. During shutdown nothing starts and nothing changes.
    #[verifier::loop_isolation(false)]
    #[verifier::rlimit(60)]
    pub fn advance_window(
        &mut self,
        interest: ChunkRect,
        walking: Option<Direction4>,
        seed: u32,
    ) -> (r: Vec<ChunkTask>)
        requires
            old(self).wf(),
            interest.min_x <= interest.max_x,
            interest.min_y <= interest.max_y,
            interest.max_x - interest.min_x <= 0x1000000,
            interest.max_y - interest.min_y <= 0x1000000,
            old(self).next_task_id < 0x8000000000000000,
        ensures
            final(self).wf(),
            final(self).shutting_down == old(self).shutting_down,
            old(self).shutting_down ==> *final(self) == *old(self) && r@.len() == 0,
            !old(self).shutting_down ==> {
                &&& final(self).desired == spec_desired_window(interest, walking)
                &&& final(self).seed == seed
                &&& final(self).next_task_id == old(self).next_task_id + r@.len()
                &&& final(self).entries@.len() == old(self).entries@.len() + r@.len()
                &&& final(self).entries@.take(old(self).entries@.len() as int) == old(
                    self,
                ).entries@
                &&& forall|m: int|
                    0 <= m < r@.len() ==> {
                        let e = #[trigger] final(self).entries@[old(self).entries@.len() + m];
                        &&& e.slot == ChunkSlot::Getting((old(self).next_task_id + m) as u64)
                        &&& spec_desired_window(interest, walking).spec_contains(
                            e.pos[0],
                            e.pos[1],
                        )
                        &&& spec_find_pos(old(self).entries@, e.pos[0], e.pos[1]) is None
                        &&& r@[m] == ChunkTask::Load {
                            task_id: (old(self).next_task_id + m) as u64,
                            pos: e.pos,
                            seed,
                        }
                    }
                &&& forall|cx: i64, cy: i64|
                    spec_desired_window(interest, walking).spec_contains(cx, cy)
                        ==> spec_find_pos(#[trigger] final(self).entries@, cx, cy) is Some
            },
    {
        if self.shutting_down {
            return Vec::new();
        }
        let mut min_x = crate::util::floor_div_64(interest.min_x) - 1;
        let mut max_x = crate::util::floor_div_64(interest.max_x) + 1;
        let mut min_y = crate::util::floor_div_64(interest.min_y) - 1;
        let mut max_y = crate::util::floor_div_64(interest.max_y) + 1;
        match walking {
            Some(Direction4::North) => {
                min_y = min_y - 1;
            },
            Some(Direction4::East) => {
                max_x = max_x + 1;
            },
            Some(Direction4::South) => {
                max_y = max_y + 1;
            },
            Some(Direction4::West) => {
                min_x = min_x - 1;
            },
            None => {},
        }
        let window = ChunkRect { min_x, max_x, min_y, max_y };
        proof {
            assert(window == spec_desired_window(interest, walking));
        }
        self.desired = window;
        self.seed = seed;
        let ghost es0 = old(self).entries@;
        let ghost next0 = old(self).next_task_id;
        proof {
            vstd::arithmetic::div_mod::lemma_fundamental_div_mod(interest.min_x as int, 64);
            vstd::arithmetic::div_mod::lemma_fundamental_div_mod(interest.max_x as int, 64);
            vstd::arithmetic::div_mod::lemma_fundamental_div_mod(interest.min_y as int, 64);
            vstd::arithmetic::div_mod::lemma_fundamental_div_mod(interest.max_y as int, 64);
            assert(max_x - min_x + 1 <= 0x40010);
            assert(max_y - min_y + 1 <= 0x40010);
            assert((max_y - min_y + 1) * (max_x - min_x + 1) <= 0x1004000400) by (nonlinear_arith)
                requires
                    0 <= max_y - min_y + 1 <= 0x40010,
                    0 <= max_x - min_x + 1 <= 0x40010,
            ;
        }
        let mut out: Vec<ChunkTask> = Vec::new();
        let mut y = min_y;
        while y <= max_y
            invariant
                self.wf(),
                self.desired == window,
                self.seed == seed,
                self.shutting_down == false,
                min_y <= y <= max_y + 1,
                self.next_task_id as int == next0 + out@.len(),
                next0 + out@.len() + (max_y - y + 1) * (max_x - min_x + 1) < 0x8000001004000400,
                self.entries@.len() == es0.len() + out@.len(),
                self.entries@.take(es0.len() as int) == es0,
                forall|m: int|
                    0 <= m < out@.len() ==> {
                        let e = #[trigger] self.entries@[es0.len() + m];
                        &&& e.slot == ChunkSlot::Getting((next0 + m) as u64)
                        &&& window.spec_contains(e.pos[0], e.pos[1])
                        &&& spec_find_pos(es0, e.pos[0], e.pos[1]) is None
                        &&& out@[m] == ChunkTask::Load {
                            task_id: (next0 + m) as u64,
                            pos: e.pos,
                            seed,
                        }
                    },
                forall|cx: i64, cy: i64|
                    window.spec_contains(cx, cy) && cy < y ==> spec_find_pos(
                        #[trigger] self.entries@,
                        cx,
                        cy,
                    ) is Some,
            decreases max_y + 1 - y,
        {
            proof {
                assert((max_y - y + 1) * (max_x - min_x + 1) == (max_y - y) * (max_x - min_x + 1) + (
                max_x - min_x + 1)) by (nonlinear_arith);
            }
            let mut x = min_x;
            while x <= max_x
                invariant
                    self.wf(),
                    self.desired == window,
                    self.seed == seed,
                    self.shutting_down == false,
                    min_y <= y <= max_y,
                    min_x <= x <= max_x + 1,
                    self.next_task_id as int == next0 + out@.len(),
                    next0 + out@.len() + (max_y - y) * (max_x - min_x + 1) + (max_x - x + 1)
                        < 0x8000001004000400,
                    self.entries@.len() == es0.len() + out@.len(),
                    self.entries@.take(es0.len() as int) == es0,
                    forall|m: int|
                        0 <= m < out@.len() ==> {
                            let e = #[trigger] self.entries@[es0.len() + m];
                            &&& e.slot == ChunkSlot::Getting((next0 + m) as u64)
                            &&& window.spec_contains(e.pos[0], e.pos[1])
                            &&& spec_find_pos(es0, e.pos[0], e.pos[1]) is None
                            &&& out@[m] == ChunkTask::Load {
                                task_id: (next0 + m) as u64,
                                pos: e.pos,
                                seed,
                            }
                        },
                    forall|cx: i64, cy: i64|
                        window.spec_contains(cx, cy) && (cy < y || (cy == y && cx < x))
                            ==> spec_find_pos(#[trigger] self.entries@, cx, cy) is Some,
                decreases max_x + 1 - x,
            {
                let ghost pre = self.entries@;
                let ghost outpre = out@;
                let found = self.find_pos(x, y);
                if found.is_none() {
                    proof {
                        lemma_find_pos_none(self.entries@, x, y);
                    }
                    let fresh = self.next_task_id;
                    self.next_task_id = self.next_task_id + 1;
                    let e = ChunkPoolEntry { pos: [x, y], slot: ChunkSlot::Getting(fresh) };
                    self.entries.push(e);
                    out.push(ChunkTask::Load { task_id: fresh, pos: [x, y], seed });
                    proof {
                        let eg = ChunkPoolEntry { pos: [x, y], slot: ChunkSlot::Getting(fresh) };
                        assert(self.entries@ == pre.push(eg));
                        self.lemma_wf_after_push(pre, eg, fresh);
                        assert(self.entries@.take(es0.len() as int) =~= pre.take(es0.len() as int));
                        assert forall|m: int| 0 <= m < out@.len() implies {
                            let e2 = #[trigger] self.entries@[es0.len() + m];
                            &&& e2.slot == ChunkSlot::Getting((next0 + m) as u64)
                            &&& window.spec_contains(e2.pos[0], e2.pos[1])
                            &&& spec_find_pos(es0, e2.pos[0], e2.pos[1]) is None
                            &&& out@[m] == ChunkTask::Load {
                                task_id: (next0 + m) as u64,
                                pos: e2.pos,
                                seed,
                            }
                        } by {
                            if m < out@.len() - 1 {
                                assert(self.entries@[es0.len() + m] == pre[es0.len() + m]);
                                assert(out@[m] == outpre[m]);
                            } else {
                                assert(self.entries@[es0.len() + m] == eg);
                                assert(spec_find_pos(es0, x, y) is None) by {
                                    lemma_find_pos_skip_prefix(pre, es0, x, y);
                                }
                            }
                        }
                        assert forall|cx: i64, cy: i64|
                            window.spec_contains(cx, cy) && (cy < y || (cy == y && cx < x + 1))
                                implies spec_find_pos(#[trigger] self.entries@, cx, cy) is Some by {
                            lemma_find_pos_push(pre, eg, cx, cy);
                        }
                    }
                } else {
                    proof {
                        assert forall|cx: i64, cy: i64|
                            window.spec_contains(cx, cy) && (cy < y || (cy == y && cx < x + 1))
                                implies spec_find_pos(#[trigger] self.entries@, cx, cy) is Some by {
                        }
                    }
                }
                x = x + 1;
            }
            proof {
                assert((max_y - (y + 1) + 1) * (max_x - min_x + 1) == (max_y - y) * (max_x - min_x
                    + 1)) by (nonlinear_arith);
            }
            y = y + 1;
        }
        out
    }



    /// The pool's abstract state is unchanged.
    pub open spec fn spec_same_state(self, other: ChunkPool) -> bool {
        &&& self.entries@ == other.entries@
        &&& self.next_task_id == other.next_task_id
        &&& self.desired == other.desired
        &&& self.seed == other.seed
        &&& self.shutting_down == other.shutting_down
    }

    /// The tile stack at a world position, when the chunk holding that
    /// position is loaded; nothing while the chunk is still streaming in or
    /// out, which callers at chunk borders must tolerate. Writes through
    /// the returned stack land in the pool's chunk.
    pub fn get_tile_stack_at_mut(&mut self, pos: [i64; 2]) -> (r: Option<&mut TileStack>)
        requires
            old(self).wf(),
        ensures
            final(self).wf(),
            final(self).desired == old(self).desired,
            final(self).seed == old(self).seed,
            final(self).shutting_down == old(self).shutting_down,
            final(self).next_task_id == old(self).next_task_id,
            match spec_find_pos(old(self).entries@, spec_chunk_coord(pos[0]), spec_chunk_coord(pos[1])) {
                Some(i) => match old(self).entries@[i].slot {
                    ChunkSlot::Chunk(c) => {
                        &&& r matches Some(e) && *e == c.tile_stacks@[spec_cell_index(pos)]
                        &&& final(self).entries@.len() == old(self).entries@.len()
                        &&& (forall|j: int|
                            0 <= j < old(self).entries@.len() && j != i
                                ==> #[trigger] final(self).entries@[j] == old(self).entries@[j])
                        &&& final(self).entries@[i].pos == old(self).entries@[i].pos
                        &&& (final(self).entries@[i].slot matches ChunkSlot::Chunk(c2)
                            && c2.tile_stacks@ == c.tile_stacks@.update(
                            spec_cell_index(pos),
                            *final(r.unwrap()),
                        ))
                    },
                    _ => r is None && final(self).spec_same_state(*old(self)),
                },
                None => r is None && final(self).spec_same_state(*old(self)),
            },
    {
        let cx = crate::util::floor_div_64(pos[0]);
        let cy = crate::util::floor_div_64(pos[1]);
        proof {
            lemma_find_pos_bounds(self.entries@, cx, cy);
        }
        let idx = match self.find_pos(cx, cy) {
            Some(i) => i,
            None => {
                return None;
            },
        };
        let rem_x = crate::util::rem_euclid_64(pos[0]);
        let rem_y = crate::util::rem_euclid_64(pos[1]);
        let cell = (rem_y * 64 + rem_x) as usize;
        let is_loaded = matches!(&self.entries[idx].slot, ChunkSlot::Chunk(_));
        if !is_loaded {
            return None;
        }
        match self.entries[idx].slot.get_loaded_mut() {
            Some(chunk) => {
                let stack = &mut chunk.tile_stacks[cell];
                Some(stack)
            },
            None => vstd::pervasive::unreached(),
        }
    }

    /// The index of the coordinate's entry, if it is live.
    #[verifier::loop_isolation(false)]
    fn find_pos(&self, x: i64, y: i64) -> (r: Option<usize>)
        ensures
            match spec_find_pos(self.entries@, x, y) {
                Some(i) => r is Some && i == r.unwrap() as int,
                None => r is None,
            },
    {
        let mut k: usize = 0;
        proof {
            assert(self.entries@.skip(0) =~= self.entries@);
        }
        while k < self.entries.len()
            invariant
                0 <= k <= self.entries@.len(),
                spec_find_pos(self.entries@, x, y) == match spec_find_pos(
                    self.entries@.skip(k as int),
                    x,
                    y,
                ) {
                    Some(i) => Some(i + k),
                    None => None::<int>,
                },
            decreases self.entries@.len() - k,
        {
            proof {
                assert(self.entries@.skip(k as int)[0] == self.entries@[k as int]);
                assert(self.entries@.skip(k as int).skip(1) =~= self.entries@.skip(k as int + 1));
            }
            let e = &self.entries[k];
            if e.pos[0] == x && e.pos[1] == y {
                return Some(k);
            }
            k = k + 1;
        }
        None
    }

    /// The index of the entry waiting on the task, if any.
    #[verifier::loop_isolation(false)]
    fn find_task(&self, task_id: u64) -> (r: Option<usize>)
        ensures
            match spec_find_task(self.entries@, task_id) {
                Some(i) => r is Some && i == r.unwrap() as int,
                None => r is None,
            },
    {
        let mut k: usize = 0;
        proof {
            assert(self.entries@.skip(0) =~= self.entries@);
        }
        while k < self.entries.len()
            invariant
                0 <= k <= self.entries@.len(),
                spec_find_task(self.entries@, task_id) == match spec_find_task(
                    self.entries@.skip(k as int),
                    task_id,
                ) {
                    Some(i) => Some(i + k),
                    None => None::<int>,
                },
            decreases self.entries@.len() - k,
        {
            proof {
                assert(self.entries@.skip(k as int)[0] == self.entries@[k as int]);
                assert(self.entries@.skip(k as int).skip(1) =~= self.entries@.skip(k as int + 1));
            }
            let hit = match &self.entries[k].slot {
                ChunkSlot::Chunk(_) => false,
                ChunkSlot::Getting(id) => *id == task_id,
                ChunkSlot::Freeing(id) => *id == task_id,
            };
            if hit {
                return Some(k);
            }
            k = k + 1;
        }
        None
    }
}

/// Finding a coordinate after appending an entry: an existing hit stays,
/// and otherwise only the new entry can match.
pub proof fn lemma_find_pos_push(es: Seq<ChunkPoolEntry>, e: ChunkPoolEntry, x: i64, y: i64)
    ensures
        spec_find_pos(es.push(e), x, y) == (match spec_find_pos(es, x, y) {
            Some(i) => Some(i),
            None => if e.pos[0] == x && e.pos[1] == y {
                Some(es.len() as int)
            } else {
                None::<int>
            },
        }),
    decreases es.len(),
{
    if es.len() == 0 {
        assert(es.push(e)[0] == e);
        assert(es.push(e).skip(1) =~= Seq::<ChunkPoolEntry>::empty());
        assert(spec_find_pos(Seq::<ChunkPoolEntry>::empty(), x, y) is None);
        if e.pos[0] == x && e.pos[1] == y {
            assert(spec_find_pos(es.push(e), x, y) == Some(0int));
        } else {
            assert(spec_find_pos(es.push(e), x, y) is None);
        }
    } else {
        assert(es.push(e)[0] == es[0]);
        assert(es.push(e).skip(1) =~= es.skip(1).push(e));
        lemma_find_pos_push(es.skip(1), e, x, y);
        assert(es.skip(1).len() == es.len() - 1);
    }
}

/// A coordinate nowhere found has no entry.
pub proof fn lemma_find_pos_none(es: Seq<ChunkPoolEntry>, x: i64, y: i64)
    ensures
        spec_find_pos(es, x, y) is None ==> forall|i: int|
            0 <= i < es.len() ==> !((#[trigger] es[i]).pos[0] == x && es[i].pos[1] == y),
    decreases es.len(),
{
    if es.len() > 0 {
        lemma_find_pos_none(es.skip(1), x, y);
        if spec_find_pos(es, x, y) is None {
            assert forall|i: int| 0 <= i < es.len() implies !((#[trigger] es[i]).pos[0] == x
                && es[i].pos[1] == y) by {
                if i > 0 {
                    assert(es.skip(1)[i - 1] == es[i]);
                }
            }
        }
    }
}

/// An entry found by position is inside the sequence.
pub proof fn lemma_find_pos_bounds(es: Seq<ChunkPoolEntry>, x: i64, y: i64)
    ensures
        spec_find_pos(es, x, y) matches Some(i) ==> 0 <= i < es.len() && es[i].pos[0] == x
            && es[i].pos[1] == y,
    decreases es.len(),
{
    if es.len() > 0 && !(es[0].pos[0] == x && es[0].pos[1] == y) {
        lemma_find_pos_bounds(es.skip(1), x, y);
        match spec_find_pos(es.skip(1), x, y) {
            Some(i) => {
                assert(es.skip(1)[i] == es[i + 1]);
            },
            None => {},
        }
    }
}

/// An entry found by task id is inside the sequence and waits on that id.
pub proof fn lemma_find_task_bounds(es: Seq<ChunkPoolEntry>, task_id: u64)
    ensures
        spec_find_task(es, task_id) matches Some(i) ==> 0 <= i < es.len() && spec_slot_task(
            es[i].slot,
        ) == Some(task_id),
    decreases es.len(),
{
    if es.len() > 0 && spec_slot_task(es[0].slot) != Some(task_id) {
        lemma_find_task_bounds(es.skip(1), task_id);
        match spec_find_task(es.skip(1), task_id) {
            Some(i) => {
                assert(es.skip(1)[i] == es[i + 1]);
            },
            None => {},
        }
    }
}



/// The desired window of chunk coordinates for an interest region of world
/// tiles: the chunks covering the region, one chunk of margin on every
/// side, and one more chunk in the walking direction.
pub open spec fn spec_desired_window(interest: ChunkRect, walking: Option<Direction4>) -> ChunkRect {
    let base = ChunkRect {
        min_x: (interest.min_x as int / 64 - 1) as i64,
        max_x: (interest.max_x as int / 64 + 1) as i64,
        min_y: (interest.min_y as int / 64 - 1) as i64,
        max_y: (interest.max_y as int / 64 + 1) as i64,
    };
    match walking {
        Some(Direction4::North) => ChunkRect { min_y: (base.min_y - 1) as i64, ..base },
        Some(Direction4::East) => ChunkRect { max_x: (base.max_x + 1) as i64, ..base },
        Some(Direction4::South) => ChunkRect { max_y: (base.max_y + 1) as i64, ..base },
        Some(Direction4::West) => ChunkRect { min_x: (base.min_x - 1) as i64, ..base },
        None => base,
    }
}

/// A prefix-extension of the entries keeps an absent coordinate absent on
/// the prefix.
pub proof fn lemma_find_pos_skip_prefix(
    es: Seq<ChunkPoolEntry>,
    es0: Seq<ChunkPoolEntry>,
    x: i64,
    y: i64,
)
    requires
        es0.len() <= es.len(),
        es.take(es0.len() as int) == es0,
        spec_find_pos(es, x, y) is None,
    ensures
        spec_find_pos(es0, x, y) is None,
    decreases es0.len(),
{
    if es0.len() > 0 {
        assert(es0[0] == es[0]);
        assert(es.skip(1).take(es0.len() - 1) =~= es0.skip(1));
        lemma_find_pos_skip_prefix(es.skip(1), es0.skip(1), x, y);
    }
}


/// The chunk coordinate containing a world coordinate.
pub open spec fn spec_chunk_coord(x: i64) -> i64 {
    (x as int / 64) as i64
}

/// The row-major cell index of a world position inside its chunk.
pub open spec fn spec_cell_index(pos: [i64; 2]) -> int {
    (pos[1] as int % 64) * 64 + (pos[0] as int % 64)
}

/// Exclusivity: in a well-formed pool no two entries share a coordinate,
/// so a coordinate has at most one lifecycle slot — and a slot is exactly
/// one of loaded, loading or saving, never two at once. No two waiting
/// slots share a task id either, so a stale completion for a retired task
/// can never strike a coordinate that has since been loaded again.
pub proof fn lemma_slot_exclusive(pool: ChunkPool, i: int, j: int)
    requires
        pool.wf(),
        0 <= i < pool.entries@.len(),
        0 <= j < pool.entries@.len(),
        i != j,
    ensures
        !(pool.entries@[i].pos[0] == pool.entries@[j].pos[0] && pool.entries@[i].pos[1]
            == pool.entries@[j].pos[1]),
        spec_slot_task(pool.entries@[i].slot) is Some ==> spec_slot_task(pool.entries@[i].slot)
            != spec_slot_task(pool.entries@[j].slot),
{
    if i < j {
        assert(!(pool.entries@[i].pos[0] == pool.entries@[j].pos[0] && pool.entries@[i].pos[1]
            == pool.entries@[j].pos[1]));
    } else {
        assert(!(pool.entries@[j].pos[0] == pool.entries@[i].pos[0] && pool.entries@[j].pos[1]
            == pool.entries@[i].pos[1]));
    }
}

/// Shutdown liveness, the ground fact: the pool's remaining work is zero
/// exactly when no coordinate is live. Every slot owes at least one step,
/// every successful completion strictly shrinks the measure once shutdown
/// stops new loads, and each reconcile moves every loaded chunk toward its
/// save; so repeated reconciling with completing tasks drives any finite
/// pool to fully shut down.
pub proof fn lemma_measure_zero_iff_empty(es: Seq<ChunkPoolEntry>)
    ensures
        (spec_entries_measure(es) == 0) <==> (es.len() == 0),
    decreases es.len(),
{
    if es.len() > 0 {
        lemma_measure_zero_iff_empty(es.skip(1));
    }
}

} // verus!
