use vstd::prelude::*;

use crate::chunk::{spec_chunk_wf, Chunk};

verus! {

/// The lifecycle stage of one live coordinate: the chunk itself once
/// loaded, or the id of the one background task that is getting it from
/// disk or freeing it to disk. A coordinate never has two outstanding
/// tasks: the slot holds exactly one of the three.
pub enum ChunkSlot {
    Chunk(Chunk),
    Getting(u64),
    Freeing(u64),
}

/// The id of the background task a slot waits on, if any.
pub open spec fn spec_slot_task(s: ChunkSlot) -> Option<u64> {
    match s {
        ChunkSlot::Chunk(_) => None,
        ChunkSlot::Getting(id) => Some(id),
        ChunkSlot::Freeing(id) => Some(id),
    }
}

/// How much lifecycle work the slot still owes before a shutdown can
/// retire its coordinate: a loading slot must still load, be swept and
/// save; a loaded one must be swept and save; a saving one must only
/// finish.
pub open spec fn spec_slot_measure(s: ChunkSlot) -> nat {
    match s {
        ChunkSlot::Getting(_) => 3,
        ChunkSlot::Chunk(_) => 2,
        ChunkSlot::Freeing(_) => 1,
    }
}

/// A loaded slot holds a well-formed chunk.
pub open spec fn spec_slot_wf(s: ChunkSlot) -> bool {
    match s {
        ChunkSlot::Chunk(c) => spec_chunk_wf(c),
        _ => true,
    }
}

impl ChunkSlot {
    /// The chunk, only when the slot is loaded.
    pub fn get_loaded_mut(&mut self) -> (r: Option<&mut Chunk>)
        ensures
            match *old(self) {
                ChunkSlot::Chunk(c) => r matches Some(e) && *e == c && *final(self)
                    == ChunkSlot::Chunk(*final(e)),
                _ => r is None && *final(self) == *old(self),
            },
    {
        match self {
            Self::Chunk(chunk) => Some(chunk),
            _ => None,
        }
    }
}

} // verus!
