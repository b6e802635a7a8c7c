use vstd::prelude::*;

verus! {

/// If and when an entity can move to a tile: always, or never.
#[derive(PartialEq, Eq, Structural, Clone, Copy, Debug)]
pub enum TileMovementType {
    Clear,
    Wall,
}

} // verus!
