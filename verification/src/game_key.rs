use vstd::prelude::*;

verus! {

/// An abstract input action: several real keys or buttons may translate to
/// one of these; which ones do is the input layer's business, outside this
/// library.
#[derive(PartialEq, Eq, Structural, Clone, Copy, Debug)]
pub enum GameKey {
    WalkNorth,
    WalkEast,
    WalkSouth,
    WalkWest,
    GUIInteract,
    MenuOpenClose,
    CloseGame,
    DeleteTile,
    OpenTestMenu,
    InventoryUp,
    InventoryDown,
    InventoryLeft,
    InventoryRight,
    Interact,
    ChangeDirectionInplace,
    MoveWithoutChangingDirection,
    Turbo,
    OpenSpawnItemsMenu,
    DeleteItem,
    OpenCraftingMenu,
}

/// A stable index for each action, usable as an array slot.
pub open spec fn spec_game_key_id(k: GameKey) -> int {
    match k {
        GameKey::WalkNorth => 0,
        GameKey::WalkEast => 1,
        GameKey::WalkSouth => 2,
        GameKey::WalkWest => 3,
        GameKey::GUIInteract => 4,
        GameKey::MenuOpenClose => 5,
        GameKey::CloseGame => 6,
        GameKey::DeleteTile => 7,
        GameKey::OpenTestMenu => 8,
        GameKey::InventoryUp => 9,
        GameKey::InventoryDown => 10,
        GameKey::InventoryLeft => 11,
        GameKey::InventoryRight => 12,
        GameKey::Interact => 13,
        GameKey::ChangeDirectionInplace => 14,
        GameKey::MoveWithoutChangingDirection => 15,
        GameKey::Turbo => 16,
        GameKey::OpenSpawnItemsMenu => 17,
        GameKey::DeleteItem => 18,
        GameKey::OpenCraftingMenu => 19,
    }
}

/// How many actions there are.
pub const GAME_KEY_COUNT: usize = 20;

impl GameKey {
    /// The action's stable index, always below the action count.
    pub fn get_id(self) -> (r: usize)
        ensures
            r == spec_game_key_id(self),
            r < GAME_KEY_COUNT,
    {
        match self {
            Self::WalkNorth => 0,
            Self::WalkEast => 1,
            Self::WalkSouth => 2,
            Self::WalkWest => 3,
            Self::GUIInteract => 4,
            Self::MenuOpenClose => 5,
            Self::CloseGame => 6,
            Self::DeleteTile => 7,
            Self::OpenTestMenu => 8,
            Self::InventoryUp => 9,
            Self::InventoryDown => 10,
            Self::InventoryLeft => 11,
            Self::InventoryRight => 12,
            Self::Interact => 13,
            Self::ChangeDirectionInplace => 14,
            Self::MoveWithoutChangingDirection => 15,
            Self::Turbo => 16,
            Self::OpenSpawnItemsMenu => 17,
            Self::DeleteItem => 18,
            Self::OpenCraftingMenu => 19,
        }
    }
}

} // verus!
