use vstd::prelude::*;

use crate::item::{item_eq, Item};

verus! {

/// A grouping that may describe an item: one exact item, or any stick.
pub enum ItemCategory {
    Single(Item),
    Stick,
}

/// The category holds the item.
pub open spec fn spec_has_item(cat: ItemCategory, item: Item) -> bool {
    match cat {
        ItemCategory::Single(single_item) => item == single_item,
        ItemCategory::Stick => item == Item::OakStick || item == Item::PineStick,
    }
}

impl ItemCategory {
    /// Whether the item falls into this category.
    pub fn has_item(&self, item: &Item) -> (r: bool)
        ensures
            r == spec_has_item(*self, *item),
    {
        match self {
            Self::Single(single_item) => item_eq(item, single_item),
            Self::Stick => item_eq(item, &Item::OakStick) || item_eq(item, &Item::PineStick),
        }
    }
}

} // verus!
