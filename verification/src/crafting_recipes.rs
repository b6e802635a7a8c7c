use vstd::prelude::*;

use crate::item::Item;
use crate::item_category::ItemCategory;

verus! {

/// A book of crafting recipes; only the quick-craft book exists so far.
#[derive(Clone, Copy, Debug)]
pub enum CraftingRecipes {
    Quick,
}

impl CraftingRecipes {
    /// The book's recipes: what each one consumes, by category and count,
    /// and what it produces.
    pub fn get_recipes(self) -> (r: Vec<(Vec<(ItemCategory, u16)>, Vec<(Item, u16)>)>)
        ensures
            r@.len() == 2,
            r@[0].0@ == seq![
                (ItemCategory::Single(Item::SharpendFlint), 1u16),
                (ItemCategory::Stick, 1u16),
            ],
            r@[0].1@ == seq![(Item::FlintAxe, 1u16)],
            r@[1].0@ == seq![
                (ItemCategory::Single(Item::SharpendFlint), 5u16),
                (ItemCategory::Stick, 1u16),
            ],
            r@[1].1@ == seq![(Item::FlintShovel, 1u16)],
    {
        match self {
            Self::Quick => {
                let mut axe_in: Vec<(ItemCategory, u16)> = Vec::new();
                axe_in.push((ItemCategory::Single(Item::SharpendFlint), 1));
                axe_in.push((ItemCategory::Stick, 1));
                let mut axe_out: Vec<(Item, u16)> = Vec::new();
                axe_out.push((Item::FlintAxe, 1));
                let mut shovel_in: Vec<(ItemCategory, u16)> = Vec::new();
                shovel_in.push((ItemCategory::Single(Item::SharpendFlint), 5));
                shovel_in.push((ItemCategory::Stick, 1));
                let mut shovel_out: Vec<(Item, u16)> = Vec::new();
                shovel_out.push((Item::FlintShovel, 1));
                let mut out: Vec<(Vec<(ItemCategory, u16)>, Vec<(Item, u16)>)> = Vec::new();
                out.push((axe_in, axe_out));
                out.push((shovel_in, shovel_out));
                proof {
                    assert(out@[0].0@ =~= seq![
                        (ItemCategory::Single(Item::SharpendFlint), 1u16),
                        (ItemCategory::Stick, 1u16),
                    ]);
                    assert(out@[0].1@ =~= seq![(Item::FlintAxe, 1u16)]);
                    assert(out@[1].0@ =~= seq![
                        (ItemCategory::Single(Item::SharpendFlint), 5u16),
                        (ItemCategory::Stick, 1u16),
                    ]);
                    assert(out@[1].1@ =~= seq![(Item::FlintShovel, 1u16)]);
                }
                out
            },
        }
    }
}

} // verus!
