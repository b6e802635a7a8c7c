use vstd::prelude::*;

use crate::item::Item;

verus! {

/// What breaking something yields: an item with a fixed count of one, a
/// constant count, or a count drawn from an inclusive range.
pub enum ItemDrop {
    Single(Item),
    ConstantAmount { item: Item, amount: u16 },
    RangedRandomAmount { item: Item, amount_min: u16, amount_max: u16 },
}

/// Relies on rand::random_range over an inclusive range: the result lies
/// inside the range; which value comes back is chance, so nothing more is
/// promised of it. An empty range would make the call panic, hence the
/// requirement.
#[verifier::external_body]
fn random_range_u16(lo: u16, hi: u16) -> (r: u16)
    requires
        lo <= hi,
    ensures
        lo <= r <= hi,
{
    rand::random_range(lo..=hi)
}

impl ItemDrop {
    /// The dropped item with its rolled count: one for a single drop, the
    /// constant for a constant drop, and some count inside the range for a
    /// ranged drop.
    pub fn roll(&self) -> (r: (Item, u16))
        requires
            *self matches ItemDrop::RangedRandomAmount { amount_min, amount_max, .. }
                ==> amount_min <= amount_max,
        ensures
            match *self {
                ItemDrop::Single(item) => r.0 == item && r.1 == 1,
                ItemDrop::ConstantAmount { item, amount } => r.0 == item && r.1 == amount,
                ItemDrop::RangedRandomAmount { item, amount_min, amount_max } => r.0 == item
                    && amount_min <= r.1 <= amount_max,
            },
    {
        match self {
            Self::Single(item) => (item.clone(), 1),
            Self::ConstantAmount { item, amount } => (item.clone(), *amount),
            Self::RangedRandomAmount { item, amount_min, amount_max } => (
                item.clone(),
                random_range_u16(*amount_min, *amount_max),
            ),
        }
    }
}

} // verus!
