use vstd::prelude::*;

use crate::error::Error;
use crate::file_reader::FileReader;
use crate::file_writer::FileWriter;
use crate::item::{item_clone, item_eq, spec_item_bytes, spec_parse_item, Item};
use crate::item_category::{spec_has_item, ItemCategory};
use crate::namespace::Namespace;
use crate::parse::Parse;

verus! {

/// A row of item slots, each holding an item and how many of it are
/// stacked there; the empty item marks a free slot.
pub struct Inventory<const SLOT_COUNT: usize> {
    pub items: Vec<(Item, u8)>,
}

/// The total count of one exact item across the slots.
pub open spec fn spec_count_of(items: Seq<(Item, u8)>, item: Item) -> int
    decreases items.len(),
{
    if items.len() == 0 {
        0
    } else {
        (if items[0].0 == item {
            items[0].1 as int
        } else {
            0
        }) + spec_count_of(items.skip(1), item)
    }
}

/// The total count of a category's items across the slots, before any
/// saturation.
pub open spec fn spec_count_items(items: Seq<(Item, u8)>, cat: ItemCategory) -> int
    decreases items.len(),
{
    if items.len() == 0 {
        0
    } else {
        (if spec_has_item(cat, items[0].0) {
            items[0].1 as int
        } else {
            0
        }) + spec_count_items(items.skip(1), cat)
    }
}

/// No more of the item fits: every slot holds something, and every stack
/// of the item stands at the cap of ninety-nine.
pub open spec fn spec_full_for(items: Seq<(Item, u8)>, it: Item) -> bool {
    forall|k: int|
        0 <= k < items.len() ==> !((#[trigger] items[k]).0 matches Item::Empty) && (items[k].0
            == it ==> items[k].1 >= 99)
}

/// Changing one slot changes an item's count by the slot's contribution.
pub proof fn lemma_count_of_update(items: Seq<(Item, u8)>, k: int, slot: (Item, u8), item: Item)
    requires
        0 <= k < items.len(),
    ensures
        spec_count_of(items.update(k, slot), item) + (if items[k].0 == item {
            items[k].1 as int
        } else {
            0
        }) == spec_count_of(items, item) + (if slot.0 == item {
            slot.1 as int
        } else {
            0
        }),
    decreases k,
{
    if k == 0 {
        assert(items.update(0, slot).skip(1) =~= items.skip(1));
        assert(items.update(0, slot)[0] == slot);
    } else {
        assert(items.update(k, slot)[0] == items[0]);
        assert(items.update(k, slot).skip(1) =~= items.skip(1).update(k - 1, slot));
        lemma_count_of_update(items.skip(1), k - 1, slot, item);
    }
}

/// A category's count unfolds one slot at a time.
pub proof fn lemma_count_items_skip(items: Seq<(Item, u8)>, k: int, cat: ItemCategory)
    requires
        0 <= k < items.len(),
    ensures
        spec_count_items(items.skip(k), cat) == (if spec_has_item(cat, items[k].0) {
            items[k].1 as int
        } else {
            0
        }) + spec_count_items(items.skip(k + 1), cat),
    decreases k,
{
    if k == 0 {
        assert(items.skip(0) =~= items);
        assert(items.skip(0).skip(1) =~= items.skip(1));
    } else {
        assert(items.skip(1).skip(k - 1) =~= items.skip(k));
        assert(items.skip(1).skip(k) =~= items.skip(k + 1));
        assert(items.skip(1)[k - 1] == items[k]);
        lemma_count_items_skip(items.skip(1), k - 1, cat);
    }
}

/// A pointwise bound on the slots' contributions bounds the count.
pub proof fn lemma_count_of_mono(a: Seq<(Item, u8)>, b: Seq<(Item, u8)>, it: Item)
    requires
        a.len() == b.len(),
        forall|k: int|
            0 <= k < a.len() ==> (if (#[trigger] b[k]).0 == it {
                b[k].1 as int
            } else {
                0
            }) <= (if a[k].0 == it {
                a[k].1 as int
            } else {
                0
            }),
    ensures
        spec_count_of(b, it) <= spec_count_of(a, it),
    decreases a.len(),
{
    if a.len() > 0 {
        assert forall|k: int|
            0 <= k < a.skip(1).len() implies (if (#[trigger] b.skip(1)[k]).0 == it {
            b.skip(1)[k].1 as int
        } else {
            0
        }) <= (if a.skip(1)[k].0 == it {
            a.skip(1)[k].1 as int
        } else {
            0
        }) by {
            assert(a.skip(1)[k] == a[k + 1]);
            assert(b.skip(1)[k] == b[k + 1]);
        }
        lemma_count_of_mono(a.skip(1), b.skip(1), it);
    }
}

/// Counts are never negative.
pub proof fn lemma_count_items_nonneg(items: Seq<(Item, u8)>, cat: ItemCategory)
    ensures
        spec_count_items(items, cat) >= 0,
    decreases items.len(),
{
    if items.len() > 0 {
        lemma_count_items_nonneg(items.skip(1), cat);
    }
}


/// One removal pass over the slots: stacks matching the category are
/// drained in slot order until the requested amount is gone, taking at
/// most two hundred fifty-five per slot and freeing a slot that reaches
/// zero.
pub open spec fn spec_remove_from_slots(
    items: Seq<(Item, u8)>,
    cat: ItemCategory,
    left: int,
) -> Seq<(Item, u8)>
    decreases items.len(),
{
    if items.len() == 0 {
        items
    } else {
        let (it, amt) = items[0];
        if left <= 0 || !spec_has_item(cat, it) {
            seq![items[0]] + spec_remove_from_slots(items.skip(1), cat, left)
        } else {
            let cap = if left < 255 {
                left
            } else {
                255
            };
            let take = if (amt as int) < cap {
                amt as int
            } else {
                cap
            };
            let slot = (
                if amt as int - take == 0 {
                    Item::Empty
                } else {
                    it
                },
                (amt as int - take) as u8,
            );
            seq![slot] + spec_remove_from_slots(items.skip(1), cat, left - take)
        }
    }
}

/// The removal passes for a whole request list, in order.
pub open spec fn spec_remove_list(
    items: Seq<(Item, u8)>,
    list: Seq<(ItemCategory, u16)>,
) -> Seq<(Item, u8)>
    decreases list.len(),
{
    if list.len() == 0 {
        items
    } else {
        spec_remove_list(spec_remove_from_slots(items, list[0].0, list[0].1 as int), list.skip(1))
    }
}

/// Every request in the list is covered by the inventory as it stands.
pub open spec fn spec_all_available(items: Seq<(Item, u8)>, list: Seq<(ItemCategory, u16)>) -> bool {
    forall|j: int|
        0 <= j < list.len() ==> spec_count_items(items, (#[trigger] list[j]).0) >= list[j].1
}

/// Removal keeps the slot count.
pub proof fn lemma_remove_from_slots_len(items: Seq<(Item, u8)>, cat: ItemCategory, left: int)
    ensures
        spec_remove_from_slots(items, cat, left).len() == items.len(),
    decreases items.len(),
{
    if items.len() > 0 {
        let (it, amt) = items[0];
        if left <= 0 || !spec_has_item(cat, it) {
            lemma_remove_from_slots_len(items.skip(1), cat, left);
        } else {
            let cap = if left < 255 {
                left
            } else {
                255
            };
            let take = if (amt as int) < cap {
                amt as int
            } else {
                cap
            };
            lemma_remove_from_slots_len(items.skip(1), cat, left - take);
        }
    }
}

/// A removal of nothing changes nothing.
pub proof fn lemma_remove_from_slots_zero(items: Seq<(Item, u8)>, cat: ItemCategory)
    ensures
        spec_remove_from_slots(items, cat, 0) == items,
    decreases items.len(),
{
    if items.len() > 0 {
        lemma_remove_from_slots_zero(items.skip(1), cat);
        assert(spec_remove_from_slots(items, cat, 0) =~= items);
    }
}

/// The byte image of the inventory: each slot's item then its count.
pub open spec fn spec_inventory_bytes(items: Seq<(Item, u8)>) -> Seq<u8>
    decreases items.len(),
{
    if items.len() == 0 {
        Seq::<u8>::empty()
    } else {
        spec_item_bytes(items[0].0) + seq![items[0].1] + spec_inventory_bytes(items.skip(1))
    }
}

pub proof fn lemma_inventory_bytes_push(items: Seq<(Item, u8)>, slot: (Item, u8))
    ensures
        spec_inventory_bytes(items.push(slot)) == spec_inventory_bytes(items) + spec_item_bytes(
            slot.0,
        ) + seq![slot.1],
    decreases items.len(),
{
    if items.len() == 0 {
        assert(items.push(slot)[0] == slot);
        assert(items.push(slot).skip(1) =~= Seq::<(Item, u8)>::empty());
        assert(spec_inventory_bytes(Seq::<(Item, u8)>::empty()) == Seq::<u8>::empty());
        assert(spec_inventory_bytes(items.push(slot)) =~= spec_inventory_bytes(items)
            + spec_item_bytes(slot.0) + seq![slot.1]);
    } else {
        assert(items.push(slot)[0] == items[0]);
        assert(items.push(slot).skip(1) =~= items.skip(1).push(slot));
        lemma_inventory_bytes_push(items.skip(1), slot);
        assert(spec_inventory_bytes(items.push(slot)) =~= spec_inventory_bytes(items)
            + spec_item_bytes(slot.0) + seq![slot.1]);
    }
}

/// Reading `n` inventory slots at `i`: each an item record then a count.
pub open spec fn spec_parse_inventory(data: Seq<u8>, i: int, n: nat, ns: Namespace) -> Parse<
    Seq<(Item, u8)>,
>
    decreases n,
{
    if n == 0 {
        Parse::Found(Seq::<(Item, u8)>::empty(), i)
    } else {
        match spec_parse_item(data, i, ns) {
            Parse::Found(it, j) => if j + 1 <= data.len() {
                match spec_parse_inventory(data, j + 1, (n - 1) as nat, ns) {
                    Parse::Found(rest, k) => Parse::Found(seq![(it, data[j])] + rest, k),
                    Parse::Failed(e) => Parse::Failed(e),
                }
            } else {
                Parse::Failed(Error::OutOfBoundsFileRead)
            },
            Parse::Failed(e) => Parse::Failed(e),
        }
    }
}

impl<const SLOT_COUNT: usize> Inventory<SLOT_COUNT> {
    /// Every slot is present.
    pub open spec fn wf(self) -> bool {
        self.items@.len() == SLOT_COUNT
    }

    /// A blank inventory: every slot free.
    pub fn new() -> (r: Self)
        ensures
            r.wf(),
            forall|k: int|
                0 <= k < SLOT_COUNT ==> ((#[trigger] r.items@[k]).0 matches Item::Empty)
                    && r.items@[k].1 == 0,
    {
        let mut items: Vec<(Item, u8)> = Vec::new();
        let mut k: usize = 0;
        while k < SLOT_COUNT
            invariant
                0 <= k <= SLOT_COUNT,
                items@.len() == k,
                forall|m: int|
                    0 <= m < k ==> ((#[trigger] items@[m]).0 matches Item::Empty) && items@[m].1
                        == 0,
            decreases SLOT_COUNT - k,
        {
            items.push((Item::Empty, 0));
            k = k + 1;
        }
        Inventory { items }
    }

    /// Add an amount of an item, filling existing stacks of it to the cap
    /// of ninety-nine first and then free slots; hand back what found no
    /// room, which can happen only once every slot is occupied and every
    /// stack of the item is at the cap. Nothing of any other item moves,
    /// its count included, and every touched slot stays within the cap.
    #[verifier::loop_isolation(false)]
    pub fn add_items(&mut self, to_add: (Item, u16)) -> (r: (Item, u16))
        requires
            old(self).wf(),
        ensures
            final(self).wf(),
            to_add.0 matches Item::Empty ==> r == (Item::Empty, 0u16)
                && final(self).items@ == old(self).items@,
            !(to_add.0 matches Item::Empty) ==> {
                &&& r.1 <= to_add.1
                &&& (r.1 == 0 ==> r.0 == Item::Empty)
                &&& (r.1 > 0 ==> r.0 == to_add.0)
                &&& (r.1 > 0 ==> spec_full_for(final(self).items@, to_add.0))
                &&& (to_add.1 == 0 ==> final(self).items@ == old(self).items@)
                &&& spec_count_of(final(self).items@, to_add.0) + r.1 == spec_count_of(
                    old(self).items@,
                    to_add.0,
                ) + to_add.1
                &&& (forall|it: Item|
                    !(it matches Item::Empty) && it != to_add.0 ==> spec_count_of(
                        final(self).items@,
                        it,
                    ) == spec_count_of(old(self).items@, it))
                &&& (forall|k: int|
                    0 <= k < SLOT_COUNT && (#[trigger] old(self).items@[k]).0 != to_add.0 && !(
                    old(self).items@[k].0 matches Item::Empty) ==> final(self).items@[k] == old(
                        self,
                    ).items@[k])
                &&& (forall|k: int|
                    0 <= k < SLOT_COUNT ==> (#[trigger] final(self).items@[k]) == old(
                        self,
                    ).items@[k] || (final(self).items@[k].0 == to_add.0 && final(self).items@[k].1
                        <= 99))
            },
    {
        let item_to_add = to_add.0;
        let mut amount_left_to_add = to_add.1;
        if item_to_add.is_none() {
            return (Item::Empty, 0);
        }
        let ghost items0 = old(self).items@;
        let mut k: usize = 0;
        while k < self.items.len()
            invariant
                self.wf(),
                0 <= k <= SLOT_COUNT,
                amount_left_to_add <= to_add.1,
                spec_count_of(self.items@, item_to_add) + amount_left_to_add == spec_count_of(
                    items0,
                    item_to_add,
                ) + to_add.1,
                forall|m: int|
                    0 <= m < SLOT_COUNT && (#[trigger] items0[m]).0 != item_to_add ==> self.items@[m]
                        == items0[m],
                forall|m: int|
                    0 <= m < SLOT_COUNT ==> (#[trigger] self.items@[m]) == items0[m] || (
                    self.items@[m].0 == item_to_add && self.items@[m].1 <= 99),
                forall|it: Item|
                    !(it matches Item::Empty) && it != item_to_add ==> spec_count_of(
                        self.items@,
                        it,
                    ) == spec_count_of(items0, it),
                amount_left_to_add > 0 ==> forall|m: int|
                    0 <= m < k && (#[trigger] self.items@[m]).0 == item_to_add
                        ==> self.items@[m].1 >= 99,
                to_add.1 == 0 ==> self.items@ == items0,
            decreases SLOT_COUNT - k,
        {
            let same = item_eq(&self.items[k].0, &item_to_add);
            if same && amount_left_to_add > 0 {
                let cur = self.items[k].1;
                let room: u16 = if cur as u16 >= 99 {
                    0
                } else {
                    99 - cur as u16
                };
                let amount_to_add_to_stack: u16 = if room < amount_left_to_add {
                    room
                } else {
                    amount_left_to_add
                };
                let ghost pre = self.items@;
                let new_amount = (cur as u16 + amount_to_add_to_stack) as u8;
                let it = item_clone(&item_to_add);
                self.items[k] = (it, new_amount);
                amount_left_to_add = amount_left_to_add - amount_to_add_to_stack;
                proof {
                    assert(self.items@ =~= pre.update(k as int, (item_to_add, new_amount)));
                    lemma_count_of_update(pre, k as int, (item_to_add, new_amount), item_to_add);
                    assert forall|it: Item|
                        !(it matches Item::Empty) && it != item_to_add implies spec_count_of(
                        self.items@,
                        it,
                    ) == spec_count_of(items0, it) by {
                        lemma_count_of_update(pre, k as int, (item_to_add, new_amount), it);
                    }
                }
            }
            k = k + 1;
        }
        if amount_left_to_add == 0 {
            return (Item::Empty, 0);
        }
        let mut k2: usize = 0;
        while k2 < self.items.len()
            invariant
                self.wf(),
                0 <= k2 <= SLOT_COUNT,
                amount_left_to_add <= to_add.1,
                spec_count_of(self.items@, item_to_add) + amount_left_to_add == spec_count_of(
                    items0,
                    item_to_add,
                ) + to_add.1,
                forall|m: int|
                    0 <= m < SLOT_COUNT && (#[trigger] items0[m]).0 != item_to_add && !(
                    items0[m].0 matches Item::Empty) ==> self.items@[m] == items0[m],
                forall|m: int|
                    0 <= m < SLOT_COUNT ==> (#[trigger] self.items@[m]) == items0[m] || (
                    self.items@[m].0 == item_to_add && self.items@[m].1 <= 99),
                forall|it: Item|
                    !(it matches Item::Empty) && it != item_to_add ==> spec_count_of(
                        self.items@,
                        it,
                    ) == spec_count_of(items0, it),
                amount_left_to_add > 0 ==> forall|m: int|
                    0 <= m < SLOT_COUNT && (#[trigger] self.items@[m]).0 == item_to_add
                        ==> self.items@[m].1 >= 99,
                amount_left_to_add > 0 ==> forall|m: int|
                    0 <= m < k2 ==> !((#[trigger] self.items@[m]).0 matches Item::Empty),
            decreases SLOT_COUNT - k2,
        {
            if amount_left_to_add == 0 {
                break ;
            }
            let free = self.items[k2].0.is_none();
            if free {
                let to_put: u16 = if amount_left_to_add < 99 {
                    amount_left_to_add
                } else {
                    99
                };
                let ghost pre = self.items@;
                let it = item_clone(&item_to_add);
                self.items[k2] = (it, to_put as u8);
                amount_left_to_add = amount_left_to_add - to_put;
                proof {
                    assert(self.items@ =~= pre.update(k2 as int, (item_to_add, to_put as u8)));
                    lemma_count_of_update(pre, k2 as int, (item_to_add, to_put as u8), item_to_add);
                    assert(!(item_to_add matches Item::Empty));
                    assert forall|it: Item|
                        !(it matches Item::Empty) && it != item_to_add implies spec_count_of(
                        self.items@,
                        it,
                    ) == spec_count_of(items0, it) by {
                        lemma_count_of_update(pre, k2 as int, (item_to_add, to_put as u8), it);
                    }
                }
            }
            k2 = k2 + 1;
        }
        if amount_left_to_add == 0 {
            return (Item::Empty, 0);
        }
        (item_to_add, amount_left_to_add)
    }

    /// Swap two slots; nothing happens when either index is out of range.
    pub fn swap_items(&mut self, a: usize, b: usize) -> (r: Option<()>)
        requires
            old(self).wf(),
        ensures
            final(self).wf(),
            a < SLOT_COUNT && b < SLOT_COUNT ==> {
                &&& r is Some
                &&& final(self).items@ == old(self).items@.update(
                    a as int,
                    old(self).items@[b as int],
                ).update(b as int, old(self).items@[a as int])
            },
            !(a < SLOT_COUNT && b < SLOT_COUNT) ==> r is None && final(self).items@ == old(
                self,
            ).items@,
    {
        if a >= self.items.len() || b >= self.items.len() {
            return None;
        }
        let ghost pre = self.items@;
        let item_stack_a = (item_clone(&self.items[a].0), self.items[a].1);
        let item_stack_b = (item_clone(&self.items[b].0), self.items[b].1);
        self.items[a] = item_stack_b;
        self.items[b] = item_stack_a;
        proof {
            assert(self.items@ =~= pre.update(a as int, pre[b as int]).update(
                b as int,
                pre[a as int],
            ));
        }
        Some(())
    }

    /// How many items of a category the inventory holds, saturating at the
    /// sixteen-bit limit.
    #[verifier::loop_isolation(false)]
    pub fn count_items(&self, item_category: &ItemCategory) -> (r: u16)
        requires
            self.wf(),
        ensures
            r == if spec_count_items(self.items@, *item_category) < 0xffff {
                spec_count_items(self.items@, *item_category)
            } else {
                0xffff as int
            },
    {
        let mut count: u16 = 0;
        let mut k: usize = 0;
        proof {
            assert(self.items@.skip(0) =~= self.items@);
            lemma_count_items_nonneg(self.items@, *item_category);
        }
        while k < self.items.len()
            invariant
                0 <= k <= SLOT_COUNT,
                count == 0xffff ==> spec_count_items(self.items@, *item_category) >= 0xffff,
                count < 0xffff ==> count as int + spec_count_items(
                    self.items@.skip(k as int),
                    *item_category,
                ) == spec_count_items(self.items@, *item_category),
            decreases SLOT_COUNT - k,
        {
            proof {
                lemma_count_items_skip(self.items@, k as int, *item_category);
                lemma_count_items_nonneg(self.items@.skip(k as int + 1), *item_category);
            }
            if item_category.has_item(&self.items[k].0) {
                let add = self.items[k].1 as u16;
                if count as u32 + add as u32 >= 0xffff {
                    count = 0xffff;
                } else {
                    count = count + add;
                }
            }
            k = k + 1;
        }
        proof {
            assert(self.items@.skip(SLOT_COUNT as int) =~= Seq::<(Item, u8)>::empty());
        }
        count
    }

    /// Remove the requested amounts by category; nothing moves unless, as
    /// the inventory stands, every request is covered, and then each pass
    /// drains matching stacks in slot order.
    #[verifier::loop_isolation(false)]
    #[verifier::rlimit(60)]
    pub fn try_remove_items(&mut self, to_remove: Vec<(ItemCategory, u16)>) -> (r: bool)
        requires
            old(self).wf(),
        ensures
            final(self).wf(),
            r == spec_all_available(old(self).items@, to_remove@),
            r ==> final(self).items@ == spec_remove_list(old(self).items@, to_remove@),
            !r ==> final(self).items@ == old(self).items@,
    {
        let mut j: usize = 0;
        while j < to_remove.len()
            invariant
                0 <= j <= to_remove@.len(),
                forall|m: int|
                    0 <= m < j ==> spec_count_items(self.items@, (#[trigger] to_remove@[m]).0)
                        >= to_remove@[m].1,
            decreases to_remove@.len() - j,
        {
            let c = self.count_items(&to_remove[j].0);
            if c < to_remove[j].1 {
                proof {
                    lemma_count_items_nonneg(self.items@, to_remove@[j as int].0);
                }
                return false;
            }
            j = j + 1;
        }
        let ghost items0 = self.items@;
        let mut e: usize = 0;
        proof {
            assert(spec_remove_list(items0, to_remove@.take(0)) =~= items0);
        }
        while e < to_remove.len()
            invariant
                self.wf(),
                0 <= e <= to_remove@.len(),
                self.items@ == spec_remove_list(items0, to_remove@.take(e as int)),
            decreases to_remove@.len() - e,
        {
            let ghost pre = self.items@;
            let mut amount_left_to_remove = to_remove[e].1;
            let mut k: usize = 0;
            proof {
                assert(pre.skip(0) =~= pre);
                assert(pre.take(0) =~= Seq::<(Item, u8)>::empty());
                assert(Seq::<(Item, u8)>::empty() + spec_remove_from_slots(
                    pre,
                    to_remove@[e as int].0,
                    to_remove@[e as int].1 as int,
                ) =~= spec_remove_from_slots(
                    pre,
                    to_remove@[e as int].0,
                    to_remove@[e as int].1 as int,
                ));
            }
            while k < self.items.len()
                invariant
                    self.wf(),
                    0 <= k <= SLOT_COUNT,
                    pre.len() == SLOT_COUNT as int,
                    amount_left_to_remove <= to_remove@[e as int].1,
                    0 <= e < to_remove@.len(),
                    self.items@.skip(k as int) == pre.skip(k as int),
                    spec_remove_from_slots(
                        pre,
                        to_remove@[e as int].0,
                        to_remove@[e as int].1 as int,
                    ) == self.items@.take(k as int) + spec_remove_from_slots(
                        pre.skip(k as int),
                        to_remove@[e as int].0,
                        amount_left_to_remove as int,
                    ),
                decreases SLOT_COUNT - k,
            {
                proof {
                    assert(pre.skip(k as int)[0] == pre[k as int]);
                    assert(pre.skip(k as int).skip(1) =~= pre.skip(k as int + 1));
                    assert(self.items@[k as int] == pre[k as int]);
                    lemma_remove_from_slots_len(
                        pre.skip(k as int + 1),
                        to_remove@[e as int].0,
                        0,
                    );
                }
                let matches_cat = to_remove[e].0.has_item(&self.items[k].0);
                if matches_cat && amount_left_to_remove > 0 {
                    let stack_amount = self.items[k].1;
                    let amount_to_remove_u8: u8 = if amount_left_to_remove > 255 {
                        255
                    } else {
                        amount_left_to_remove as u8
                    };
                    let taken: u8 = if stack_amount < amount_to_remove_u8 {
                        stack_amount
                    } else {
                        amount_to_remove_u8
                    };
                    let new_amount = stack_amount - taken;
                    let ghost mid = self.items@;
                    if new_amount == 0 {
                        self.items[k] = (Item::Empty, 0);
                    } else {
                        let it = item_clone(&self.items[k].0);
                        self.items[k] = (it, new_amount);
                    }
                    amount_left_to_remove = amount_left_to_remove - taken as u16;
                    proof {
                        assert(self.items@.skip(k as int + 1) =~= pre.skip(k as int + 1));
                        assert(self.items@.take(k as int + 1) =~= self.items@.take(k as int).push(
                            self.items@[k as int],
                        ));
                        assert((self.items@.take(k as int).push(self.items@[k as int]))
                            + spec_remove_from_slots(
                            pre.skip(k as int + 1),
                            to_remove@[e as int].0,
                            amount_left_to_remove as int,
                        ) =~= self.items@.take(k as int) + (seq![self.items@[k as int]]
                            + spec_remove_from_slots(
                            pre.skip(k as int + 1),
                            to_remove@[e as int].0,
                            amount_left_to_remove as int,
                        )));
                    }
                } else {
                    proof {
                        assert(self.items@.take(k as int + 1) =~= self.items@.take(k as int).push(
                            pre[k as int],
                        ));
                        if amount_left_to_remove == 0 {
                            lemma_remove_from_slots_zero(
                                pre.skip(k as int),
                                to_remove@[e as int].0,
                            );
                            lemma_remove_from_slots_zero(
                                pre.skip(k as int + 1),
                                to_remove@[e as int].0,
                            );
                        }
                        assert((self.items@.take(k as int).push(pre[k as int]))
                            + spec_remove_from_slots(
                            pre.skip(k as int + 1),
                            to_remove@[e as int].0,
                            amount_left_to_remove as int,
                        ) =~= self.items@.take(k as int) + (seq![pre[k as int]]
                            + spec_remove_from_slots(
                            pre.skip(k as int + 1),
                            to_remove@[e as int].0,
                            amount_left_to_remove as int,
                        )));
                    }
                }
                k = k + 1;
            }
            proof {
                assert(pre.skip(SLOT_COUNT as int) =~= Seq::<(Item, u8)>::empty());
                lemma_remove_from_slots_zero(
                    Seq::<(Item, u8)>::empty(),
                    to_remove@[e as int].0,
                );
                assert(self.items@.take(SLOT_COUNT as int) =~= self.items@);
                assert(self.items@ + Seq::<(Item, u8)>::empty() =~= self.items@);
                assert(to_remove@.take(e as int).push(to_remove@[e as int]) =~= to_remove@.take(
                    e as int + 1,
                ));
                lemma_remove_list_push(items0, to_remove@.take(e as int), to_remove@[e as int]);
            }
            e = e + 1;
        }
        proof {
            assert(to_remove@.take(to_remove@.len() as int) =~= to_remove@);
        }
        true
    }

    /// Append every slot's record to the file: the item then its count.
    #[verifier::loop_isolation(false)]
    pub fn serialize(&self, file: &mut FileWriter)
        ensures
            final(file).data@ == old(file).data@ + spec_inventory_bytes(self.items@),
    {
        let mut k: usize = 0;
        proof {
            assert(self.items@.take(0) =~= Seq::<(Item, u8)>::empty());
            assert(spec_inventory_bytes(Seq::<(Item, u8)>::empty()) == Seq::<u8>::empty());
            assert(old(file).data@ + Seq::<u8>::empty() =~= old(file).data@);
        }
        while k < self.items.len()
            invariant
                0 <= k <= self.items@.len(),
                file.data@ == old(file).data@ + spec_inventory_bytes(self.items@.take(k as int)),
            decreases self.items@.len() - k,
        {
            proof {
                assert(self.items@.take(k as int).push(self.items@[k as int]) =~= self.items@.take(
                    k as int + 1,
                ));
                lemma_inventory_bytes_push(self.items@.take(k as int), self.items@[k as int]);
            }
            self.items[k].0.serialize(file);
            file.push_u8(self.items[k].1);
            proof {
                assert(file.data@ =~= old(file).data@ + spec_inventory_bytes(
                    self.items@.take(k as int + 1),
                ));
            }
            k = k + 1;
        }
        proof {
            assert(self.items@.take(self.items@.len() as int) =~= self.items@);
        }
    }

    /// Read a whole inventory at the cursor.
    #[verifier::loop_isolation(false)]
    pub fn deserialize(file: &mut FileReader, namespace: &Namespace, version: u32) -> (r: Result<
        Self,
        Error,
    >)
        ensures
            final(file).data@ == old(file).data@,
            final(file).strings_v0@ == old(file).strings_v0@,
            match spec_parse_inventory(
                old(file).data@,
                old(file).read_index as int,
                SLOT_COUNT as nat,
                *namespace,
            ) {
                Parse::Found(slots, j) => {
                    &&& r matches Ok(inv)
                    &&& r.unwrap().wf()
                    &&& r.unwrap().items@ == slots
                    &&& final(file).read_index == j
                },
                Parse::Failed(e) => r == Result::<Self, Error>::Err(e),
            },
    {
        let ghost data = old(file).data@;
        let ghost i0 = old(file).read_index as int;
        let mut items: Vec<(Item, u8)> = Vec::new();
        let mut k: usize = 0;
        proof {
            match spec_parse_inventory(data, i0, SLOT_COUNT as nat, *namespace) {
                Parse::Found(slots, _) => {
                    assert(slots.skip(0) =~= slots);
                },
                Parse::Failed(_) => {},
            }
        }
        while k < SLOT_COUNT
            invariant
                0 <= k <= SLOT_COUNT,
                items@.len() == k,
                file.data@ == data,
                file.strings_v0@ == old(file).strings_v0@,
                match spec_parse_inventory(data, i0, SLOT_COUNT as nat, *namespace) {
                    Parse::Found(slots, j) => {
                        &&& spec_parse_inventory(
                            data,
                            file.read_index as int,
                            (SLOT_COUNT - k) as nat,
                            *namespace,
                        ) == Parse::<Seq<(Item, u8)>>::Found(slots.skip(k as int), j)
                        &&& items@ == slots.take(k as int)
                    },
                    Parse::Failed(e) => spec_parse_inventory(
                        data,
                        file.read_index as int,
                        (SLOT_COUNT - k) as nat,
                        *namespace,
                    ) == Parse::<Seq<(Item, u8)>>::Failed(e),
                },
            decreases SLOT_COUNT - k,
        {
            let ghost cur = file.read_index as int;
            let it = match Item::deserialize(file, namespace, version) {
                Ok(it) => it,
                Err(e) => {
                    return Err(e);
                },
            };
            let amount = match file.read_u8() {
                Ok(a) => a,
                Err(e) => {
                    return Err(e);
                },
            };
            items.push((it, amount));
            k = k + 1;
            proof {
                lemma_parse_inventory_count(data, i0, SLOT_COUNT as nat, *namespace);
                match spec_parse_inventory(data, i0, SLOT_COUNT as nat, *namespace) {
                    Parse::Found(slots, jj) => {
                        assert(slots.len() == SLOT_COUNT);
                        match spec_parse_item(data, cur, *namespace) {
                            Parse::Found(it0, j0) => {
                                match spec_parse_inventory(
                                    data,
                                    j0 + 1,
                                    (SLOT_COUNT - k) as nat,
                                    *namespace,
                                ) {
                                    Parse::Found(rest, _) => {
                                        assert(seq![(it0, data[j0])] + rest == slots.skip(k - 1));
                                        assert forall|m: int|
                                            0 <= m < rest.len() implies rest[m] == slots.skip(
                                            k as int,
                                        )[m] by {
                                            assert((seq![(it0, data[j0])] + rest)[m + 1]
                                                == rest[m]);
                                            assert(slots.skip(k - 1)[m + 1] == slots[k + m]);
                                        }
                                        assert(rest.len() == slots.skip(k as int).len());
                                        assert(rest =~= slots.skip(k as int));
                                        assert(slots.skip(k - 1)[0] == (it0, data[j0]));
                                        assert(slots[k - 1] == slots.skip(k - 1)[0]);
                                        assert(items@ =~= slots.take(k - 1).push(slots[k - 1]));
                                        assert(slots.take(k - 1).push(slots[k - 1]) =~= slots.take(
                                            k as int,
                                        ));
                                    },
                                    Parse::Failed(_) => {},
                                }
                            },
                            Parse::Failed(_) => {},
                        }
                    },
                    Parse::Failed(_) => {},
                }
            }
        }
        proof {
            match spec_parse_inventory(data, i0, SLOT_COUNT as nat, *namespace) {
                Parse::Found(slots, _) => {
                    lemma_parse_inventory_count(data, i0, SLOT_COUNT as nat, *namespace);
                    assert(slots.skip(SLOT_COUNT as int) =~= Seq::<(Item, u8)>::empty());
                    assert(slots.take(SLOT_COUNT as int) =~= slots);
                },
                Parse::Failed(_) => {},
            }
        }
        Ok(Inventory { items })
    }
}

/// Removal passes compose one request at a time.
pub proof fn lemma_remove_list_push(
    items: Seq<(Item, u8)>,
    list: Seq<(ItemCategory, u16)>,
    entry: (ItemCategory, u16),
)
    ensures
        spec_remove_list(items, list.push(entry)) == spec_remove_from_slots(
            spec_remove_list(items, list),
            entry.0,
            entry.1 as int,
        ),
    decreases list.len(),
{
    if list.len() == 0 {
        assert(list.push(entry)[0] == entry);
        assert(list.push(entry).skip(1) =~= Seq::<(ItemCategory, u16)>::empty());
        assert(spec_remove_list(
            spec_remove_from_slots(items, entry.0, entry.1 as int),
            Seq::<(ItemCategory, u16)>::empty(),
        ) == spec_remove_from_slots(items, entry.0, entry.1 as int));
        assert(spec_remove_list(items, Seq::<(ItemCategory, u16)>::empty()) == items);
        assert(list =~= Seq::<(ItemCategory, u16)>::empty());
    } else {
        assert(list.push(entry)[0] == list[0]);
        assert(list.push(entry).skip(1) =~= list.skip(1).push(entry));
        lemma_remove_list_push(
            spec_remove_from_slots(items, list[0].0, list[0].1 as int),
            list.skip(1),
            entry,
        );
    }
}

/// A full inventory parse yields one slot per position.
pub proof fn lemma_parse_inventory_count(data: Seq<u8>, i: int, n: nat, ns: Namespace)
    ensures
        spec_parse_inventory(data, i, n, ns) matches Parse::Found(slots, _) ==> slots.len() == n,
    decreases n,
{
    if n > 0 {
        match spec_parse_item(data, i, ns) {
            Parse::Found(it, j) => {
                if j + 1 <= data.len() {
                    lemma_parse_inventory_count(data, j + 1, (n - 1) as nat, ns);
                }
            },
            Parse::Failed(_) => {},
        }
    }
}

} // verus!
