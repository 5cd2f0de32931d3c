//! Crafting against the player's bags: which reagents a craft of `count`
//! takes, whether the bags hold them, taking them stack by stack, and where
//! the crafted item goes.
//!
//! Bags are a table from `(bag, slot)` to the item in that slot, keys
//! distinct; stacks are taken in the table's order.

use vstd::prelude::*;
use std::collections::BTreeSet;

verus! {

/// The item in one bag slot.
#[derive(Debug, Clone, PartialEq, Eq)]
pub struct BagItem {
    pub item_id: u32,
    pub stack_count: i32,
    pub hyperlink: Option<String>,
}

/// A reagent of a recipe: an item and how many one craft takes.
#[derive(Debug, Clone, Copy, PartialEq, Eq, Structural)]
pub struct Reagent {
    pub item_id: u32,
    pub quantity: i32,
}

/// Total count of `item_id` over the bags.
pub open spec fn count_of(items: Seq<((i32, i32), BagItem)>, item_id: u32) -> int
    decreases items.len(),
{
    if items.len() == 0 {
        0
    } else {
        count_of(items.drop_last(), item_id) + if items.last().1.item_id == item_id {
            items.last().1.stack_count as int
        } else {
            0
        }
    }
}

/// The reagent amounts of a craft of `count`: each reagent's quantity times
/// `count`.
pub fn reagent_deltas(reagents: &Vec<Reagent>, count: i32) -> (r: Vec<(u32, i32)>)
    requires
        forall|i: int|
            0 <= i < reagents@.len() ==> i32::MIN <= #[trigger] reagents@[i].quantity * count
                <= i32::MAX,
    ensures
        r@.len() == reagents@.len(),
        forall|i: int|
            0 <= i < r@.len() ==> #[trigger] r@[i] == (reagents@[i].item_id, (reagents@[i].quantity
                * count) as i32),
{
    let mut out: Vec<(u32, i32)> = Vec::new();
    let mut i: usize = 0;
    while i < reagents.len()
        invariant
            i <= reagents@.len(),
            out@.len() == i,
            forall|k: int|
                0 <= k < reagents@.len() ==> i32::MIN <= #[trigger] reagents@[k].quantity * count
                    <= i32::MAX,
            forall|k: int|
                0 <= k < i ==> #[trigger] out@[k] == (reagents@[k].item_id, (reagents@[k].quantity
                    * count) as i32),
        decreases reagents@.len() - i,
    {
        let r = reagents[i];
        assert(i32::MIN <= reagents@[i as int].quantity * count <= i32::MAX);
        out.push((r.item_id, r.quantity * count));
        i = i + 1;
    }
    out
}

/// How much of `item_id` the bags hold.
pub fn count_item(items: &Vec<((i32, i32), BagItem)>, item_id: u32) -> (r: i64)
    requires
        items@.len() <= u32::MAX,
    ensures
        r == count_of(items@, item_id),
{
    let mut total: i64 = 0;
    let mut i: usize = 0;
    while i < items.len()
        invariant
            i <= items@.len(),
            items@.len() <= u32::MAX,
            total == count_of(items@.subrange(0, i as int), item_id),
            i32::MIN * i <= total <= i32::MAX * i,
        decreases items@.len() - i,
    {
        assert(items@.subrange(0, i + 1).drop_last() == items@.subrange(0, i as int));
        if items[i].1.item_id == item_id {
            total = total + items[i].1.stack_count as i64;
        }
        i = i + 1;
    }
    assert(items@.subrange(0, items@.len() as int) == items@);
    total
}

/// Whether the bags hold every reagent amount.
pub open spec fn spec_reagents_available(items: Seq<((i32, i32), BagItem)>, deltas: Seq<(u32, i32)>) -> bool {
    forall|i: int| 0 <= i < deltas.len() ==> count_of(items, #[trigger] deltas[i].0) >= deltas[i].1
}

/// Whether the bags hold every reagent amount of a craft.
pub fn reagents_available(items: &Vec<((i32, i32), BagItem)>, deltas: &Vec<(u32, i32)>) -> (r: bool)
    requires
        items@.len() <= u32::MAX,
    ensures
        r == spec_reagents_available(items@, deltas@),
{
    let mut i: usize = 0;
    while i < deltas.len()
        invariant
            i <= deltas@.len(),
            items@.len() <= u32::MAX,
            forall|k: int| 0 <= k < i ==> count_of(items@, #[trigger] deltas@[k].0) >= deltas@[k].1,
        decreases deltas@.len() - i,
    {
        let (item_id, needed) = deltas[i];
        if count_item(items, item_id) < needed as i64 {
            return false;
        }
        i = i + 1;
    }
    true
}

/// The bags after taking up to `needed` of `item_id` from the first `k`
/// slots in order, the amount still needed, and the bags touched: each
/// matching slot, while something is still needed, gives the smaller of its
/// stack and what is needed.
pub open spec fn take_stacks(
    items: Seq<((i32, i32), BagItem)>,
    item_id: u32,
    needed: int,
    k: int,
) -> (Seq<((i32, i32), BagItem)>, int, Set<i32>)
    decreases k,
{
    if k <= 0 {
        (items, needed, Set::empty())
    } else {
        let (its, nd, touched) = take_stacks(items, item_id, needed, k - 1);
        let slot = items[k - 1];
        if slot.1.item_id != item_id || nd == 0 {
            (its, nd, touched)
        } else {
            let taken = if nd <= slot.1.stack_count {
                nd
            } else {
                slot.1.stack_count as int
            };
            (
                its.update(
                    k - 1,
                    (
                        slot.0,
                        BagItem {
                            item_id: slot.1.item_id,
                            stack_count: (slot.1.stack_count - taken) as i32,
                            hyperlink: slot.1.hyperlink,
                        },
                    ),
                ),
                nd - taken,
                touched.insert(slot.0.0),
            )
        }
    }
}

/// No step of `take_stacks` leaves the range of `i32`.
pub open spec fn take_stacks_fits(items: Seq<((i32, i32), BagItem)>, item_id: u32, needed: int) -> bool {
    forall|k: int|
        0 <= k < items.len() ==> {
            let nd = (#[trigger] take_stacks(items, item_id, needed, k)).1;
            let stack = items[k].1.stack_count as int;
            let taken = if nd <= stack {
                nd
            } else {
                stack
            };
            (items[k].1.item_id == item_id && nd != 0) ==> (i32::MIN <= stack - taken <= i32::MAX
                && i32::MIN <= nd - taken <= i32::MAX)
        }
}

proof fn lemma_take_stacks_len(items: Seq<((i32, i32), BagItem)>, item_id: u32, needed: int, k: int)
    requires
        0 <= k <= items.len(),
    ensures
        take_stacks(items, item_id, needed, k).0.len() == items.len(),
        forall|j: int| k <= j < items.len() ==> #[trigger] take_stacks(items, item_id, needed, k).0[j] == items[j],
        forall|j: int| 0 <= j < items.len() ==> (#[trigger] take_stacks(items, item_id, needed, k).0[j]).0 == items[j].0,
    decreases k,
{
    if k > 0 {
        lemma_take_stacks_len(items, item_id, needed, k - 1);
    }
}

/// Takes up to `needed` of `item_id` from the bags, stack by stack in order,
/// recording the bags it touches.
pub fn consume_item_stacks(
    bag_items: &mut Vec<((i32, i32), BagItem)>,
    item_id: u32,
    needed: i32,
    affected_bags: &mut BTreeSet<i32>,
)
    requires
        take_stacks_fits(old(bag_items)@, item_id, needed as int),
    ensures
        final(bag_items)@ == take_stacks(old(bag_items)@, item_id, needed as int, old(bag_items)@.len() as int).0,
        final(affected_bags)@ == old(affected_bags)@.union(
            take_stacks(old(bag_items)@, item_id, needed as int, old(bag_items)@.len() as int).2,
        ),
{
    broadcast use vstd::std_specs::btree::group_btree_axioms;
    let ghost orig = bag_items@;
    let ghost aff0 = affected_bags@;
    let ghost n0 = needed as int;
    let mut needed = needed;
    let mut i: usize = 0;
    while i < bag_items.len()
        invariant
            i <= bag_items@.len(),
            orig.len() == bag_items@.len(),
            take_stacks_fits(orig, item_id, n0),
            bag_items@ == take_stacks(orig, item_id, n0, i as int).0,
            needed as int == take_stacks(orig, item_id, n0, i as int).1,
            affected_bags@ == aff0.union(take_stacks(orig, item_id, n0, i as int).2),
        decreases orig.len() - i,
    {
        proof {
            lemma_take_stacks_len(orig, item_id, n0, i as int);
        }
        let (key, slot_item, slot_count) = (bag_items[i].0, bag_items[i].1.item_id, bag_items[i].1.stack_count);
        if slot_item != item_id || needed == 0 {
            i = i + 1;
            continue;
        }
        let taken = if needed <= slot_count {
            needed
        } else {
            slot_count
        };
        proof {
            assert(take_stacks(orig, item_id, n0, i as int).1 == needed);
        }
        let (k0, old_item) = bag_items.remove(i);
        let updated = BagItem {
            item_id: old_item.item_id,
            stack_count: old_item.stack_count - taken,
            hyperlink: old_item.hyperlink,
        };
        bag_items.insert(i, (k0, updated));
        needed = needed - taken;
        affected_bags.insert(key.0);
        proof {
            let t = take_stacks(orig, item_id, n0, (i + 1) as int);
            assert(bag_items@ =~= t.0);
            assert(affected_bags@ =~= aff0.union(t.2));
        }
        i = i + 1;
    }
}

/// The bags after taking every reagent amount in turn, and the bags touched.
pub open spec fn take_reagents(items: Seq<((i32, i32), BagItem)>, deltas: Seq<(u32, i32)>, j: int) -> (
    Seq<((i32, i32), BagItem)>,
    Set<i32>,
)
    decreases j,
{
    if j <= 0 {
        (items, Set::empty())
    } else {
        let (its, touched) = take_reagents(items, deltas, j - 1);
        let t = take_stacks(its, deltas[j - 1].0, deltas[j - 1].1 as int, its.len() as int);
        (t.0, touched.union(t.2))
    }
}

/// Every reagent amount is taken without leaving the range of `i32`.
pub open spec fn take_reagents_fits(items: Seq<((i32, i32), BagItem)>, deltas: Seq<(u32, i32)>) -> bool {
    forall|j: int|
        0 <= j < deltas.len() ==> take_stacks_fits(
            (#[trigger] take_reagents(items, deltas, j)).0,
            deltas[j].0,
            deltas[j].1 as int,
        )
}

/// The slots that still hold something.
pub open spec fn non_empty_slots(items: Seq<((i32, i32), BagItem)>) -> Seq<((i32, i32), BagItem)> {
    items.filter(|e: ((i32, i32), BagItem)| e.1.stack_count > 0)
}

/// Takes every reagent amount from the bags, then empties the slots left
/// with nothing in them.
pub fn consume_reagents(
    bag_items: &mut Vec<((i32, i32), BagItem)>,
    reagent_deltas: &Vec<(u32, i32)>,
    affected_bags: &mut BTreeSet<i32>,
)
    requires
        take_reagents_fits(old(bag_items)@, reagent_deltas@),
    ensures
        final(bag_items)@ == non_empty_slots(
            take_reagents(old(bag_items)@, reagent_deltas@, reagent_deltas@.len() as int).0,
        ),
        final(affected_bags)@ == old(affected_bags)@.union(
            take_reagents(old(bag_items)@, reagent_deltas@, reagent_deltas@.len() as int).1,
        ),
{
    let ghost orig = bag_items@;
    let ghost aff0 = affected_bags@;
    let mut j: usize = 0;
    while j < reagent_deltas.len()
        invariant
            j <= reagent_deltas@.len(),
            take_reagents_fits(orig, reagent_deltas@),
            bag_items@ == take_reagents(orig, reagent_deltas@, j as int).0,
            affected_bags@ == aff0.union(take_reagents(orig, reagent_deltas@, j as int).1),
        decreases reagent_deltas@.len() - j,
    {
        let (item_id, needed) = reagent_deltas[j];
        proof {
            assert(take_stacks_fits(
                take_reagents(orig, reagent_deltas@, j as int).0,
                reagent_deltas@[j as int].0,
                reagent_deltas@[j as int].1 as int,
            ));
        }
        consume_item_stacks(bag_items, item_id, needed, affected_bags);
        proof {
            assert(affected_bags@ =~= aff0.union(take_reagents(orig, reagent_deltas@, j + 1).1));
        }
        j = j + 1;
    }
    let ghost before = bag_items@;
    let mut kept: Vec<((i32, i32), BagItem)> = Vec::new();
    let mut i: usize = 0;
    let n = bag_items.len();
    while i < n
        invariant
            n <= bag_items@.len() + i,
            bag_items@.len() == n - i,
            i <= n,
            before.len() == n,
            bag_items@ == before.subrange(i as int, n as int),
            kept@ == non_empty_slots(before.subrange(0, i as int)),
        decreases n - i,
    {
        let entry = bag_items.remove(0);
        proof {
            assert(before.subrange(0, i + 1).drop_last() == before.subrange(0, i as int));
            assert(before.subrange(0, i + 1).last() == entry);
            assert(before.subrange(0, i + 1) == before.subrange(0, i as int).push(entry));
            assert(bag_items@ =~= before.subrange(i + 1, n as int));
        }
        proof {
            let s1 = before.subrange(0, i + 1);
            assert(s1 == before.subrange(0, i as int).push(entry));
            before.subrange(0, i as int).lemma_filter_push(
                entry,
                |e: ((i32, i32), BagItem)| e.1.stack_count > 0,
            );
            assert(non_empty_slots(s1) == (if entry.1.stack_count > 0 {
                non_empty_slots(before.subrange(0, i as int)).push(entry)
            } else {
                non_empty_slots(before.subrange(0, i as int))
            }));
        }
        if entry.1.stack_count > 0 {
            kept.push(entry);
        }
        i = i + 1;
    }
    assert(before.subrange(0, n as int) == before);
    *bag_items = kept;
}

/// Whether a slot key is taken.
pub open spec fn has_slot(items: Seq<((i32, i32), BagItem)>, key: (i32, i32)) -> bool {
    exists|i: int| 0 <= i < items.len() && #[trigger] items[i].0 == key
}

/// The first free slot of bag 0 among slots `s..=16`.
pub open spec fn free_up(items: Seq<((i32, i32), BagItem)>, s: int) -> Option<i32>
    decreases 17 - s,
{
    if s > 16 || s < 1 {
        None
    } else if !has_slot(items, (0i32, s as i32)) {
        Some(s as i32)
    } else {
        free_up(items, s + 1)
    }
}

/// The first free slot of bag 0 among slots `s` down to `-1000`.
pub open spec fn free_down(items: Seq<((i32, i32), BagItem)>, s: int) -> Option<i32>
    decreases s + 1001,
{
    if s < -1000 || s > -1 {
        None
    } else if !has_slot(items, (0i32, s as i32)) {
        Some(s as i32)
    } else {
        free_down(items, s - 1)
    }
}

/// The slot of bag 0 a new item goes to: the first free one of 1 to 16,
/// else the first free negative slot, from -1 down to -1000.
pub open spec fn spec_free_bag0_slot(items: Seq<((i32, i32), BagItem)>) -> Option<i32> {
    match free_up(items, 1) {
        Some(s) => Some(s),
        None => free_down(items, -1),
    }
}

fn slot_taken(items: &Vec<((i32, i32), BagItem)>, key: (i32, i32)) -> (r: bool)
    ensures
        r == has_slot(items@, key),
{
    let mut i: usize = 0;
    while i < items.len()
        invariant
            i <= items@.len(),
            forall|k: int| 0 <= k < i ==> items@[k].0 != key,
        decreases items@.len() - i,
    {
        if items[i].0.0 == key.0 && items[i].0.1 == key.1 {
            return true;
        }
        i = i + 1;
    }
    false
}

/// The slot of bag 0 a new item goes to.
pub fn free_bag0_slot(bag_items: &Vec<((i32, i32), BagItem)>) -> (r: (i32, i32))
    requires
        spec_free_bag0_slot(bag_items@) is Some,
    ensures
        spec_free_bag0_slot(bag_items@) == Some(r.1),
        r.0 == 0,
{
    let mut s: i32 = 1;
    while s <= 16
        invariant
            1 <= s <= 17,
            free_up(bag_items@, 1) == free_up(bag_items@, s as int),
        decreases 17 - s,
    {
        if !slot_taken(bag_items, (0, s)) {
            return (0, s);
        }
        s = s + 1;
    }
    let mut t: i32 = -1;
    while t >= -1000
        invariant
            -1001 <= t <= -1,
            free_up(bag_items@, 1) is None,
            spec_free_bag0_slot(bag_items@) is Some,
            free_down(bag_items@, -1) == free_down(bag_items@, t as int),
        decreases t + 1001,
    {
        if !slot_taken(bag_items, (0, t)) {
            return (0, t);
        }
        t = t - 1;
    }
    proof {
        assert(free_down(bag_items@, -1001) is None);
    }
    (0, 0)
}

/// Index of the first slot holding `item_id`, or `-1`.
pub open spec fn first_slot_of(items: Seq<((i32, i32), BagItem)>, item_id: u32, i: int) -> int
    decreases items.len() - i,
{
    if i < 0 || i >= items.len() {
        -1
    } else if items[i].1.item_id == item_id {
        i
    } else {
        first_slot_of(items, item_id, i + 1)
    }
}

proof fn lemma_first_slot_of(items: Seq<((i32, i32), BagItem)>, item_id: u32, i: int)
    requires
        0 <= i,
    ensures
        first_slot_of(items, item_id, i) == -1 || (i <= first_slot_of(items, item_id, i) < items.len()
            && items[first_slot_of(items, item_id, i)].1.item_id == item_id),
    decreases items.len() - i,
{
    if i < items.len() && items[i].1.item_id != item_id {
        lemma_first_slot_of(items, item_id, i + 1);
    }
}

/// Adding the crafted items stays within `i32` and finds room.
pub open spec fn add_output_fits(items: Seq<((i32, i32), BagItem)>, item_id: u32, count: i32) -> bool {
    let f = first_slot_of(items, item_id, 0);
    if f >= 0 {
        i32::MIN <= items[f].1.stack_count + count <= i32::MAX
    } else {
        spec_free_bag0_slot(items) is Some
    }
}

/// The bags after adding the crafted items, and the bag they went to: the
/// first stack of the item grows, or a new stack takes the first free slot
/// of bag 0.
pub open spec fn spec_add_output(items: Seq<((i32, i32), BagItem)>, item_id: u32, count: i32) -> (
    Seq<((i32, i32), BagItem)>,
    i32,
) {
    let f = first_slot_of(items, item_id, 0);
    if f >= 0 {
        let slot = items[f];
        (
            items.update(
                f,
                (
                    slot.0,
                    BagItem {
                        item_id,
                        stack_count: (slot.1.stack_count + count) as i32,
                        hyperlink: slot.1.hyperlink,
                    },
                ),
            ),
            slot.0.0,
        )
    } else {
        (
            items.push(((0i32, spec_free_bag0_slot(items)->Some_0), BagItem { item_id, stack_count: count, hyperlink: None })),
            0,
        )
    }
}

/// Puts `count` crafted items of `item_id` into the bags: onto the first
/// stack of that item if there is one, else into a new stack in the first
/// free slot of bag 0. Returns the bag it went to.
pub fn add_output_item(bag_items: &mut Vec<((i32, i32), BagItem)>, item_id: u32, count: i32) -> (r: i32)
    requires
        add_output_fits(old(bag_items)@, item_id, count),
    ensures
        (final(bag_items)@, r) == spec_add_output(old(bag_items)@, item_id, count),
{
    proof {
        lemma_first_slot_of(bag_items@, item_id, 0);
    }
    let mut i: usize = 0;
    while i < bag_items.len()
        invariant
            i <= bag_items@.len(),
            bag_items@ == old(bag_items)@,
            first_slot_of(bag_items@, item_id, 0) == first_slot_of(bag_items@, item_id, i as int),
            first_slot_of(bag_items@, item_id, 0) == -1 || (0 <= first_slot_of(bag_items@, item_id, 0)
                < bag_items@.len()),
            add_output_fits(old(bag_items)@, item_id, count),
        decreases bag_items@.len() - i,
    {
        if bag_items[i].1.item_id == item_id {
            let (key, old_item) = bag_items.remove(i);
            let updated = BagItem {
                item_id: old_item.item_id,
                stack_count: old_item.stack_count + count,
                hyperlink: old_item.hyperlink,
            };
            bag_items.insert(i, (key, updated));
            assert(bag_items@ =~= old(bag_items)@.update(
                i as int,
                (
                    key,
                    BagItem {
                        item_id,
                        stack_count: (old(bag_items)@[i as int].1.stack_count + count) as i32,
                        hyperlink: old(bag_items)@[i as int].1.hyperlink,
                    },
                ),
            ));
            return key.0;
        }
        i = i + 1;
    }
    let key = free_bag0_slot(bag_items);
    bag_items.push((key, BagItem { item_id, stack_count: count, hyperlink: None }));
    key.0
}

/// Crafts `count` of a recipe from the bags: when the bags hold every
/// reagent amount, the reagents are taken, emptied slots removed and the
/// crafted items added, and `true` is returned; otherwise nothing changes
/// and `false` is returned.
pub fn craft_in_bags(
    bag_items: &mut Vec<((i32, i32), BagItem)>,
    reagents: &Vec<Reagent>,
    output_item_id: u32,
    count: i32,
    affected_bags: &mut BTreeSet<i32>,
) -> (r: bool)
    requires
        old(bag_items)@.len() <= u32::MAX,
        forall|i: int|
            0 <= i < reagents@.len() ==> i32::MIN <= #[trigger] reagents@[i].quantity * count
                <= i32::MAX,
        ({
            let deltas = Seq::new(
                reagents@.len(),
                |i: int| (reagents@[i].item_id, (reagents@[i].quantity * count) as i32),
            );
            spec_reagents_available(old(bag_items)@, deltas) ==> take_reagents_fits(old(bag_items)@, deltas)
                && add_output_fits(
                non_empty_slots(take_reagents(old(bag_items)@, deltas, deltas.len() as int).0),
                output_item_id,
                count,
            )
        }),
    ensures
        ({
            let deltas = Seq::new(
                reagents@.len(),
                |i: int| (reagents@[i].item_id, (reagents@[i].quantity * count) as i32),
            );
            let taken = take_reagents(old(bag_items)@, deltas, deltas.len() as int);
            let added = spec_add_output(non_empty_slots(taken.0), output_item_id, count);
            if spec_reagents_available(old(bag_items)@, deltas) {
                &&& r
                &&& final(bag_items)@ == added.0
                &&& final(affected_bags)@ == old(affected_bags)@.union(taken.1).insert(added.1)
            } else {
                &&& !r
                &&& final(bag_items)@ == old(bag_items)@
                &&& final(affected_bags)@ == old(affected_bags)@
            }
        }),
{
    broadcast use vstd::std_specs::btree::group_btree_axioms;
    let deltas = reagent_deltas(reagents, count);
    let ghost ds = Seq::new(
        reagents@.len(),
        |i: int| (reagents@[i].item_id, (reagents@[i].quantity * count) as i32),
    );
    assert(deltas@ == ds);
    if !reagents_available(bag_items, &deltas) {
        return false;
    }
    consume_reagents(bag_items, &deltas, affected_bags);
    let bag = add_output_item(bag_items, output_item_id, count);
    affected_bags.insert(bag);
    true
}

/// How much of `item_id` one slot holds.
pub open spec fn slot_count_of(e: ((i32, i32), BagItem), item_id: u32) -> int {
    if e.1.item_id == item_id {
        e.1.stack_count as int
    } else {
        0
    }
}

/// Replacing one slot changes the total of an item by the difference of
/// what the two slots hold of it.
proof fn lemma_count_of_update(
    items: Seq<((i32, i32), BagItem)>,
    i: int,
    v: ((i32, i32), BagItem),
    item_id: u32,
)
    requires
        0 <= i < items.len(),
    ensures
        count_of(items.update(i, v), item_id) == count_of(items, item_id) - slot_count_of(
            items[i],
            item_id,
        ) + slot_count_of(v, item_id),
    decreases items.len(),
{
    let u = items.update(i, v);
    if i == items.len() - 1 {
        assert(u.drop_last() == items.drop_last());
    } else {
        assert(u.drop_last() == items.drop_last().update(i, v));
        lemma_count_of_update(items.drop_last(), i, v, item_id);
    }
}

/// What `take_stacks` has taken over the first `k` slots: the total of the
/// item fell by exactly the amount no longer needed, no other item changed,
/// and (for a non-negative need and stacks) the amount taken is at most what
/// those slots held, all of it unless the need was met.
proof fn lemma_take_stacks_counts(
    items: Seq<((i32, i32), BagItem)>,
    item_id: u32,
    needed: int,
    k: int,
)
    requires
        0 <= k <= items.len(),
        take_stacks_fits(items, item_id, needed),
    ensures
        ({
            let t = take_stacks(items, item_id, needed, k);
            &&& count_of(t.0, item_id) == count_of(items, item_id) - (needed - t.1)
            &&& forall|other: u32| other != item_id ==> #[trigger] count_of(t.0, other) == count_of(
                items,
                other,
            )
            &&& (0 <= needed && (forall|j: int|
                0 <= j < items.len() && items[j].1.item_id == item_id ==> items[j].1.stack_count
                    >= 0)) ==> {
                &&& 0 <= t.1 <= needed
                &&& needed - t.1 <= count_of(items.subrange(0, k), item_id)
                &&& t.1 > 0 ==> needed - t.1 == count_of(items.subrange(0, k), item_id)
            }
        }),
    decreases k,
{
    assert(items.subrange(0, 0) == Seq::<((i32, i32), BagItem)>::empty());
    if k > 0 {
        lemma_take_stacks_counts(items, item_id, needed, k - 1);
        lemma_take_stacks_len(items, item_id, needed, k - 1);
        let prev = take_stacks(items, item_id, needed, k - 1);
        let slot = items[k - 1];
        assert(items.subrange(0, k).drop_last() == items.subrange(0, k - 1));
        assert(items.subrange(0, k).last() == slot);
        if !(slot.1.item_id != item_id || prev.1 == 0) {
            let nd = prev.1;
            let taken = if nd <= slot.1.stack_count {
                nd
            } else {
                slot.1.stack_count as int
            };
            assert(take_stacks(items, item_id, needed, k - 1) == prev);
            let newv = (
                slot.0,
                BagItem {
                    item_id: slot.1.item_id,
                    stack_count: (slot.1.stack_count - taken) as i32,
                    hyperlink: slot.1.hyperlink,
                },
            );
            assert(prev.0[k - 1] == slot);
            lemma_count_of_update(prev.0, k - 1, newv, item_id);
            assert forall|other: u32| other != item_id implies #[trigger] count_of(
                take_stacks(items, item_id, needed, k).0,
                other,
            ) == count_of(items, other) by {
                lemma_count_of_update(prev.0, k - 1, newv, other);
            }
        }
    }
}

/// Taking `needed` units (not negative) of an item whose stacks are not
/// negative takes exactly the smaller of `needed` and what the bags hold:
/// that much leaves the bags, the rest is still needed, and the count of
/// every other item is unchanged.
pub proof fn lemma_taking_stacks_conserves_items(
    items: Seq<((i32, i32), BagItem)>,
    item_id: u32,
    needed: int,
)
    requires
        0 <= needed,
        take_stacks_fits(items, item_id, needed),
        forall|j: int|
            0 <= j < items.len() && items[j].1.item_id == item_id ==> items[j].1.stack_count >= 0,
    ensures
        ({
            let held = count_of(items, item_id);
            let t = take_stacks(items, item_id, needed, items.len() as int);
            &&& t.1 == (if needed <= held {
                0
            } else {
                needed - held
            })
            &&& count_of(t.0, item_id) == held - (needed - t.1)
            &&& forall|other: u32| other != item_id ==> #[trigger] count_of(t.0, other) == count_of(
                items,
                other,
            )
        }),
{
    lemma_take_stacks_counts(items, item_id, needed, items.len() as int);
    assert(items.subrange(0, items.len() as int) == items);
}

/// A slot `free_up` finds is a slot of bag 0, numbered 1 to 16, that no
/// item holds.
proof fn lemma_free_slot_is_free_up(items: Seq<((i32, i32), BagItem)>, s: int)
    ensures
        free_up(items, s) matches Some(v) ==> 1 <= v <= 16 && !has_slot(items, (0i32, v)),
    decreases 17 - s,
{
    if 1 <= s <= 16 && has_slot(items, (0i32, s as i32)) {
        lemma_free_slot_is_free_up(items, s + 1);
    }
}

/// A slot `free_down` finds is a slot of bag 0, numbered -1 down to -1000,
/// that no item holds.
proof fn lemma_free_slot_is_free_down(items: Seq<((i32, i32), BagItem)>, s: int)
    ensures
        free_down(items, s) matches Some(v) ==> -1000 <= v <= -1 && !has_slot(items, (0i32, v)),
    decreases s + 1001,
{
    if -1000 <= s <= -1 && has_slot(items, (0i32, s as i32)) {
        lemma_free_slot_is_free_down(items, s - 1);
    }
}

/// Adding `count` crafted items raises the total of that item by `count`
/// and leaves every other item's total unchanged; a new stack goes to a
/// slot of bag 0 that was free.
pub proof fn lemma_adding_output_adds_count(
    items: Seq<((i32, i32), BagItem)>,
    item_id: u32,
    count: i32,
)
    requires
        add_output_fits(items, item_id, count),
    ensures
        ({
            let r = spec_add_output(items, item_id, count);
            &&& count_of(r.0, item_id) == count_of(items, item_id) + count
            &&& forall|other: u32| other != item_id ==> #[trigger] count_of(r.0, other) == count_of(
                items,
                other,
            )
            &&& r.0.len() > items.len() ==> r.0.len() == items.len() + 1 && r.0.last().0.0 == 0
                && !has_slot(items, r.0.last().0)
        }),
{
    lemma_first_slot_of(items, item_id, 0);
    let f = first_slot_of(items, item_id, 0);
    let r = spec_add_output(items, item_id, count);
    if f >= 0 {
        let slot = items[f];
        let newv = (
            slot.0,
            BagItem {
                item_id,
                stack_count: (slot.1.stack_count + count) as i32,
                hyperlink: slot.1.hyperlink,
            },
        );
        lemma_count_of_update(items, f, newv, item_id);
        assert forall|other: u32| other != item_id implies #[trigger] count_of(r.0, other)
            == count_of(items, other) by {
            lemma_count_of_update(items, f, newv, other);
        }
    } else {
        lemma_free_slot_is_free_up(items, 1);
        lemma_free_slot_is_free_down(items, -1);
        assert(r.0.drop_last() == items);
        assert forall|other: u32| other != item_id implies #[trigger] count_of(r.0, other)
            == count_of(items, other) by {
            assert(r.0.drop_last() == items);
        }
    }
}

} // verus!
