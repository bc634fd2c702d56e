//! The inventory mutation engine: stack-aware item placement, splitting
//! across slots, and capacity enforcement.

use vstd::prelude::*;
use crate::constants::MAX_INVENTORY_SLOT;
use crate::errors::GameError;
use crate::ids::Identity;
use crate::state::{has_item, has_player, has_slot, slot_match, GameItem, PlayerInventory, WorldState};

verus! {

/// Whether the owner already uses this slot index.
pub open spec fn slot_used_at(inv: Seq<PlayerInventory>, owner: Identity, idx: int) -> bool {
    exists|i: int|
        0 <= i < inv.len() && inv[i].player_identity == owner && inv[i].slot_index == idx
}

/// The slot indices still free for an owner from `from` upward, in
/// ascending order.
pub open spec fn free_indices(inv: Seq<PlayerInventory>, owner: Identity, from: int) -> Seq<int>
    decreases 101 - from,
{
    if !(0 <= from <= MAX_INVENTORY_SLOT) {
        Seq::<int>::empty()
    } else if slot_used_at(inv, owner, from) {
        free_indices(inv, owner, from + 1)
    } else {
        seq![from] + free_indices(inv, owner, from + 1)
    }
}

/// How a remainder is cut into stacks: full stacks of `max`, then the
/// rest, in order; an empty sequence when nothing remains.
pub open spec fn stack_chunks(rem: int, max: int) -> Seq<int>
    decreases rem,
{
    if rem <= 0 || max <= 0 {
        Seq::<int>::empty()
    } else if rem <= max {
        seq![rem]
    } else {
        seq![max] + stack_chunks(rem - max, max)
    }
}

/// Whether row `i` of the catalog holds the item.
pub open spec fn is_item_at(items: Seq<crate::state::GameItem>, item_id: Seq<char>, i: int) -> bool {
    0 <= i < items.len() && items[i].item_id@ == item_id
}

/// The catalog row of an item; meaningful when the catalog holds it.
pub open spec fn spec_item_index(items: Seq<crate::state::GameItem>, item_id: Seq<char>) -> int {
    choose|i: int| is_item_at(items, item_id, i)
}

/// Whether row `i` is the first stack of the item held by the owner.
pub open spec fn is_first_slot(
    inv: Seq<PlayerInventory>,
    owner: Identity,
    item_id: Seq<char>,
    i: int,
) -> bool {
    &&& 0 <= i < inv.len()
    &&& slot_match(inv[i], owner, item_id)
    &&& forall|j: int| 0 <= j < i ==> !slot_match(#[trigger] inv[j], owner, item_id)
}

/// The first stack of the item held by the owner; meaningful when one
/// exists.
pub open spec fn first_slot_index(
    inv: Seq<PlayerInventory>,
    owner: Identity,
    item_id: Seq<char>,
) -> int {
    choose|i: int| is_first_slot(inv, owner, item_id, i)
}

/// An owner holding a stack of an item holds a first such stack.
proof fn lemma_first_slot_exists(inv: Seq<PlayerInventory>, owner: Identity, item_id: Seq<char>)
    requires
        has_slot(inv, owner, item_id),
    ensures
        is_first_slot(inv, owner, item_id, first_slot_index(inv, owner, item_id)),
    decreases inv.len(),
{
    if slot_match(inv[0], owner, item_id) {
        assert(is_first_slot(inv, owner, item_id, 0));
    } else {
        let rest = inv.drop_first();
        assert(exists|i: int| 0 <= i < inv.len() && slot_match(inv[i], owner, item_id));
        let w = choose|i: int| 0 <= i < inv.len() && slot_match(inv[i], owner, item_id);
        assert(slot_match(rest[w - 1], owner, item_id));
        lemma_first_slot_exists(rest, owner, item_id);
        let f = first_slot_index(rest, owner, item_id);
        assert forall|j: int| 0 <= j < f + 1 implies !slot_match(
            #[trigger] inv[j], owner, item_id,
        ) by {
            if j >= 1 {
                assert(rest[j - 1] == inv[j]);
            }
        }
        assert(is_first_slot(inv, owner, item_id, f + 1));
    }
}

/// Every free index is in range, unused, and the list ascends strictly.
proof fn lemma_free_indices(inv: Seq<PlayerInventory>, owner: Identity, from: int)
    ensures
        forall|k: int|
            0 <= k < free_indices(inv, owner, from).len() ==> from <= #[trigger] free_indices(
                inv,
                owner,
                from,
            )[k] <= MAX_INVENTORY_SLOT && !slot_used_at(
                inv,
                owner,
                free_indices(inv, owner, from)[k],
            ),
        forall|k1: int, k2: int|
            0 <= k1 < k2 < free_indices(inv, owner, from).len() ==> #[trigger] free_indices(
                inv,
                owner,
                from,
            )[k1] < #[trigger] free_indices(inv, owner, from)[k2],
        forall|k: int|
            0 <= k < free_indices(inv, owner, from).len() ==> #[trigger] free_indices(
                inv,
                owner,
                from,
            )[k] >= from + k,
    decreases 101 - from,
{
    if 0 <= from <= MAX_INVENTORY_SLOT {
        lemma_free_indices(inv, owner, from + 1);
        let cur = free_indices(inv, owner, from);
        let rest = free_indices(inv, owner, from + 1);
        if !slot_used_at(inv, owner, from) {
            assert forall|k: int| 0 <= k < cur.len() implies from <= #[trigger] cur[k]
                <= MAX_INVENTORY_SLOT && !slot_used_at(inv, owner, cur[k]) && cur[k] >= from
                + k by {
                if k >= 1 {
                    assert(cur[k] == rest[k - 1]);
                }
            }
            assert forall|k1: int, k2: int| 0 <= k1 < k2 < cur.len() implies #[trigger] cur[k1]
                < #[trigger] cur[k2] by {
                assert(cur[k2] == rest[k2 - 1]);
                if k1 >= 1 {
                    assert(cur[k1] == rest[k1 - 1]);
                }
            }
        }
    }
}

/// An owner has at most one free index per possible slot position.
proof fn lemma_free_indices_len(inv: Seq<PlayerInventory>, owner: Identity)
    ensures
        free_indices(inv, owner, 0).len() <= 101,
{
    lemma_free_indices(inv, owner, 0);
    let free = free_indices(inv, owner, 0);
    if free.len() > 101 {
        assert(free[101] >= 101);
        assert(free[101] <= MAX_INVENTORY_SLOT);
    }
}

/// Every chunk is between one and the stack bound.
proof fn lemma_stack_chunks(rem: int, max: int)
    requires
        1 <= max,
    ensures
        forall|k: int|
            0 <= k < stack_chunks(rem, max).len() ==> 1 <= #[trigger] stack_chunks(rem, max)[k]
                <= max,
        rem <= 0 ==> stack_chunks(rem, max).len() == 0,
        rem > 0 ==> stack_chunks(rem, max).len() >= 1,
    decreases rem,
{
    if rem > max {
        lemma_stack_chunks(rem - max, max);
    }
}

/// The stacks a successful add spills into fresh slots, after the
/// existing stack (if any) was filled toward the item's bound.
pub open spec fn add_spill_chunks(
    old: WorldState,
    owner: Identity,
    item_id: Seq<char>,
    quantity: u32,
) -> Seq<int> {
    let ci = spec_item_index(old.items@, item_id);
    let max = old.items@[ci].max_stack_size as int;
    if has_slot(old.inventory@, owner, item_id) {
        let ei = first_slot_index(old.inventory@, owner, item_id);
        let total = old.inventory@[ei].quantity + quantity;
        let into = if total <= max {
            total
        } else {
            max
        };
        stack_chunks(total - into, max)
    } else {
        stack_chunks(quantity as int, max)
    }
}

/// The rows an add keeps: the old inventory, with the first existing
/// stack of the item (if any) filled toward the item's bound.
pub open spec fn add_kept_rows(
    old: WorldState,
    owner: Identity,
    item_id: Seq<char>,
    quantity: u32,
) -> Seq<PlayerInventory> {
    let ci = spec_item_index(old.items@, item_id);
    let max = old.items@[ci].max_stack_size as int;
    if has_slot(old.inventory@, owner, item_id) {
        let ei = first_slot_index(old.inventory@, owner, item_id);
        let total = old.inventory@[ei].quantity + quantity;
        let into = if total <= max {
            total
        } else {
            max
        };
        old.inventory@.update(
            ei,
            PlayerInventory { quantity: into as u32, ..old.inventory@[ei] },
        )
    } else {
        old.inventory@
    }
}

/// Whether the add cannot be placed: the spill needs more fresh slots
/// than the owner has free indices, or record ids are exhausted.
pub open spec fn add_item_short(
    old: WorldState,
    owner: Identity,
    item_id: Seq<char>,
    quantity: u32,
) -> bool {
    let chunks = add_spill_chunks(old, owner, item_id, quantity);
    chunks.len() > free_indices(old.inventory@, owner, 0).len() || old.next_id + chunks.len()
        > u64::MAX
}

/// What a successful add leaves behind: the kept rows followed by one
/// fresh slot per spilled stack, each carrying the next record id and
/// the next lowest free slot index, in order.
pub open spec fn add_item_outcome(
    old: WorldState,
    new: WorldState,
    owner: Identity,
    item_id: Seq<char>,
    quantity: u32,
) -> bool {
    let chunks = add_spill_chunks(old, owner, item_id, quantity);
    let free = free_indices(old.inventory@, owner, 0);
    let kept = add_kept_rows(old, owner, item_id, quantity);
    &&& new.inventory@.len() == kept.len() + chunks.len()
    &&& new.inventory@.subrange(0, kept.len() as int) == kept
    &&& forall|k: int|
        0 <= k < chunks.len() ==> {
            let s = #[trigger] new.inventory@[kept.len() + k];
            &&& s.inventory_id == old.next_id + k
            &&& s.player_identity == owner
            &&& s.item_id@ == item_id
            &&& s.item_type@ == "item"@
            &&& s.quantity == chunks[k]
            &&& s.slot_index == free[k]
        }
    &&& new.next_id == old.next_id + chunks.len()
}

/// Decides whether the owner already uses this slot index.
fn slot_index_taken(inv: &Vec<PlayerInventory>, owner: &Identity, idx: u32) -> (r: bool)
    ensures
        r == slot_used_at(inv@, *owner, idx as int),
{
    let mut i: usize = 0;
    while i < inv.len()
        invariant
            0 <= i <= inv@.len(),
            forall|j: int|
                0 <= j < i ==> !((#[trigger] inv@[j]).player_identity == *owner
                    && inv@[j].slot_index == idx),
        decreases inv@.len() - i,
    {
        if inv[i].player_identity.bits == owner.bits && inv[i].slot_index == idx {
            return true;
        }
        i = i + 1;
    }
    false
}

/// Collects the owner's free slot indices, lowest first.
fn collect_free_indices(inv: &Vec<PlayerInventory>, owner: &Identity) -> (r: Vec<u32>)
    ensures
        r@.map_values(|v: u32| v as int) == free_indices(inv@, *owner, 0),
{
    let mut free: Vec<u32> = Vec::new();
    let mut j: u32 = 0;
    while j <= MAX_INVENTORY_SLOT
        invariant
            0 <= j <= MAX_INVENTORY_SLOT + 1,
            free_indices(inv@, *owner, 0) =~= free@.map_values(|v: u32| v as int) + free_indices(
                inv@,
                *owner,
                j as int,
            ),
        decreases MAX_INVENTORY_SLOT + 1 - j,
    {
        if !slot_index_taken(inv, owner, j) {
            free.push(j);
            proof {
                assert(free@.map_values(|v: u32| v as int) =~= free@.drop_last().map_values(
                    |v: u32| v as int,
                ) + seq![j as int]);
            }
        }
        j = j + 1;
    }
    proof {
        assert(free_indices(inv@, *owner, j as int) =~= Seq::<int>::empty());
        assert(free_indices(inv@, *owner, 0) =~= free@.map_values(|v: u32| v as int));
    }
    free
}

/// A successful add preserves the world's well-formedness.
proof fn lemma_add_item_wf(
    old: WorldState,
    new: WorldState,
    owner: Identity,
    item_id: Seq<char>,
    quantity: u32,
)
    requires
        old.wf(),
        has_item(old.items@, item_id),
        !add_item_short(old, owner, item_id, quantity),
        add_item_outcome(old, new, owner, item_id, quantity),
        new.users@ == old.users@,
        new.sessions@ == old.sessions@,
        new.players@ == old.players@,
        new.npcs@ == old.npcs@,
        new.items@ == old.items@,
        new.skills@ == old.skills@,
        new.messages@ == old.messages@,
    ensures
        new.wf(),
{
    let chunks = add_spill_chunks(old, owner, item_id, quantity);
    let free = free_indices(old.inventory@, owner, 0);
    let kept = add_kept_rows(old, owner, item_id, quantity);
    let ci = spec_item_index(old.items@, item_id);
    assert(is_item_at(old.items@, item_id, ci)) by {
        let w = choose|i: int|
            0 <= i < old.items@.len() && (#[trigger] old.items@[i]).item_id@ == item_id;
        assert(is_item_at(old.items@, item_id, w));
    }
    let max = old.items@[ci].max_stack_size as int;
    assert(max >= 1);
    lemma_stack_chunks(chunks.len() as int, max);
    lemma_free_indices(old.inventory@, owner, 0);
    if has_slot(old.inventory@, owner, item_id) {
        lemma_first_slot_exists(old.inventory@, owner, item_id);
        let ei = first_slot_index(old.inventory@, owner, item_id);
        let total = old.inventory@[ei].quantity + quantity;
        let into = if total <= max {
            total
        } else {
            max
        };
        lemma_stack_chunks(total - into, max);
        assert(1 <= into <= max);
        assert(new.slot_quantity_ok(kept[ei])) by {
            assert(is_item_at(new.items@, kept[ei].item_id@, ci));
        }
    } else {
        lemma_stack_chunks(quantity as int, max);
    }
    assert forall|i: int| 0 <= i < kept.len() implies 1 <= (#[trigger] kept[i]).quantity
        && kept[i].slot_index <= 100 && kept[i].inventory_id < new.next_id
        && new.slot_quantity_ok(kept[i]) by {
        assert(old.slot_quantity_ok(old.inventory@[i]));
        let w = choose|k: int|
            0 <= k < old.items@.len() && (#[trigger] old.items@[k]).item_id@
                == old.inventory@[i].item_id@ && old.inventory@[i].quantity
                <= old.items@[k].max_stack_size;
        if kept[i] == old.inventory@[i] {
            assert(0 <= w < new.items@.len() && new.items@[w].item_id@ == kept[i].item_id@
                && kept[i].quantity <= new.items@[w].max_stack_size);
        } else {
            assert(has_slot(old.inventory@, owner, item_id));
            assert(kept[i].item_id@ == item_id);
            assert(0 <= ci < new.items@.len() && new.items@[ci].item_id@ == kept[i].item_id@
                && kept[i].quantity <= new.items@[ci].max_stack_size);
        }
    }
    assert forall|i: int| 0 <= i < new.inventory@.len() implies 1 <= (
    #[trigger] new.inventory@[i]).quantity && new.inventory@[i].slot_index <= 100
        && new.inventory@[i].inventory_id < new.next_id && new.slot_quantity_ok(
        new.inventory@[i],
    ) by {
        if i < kept.len() {
            assert(new.inventory@.subrange(0, kept.len() as int)[i] == new.inventory@[i]);
            assert(new.inventory@[i] == kept[i]);
        } else {
            let k = i - kept.len();
            assert(0 <= k < chunks.len());
            assert(new.inventory@[kept.len() + k] == new.inventory@[i]);
            assert(new.inventory@[kept.len() + k].quantity == chunks[k]);
            lemma_stack_chunks(
                if has_slot(old.inventory@, owner, item_id) {
                    let ei = first_slot_index(old.inventory@, owner, item_id);
                    let total = old.inventory@[ei].quantity + quantity;
                    let into = if total <= max { total } else { max };
                    total - into
                } else {
                    quantity as int
                },
                max,
            );
            assert(1 <= chunks[k] <= max);
            assert(new.slot_quantity_ok(new.inventory@[i])) by {
                assert(0 <= ci < new.items@.len() && new.items@[ci].item_id@
                    == new.inventory@[i].item_id@ && new.inventory@[i].quantity
                    <= new.items@[ci].max_stack_size);
            }
        }
    }
    assert forall|i: int, j: int| 0 <= i < j < new.inventory@.len() implies (
    #[trigger] new.inventory@[i]).inventory_id != (#[trigger] new.inventory@[j]).inventory_id by {
        if i < kept.len() && j < kept.len() {
            assert(new.inventory@.subrange(0, kept.len() as int)[i] == new.inventory@[i]);
            assert(new.inventory@.subrange(0, kept.len() as int)[j] == new.inventory@[j]);
            assert(kept[i].inventory_id == old.inventory@[i].inventory_id);
            assert(kept[j].inventory_id == old.inventory@[j].inventory_id);
        } else if i < kept.len() {
            assert(new.inventory@.subrange(0, kept.len() as int)[i] == new.inventory@[i]);
            let k = j - kept.len();
            assert(new.inventory@[kept.len() + k] == new.inventory@[j]);
            assert(kept[i].inventory_id == old.inventory@[i].inventory_id);
            assert(old.inventory@[i].inventory_id < old.next_id);
            assert(new.inventory@[j].inventory_id >= old.next_id);
        } else {
            let ki = i - kept.len();
            let kj = j - kept.len();
            assert(new.inventory@[kept.len() + ki] == new.inventory@[i]);
            assert(new.inventory@[kept.len() + kj] == new.inventory@[j]);
        }
    }
    assert forall|i: int, j: int|
        0 <= i < j < new.inventory@.len() && (#[trigger] new.inventory@[i]).player_identity == (
        #[trigger] new.inventory@[j]).player_identity implies new.inventory@[i].slot_index
        != new.inventory@[j].slot_index by {
        if i < kept.len() && j < kept.len() {
            assert(new.inventory@.subrange(0, kept.len() as int)[i] == new.inventory@[i]);
            assert(new.inventory@.subrange(0, kept.len() as int)[j] == new.inventory@[j]);
            assert(kept[i].player_identity == old.inventory@[i].player_identity);
            assert(kept[i].slot_index == old.inventory@[i].slot_index);
            assert(kept[j].player_identity == old.inventory@[j].player_identity);
            assert(kept[j].slot_index == old.inventory@[j].slot_index);
        } else if i < kept.len() {
            assert(new.inventory@.subrange(0, kept.len() as int)[i] == new.inventory@[i]);
            let k = j - kept.len();
            assert(new.inventory@[kept.len() + k] == new.inventory@[j]);
            assert(!slot_used_at(old.inventory@, owner, free[k]));
            assert(kept[i].player_identity == old.inventory@[i].player_identity);
            assert(kept[i].slot_index == old.inventory@[i].slot_index);
            if new.inventory@[j].player_identity == old.inventory@[i].player_identity
                && new.inventory@[j].slot_index == old.inventory@[i].slot_index {
                assert(slot_used_at(old.inventory@, owner, free[k]));
            }
        } else {
            let ki = i - kept.len();
            let kj = j - kept.len();
            assert(new.inventory@[kept.len() + ki] == new.inventory@[i]);
            assert(new.inventory@[kept.len() + kj] == new.inventory@[j]);
            assert(free[ki] < free[kj]);
        }
    }
}

/// Adds a quantity of an item to an owner's inventory. An existing stack
/// of the item is filled up to the item's stack bound first; whatever
/// remains spills into fresh slots, one full stack at a time, each at
/// the lowest slot index still free. The add is atomic: when the spill
/// needs more fresh slots than the owner has free, nothing changes and
/// the inventory is reported full.
pub fn add_item_to_inventory(
    state: &mut WorldState,
    owner: &Identity,
    item_id: &str,
    quantity: u32,
) -> (r: Result<(), GameError>)
    requires
        old(state).wf(),
    ensures
        final(state).wf(),
        match r {
            Ok(_) => has_item(old(state).items@, item_id@) && !add_item_short(
                *old(state),
                *owner,
                item_id@,
                quantity,
            ) && add_item_outcome(*old(state), *final(state), *owner, item_id@, quantity)
                && final(state).users@ == old(state).users@ && final(state).sessions@
                == old(state).sessions@ && final(state).players@ == old(state).players@
                && final(state).npcs@ == old(state).npcs@ && final(state).items@
                == old(state).items@ && final(state).skills@ == old(state).skills@
                && final(state).messages@ == old(state).messages@,
            Err(GameError::NotFound) => !has_item(old(state).items@, item_id@) && *final(state)
                == *old(state),
            Err(GameError::Capacity) => has_item(old(state).items@, item_id@) && add_item_short(
                *old(state),
                *owner,
                item_id@,
                quantity,
            ) && *final(state) == *old(state),
            Err(_) => false,
        },
{
    let ci = match state.find_item_index(item_id) {
        Some(i) => i,
        None => {
            return Err(GameError::NotFound);
        },
    };
    proof {
        assert(is_item_at(state.items@, item_id@, ci as int));
        let w = spec_item_index(state.items@, item_id@);
        assert(is_item_at(state.items@, item_id@, w));
        assert(w == ci as int);
    }
    let max: u32 = state.items[ci].max_stack_size;
    let ei_opt = state.find_inventory_index(owner, item_id);
    proof {
        if let Some(ei) = ei_opt {
            assert(is_first_slot(state.inventory@, *owner, item_id@, ei as int));
            lemma_first_slot_exists(state.inventory@, *owner, item_id@);
            let f = first_slot_index(state.inventory@, *owner, item_id@);
            assert(is_first_slot(state.inventory@, *owner, item_id@, f));
            assert(f == ei as int);
        }
    }

    // How much lands in the existing stack, and what remains to spill.
    let mut rem: u64 = quantity as u64;
    let mut merged: u32 = 0;
    if let Some(ei) = ei_opt {
        let q = state.inventory[ei].quantity;
        let total: u64 = q as u64 + quantity as u64;
        if total <= max as u64 {
            merged = total as u32;
            rem = 0;
        } else {
            merged = max;
            rem = total - max as u64;
        }
    }
    let ghost chunks = add_spill_chunks(*old(state), *owner, item_id@, quantity);
    proof {
        assert(chunks == stack_chunks(rem as int, max as int));
        lemma_stack_chunks(rem as int, max as int);
    }

    // Count the chunks the spill needs, without mutating anything. The
    // count is capped just past the slot bound: more can never be placed.
    let mut needed: usize = 0;
    let mut rem_count: u64 = rem;
    while rem_count > 0 && needed <= 101
        invariant
            1 <= max,
            needed + stack_chunks(rem_count as int, max as int).len() == chunks.len(),
            rem_count <= rem,
            needed <= 102,
        decreases rem_count,
    {
        let take: u64 = if rem_count > max as u64 {
            max as u64
        } else {
            rem_count
        };
        rem_count = rem_count - take;
        needed = needed + 1;
    }

    let free = collect_free_indices(&state.inventory, owner);
    proof {
        lemma_free_indices(state.inventory@, *owner, 0);
        lemma_free_indices_len(state.inventory@, *owner);
        assert(free@.map_values(|v: u32| v as int).len() == free@.len());
    }
    if rem_count > 0 || needed > free.len() {
        proof {
            lemma_stack_chunks(rem_count as int, max as int);
        }
        return Err(GameError::Capacity);
    }
    if needed as u64 > u64::MAX - state.next_id {
        return Err(GameError::Capacity);
    }

    let ghost old_inv = state.inventory@;
    let ghost old_next = state.next_id;
    let ghost free_spec = free_indices(old(state).inventory@, *owner, 0);

    // Fill the existing stack first.
    if let Some(ei) = ei_opt {
        let mut row = state.inventory.remove(ei);
        row.quantity = merged;
        state.inventory.insert(ei, row);
        proof {
            assert(state.inventory@ =~= old_inv.update(
                ei as int,
                PlayerInventory { quantity: merged, ..old_inv[ei as int] },
            ));
        }
    }
    proof {
        assert(state.inventory@ == add_kept_rows(*old(state), *owner, item_id@, quantity));
    }
    let ghost kept = state.inventory@;

    // Spill the remainder into fresh slots at the lowest free indices.
    let mut rem_now: u64 = rem;
    let mut k: usize = 0;
    proof {
        assert(chunks.subrange(0, needed as int) =~= chunks);
    }
    while k < needed
        invariant
            1 <= max,
            k <= needed,
            needed == chunks.len(),
            chunks == stack_chunks(rem as int, max as int),
            needed <= free@.len(),
            free@.map_values(|v: u32| v as int) == free_spec,
            old_next + needed <= u64::MAX,
            state.next_id == old_next + k,
            state.users@ == old(state).users@,
            state.sessions@ == old(state).sessions@,
            state.players@ == old(state).players@,
            state.npcs@ == old(state).npcs@,
            state.items@ == old(state).items@,
            state.skills@ == old(state).skills@,
            state.messages@ == old(state).messages@,
            old_next == old(state).next_id,
            kept == add_kept_rows(*old(state), *owner, item_id@, quantity),
            chunks == add_spill_chunks(*old(state), *owner, item_id@, quantity),
            free_spec == free_indices(old(state).inventory@, *owner, 0),
            has_item(old(state).items@, item_id@),
            !add_item_short(*old(state), *owner, item_id@, quantity),
            state.inventory@.len() == kept.len() + k,
            state.inventory@.subrange(0, kept.len() as int) == kept,
            stack_chunks(rem_now as int, max as int) == chunks.subrange(k as int, needed as int),
            forall|j: int|
                0 <= j < k ==> {
                    let s = #[trigger] state.inventory@[kept.len() + j];
                    &&& s.inventory_id == old_next + j
                    &&& s.player_identity == *owner
                    &&& s.item_id@ == item_id@
                    &&& s.item_type@ == "item"@
                    &&& s.quantity == chunks[j]
                    &&& s.slot_index == free_spec[j]
                },
        decreases needed - k,
    {
        proof {
            assert(chunks.subrange(k as int, needed as int).len() > 0);
            assert(rem_now > 0);
            lemma_stack_chunks(rem_now as int, max as int);
            assert(stack_chunks(rem_now as int, max as int)[0] == chunks[k as int]);
        }
        let ghost rn_before = rem_now;
        let ghost k_before = k as int;
        let take: u64 = if rem_now > max as u64 {
            max as u64
        } else {
            rem_now
        };
        let slot = PlayerInventory {
            inventory_id: state.next_id,
            player_identity: *owner,
            item_type: "item".to_owned(),
            item_id: item_id.to_owned(),
            quantity: take as u32,
            slot_index: free[k],
        };
        state.next_id = state.next_id + 1;
        state.inventory.push(slot);
        rem_now = rem_now - take;
        k = k + 1;
        proof {
            assert(state.inventory@.subrange(0, kept.len() as int) =~= kept);
            assert(stack_chunks(rn_before as int, max as int) == seq![take as int]
                + stack_chunks(rem_now as int, max as int));
            assert forall|m: int|
                0 <= m < needed - k implies #[trigger] stack_chunks(rem_now as int, max as int)[m]
                == chunks.subrange(k as int, needed as int)[m] by {
                assert(stack_chunks(rn_before as int, max as int)[m + 1] == stack_chunks(
                    rem_now as int,
                    max as int,
                )[m]);
                assert(chunks.subrange(k_before, needed as int)[m + 1] == chunks.subrange(
                    k as int,
                    needed as int,
                )[m]);
            }
            assert(stack_chunks(rem_now as int, max as int) =~= chunks.subrange(
                k as int,
                needed as int,
            ));
        }
    }
    proof {
        assert(add_item_outcome(*old(state), *state, *owner, item_id@, quantity));
        lemma_add_item_wf(*old(state), *state, *owner, item_id@, quantity);
    }
    Ok(())
}


/// A stack's quantity bound only depends on the catalog, so it transfers
/// between states with equal catalogs.
proof fn lemma_slot_quantity_transfer(a: WorldState, b: WorldState, s: PlayerInventory)
    requires
        a.slot_quantity_ok(s),
        b.items@ == a.items@,
    ensures
        b.slot_quantity_ok(s),
{
    let w = choose|k: int|
        0 <= k < a.items@.len() && (#[trigger] a.items@[k]).item_id@ == s.item_id@ && s.quantity
            <= a.items@[k].max_stack_size;
    assert(0 <= w < b.items@.len() && b.items@[w].item_id@ == s.item_id@ && s.quantity
        <= b.items@[w].max_stack_size);
}

/// What the first stack of the item becomes after removing a quantity:
/// the row disappears when emptied, and is decremented in place
/// otherwise.
pub open spec fn remove_item_outcome(
    old: WorldState,
    new: WorldState,
    owner: Identity,
    item_id: Seq<char>,
    quantity: u32,
) -> bool {
    let ei = first_slot_index(old.inventory@, owner, item_id);
    &&& old.inventory@[ei].quantity >= quantity
    &&& if old.inventory@[ei].quantity == quantity {
        new.inventory@ == old.inventory@.remove(ei)
    } else {
        new.inventory@ == old.inventory@.update(
            ei,
            PlayerInventory {
                quantity: (old.inventory@[ei].quantity - quantity) as u32,
                ..old.inventory@[ei]
            },
        )
    }
}

/// Removes a quantity of an item from the caller's first stack of it.
/// The stack must hold at least that much; removing the whole stack
/// deletes the slot record.
pub fn remove_item_from_inventory(
    state: &mut WorldState,
    caller: &Identity,
    item_id: String,
    quantity: u32,
) -> (r: Result<(), GameError>)
    requires
        old(state).wf(),
    ensures
        final(state).wf(),
        match r {
            Ok(_) => has_player(old(state).players@, *caller) && has_slot(
                old(state).inventory@,
                *caller,
                item_id@,
            ) && remove_item_outcome(*old(state), *final(state), *caller, item_id@, quantity)
                && final(state).users@ == old(state).users@ && final(state).sessions@
                == old(state).sessions@ && final(state).players@ == old(state).players@
                && final(state).npcs@ == old(state).npcs@ && final(state).items@
                == old(state).items@ && final(state).skills@ == old(state).skills@
                && final(state).messages@ == old(state).messages@ && final(state).next_id
                == old(state).next_id,
            Err(GameError::NotFound) => (!has_player(old(state).players@, *caller) || !has_slot(
                old(state).inventory@,
                *caller,
                item_id@,
            )) && *final(state) == *old(state),
            Err(GameError::Validation) => has_player(old(state).players@, *caller) && has_slot(
                old(state).inventory@,
                *caller,
                item_id@,
            ) && old(state).inventory@[first_slot_index(old(state).inventory@, *caller, item_id@)]
                .quantity < quantity && *final(state) == *old(state),
            Err(_) => false,
        },
{
    if state.find_player_index(caller).is_none() {
        return Err(GameError::NotFound);
    }
    let ei = match state.find_inventory_index(caller, item_id.as_str()) {
        Some(i) => i,
        None => {
            return Err(GameError::NotFound);
        },
    };
    proof {
        assert(is_first_slot(state.inventory@, *caller, item_id@, ei as int));
        lemma_first_slot_exists(state.inventory@, *caller, item_id@);
        let f = first_slot_index(state.inventory@, *caller, item_id@);
        assert(is_first_slot(state.inventory@, *caller, item_id@, f));
        assert(f == ei as int);
    }
    let q = state.inventory[ei].quantity;
    if q < quantity {
        return Err(GameError::Validation);
    }
    if q == quantity {
        state.inventory.remove(ei);
        proof {
            let new_inv = state.inventory@;
            let old_inv = old(state).inventory@;
            assert forall|i: int| 0 <= i < new_inv.len() implies 1 <= (
            #[trigger] new_inv[i]).quantity && new_inv[i].slot_index <= 100
                && new_inv[i].inventory_id < state.next_id && state.slot_quantity_ok(
                new_inv[i],
            ) by {
                let src: int = if i < ei as int { i } else { i + 1 };
                assert(new_inv[i] == old_inv[src]);
                lemma_slot_quantity_transfer(*old(state), *state, old_inv[src]);
            }
            assert forall|i: int, j: int| 0 <= i < j < new_inv.len() implies (
            #[trigger] new_inv[i]).inventory_id != (#[trigger] new_inv[j]).inventory_id
                && ((new_inv[i].player_identity == new_inv[j].player_identity)
                ==> new_inv[i].slot_index != new_inv[j].slot_index) by {
                let si: int = if i < ei as int { i } else { i + 1 };
                let sj: int = if j < ei as int { j } else { j + 1 };
                assert(new_inv[i] == old_inv[si]);
                assert(new_inv[j] == old_inv[sj]);
            }
        }
    } else {
        let mut row = state.inventory.remove(ei);
        row.quantity = q - quantity;
        state.inventory.insert(ei, row);
        proof {
            let old_inv = old(state).inventory@;
            let updated = PlayerInventory {
                quantity: (q - quantity) as u32,
                ..old_inv[ei as int]
            };
            assert(state.inventory@ =~= old_inv.update(ei as int, updated));
            assert forall|i: int| 0 <= i < state.inventory@.len() implies 1 <= (
            #[trigger] state.inventory@[i]).quantity && state.inventory@[i].slot_index <= 100
                && state.inventory@[i].inventory_id < state.next_id && state.slot_quantity_ok(
                state.inventory@[i],
            ) by {
                if i == ei as int {
                    assert(old(state).slot_quantity_ok(old_inv[i]));
                    let w = choose|k: int|
                        0 <= k < old(state).items@.len() && (#[trigger] old(state).items@[k])
                            .item_id@ == old_inv[i].item_id@ && old_inv[i].quantity
                            <= old(state).items@[k].max_stack_size;
                    assert(0 <= w < state.items@.len() && state.items@[w].item_id@
                        == state.inventory@[i].item_id@ && state.inventory@[i].quantity
                        <= state.items@[w].max_stack_size);
                } else {
                    assert(state.inventory@[i] == old_inv[i]);
                    lemma_slot_quantity_transfer(*old(state), *state, old_inv[i]);
                }
            }
        }
    }
    Ok(())
}

/// How much health using one unit of an item restores.
pub open spec fn heal_of(item: crate::state::GameItem) -> int {
    match item.heal_amount {
        Some(h) => h as int,
        None => 0,
    }
}

/// A player's health after a heal: raised by the amount, capped at the
/// player's maximum.
pub open spec fn healed_health(p: crate::state::Player, heal: int) -> int {
    if p.health + heal <= p.max_health {
        p.health + heal
    } else {
        p.max_health as int
    }
}

/// Uses one unit of a consumable item from the caller's inventory: its
/// heal effect raises the caller's health toward the maximum, and exactly
/// one unit is consumed from the first stack. A non-consumable item
/// cannot be used.
pub fn use_item(state: &mut WorldState, caller: &Identity, item_id: String) -> (r: Result<
    (),
    GameError,
>)
    requires
        old(state).wf(),
    ensures
        final(state).wf(),
        match r {
            Ok(_) => exists|pi: int, ci: int|
                {
                    &&& 0 <= pi < old(state).players@.len()
                    &&& (#[trigger] old(state).players@[pi]).identity == *caller
                    &&& 0 <= ci < old(state).items@.len()
                    &&& (#[trigger] old(state).items@[ci]).item_id@ == item_id@
                    &&& old(state).items@[ci].item_type@ == "consumable"@
                    &&& has_slot(old(state).inventory@, *caller, item_id@)
                    &&& final(state).players@ == old(state).players@.update(
                        pi,
                        crate::state::Player {
                            health: healed_health(
                                old(state).players@[pi],
                                heal_of(old(state).items@[ci]),
                            ) as u32,
                            ..old(state).players@[pi]
                        },
                    )
                    &&& remove_item_outcome(*old(state), *final(state), *caller, item_id@, 1)
                } && final(state).users@ == old(state).users@ && final(state).sessions@
                == old(state).sessions@ && final(state).npcs@ == old(state).npcs@ && final(state).items@ == old(state).items@ && final(state).skills@ == old(state).skills@ && final(state).messages@ == old(state).messages@ && final(state).next_id == old(state).next_id,
            Err(GameError::NotFound) => (!has_player(old(state).players@, *caller) || !has_item(
                old(state).items@,
                item_id@,
            ) || !has_slot(old(state).inventory@, *caller, item_id@)) && *final(state) == *old(state),
            Err(GameError::State) => has_player(old(state).players@, *caller) && has_slot(
                old(state).inventory@,
                *caller,
                item_id@,
            ) && exists|ci: int|
                {
                    &&& 0 <= ci < old(state).items@.len()
                    &&& (#[trigger] old(state).items@[ci]).item_id@ == item_id@
                    &&& old(state).items@[ci].item_type@ != "consumable"@
                } && *final(state) == *old(state),
            Err(_) => false,
        },
{
    let pi = match state.find_player_index(caller) {
        Some(i) => i,
        None => {
            return Err(GameError::NotFound);
        },
    };
    let ci = match state.find_item_index(item_id.as_str()) {
        Some(i) => i,
        None => {
            return Err(GameError::NotFound);
        },
    };
    let ei = match state.find_inventory_index(caller, item_id.as_str()) {
        Some(i) => i,
        None => {
            return Err(GameError::NotFound);
        },
    };
    proof {
        reveal_strlit("consumable");
        assert(is_first_slot(state.inventory@, *caller, item_id@, ei as int));
        lemma_first_slot_exists(state.inventory@, *caller, item_id@);
        let f = first_slot_index(state.inventory@, *caller, item_id@);
        assert(is_first_slot(state.inventory@, *caller, item_id@, f));
        assert(f == ei as int);
        assert(state.inventory@[ei as int].quantity >= 1);
    }
    if !crate::strutil::str_eq(state.items[ci].item_type.as_str(), "consumable") {
        return Err(GameError::State);
    }
    let heal: u32 = match state.items[ci].heal_amount {
        Some(h) => h,
        None => 0,
    };
    let remove_result = remove_item_from_inventory(state, caller, item_id, 1);
    proof {
        assert(remove_result is Ok);
    }
    let mut row = state.players.remove(pi);
    let healed: u64 = row.health as u64 + heal as u64;
    if healed <= row.max_health as u64 {
        row.health = healed as u32;
    } else {
        row.health = row.max_health;
    }
    state.players.insert(pi, row);
    proof {
        assert(state.players@ =~= old(state).players@.update(
            pi as int,
            crate::state::Player {
                health: healed_health(
                    old(state).players@[pi as int],
                    heal_of(old(state).items@[ci as int]),
                ) as u32,
                ..old(state).players@[pi as int]
            },
        ));
        assert forall|i: int|
            0 <= i < state.players@.len() && (#[trigger] state.players@[i]).is_online implies
            crate::state::has_session(state.sessions@, state.players@[i].identity) by {
            assert(state.players@[i].identity == old(state).players@[i].identity);
            assert(state.players@[i].is_online == old(state).players@[i].is_online);
        }
    }
    Ok(())
}

/// Grants a quantity of an item to the player with the given username:
/// the item must exist and the username must name a player; the grant
/// then follows the same stacking rules as any inventory add.
pub fn give_item_to_player(
    state: &mut WorldState,
    target_username: String,
    item_id: String,
    quantity: u32,
) -> (r: Result<(), GameError>)
    requires
        old(state).wf(),
    ensures
        final(state).wf(),
        match r {
            Ok(_) => has_item(old(state).items@, item_id@) && exists|pi: int|
                {
                    &&& 0 <= pi < old(state).players@.len()
                    &&& (#[trigger] old(state).players@[pi]).username@ == target_username@
                    &&& forall|j: int|
                        0 <= j < pi ==> (#[trigger] old(state).players@[j]).username@
                            != target_username@
                    &&& add_item_outcome(
                        *old(state),
                        *final(state),
                        old(state).players@[pi].identity,
                        item_id@,
                        quantity,
                    )
                    &&& !add_item_short(
                        *old(state),
                        old(state).players@[pi].identity,
                        item_id@,
                        quantity,
                    )
                } && final(state).users@ == old(state).users@ && final(state).sessions@
                == old(state).sessions@ && final(state).players@ == old(state).players@
                && final(state).npcs@ == old(state).npcs@ && final(state).items@
                == old(state).items@ && final(state).skills@ == old(state).skills@
                && final(state).messages@ == old(state).messages@,
            Err(GameError::NotFound) => (!has_item(old(state).items@, item_id@) || forall|j: int|
                0 <= j < old(state).players@.len() ==> (#[trigger] old(state).players@[j])
                    .username@ != target_username@) && *final(state) == *old(state),
            Err(GameError::Capacity) => has_item(old(state).items@, item_id@) && exists|pi: int|
                {
                    &&& 0 <= pi < old(state).players@.len()
                    &&& (#[trigger] old(state).players@[pi]).username@ == target_username@
                    &&& add_item_short(
                        *old(state),
                        old(state).players@[pi].identity,
                        item_id@,
                        quantity,
                    )
                } && *final(state) == *old(state),
            Err(_) => false,
        },
{
    if state.find_item_index(item_id.as_str()).is_none() {
        return Err(GameError::NotFound);
    }
    let pi = match state.find_player_by_username(target_username.as_str()) {
        Some(i) => i,
        None => {
            return Err(GameError::NotFound);
        },
    };
    let target = Identity { bits: state.players[pi].identity.bits };
    let r = add_item_to_inventory(state, &target, item_id.as_str(), quantity);
    match r {
        Ok(_) => Ok(()),
        Err(e) => {
            proof {
                assert(e == GameError::Capacity);
            }
            Err(e)
        },
    }
}

/// The stacks an owner holds, in table order.
pub open spec fn owned_slots(inv: Seq<PlayerInventory>, owner: Identity) -> Seq<PlayerInventory>
    decreases inv.len(),
{
    if inv.len() == 0 {
        inv
    } else if inv.last().player_identity == owner {
        owned_slots(inv.drop_last(), owner).push(inv.last())
    } else {
        owned_slots(inv.drop_last(), owner)
    }
}

/// Whether two stack records carry the same values.
pub open spec fn slot_like(a: PlayerInventory, b: PlayerInventory) -> bool {
    &&& a.inventory_id == b.inventory_id
    &&& a.player_identity == b.player_identity
    &&& a.item_type@ == b.item_type@
    &&& a.item_id@ == b.item_id@
    &&& a.quantity == b.quantity
    &&& a.slot_index == b.slot_index
}

/// Returns copies of the stacks the caller holds, in table order.
pub fn get_player_inventory(state: &WorldState, caller: &Identity) -> (r: Result<
    Vec<PlayerInventory>,
    GameError,
>)
    ensures
        match r {
            Ok(v) => has_player(state.players@, *caller) && v@.len() == owned_slots(
                state.inventory@,
                *caller,
            ).len() && forall|k: int|
                0 <= k < v@.len() ==> slot_like(
                    #[trigger] v@[k],
                    owned_slots(state.inventory@, *caller)[k],
                ),
            Err(e) => e == GameError::NotFound && !has_player(state.players@, *caller),
        },
{
    if state.find_player_index(caller).is_none() {
        return Err(GameError::NotFound);
    }
    let mut out: Vec<PlayerInventory> = Vec::new();
    let mut i: usize = 0;
    while i < state.inventory.len()
        invariant
            0 <= i <= state.inventory@.len(),
            out@.len() == owned_slots(state.inventory@.subrange(0, i as int), *caller).len(),
            forall|k: int|
                0 <= k < out@.len() ==> slot_like(
                    #[trigger] out@[k],
                    owned_slots(state.inventory@.subrange(0, i as int), *caller)[k],
                ),
        decreases state.inventory@.len() - i,
    {
        proof {
            let pre = state.inventory@.subrange(0, i as int);
            let post = state.inventory@.subrange(0, i + 1);
            assert(post.drop_last() =~= pre);
            assert(post.last() == state.inventory@[i as int]);
        }
        let row = &state.inventory[i];
        if row.player_identity.bits == caller.bits {
            let copy = PlayerInventory {
                inventory_id: row.inventory_id,
                player_identity: row.player_identity,
                item_type: row.item_type.clone(),
                item_id: row.item_id.clone(),
                quantity: row.quantity,
                slot_index: row.slot_index,
            };
            out.push(copy);
        }
        i = i + 1;
    }
    proof {
        assert(state.inventory@.subrange(0, state.inventory@.len() as int) =~= state.inventory@);
    }
    Ok(out)
}

/// Puts a new item definition into the catalog. The stack bound must be
/// positive, and the id must not be taken.
pub fn add_item_definition(state: &mut WorldState, item: GameItem) -> (r: Result<(), GameError>)
    requires
        old(state).wf(),
    ensures
        final(state).wf(),
        match r {
            Ok(_) => item.max_stack_size >= 1 && !has_item(old(state).items@, item.item_id@)
                && final(state).items@ == old(state).items@.push(item) && final(state).users@
                == old(state).users@ && final(state).sessions@ == old(state).sessions@ && final(state).players@ == old(state).players@ && final(state).npcs@ == old(state).npcs@ && final(state).inventory@ == old(state).inventory@ && final(state).skills@ == old(state).skills@
                && final(state).messages@ == old(state).messages@ && final(state).next_id
                == old(state).next_id,
            Err(GameError::Validation) => item.max_stack_size == 0 && *final(state) == *old(state),
            Err(GameError::State) => item.max_stack_size >= 1 && has_item(
                old(state).items@,
                item.item_id@,
            ) && *final(state) == *old(state),
            Err(_) => false,
        },
{
    if item.max_stack_size == 0 {
        return Err(GameError::Validation);
    }
    if state.find_item_index(item.item_id.as_str()).is_some() {
        return Err(GameError::State);
    }
    state.items.push(item);
    proof {
        assert forall|i: int|
            0 <= i < state.inventory@.len() implies state.slot_quantity_ok(
            #[trigger] state.inventory@[i],
        ) by {
            assert(old(state).slot_quantity_ok(old(state).inventory@[i]));
            let w = choose|k: int|
                0 <= k < old(state).items@.len() && (#[trigger] old(state).items@[k]).item_id@
                    == old(state).inventory@[i].item_id@ && old(state).inventory@[i].quantity
                    <= old(state).items@[k].max_stack_size;
            assert(state.items@[w] == old(state).items@[w]);
        }
        assert forall|i: int, j: int| 0 <= i < j < state.items@.len() implies (
        #[trigger] state.items@[i]).item_id@ != (#[trigger] state.items@[j]).item_id@ by {
            if j == state.items@.len() - 1 {
                assert(!has_item(old(state).items@, item.item_id@));
                assert(state.items@[i] == old(state).items@[i]);
            }
        }
    }
    Ok(())
}

/// Seeds the catalog with the default items, skipping ids already
/// present: a sword, a health potion, leather armor, iron ore, and bread.
#[verifier::rlimit(60)]
pub fn create_default_items(state: &mut WorldState)
    requires
        old(state).wf(),
    ensures
        final(state).wf(),
        final(state).users@ == old(state).users@,
        final(state).sessions@ == old(state).sessions@,
        final(state).players@ == old(state).players@,
        final(state).npcs@ == old(state).npcs@,
        final(state).inventory@ == old(state).inventory@,
        final(state).skills@ == old(state).skills@,
        final(state).messages@ == old(state).messages@,
        final(state).next_id == old(state).next_id,
        final(state).items@.subrange(0, old(state).items@.len() as int) == old(state).items@,
        has_item(final(state).items@, "sword_iron"@),
        has_item(final(state).items@, "potion_health"@),
        has_item(final(state).items@, "armor_leather"@),
        has_item(final(state).items@, "ore_iron"@),
        has_item(final(state).items@, "food_bread"@),
        !has_item(old(state).items@, "potion_health"@) ==> exists|i: int|
            0 <= i < final(state).items@.len() && (#[trigger] final(state).items@[i]).item_id@
                == "potion_health"@ && final(state).items@[i].item_type@ == "consumable"@ && final(state).items@[i].max_stack_size == 10 && final(state).items@[i].heal_amount == Some(50u32),
        !has_item(old(state).items@, "food_bread"@) ==> exists|i: int|
            0 <= i < final(state).items@.len() && (#[trigger] final(state).items@[i]).item_id@
                == "food_bread"@ && final(state).items@[i].item_type@ == "consumable"@ && final(state).items@[i].max_stack_size == 20 && final(state).items@[i].heal_amount == Some(20u32),
    {
    proof {
        reveal_strlit("sword_iron");
        reveal_strlit("potion_health");
        reveal_strlit("armor_leather");
        reveal_strlit("ore_iron");
        reveal_strlit("food_bread");
    }
    seed_item(state, "sword_iron", "Iron Sword", "weapon", "A sturdy iron sword", 1, 100, None);
    let ghost s1 = state.items@;
    seed_item(
        state,
        "potion_health",
        "Health Potion",
        "consumable",
        "Restores 50 health",
        10,
        25,
        Some(50),
    );
    let ghost s2 = state.items@;
    let ghost potion_at: int = s2.len() as int - 1;
    proof {
        if !has_item(old(state).items@, "potion_health"@) {
            assert(!has_item(s1, "potion_health"@)) by {
                if has_item(s1, "potion_health"@) {
                    let w = choose|i: int|
                        0 <= i < s1.len() && (#[trigger] s1[i]).item_id@ == "potion_health"@;
                    assert(s1[w].item_id@ == "potion_health"@);
                    if w < old(state).items@.len() {
                        assert(s1[w] == old(state).items@[w]);
                        assert(has_item(old(state).items@, "potion_health"@));
                    } else {
                        assert(w == s1.len() - 1);
                        assert(s1[w].item_id@ == "sword_iron"@);
                        assert("sword_iron"@.len() != "potion_health"@.len());
                    }
                }
            }
        }
    }
    seed_item(
        state,
        "armor_leather",
        "Leather Armor",
        "armor",
        "Basic leather protection",
        1,
        50,
        None,
    );
    let ghost s3 = state.items@;
    seed_item(state, "ore_iron", "Iron Ore", "material", "Raw iron ore for crafting", 50, 10, None);
    let ghost s4 = state.items@;
    proof {
        if !has_item(old(state).items@, "food_bread"@) {
            assert(!has_item(s3, "food_bread"@)) by {
                if has_item(s3, "food_bread"@) {
                    let w = choose|i: int|
                        0 <= i < s3.len() && (#[trigger] s3[i]).item_id@ == "food_bread"@;
                    assert(s3[w].item_id@ == "food_bread"@);
                    if w < old(state).items@.len() {
                        assert(s3[w] == old(state).items@[w]);
                        assert(has_item(old(state).items@, "food_bread"@));
                    } else {
                        if w < s1.len() {
                            if w == s1.len() - 1 && s1.len() == old(state).items@.len() + 1 {
                                assert(s1[w] == s3[w]);
                                assert(s1[w].item_id@ == "sword_iron"@);
                                assert("sword_iron"@[0] != "food_bread"@[0]);
                            }
                            assert(s1[w] == s3[w]);
                        } else if w < s2.len() {
                            assert(s2[w] == s3[w]);
                            assert(s2[w].item_id@ == "potion_health"@);
                            assert("potion_health"@.len() != "food_bread"@.len());
                        } else {
                            assert(s3[w].item_id@ == "armor_leather"@);
                            assert("armor_leather"@.len() != "food_bread"@.len());
                        }
                    }
                }
            }
        }
    }
    seed_item(
        state,
        "food_bread",
        "Bread",
        "consumable",
        "Restores 20 health and reduces hunger",
        20,
        5,
        Some(20),
    );
    proof {
        assert(state.items@.subrange(0, old(state).items@.len() as int) =~= old(state).items@);
        if !has_item(old(state).items@, "potion_health"@) {
            assert(s2[potion_at].item_id@ == "potion_health"@);
            assert(state.items@[potion_at] == s2[potion_at]);
        }
        if !has_item(old(state).items@, "food_bread"@) {
            let bread_at: int = s4.len() as int;
            assert(state.items@[bread_at].item_id@ == "food_bread"@);
        }
    }
}

/// Inserts one catalog row unless its id is already taken.
fn seed_item(
    state: &mut WorldState,
    item_id: &str,
    item_name: &str,
    item_type: &str,
    description: &str,
    max_stack_size: u32,
    value: u32,
    heal_amount: Option<u32>,
) -> (r: bool)
    requires
        old(state).wf(),
        max_stack_size >= 1,
    ensures
        final(state).wf(),
        final(state).users@ == old(state).users@,
        final(state).sessions@ == old(state).sessions@,
        final(state).players@ == old(state).players@,
        final(state).npcs@ == old(state).npcs@,
        final(state).inventory@ == old(state).inventory@,
        final(state).skills@ == old(state).skills@,
        final(state).messages@ == old(state).messages@,
        final(state).next_id == old(state).next_id,
        has_item(old(state).items@, item_id@) ==> final(state).items@ == old(state).items@ && !r,
        !has_item(old(state).items@, item_id@) ==> r && final(state).items@.len() == old(state).items@.len() + 1 && final(state).items@.drop_last() == old(state).items@ && {
            let it = final(state).items@.last();
            &&& it.item_id@ == item_id@
            &&& it.item_name@ == item_name@
            &&& it.item_type@ == item_type@
            &&& it.description@ == description@
            &&& it.max_stack_size == max_stack_size
            &&& it.value == value
            &&& it.heal_amount == heal_amount
        },
        forall|id: Seq<char>|
            has_item(old(state).items@, id) ==> has_item(final(state).items@, id),
        forall|i: int|
            0 <= i < old(state).items@.len() ==> final(state).items@[i] == old(state).items@[i],
        has_item(final(state).items@, item_id@),
{
    if state.find_item_index(item_id).is_some() {
        proof {
            assert forall|id: Seq<char>|
                has_item(old(state).items@, id) implies has_item(final(state).items@, id) by {}
        }
        return false;
    }
    let item = GameItem {
        item_id: item_id.to_owned(),
        item_name: item_name.to_owned(),
        item_type: item_type.to_owned(),
        description: description.to_owned(),
        max_stack_size,
        value,
        heal_amount,
    };
    let result = add_item_definition(state, item);
    proof {
        assert(result is Ok);
        assert forall|id: Seq<char>|
            has_item(old(state).items@, id) implies has_item(final(state).items@, id) by {
            let w = choose|i: int|
                0 <= i < old(state).items@.len() && (#[trigger] old(state).items@[i]).item_id@
                    == id;
            assert(state.items@[w] == old(state).items@[w]);
        }
        assert(state.items@.drop_last() =~= old(state).items@);
        assert(state.items@[state.items@.len() - 1].item_id@ == item_id@);
    }
    true
}


/// Initializes the game mechanics: seeds the default item catalog.
pub fn initialize_game_mechanics(state: &mut WorldState) -> (r: Result<(), GameError>)
    requires
        old(state).wf(),
    ensures
        final(state).wf(),
        r is Ok,
        final(state).items@.subrange(0, old(state).items@.len() as int) == old(state).items@,
        has_item(final(state).items@, "sword_iron"@),
        has_item(final(state).items@, "potion_health"@),
        has_item(final(state).items@, "armor_leather"@),
        has_item(final(state).items@, "ore_iron"@),
        has_item(final(state).items@, "food_bread"@),
        final(state).users@ == old(state).users@,
        final(state).sessions@ == old(state).sessions@,
        final(state).players@ == old(state).players@,
        final(state).npcs@ == old(state).npcs@,
        final(state).inventory@ == old(state).inventory@,
        final(state).skills@ == old(state).skills@,
        final(state).messages@ == old(state).messages@,
        final(state).next_id == old(state).next_id,
{
    create_default_items(state);
    Ok(())
}

} // verus!
