//! Cargo carried on a vehicle.

use vstd::prelude::*;
use crate::parts::ResourceId;
use crate::seqs::{find, find_is_first, find_is_none, first_where, sum, sum_grows};

verus! {

/// Cargo, one slot per resource.
#[derive(Debug)]
pub struct VehicleInventory {
    pub items: Vec<(ResourceId, u32)>,
}

pub open spec fn slot_for(rid: ResourceId) -> spec_fn((ResourceId, u32)) -> bool {
    |s: (ResourceId, u32)| s.0 == rid
}

/// The quantity in the first slot for a resource.
pub open spec fn quantity(items: Seq<(ResourceId, u32)>, rid: ResourceId) -> int {
    match find(items, slot_for(rid)) {
        Some(s) => s.1 as int,
        None => 0,
    }
}

/// The index of the first slot for a resource.
pub open spec fn slot_index(items: Seq<(ResourceId, u32)>, rid: ResourceId) -> int {
    choose|i: int| first_where(items, slot_for(rid), i)
}

pub open spec fn has_slot(items: Seq<(ResourceId, u32)>, rid: ResourceId) -> bool {
    exists|i: int| first_where(items, slot_for(rid), i)
}

/// `items` with `qty` of a resource put in its slot, or in a new slot at the end. A slot holds at
/// most `u32::MAX`.
pub open spec fn with_added(
    items: Seq<(ResourceId, u32)>,
    rid: ResourceId,
    qty: u32,
) -> Seq<(ResourceId, u32)> {
    if qty == 0 {
        items
    } else if has_slot(items, rid) {
        let i = slot_index(items, rid);
        let total = items[i].1 + qty;
        items.update(i, (rid, if total > u32::MAX {
            u32::MAX
        } else {
            total as u32
        }))
    } else {
        items.push((rid, qty))
    }
}

/// `items` with up to `qty` of a resource taken out of its slot.
pub open spec fn with_taken(
    items: Seq<(ResourceId, u32)>,
    rid: ResourceId,
    qty: u32,
) -> Seq<(ResourceId, u32)> {
    if has_slot(items, rid) {
        let i = slot_index(items, rid);
        items.update(i, (rid, if items[i].1 > qty {
            (items[i].1 - qty) as u32
        } else {
            0u32
        }))
    } else {
        items
    }
}

pub open spec fn quantity_at(items: Seq<(ResourceId, u32)>) -> spec_fn(int) -> int {
    |i: int| items[i].1 as int
}

/// All quantities together.
pub open spec fn total(items: Seq<(ResourceId, u32)>) -> int {
    sum(items.len() as int, quantity_at(items))
}

proof fn slot_is(items: Seq<(ResourceId, u32)>, rid: ResourceId, i: int)
    requires
        first_where(items, slot_for(rid), i),
    ensures
        slot_index(items, rid) == i,
        quantity(items, rid) == items[i].1,
{
    find_is_first(items, slot_for(rid), i);
    let k = slot_index(items, rid);
    if k < i {
        assert(!slot_for(rid)(items[k]));
    } else if i < k {
        assert(!slot_for(rid)(items[i]));
    }
}

impl VehicleInventory {
    pub fn new() -> (inv: VehicleInventory)
        ensures
            inv.items@.len() == 0,
    {
        VehicleInventory { items: Vec::new() }
    }

    /// The index of the first slot for a resource.
    fn find_slot(&self, rid: ResourceId) -> (r: Option<usize>)
        ensures
            match r {
                Some(i) => first_where(self.items@, slot_for(rid), i as int) && i
                    == slot_index(self.items@, rid) && has_slot(self.items@, rid) && quantity(
                    self.items@,
                    rid,
                ) == self.items@[i as int].1,
                None => !has_slot(self.items@, rid) && quantity(self.items@, rid) == 0,
            },
    {
        let ghost p = slot_for(rid);
        let mut i: usize = 0;
        while i < self.items.len()
            invariant
                i <= self.items.len(),
                p == slot_for(rid),
                forall|j: int| 0 <= j < i ==> !p(#[trigger] self.items@[j]),
            decreases self.items.len() - i,
        {
            if self.items[i].0 == rid {
                proof {
                    assert(first_where(self.items@, p, i as int));
                    slot_is(self.items@, rid, i as int);
                }
                return Some(i);
            }
            i += 1;
        }
        proof {
            find_is_none(self.items@, p);
        }
        None
    }

    pub fn total_qty(&self) -> (n: u32)
        requires
            total(self.items@) <= u32::MAX,
        ensures
            n == total(self.items@),
    {
        let ghost f = quantity_at(self.items@);
        let mut n: u32 = 0;
        let mut i: usize = 0;
        while i < self.items.len()
            invariant
                i <= self.items.len(),
                f == quantity_at(self.items@),
                n == sum(i as int, f),
                sum(self.items@.len() as int, f) <= u32::MAX,
            decreases self.items.len() - i,
        {
            proof {
                sum_grows(i + 1, self.items@.len() as int, f);
            }
            n = n + self.items[i].1;
            i += 1;
        }
        n
    }

    /// No slot holds anything.
    pub fn is_empty(&self) -> (b: bool)
        ensures
            b == forall|i: int| 0 <= i < self.items@.len() ==> (#[trigger] self.items@[i]).1 == 0,
    {
        let mut i: usize = 0;
        while i < self.items.len()
            invariant
                i <= self.items.len(),
                forall|j: int| 0 <= j < i ==> (#[trigger] self.items@[j]).1 == 0,
            decreases self.items.len() - i,
        {
            if self.items[i].1 != 0 {
                assert(self.items@[i as int].1 != 0);
                return false;
            }
            i += 1;
        }
        true
    }

    pub fn add(&mut self, rid: ResourceId, qty: u32)
        ensures
            final(self).items@ == with_added(old(self).items@, rid, qty),
    {
        if qty == 0 {
            return;
        }
        match self.find_slot(rid) {
            Some(i) => {
                let held: u32 = self.items[i].1;
                self.items.set(i, (rid, held.saturating_add(qty)));
            },
            None => {
                self.items.push((rid, qty));
            },
        }
    }

    pub fn qty_of(&self, rid: ResourceId) -> (n: u32)
        ensures
            n == quantity(self.items@, rid),
    {
        match self.find_slot(rid) {
            Some(i) => self.items[i].1,
            None => 0,
        }
    }

    /// Takes out up to `qty` of a resource; returns how much came out.
    pub fn take(&mut self, rid: ResourceId, qty: u32) -> (taken: u32)
        ensures
            final(self).items@ == with_taken(old(self).items@, rid, qty),
            taken == (if quantity(old(self).items@, rid) < qty {
                quantity(old(self).items@, rid)
            } else {
                qty as int
            }),
    {
        match self.find_slot(rid) {
            Some(i) => {
                let held: u32 = self.items[i].1;
                let taken: u32 = if held < qty {
                    held
                } else {
                    qty
                };
                self.items.set(i, (rid, held - taken));
                taken
            },
            None => 0,
        }
    }
}

impl Default for VehicleInventory {
    fn default() -> (inv: VehicleInventory)
        ensures
            inv.items@.len() == 0,
    {
        VehicleInventory { items: Vec::new() }
    }
}

proof fn found_slot(items: Seq<(ResourceId, u32)>, rid: ResourceId)
    ensures
        has_slot(items, rid) ==> first_where(items, slot_for(rid), slot_index(items, rid)),
        !has_slot(items, rid) ==> quantity(items, rid) == 0,
        has_slot(items, rid) ==> quantity(items, rid) == items[slot_index(items, rid)].1,
{
    if has_slot(items, rid) {
        slot_is(items, rid, slot_index(items, rid));
    } else {
        find_is_none(items, slot_for(rid));
    }
}

proof fn same_slots(a: Seq<(ResourceId, u32)>, b: Seq<(ResourceId, u32)>, rid: ResourceId)
    requires
        a.len() <= b.len(),
        forall|i: int| 0 <= i < a.len() ==> (#[trigger] a[i]).0 == b[i].0,
        forall|i: int| a.len() <= i < b.len() ==> (#[trigger] b[i]).0 != rid,
    ensures
        has_slot(a, rid) == has_slot(b, rid),
        has_slot(a, rid) ==> slot_index(a, rid) == slot_index(b, rid),
{
    if has_slot(a, rid) {
        let i = slot_index(a, rid);
        found_slot(a, rid);
        assert(first_where(b, slot_for(rid), i)) by {
            assert forall|j: int| 0 <= j < i implies !slot_for(rid)(#[trigger] b[j]) by {
                assert(!slot_for(rid)(a[j]));
            }
        }
        slot_is(b, rid, i);
    }
    if has_slot(b, rid) {
        let i = slot_index(b, rid);
        found_slot(b, rid);
        assert(i < a.len()) by {
            if i >= a.len() {
                assert(b[i].0 != rid);
            }
        }
        assert(first_where(a, slot_for(rid), i)) by {
            assert forall|j: int| 0 <= j < i implies !slot_for(rid)(#[trigger] a[j]) by {
                assert(!slot_for(rid)(b[j]));
            }
        }
        slot_is(a, rid, i);
    }
}

/// Adding a resource raises its own quantity by what was added, up to the greatest `u32`, and
/// leaves every other quantity alone.
pub proof fn adding_changes_one_quantity(
    items: Seq<(ResourceId, u32)>,
    rid: ResourceId,
    qty: u32,
    other: ResourceId,
)
    ensures
        quantity(with_added(items, rid, qty), rid) == (if quantity(items, rid) + qty > u32::MAX {
            u32::MAX as int
        } else {
            quantity(items, rid) + qty
        }),
        other != rid ==> quantity(with_added(items, rid, qty), other) == quantity(items, other),
{
    let after = with_added(items, rid, qty);
    found_slot(items, rid);
    found_slot(items, other);
    found_slot(after, rid);
    found_slot(after, other);
    if qty > 0 {
        if has_slot(items, rid) {
            same_slots(items, after, rid);
            same_slots(items, after, other);
        } else {
            assert(first_where(after, slot_for(rid), items.len() as int)) by {
                find_is_none(items, slot_for(rid));
                assert forall|j: int| 0 <= j < items.len() implies !slot_for(rid)(
                    #[trigger] after[j],
                ) by {
                    assert(!slot_for(rid)(items[j]));
                }
            }
            slot_is(after, rid, items.len() as int);
            if other != rid {
                same_slots(items, after, other);
            }
        }
    }
}

/// Taking a resource lowers its own quantity by what came out and leaves every other alone.
pub proof fn taking_changes_one_quantity(
    items: Seq<(ResourceId, u32)>,
    rid: ResourceId,
    qty: u32,
    other: ResourceId,
)
    ensures
        quantity(with_taken(items, rid, qty), rid) == (if quantity(items, rid) > qty {
            quantity(items, rid) - qty
        } else {
            0
        }),
        other != rid ==> quantity(with_taken(items, rid, qty), other) == quantity(items, other),
{
    let after = with_taken(items, rid, qty);
    found_slot(items, rid);
    found_slot(items, other);
    found_slot(after, rid);
    found_slot(after, other);
    if has_slot(items, rid) {
        same_slots(items, after, rid);
        same_slots(items, after, other);
    }
}

/// What was added can be taken out again, which restores every quantity, as long as the slot had
/// room for all of it.
pub proof fn taking_undoes_adding(
    items: Seq<(ResourceId, u32)>,
    rid: ResourceId,
    qty: u32,
    any: ResourceId,
)
    requires
        quantity(items, rid) + qty <= u32::MAX,
    ensures
        quantity(with_added(items, rid, qty), rid) >= qty,
        quantity(with_taken(with_added(items, rid, qty), rid, qty), any) == quantity(items, any),
{
    adding_changes_one_quantity(items, rid, qty, any);
    taking_changes_one_quantity(with_added(items, rid, qty), rid, qty, any);
}

/// The total counts every slot.
pub proof fn totals_count_every_slot(items: Seq<(ResourceId, u32)>, s: (ResourceId, u32))
    ensures
        total(Seq::empty()) == 0,
        total(items.push(s)) == total(items) + s.1,
{
    let n = items.len() as int;
    let f = quantity_at(items);
    let g = quantity_at(items.push(s));
    assert forall|i: int| 0 <= i < n implies #[trigger] f(i) == g(i) by {
        assert(items.push(s)[i] == items[i]);
    }
    crate::seqs::sum_agrees(n, f, g);
    assert(items.push(s)[n] == s);
}

} // verus!
