//! Yards, the queue of ordered vehicles, and what they cost.

use vstd::prelude::*;
use crate::catalog::VehicleData;
use crate::design::{VehicleDesign, VehicleDesignRegistry};
use crate::geometry::IVec3;
use crate::grid::{VehicleCell, VehicleModuleInstance};
use crate::inventory::{
    adding_changes_one_quantity, has_slot, quantity, with_added, VehicleInventory,
};
use crate::parts::{Entity, ResourceId, TechId, VehicleDesignId, VehiclePartKind};
use crate::seqs::{
    capped_sum, collect, collect_contains, count, find, find_is_first, find_is_none, sum, sum_agrees,
    sum_grows,
};
use crate::tech::holds_tech;
use crate::tiles::{drop_entity, entities_at, entity_at, no_entities, put_entity};

verus! {

/// Ticks between two passes over the queue.
pub const ASSEMBLY_CADENCE_TICKS: u64 = 60;

/// A built yard: where vehicles are assembled and parked.
#[derive(Clone, Copy, Debug)]
pub struct VehicleYard {
    pub faction_id: u32,
    pub tile: (i32, i32),
}

/// The yard on each tile.
pub struct VehicleYardMap(pub ahash::AHashMap<(i32, i32), Entity>);

impl VehicleYardMap {
    pub open spec fn at(self) -> Map<(i32, i32), Entity> {
        entities_at(self.0)
    }

    pub fn new() -> (m: VehicleYardMap)
        ensures
            m.at() == Map::<(i32, i32), Entity>::empty(),
    {
        VehicleYardMap(no_entities())
    }

    /// The yard on a tile.
    pub fn get(&self, tile: (i32, i32)) -> (r: Option<Entity>)
        ensures
            r == (if self.at().dom().contains(tile) {
                Some(self.at()[tile])
            } else {
                None
            }),
    {
        entity_at(&self.0, tile)
    }

    /// Enters a yard that was built.
    pub fn on_vehicle_yard_add(&mut self, entity: Entity, yard: VehicleYard)
        ensures
            final(self).at() == old(self).at().insert(yard.tile, entity),
    {
        put_entity(&mut self.0, yard.tile, entity);
    }

    /// Takes out a yard that is gone; a tile that another yard has taken over stays.
    pub fn on_vehicle_yard_remove(&mut self, entity: Entity, yard: VehicleYard)
        ensures
            final(self).at() == (if old(self).at().dom().contains(yard.tile)
                && old(self).at()[yard.tile] == entity {
                old(self).at().remove(yard.tile)
            } else {
                old(self).at()
            }),
    {
        match entity_at(&self.0, yard.tile) {
            Some(e) => {
                if e == entity {
                    drop_entity(&mut self.0, yard.tile);
                }
            },
            None => {},
        }
    }
}

/// A cell that takes tools to make.
pub open spec fn mechanical(kind: VehiclePartKind) -> bool {
    kind == VehiclePartKind::Wheel || kind == VehiclePartKind::Axle || kind
        == VehiclePartKind::WeaponMount
}

/// What the first `n` cells cost, line by line.
pub open spec fn cell_lines(
    cells: Seq<(IVec3, VehicleCell)>,
    tools: ResourceId,
    n: int,
) -> Seq<(ResourceId, u32)>
    decreases n,
{
    if n <= 0 {
        Seq::empty()
    } else {
        let c = cells[n - 1].1;
        let before = cell_lines(cells, tools, n - 1).push((c.material, 1u32));
        if mechanical(c.kind) {
            before.push((tools, 1u32))
        } else {
            before
        }
    }
}

/// What the first `n` modules cost on top, line by line.
pub open spec fn module_lines(
    modules: Seq<VehicleModuleInstance>,
    data: VehicleData,
    n: int,
) -> Seq<(ResourceId, u32)>
    decreases n,
{
    if n <= 0 {
        Seq::empty()
    } else {
        let before = module_lines(modules, data, n - 1);
        match data.module_spec(modules[n - 1].def) {
            Some(d) => before + d.extra_bill@,
            None => before,
        }
    }
}

/// Everything that a design costs, line by line.
pub open spec fn cost_lines(
    design: VehicleDesign,
    data: VehicleData,
    tools: ResourceId,
) -> Seq<(ResourceId, u32)> {
    cell_lines(design.grid.cells@, tools, design.grid.cells@.len() as int) + module_lines(
        design.grid.modules@,
        data,
        design.grid.modules@.len() as int,
    )
}

/// The first `n` lines grouped by resource, in the order in which resources first occur.
pub open spec fn grouped(lines: Seq<(ResourceId, u32)>, n: int) -> Seq<(ResourceId, u32)>
    decreases n,
{
    if n <= 0 {
        Seq::empty()
    } else {
        with_added(grouped(lines, n - 1), lines[n - 1].0, lines[n - 1].1)
    }
}

/// What a line asks for of a resource.
pub open spec fn line_amount_of(
    lines: Seq<(ResourceId, u32)>,
    rid: ResourceId,
) -> spec_fn(int) -> int {
    |i: int|
        if lines[i].0 == rid {
            lines[i].1 as int
        } else {
            0
        }
}

/// What all lines together ask for of a resource.
pub open spec fn total_of(lines: Seq<(ResourceId, u32)>, rid: ResourceId) -> int {
    sum(lines.len() as int, line_amount_of(lines, rid))
}

/// What is asked for of each resource fits in thirty-two bits.
pub open spec fn lines_fit(lines: Seq<(ResourceId, u32)>) -> bool {
    forall|rid: ResourceId| #[trigger] total_of(lines, rid) <= u32::MAX
}

/// What a module costs of a resource.
pub open spec fn module_cost(
    modules: Seq<VehicleModuleInstance>,
    data: VehicleData,
    rid: ResourceId,
) -> spec_fn(int) -> int {
    |k: int|
        match data.module_spec(modules[k].def) {
            Some(d) => total_of(d.extra_bill@, rid),
            None => 0,
        }
}

/// How many cells are made of a resource.
pub open spec fn made_of(cells: Seq<(IVec3, VehicleCell)>, rid: ResourceId) -> spec_fn(
    int,
) -> bool {
    |i: int| cells[i].1.material == rid
}

/// A cell takes a tool.
pub open spec fn tooled(cells: Seq<(IVec3, VehicleCell)>) -> spec_fn(int) -> bool {
    |i: int| mechanical(cells[i].1.kind)
}

/// What a design costs of a resource: one unit for each cell made of it, one for each wheel, axle
/// or weapon mount if it is the tools, and what the modules ask for.
pub open spec fn price(
    design: VehicleDesign,
    data: VehicleData,
    tools: ResourceId,
    rid: ResourceId,
) -> int {
    let cells = design.grid.cells@;
    let modules = design.grid.modules@;
    count(cells.len() as int, made_of(cells, rid)) + (if rid == tools {
        count(cells.len() as int, tooled(cells)) as int
    } else {
        0
    }) + sum(modules.len() as int, module_cost(modules, data, rid))
}

/// The bill of a design: one unit of material for each cell, one tool for each wheel, axle or
/// weapon mount, and what its modules cost on top, grouped by resource.
pub fn design_bill(design: &VehicleDesign, data: &VehicleData, tools: ResourceId) -> (bill: Vec<
    (ResourceId, u32),
>)
    requires
        lines_fit(cost_lines(*design, *data, tools)),
    ensures
        bill@ == bill_of(*design, *data, tools),
        one_slot_each(bill@),
        forall|i: int| 0 <= i < bill@.len() ==> (#[trigger] bill@[i]).1 > 0,
        forall|rid: ResourceId| #[trigger]
            quantity(bill@, rid) == price(*design, *data, tools, rid),
{
    let ghost cells = design.grid.cells@;
    let ghost modules = design.grid.modules@;
    let ghost all = cost_lines(*design, *data, tools);
    let mut bill = VehicleInventory::new();
    let mut i: usize = 0;
    let ghost mut done = Seq::<(ResourceId, u32)>::empty();
    while i < design.grid.cells.len()
        invariant
            i <= design.grid.cells.len(),
            cells == design.grid.cells@,
            done == cell_lines(cells, tools, i as int),
            bill.items@ == grouped(done, done.len() as int),
        decreases design.grid.cells.len() - i,
    {
        let c = design.grid.cells[i].1;
        let ghost before = done;
        bill.add(c.material, 1);
        proof {
            done = before.push((c.material, 1u32));
            grouped_agrees(before, done, before.len() as int);
        }
        let tooled: bool = match c.kind {
            VehiclePartKind::Wheel | VehiclePartKind::Axle | VehiclePartKind::WeaponMount => true,
            _ => false,
        };
        if tooled {
            let ghost mid = done;
            bill.add(tools, 1);
            proof {
                done = mid.push((tools, 1u32));
                grouped_agrees(mid, done, mid.len() as int);
            }
        }
        i += 1;
    }
    let ghost base = done;
    let mut k: usize = 0;
    assert(done =~= base + module_lines(modules, *data, 0));
    while k < design.grid.modules.len()
        invariant
            k <= design.grid.modules.len(),
            modules == design.grid.modules@,
            done == base + module_lines(modules, *data, k as int),
            bill.items@ == grouped(done, done.len() as int),
        decreases design.grid.modules.len() - k,
    {
        match data.module_def(design.grid.modules[k].def) {
            Some(d) => {
                let ghost before = done;
                let mut j: usize = 0;
                assert(done =~= before + d.extra_bill@.take(0));
                while j < d.extra_bill.len()
                    invariant
                        j <= d.extra_bill.len(),
                        done == before + d.extra_bill@.take(j as int),
                        bill.items@ == grouped(done, done.len() as int),
                    decreases d.extra_bill.len() - j,
                {
                    let (rid, qty) = d.extra_bill[j];
                    let ghost mid = done;
                    bill.add(rid, qty);
                    proof {
                        done = mid.push((rid, qty));
                        grouped_agrees(mid, done, mid.len() as int);
                        assert(done =~= before + d.extra_bill@.take(j + 1));
                    }
                    j += 1;
                }
                proof {
                    assert(d.extra_bill@.take(j as int) =~= d.extra_bill@);
                    assert(done =~= base + module_lines(modules, *data, k + 1));
                }
            },
            None => {},
        }
        k += 1;
    }
    assert(done =~= all);
    proof {
        assert forall|rid: ResourceId| #[trigger]
            quantity(bill.items@, rid) == price(*design, *data, tools, rid) by {
            bills_add_up(all, rid);
            lines_are_priced(*design, *data, tools, rid);
        }
        bills_add_up(all, tools);
    }
    bill.items
}

proof fn grouped_agrees(a: Seq<(ResourceId, u32)>, b: Seq<(ResourceId, u32)>, n: int)
    requires
        n <= a.len() <= b.len(),
        forall|i: int| 0 <= i < a.len() ==> a[i] == b[i],
    ensures
        grouped(a, n) == grouped(b, n),
    decreases n,
{
    if n > 0 {
        grouped_agrees(a, b, n - 1);
    }
}

/// Grouping loses nothing: for each resource the bill asks for the sum of its lines, no resource
/// has two entries, and no entry is empty.
pub proof fn bills_add_up(lines: Seq<(ResourceId, u32)>, rid: ResourceId)
    requires
        lines_fit(lines),
    ensures
        quantity(grouped(lines, lines.len() as int), rid) == total_of(lines, rid),
        one_slot_each(grouped(lines, lines.len() as int)),
        forall|i: int|
            0 <= i < grouped(lines, lines.len() as int).len() ==> (#[trigger] grouped(
                lines,
                lines.len() as int,
            )[i]).1 > 0,
{
    assert forall|r: ResourceId| #[trigger]
        sum(lines.len() as int, line_amount_of(lines, r)) <= u32::MAX by {
        assert(total_of(lines, r) <= u32::MAX);
    }
    grouping(lines, rid, lines.len() as int);
}

/// The lines of a design ask for its price.
proof fn lines_are_priced(
    design: VehicleDesign,
    data: VehicleData,
    tools: ResourceId,
    rid: ResourceId,
)
    ensures
        total_of(cost_lines(design, data, tools), rid) == price(design, data, tools, rid),
{
    let cells = design.grid.cells@;
    let modules = design.grid.modules@;
    let n = cells.len() as int;
    let m = modules.len() as int;
    totals_add(cell_lines(cells, tools, n), module_lines(modules, data, m), rid);
    cells_are_priced(cells, tools, rid, n);
    modules_are_priced(modules, data, rid, m);
}

proof fn cells_are_priced(
    cells: Seq<(IVec3, VehicleCell)>,
    tools: ResourceId,
    rid: ResourceId,
    n: int,
)
    requires
        0 <= n <= cells.len(),
    ensures
        total_of(cell_lines(cells, tools, n), rid) == count(n, made_of(cells, rid)) + (if rid
            == tools {
            count(n, tooled(cells)) as int
        } else {
            0
        }),
    decreases n,
{
    if n > 0 {
        cells_are_priced(cells, tools, rid, n - 1);
        let c = cells[n - 1].1;
        let before = cell_lines(cells, tools, n - 1);
        let one = seq![(c.material, 1u32)];
        let two = seq![(tools, 1u32)];
        totals_add(before, one, rid);
        assert(before + one =~= before.push((c.material, 1u32)));
        total_of_one((c.material, 1u32), rid);
        if mechanical(c.kind) {
            totals_add(before + one, two, rid);
            assert(before + one + two =~= (before + one).push((tools, 1u32)));
            total_of_one((tools, 1u32), rid);
        }
    }
}

proof fn modules_are_priced(
    modules: Seq<VehicleModuleInstance>,
    data: VehicleData,
    rid: ResourceId,
    n: int,
)
    requires
        0 <= n <= modules.len(),
    ensures
        total_of(module_lines(modules, data, n), rid) == sum(n, module_cost(modules, data, rid)),
    decreases n,
{
    if n > 0 {
        modules_are_priced(modules, data, rid, n - 1);
        match data.module_spec(modules[n - 1].def) {
            Some(d) => totals_add(module_lines(modules, data, n - 1), d.extra_bill@, rid),
            None => {},
        }
    }
}

proof fn total_of_one(l: (ResourceId, u32), rid: ResourceId)
    ensures
        total_of(seq![l], rid) == (if l.0 == rid {
            l.1 as int
        } else {
            0
        }),
{
    reveal_with_fuel(sum, 2);
}

proof fn totals_add(a: Seq<(ResourceId, u32)>, b: Seq<(ResourceId, u32)>, rid: ResourceId)
    ensures
        total_of(a + b, rid) == total_of(a, rid) + total_of(b, rid),
    decreases b.len(),
{
    if b.len() > 0 {
        let c = b.drop_last();
        totals_add(a, c, rid);
        sum_agrees(
            (a + c).len() as int,
            line_amount_of(a + c, rid),
            line_amount_of(a + b, rid),
        );
        sum_agrees(c.len() as int, line_amount_of(c, rid), line_amount_of(b, rid));
    } else {
        assert(a + b =~= a);
    }
}

/// No resource has two entries.
pub open spec fn one_slot_each(items: Seq<(ResourceId, u32)>) -> bool {
    forall|i: int, j: int|
        0 <= i < j < items.len() ==> (#[trigger] items[i]).0 != (#[trigger] items[j]).0
}

proof fn grouping(lines: Seq<(ResourceId, u32)>, rid: ResourceId, n: int)
    requires
        0 <= n <= lines.len(),
        forall|r: ResourceId| #[trigger] sum(n, line_amount_of(lines, r)) <= u32::MAX,
    ensures
        quantity(grouped(lines, n), rid) == sum(n, line_amount_of(lines, rid)),
        one_slot_each(grouped(lines, n)),
        forall|i: int| 0 <= i < grouped(lines, n).len() ==> (#[trigger] grouped(lines, n)[i]).1 > 0,
    decreases n,
{
    if n > 0 {
        assert forall|r: ResourceId| #[trigger]
            sum(n - 1, line_amount_of(lines, r)) <= u32::MAX by {
            assert(sum(n, line_amount_of(lines, r)) <= u32::MAX);
        }
        grouping(lines, rid, n - 1);
        let before = grouped(lines, n - 1);
        let (r, q) = lines[n - 1];
        grouping(lines, r, n - 1);
        assert(sum(n, line_amount_of(lines, r)) <= u32::MAX);
        adding_changes_one_quantity(before, r, q, rid);
        let after = grouped(lines, n);
        if q > 0 {
            if has_slot(before, r) {
                let k = crate::inventory::slot_index(before, r);
                assert(before[k].0 == r);
                assert forall|i: int, j: int| 0 <= i < j < after.len() implies (
                #[trigger] after[i]).0 != (#[trigger] after[j]).0 by {
                    assert(before[i].0 != before[j].0);
                }
            } else {
                find_is_none(before, crate::inventory::slot_for(r));
                assert forall|i: int, j: int| 0 <= i < j < after.len() implies (
                #[trigger] after[i]).0 != (#[trigger] after[j]).0 by {
                    assert(!crate::inventory::slot_for(r)(before[i]));
                    if j < before.len() {
                        assert(before[i].0 != before[j].0);
                    }
                }
            }
        }
    } else {
        find_is_none(grouped(lines, n), crate::inventory::slot_for(rid));
    }
}

/// A stack of goods on a storage tile of a faction.
#[derive(Clone, Copy, Debug, PartialEq, Eq, Structural)]
pub struct StoredStack {
    pub entity: Entity,
    pub faction_id: u32,
    /// The tile it lies on.
    pub x: i32,
    pub y: i32,
    pub resource: ResourceId,
    pub qty: u32,
}

/// Which stacks are meant: all of a faction, or those that lie on one tile.
#[derive(Clone, Copy, Debug, PartialEq, Eq, Structural)]
pub enum Shelf {
    Faction(u32),
    Tile(i32, i32),
}

impl Shelf {
    /// A stack is among those that are meant.
    pub open spec fn holds(self, s: StoredStack) -> bool {
        match self {
            Shelf::Faction(f) => s.faction_id == f,
            Shelf::Tile(x, y) => s.x == x && s.y == y,
        }
    }

    /// No stack is among both: two factions, or two tiles.
    pub open spec fn apart(self, other: Shelf) -> bool {
        match (self, other) {
            (Shelf::Faction(f), Shelf::Faction(g)) => f != g,
            (Shelf::Tile(x, y), Shelf::Tile(u, v)) => x != u || y != v,
            _ => false,
        }
    }

    pub fn has(self, s: &StoredStack) -> (b: bool)
        ensures
            b == self.holds(*s),
    {
        match self {
            Shelf::Faction(f) => s.faction_id == f,
            Shelf::Tile(x, y) => s.x == x && s.y == y,
        }
    }
}

/// How much each stack of a shelf holds of a resource.
pub open spec fn holding(
    stacks: Seq<StoredStack>,
    shelf: Shelf,
    rid: ResourceId,
) -> spec_fn(int) -> int {
    |i: int|
        if shelf.holds(stacks[i]) && stacks[i].resource == rid {
            stacks[i].qty as int
        } else {
            0
        }
}

/// All that there is of a resource on a shelf.
pub open spec fn stored(stacks: Seq<StoredStack>, shelf: Shelf, rid: ResourceId) -> int {
    sum(stacks.len() as int, holding(stacks, shelf, rid))
}

/// The stacks that anything is left of.
pub open spec fn left_over(stacks: Seq<StoredStack>) -> Seq<StoredStack> {
    collect(stacks.len() as int, |i: int| stacks[i].qty > 0, |i: int| stacks[i])
}

/// The stacks that nothing is left of.
pub open spec fn used_up(stacks: Seq<StoredStack>) -> Seq<Entity> {
    collect(stacks.len() as int, |i: int| stacks[i].qty == 0, |i: int| stacks[i].entity)
}

/// Takes the stacks that nothing is left of out of the list, and gives them back.
pub fn sweep_stacks(stacks: &mut Vec<StoredStack>) -> (gone: Vec<Entity>)
    ensures
        final(stacks)@ == left_over(old(stacks)@),
        gone@ == used_up(old(stacks)@),
{
    let ghost all = stacks@;
    let ghost p = |i: int| all[i].qty > 0;
    let ghost mk = |i: int| all[i];
    let ghost q = |i: int| all[i].qty == 0;
    let ghost mo = |i: int| all[i].entity;
    let mut kept: Vec<StoredStack> = Vec::new();
    let mut gone: Vec<Entity> = Vec::new();
    let mut i: usize = 0;
    while i < stacks.len()
        invariant
            i <= stacks.len(),
            stacks@ == all,
            p == (|i: int| all[i].qty > 0),
            mk == (|i: int| all[i]),
            q == (|i: int| all[i].qty == 0),
            mo == (|i: int| all[i].entity),
            kept@ == collect(i as int, p, mk),
            gone@ == collect(i as int, q, mo),
        decreases stacks.len() - i,
    {
        let s = stacks[i];
        if s.qty > 0 {
            kept.push(s);
        } else {
            gone.push(s.entity);
        }
        i += 1;
    }
    *stacks = kept;
    gone
}

/// Sweeping takes away nothing that was in store.
pub proof fn sweeping_keeps_the_stock(stacks: Seq<StoredStack>, shelf: Shelf, rid: ResourceId)
    ensures
        stored(left_over(stacks), shelf, rid) == stored(stacks, shelf, rid),
{
    let p = |i: int| stacks[i].qty > 0;
    let mk = |i: int| stacks[i];
    stock_is_kept(stacks, p, mk, shelf, rid, stacks.len() as int);
}

proof fn stock_is_kept(
    stacks: Seq<StoredStack>,
    p: spec_fn(int) -> bool,
    mk: spec_fn(int) -> StoredStack,
    shelf: Shelf,
    rid: ResourceId,
    n: int,
)
    requires
        0 <= n <= stacks.len(),
        p == (|i: int| stacks[i].qty > 0),
        mk == (|i: int| stacks[i]),
    ensures
        stored(collect(n, p, mk), shelf, rid) == sum(n, holding(stacks, shelf, rid)),
    decreases n,
{
    if n > 0 {
        stock_is_kept(stacks, p, mk, shelf, rid, n - 1);
        let before = collect(n - 1, p, mk);
        let after = collect(n, p, mk);
        if p(n - 1) {
            sum_agrees(
                before.len() as int,
                holding(after, shelf, rid),
                holding(before, shelf, rid),
            );
            assert(after[before.len() as int] == stacks[n - 1]);
        }
    }
}

/// What a faction has in store of a resource, at most `u32::MAX`.
pub fn faction_storage_stock(
    stacks: &Vec<StoredStack>,
    faction_id: u32,
    rid: ResourceId,
) -> (total: u32)
    ensures
        total == capped_sum(
            stacks@.len() as int,
            holding(stacks@, Shelf::Faction(faction_id), rid),
            u32::MAX as int,
        ),
{
    let ghost f = holding(stacks@, Shelf::Faction(faction_id), rid);
    let mut total: u32 = 0;
    let mut i: usize = 0;
    while i < stacks.len()
        invariant
            i <= stacks.len(),
            f == holding(stacks@, Shelf::Faction(faction_id), rid),
            total == capped_sum(i as int, f, u32::MAX as int),
        decreases stacks.len() - i,
    {
        if stacks[i].faction_id == faction_id && stacks[i].resource == rid {
            total = total.saturating_add(stacks[i].qty);
        }
        i += 1;
    }
    total
}

/// How much is drawn from a stack when `qty` of a resource is taken in order.
pub open spec fn drawn(
    stacks: Seq<StoredStack>,
    shelf: Shelf,
    rid: ResourceId,
    qty: int,
    i: int,
) -> int {
    let left = qty - sum(i, holding(stacks, shelf, rid));
    if left <= 0 {
        0
    } else if holding(stacks, shelf, rid)(i) < left {
        holding(stacks, shelf, rid)(i)
    } else {
        left
    }
}

/// The stacks after `qty` of a resource is taken, the first stacks first.
pub open spec fn after_draw(
    stacks: Seq<StoredStack>,
    shelf: Shelf,
    rid: ResourceId,
    qty: int,
) -> Seq<StoredStack> {
    Seq::new(
        stacks.len(),
        |i: int|
            StoredStack {
                qty: (stacks[i].qty - drawn(stacks, shelf, rid, qty, i)) as u32,
                ..stacks[i]
            },
    )
}

/// Takes up to `qty` of a resource from a shelf; returns how much came out.
pub fn draw_stock(
    stacks: &mut Vec<StoredStack>,
    shelf: Shelf,
    rid: ResourceId,
    qty: u32,
) -> (consumed: u32)
    ensures
        final(stacks)@ == after_draw(old(stacks)@, shelf, rid, qty as int),
        consumed == (if stored(old(stacks)@, shelf, rid) < qty {
            stored(old(stacks)@, shelf, rid)
        } else {
            qty as int
        }),
{
    let ghost start = stacks@;
    let ghost f = holding(start, shelf, rid);
    let ghost end = after_draw(start, shelf, rid, qty as int);
    let mut remaining: u32 = qty;
    let mut i: usize = 0;
    while i < stacks.len()
        invariant
            i <= stacks.len(),
            f == holding(start, shelf, rid),
            end == after_draw(start, shelf, rid, qty as int),
            stacks@.len() == start.len(),
            forall|j: int| 0 <= j < i ==> stacks@[j] == #[trigger] end[j],
            forall|j: int| i <= j < start.len() ==> stacks@[j] == #[trigger] start[j],
            sum(i as int, f) >= 0,
            remaining == (if sum(i as int, f) < qty {
                qty - sum(i as int, f)
            } else {
                0
            }),
        decreases stacks.len() - i,
    {
        let s = stacks[i];
        assert(s == start[i as int]);
        if shelf.has(&s) && s.resource == rid {
            let take: u32 = if remaining < s.qty {
                remaining
            } else {
                s.qty
            };
            stacks.set(i, StoredStack { qty: s.qty - take, ..s });
            remaining = remaining - take;
        }
        assert(stacks@[i as int] == end[i as int]);
        i += 1;
    }
    assert(stacks@ =~= end);
    qty - remaining
}

/// Takes up to `qty` of a resource out of a faction's stacks; returns how much came out.
pub fn consume_faction_storage(
    stacks: &mut Vec<StoredStack>,
    faction_id: u32,
    rid: ResourceId,
    qty: u32,
) -> (consumed: u32)
    ensures
        ({
            let shelf = Shelf::Faction(faction_id);
            &&& final(stacks)@ == after_draw(old(stacks)@, shelf, rid, qty as int)
            &&& consumed == (if stored(old(stacks)@, shelf, rid) < qty {
                stored(old(stacks)@, shelf, rid)
            } else {
                qty as int
            })
        }),
{
    draw_stock(stacks, Shelf::Faction(faction_id), rid, qty)
}

/// Taking goods from a shelf lowers its stock of that resource by what came out, and neither the
/// stock of another resource nor that of a shelf apart.
pub proof fn draws_conserve_stock(
    stacks: Seq<StoredStack>,
    shelf: Shelf,
    rid: ResourceId,
    qty: u32,
    other_shelf: Shelf,
    other: ResourceId,
)
    ensures
        stored(after_draw(stacks, shelf, rid, qty as int), shelf, rid) == stored(
            stacks,
            shelf,
            rid,
        ) - (if stored(stacks, shelf, rid) < qty {
            stored(stacks, shelf, rid)
        } else {
            qty as int
        }),
        shelf.apart(other_shelf) || other != rid ==> stored(
            after_draw(stacks, shelf, rid, qty as int),
            other_shelf,
            other,
        ) == stored(stacks, other_shelf, other),
{
    let after = after_draw(stacks, shelf, rid, qty as int);
    draw_sums(stacks, shelf, rid, qty as int, stacks.len() as int);
    if shelf.apart(other_shelf) || other != rid {
        let g = holding(stacks, other_shelf, other);
        let h = holding(after, other_shelf, other);
        assert forall|i: int| 0 <= i < stacks.len() implies #[trigger] h(i) == g(i) by {
            if g(i) != h(i) {
                assert(holding(stacks, shelf, rid)(i) == 0);
                draw_sums(stacks, shelf, rid, qty as int, i);
            }
        }
        sum_agrees(stacks.len() as int, h, g);
    }
}

proof fn draw_sums(stacks: Seq<StoredStack>, shelf: Shelf, rid: ResourceId, qty: int, n: int)
    requires
        0 <= n <= stacks.len(),
        qty >= 0,
    ensures
        sum(n, holding(stacks, shelf, rid)) >= 0,
        sum(n, holding(after_draw(stacks, shelf, rid, qty), shelf, rid)) == (if sum(
            n,
            holding(stacks, shelf, rid),
        ) < qty {
            0
        } else {
            sum(n, holding(stacks, shelf, rid)) - qty
        }),
    decreases n,
{
    if n > 0 {
        draw_sums(stacks, shelf, rid, qty, n - 1);
        let f = holding(stacks, shelf, rid);
        let g = holding(after_draw(stacks, shelf, rid, qty), shelf, rid);
        assert(f(n - 1) >= 0);
        assert(g(n - 1) == f(n - 1) - drawn(stacks, shelf, rid, qty, n - 1));
    }
}

/// The stacks hold everything on a bill.
pub open spec fn affordable(
    bill: Seq<(ResourceId, u32)>,
    stacks: Seq<StoredStack>,
    faction_id: u32,
) -> bool {
    forall|i: int|
        0 <= i < bill.len() ==> stored(stacks, Shelf::Faction(faction_id), (#[trigger] bill[i]).0) >= bill[i].1
}

/// The stacks after the first `n` entries of a bill are paid.
pub open spec fn after_paying(
    bill: Seq<(ResourceId, u32)>,
    stacks: Seq<StoredStack>,
    faction_id: u32,
    n: int,
) -> Seq<StoredStack>
    decreases n,
{
    if n <= 0 {
        stacks
    } else {
        after_draw(
            after_paying(bill, stacks, faction_id, n - 1),
            Shelf::Faction(faction_id),
            bill[n - 1].0,
            bill[n - 1].1 as int,
        )
    }
}

/// Paying an affordable bill takes exactly what it says, of every resource.
pub proof fn bills_are_paid_in_full(
    bill: Seq<(ResourceId, u32)>,
    stacks: Seq<StoredStack>,
    faction_id: u32,
    rid: ResourceId,
)
    requires
        affordable(bill, stacks, faction_id),
        one_slot_each(bill),
    ensures
        stored(after_paying(bill, stacks, faction_id, bill.len() as int), Shelf::Faction(faction_id), rid)
            == stored(stacks, Shelf::Faction(faction_id), rid) - quantity(bill, rid),
{
    paying(bill, stacks, faction_id, rid, bill.len() as int);
    let p = crate::inventory::slot_for(rid);
    find_is_none(bill, p);
    if find(bill, p) is Some {
        let s = find(bill, p)->0;
        let i = choose|i: int| 0 <= i < bill.len() && bill[i] == s;
        assert(bill[i].0 == rid);
        assert(bill.take(bill.len() as int) =~= bill);
    }
}

proof fn paying(
    bill: Seq<(ResourceId, u32)>,
    stacks: Seq<StoredStack>,
    faction_id: u32,
    rid: ResourceId,
    n: int,
)
    requires
        0 <= n <= bill.len(),
        affordable(bill, stacks, faction_id),
        one_slot_each(bill),
    ensures
        forall|i: int|
            0 <= i < n && (#[trigger] bill[i]).0 == rid ==> stored(
                after_paying(bill, stacks, faction_id, n),
                Shelf::Faction(faction_id),
                rid,
            ) == stored(stacks, Shelf::Faction(faction_id), rid) - bill[i].1,
        (forall|i: int| 0 <= i < n ==> (#[trigger] bill[i]).0 != rid) ==> stored(
            after_paying(bill, stacks, faction_id, n),
            Shelf::Faction(faction_id),
            rid,
        ) == stored(stacks, Shelf::Faction(faction_id), rid),
    decreases n,
{
    if n > 0 {
        paying(bill, stacks, faction_id, rid, n - 1);
        let before = after_paying(bill, stacks, faction_id, n - 1);
        let (r, q) = bill[n - 1];
        draws_conserve_stock(before, Shelf::Faction(faction_id), r, q, Shelf::Faction(faction_id), rid);
        if r == rid {
            assert forall|i: int| 0 <= i < n - 1 implies (#[trigger] bill[i]).0 != rid by {
                assert(bill[i].0 != bill[n - 1].0);
            }
        }
        assert(stored(stacks, Shelf::Faction(faction_id), bill[n - 1].0) >= bill[n - 1].1);
    }
}

/// What a faction has researched.
#[derive(Debug)]
pub struct FactionTechs {
    pub faction_id: u32,
    pub techs: Vec<TechId>,
}

pub open spec fn techs_of(faction_id: u32) -> spec_fn(FactionTechs) -> bool {
    |f: FactionTechs| f.faction_id == faction_id
}

/// A faction knows every technology on a list.
pub open spec fn knows_all(
    factions: Seq<FactionTechs>,
    faction_id: u32,
    gates: Seq<TechId>,
) -> bool {
    match find(factions, techs_of(faction_id)) {
        Some(f) => forall|i: int|
            0 <= i < gates.len() ==> f.techs@.contains(#[trigger] gates[i]),
        None => false,
    }
}

/// Whether a faction knows every technology on a list; an unknown faction knows none.
pub fn faction_knows(factions: &Vec<FactionTechs>, faction_id: u32, gates: &Vec<TechId>) -> (b:
    bool)
    ensures
        b == knows_all(factions@, faction_id, gates@),
{
    let ghost p = techs_of(faction_id);
    let mut i: usize = 0;
    while i < factions.len()
        invariant
            i <= factions.len(),
            p == techs_of(faction_id),
            forall|j: int| 0 <= j < i ==> !p(#[trigger] factions@[j]),
        decreases factions.len() - i,
    {
        if factions[i].faction_id == faction_id {
            proof {
                find_is_first(factions@, p, i as int);
            }
            let f = &factions[i];
            let mut k: usize = 0;
            while k < gates.len()
                invariant
                    k <= gates.len(),
                    p == techs_of(faction_id),
                    find(factions@, p) == Some(*f),
                    forall|j: int| 0 <= j < k ==> f.techs@.contains(#[trigger] gates@[j]),
                decreases gates.len() - k,
            {
                if !holds_tech(&f.techs, gates[k]) {
                    assert(!f.techs@.contains(gates@[k as int]));
                    return false;
                }
                k += 1;
            }
            return true;
        }
        i += 1;
    }
    proof {
        find_is_none(factions@, p);
    }
    false
}

pub open spec fn yard_of(faction_id: u32) -> spec_fn(VehicleYard) -> bool {
    |y: VehicleYard| y.faction_id == faction_id
}

/// The first yard of a faction.
pub fn first_yard(yards: &Vec<VehicleYard>, faction_id: u32) -> (r: Option<VehicleYard>)
    ensures
        r == find(yards@, yard_of(faction_id)),
{
    let ghost p = yard_of(faction_id);
    let mut i: usize = 0;
    while i < yards.len()
        invariant
            i <= yards.len(),
            p == yard_of(faction_id),
            forall|j: int| 0 <= j < i ==> !p(#[trigger] yards@[j]),
        decreases yards.len() - i,
    {
        if yards[i].faction_id == faction_id {
            proof {
                find_is_first(yards@, p, i as int);
            }
            return Some(yards[i]);
        }
        i += 1;
    }
    proof {
        find_is_none(yards@, p);
    }
    None
}

/// A vehicle that was assembled.
#[derive(Clone, Copy, Debug)]
pub struct Assembled {
    pub faction_id: u32,
    pub design_id: VehicleDesignId,
    pub tile: (i32, i32),
}

/// The state of a pass over the queue.
pub struct AssemblyPass {
    pub kept: Seq<(u32, VehicleDesignId)>,
    pub built: Seq<Assembled>,
    pub stacks: Seq<StoredStack>,
}

/// The bill of a design.
pub open spec fn bill_of(design: VehicleDesign, data: VehicleData, tools: ResourceId) -> Seq<
    (ResourceId, u32),
> {
    let lines = cost_lines(design, data, tools);
    grouped(lines, lines.len() as int)
}

/// What an order does to a pass. An order for an unknown design, or of a faction without a yard,
/// is dropped; one that lacks technology or goods waits; any other is paid for and built.
pub open spec fn with_order(
    pass: AssemblyPass,
    order: (u32, VehicleDesignId),
    registry: VehicleDesignRegistry,
    data: VehicleData,
    tools: ResourceId,
    factions: Seq<FactionTechs>,
    yards: Seq<VehicleYard>,
) -> AssemblyPass {
    let (faction, id) = order;
    match (registry.lookup(id), find(yards, yard_of(faction))) {
        (Some(d), Some(yard)) => {
            let bill = bill_of(d, data, tools);
            if !knows_all(factions, faction, d.tech_gates@) || !affordable(
                bill,
                pass.stacks,
                faction,
            ) {
                AssemblyPass { kept: pass.kept.push(order), ..pass }
            } else {
                AssemblyPass {
                    kept: pass.kept,
                    built: pass.built.push(
                        Assembled { faction_id: faction, design_id: id, tile: yard.tile },
                    ),
                    stacks: after_paying(bill, pass.stacks, faction, bill.len() as int),
                }
            }
        },
        _ => pass,
    }
}

/// A pass after the first `n` orders.
pub open spec fn pass_after(
    queue: Seq<(u32, VehicleDesignId)>,
    registry: VehicleDesignRegistry,
    data: VehicleData,
    tools: ResourceId,
    factions: Seq<FactionTechs>,
    yards: Seq<VehicleYard>,
    stacks: Seq<StoredStack>,
    n: int,
) -> AssemblyPass
    decreases n,
{
    if n <= 0 {
        AssemblyPass { kept: Seq::empty(), built: Seq::empty(), stacks }
    } else {
        with_order(
            pass_after(queue, registry, data, tools, factions, yards, stacks, n - 1),
            queue[n - 1],
            registry,
            data,
            tools,
            factions,
            yards,
        )
    }
}

/// Every known design asks for no more of a resource than fits in thirty-two bits.
pub open spec fn bills_fit(
    registry: VehicleDesignRegistry,
    data: VehicleData,
    tools: ResourceId,
) -> bool {
    forall|i: int|
        0 <= i < registry.designs@.len() ==> lines_fit(
            cost_lines(#[trigger] registry.designs@[i], data, tools),
        )
}

fn can_afford(bill: &Vec<(ResourceId, u32)>, stacks: &Vec<StoredStack>, faction_id: u32) -> (b:
    bool)
    ensures
        b == affordable(bill@, stacks@, faction_id),
{
    let mut i: usize = 0;
    while i < bill.len()
        invariant
            i <= bill.len(),
            forall|j: int|
                0 <= j < i ==> stored(stacks@, Shelf::Faction(faction_id), (#[trigger] bill@[j]).0) >= bill@[j].1,
        decreases bill.len() - i,
    {
        let (rid, need) = bill[i];
        if faction_storage_stock(stacks, faction_id, rid) < need {
            assert(stored(stacks@, Shelf::Faction(faction_id), bill@[i as int].0) < bill@[i as int].1);
            return false;
        }
        i += 1;
    }
    true
}

/// Vehicles that were ordered: who wants one, and of which design.
#[derive(Debug)]
pub struct VehicleAssemblyQueue {
    pub entries: Vec<(u32, VehicleDesignId)>,
}

impl Default for VehicleAssemblyQueue {
    fn default() -> (q: VehicleAssemblyQueue)
        ensures
            q.entries@.len() == 0,
    {
        VehicleAssemblyQueue { entries: Vec::new() }
    }
}

/// One pass over the queue of ordered vehicles: what stays queued, and what was built. Nothing
/// happens between two passes, or when nothing is queued.
pub fn vehicle_assembly_system(
    tick: u64,
    queue: &mut VehicleAssemblyQueue,
    registry: &VehicleDesignRegistry,
    data: &VehicleData,
    tools: ResourceId,
    factions: &Vec<FactionTechs>,
    yards: &Vec<VehicleYard>,
    stacks: &mut Vec<StoredStack>,
) -> (built: Vec<Assembled>)
    requires
        registry.wf(),
        bills_fit(*registry, *data, tools),
    ensures
        ({
            let pass = pass_after(
                old(queue).entries@,
                *registry,
                *data,
                tools,
                factions@,
                yards@,
                old(stacks)@,
                old(queue).entries@.len() as int,
            );
            if tick % ASSEMBLY_CADENCE_TICKS != 0 {
                built@.len() == 0 && final(queue).entries@ == old(queue).entries@ && final(stacks)@ == old(
                    stacks,
                )@
            } else {
                built@ == pass.built && final(queue).entries@ == pass.kept && final(stacks)@ == pass.stacks
            }
        }),
{
    let mut built: Vec<Assembled> = Vec::new();
    if tick % ASSEMBLY_CADENCE_TICKS != 0 || queue.entries.len() == 0 {
        return built;
    }
    let mut kept: Vec<(u32, VehicleDesignId)> = Vec::new();
    let ghost start = stacks@;
    let mut i: usize = 0;
    while i < queue.entries.len()
        invariant
            i <= queue.entries.len(),
            registry.wf(),
            bills_fit(*registry, *data, tools),
            queue.entries@ == old(queue).entries@,
            (AssemblyPass { kept: kept@, built: built@, stacks: stacks@ }) == pass_after(
                queue.entries@,
                *registry,
                *data,
                tools,
                factions@,
                yards@,
                start,
                i as int,
            ),
        decreases queue.entries.len() - i,
    {
        let (faction_id, design_id) = queue.entries[i];
        let design = registry.get(design_id);
        let yard = first_yard(yards, faction_id);
        match design {
            Some(d) => match yard {
                Some(y) => {
                    proof {
                        find_is_none(registry.designs@, crate::design::with_id(design_id));
                        let k = choose|k: int|
                            0 <= k < registry.designs@.len() && registry.designs@[k] == *d;
                        assert(lines_fit(cost_lines(registry.designs@[k], *data, tools)));
                    }
                    let bill = design_bill(d, data, tools);
                    let ghost lines = cost_lines(*d, *data, tools);
                    if !faction_knows(factions, faction_id, &d.tech_gates) || !can_afford(
                        &bill,
                        stacks,
                        faction_id,
                    ) {
                        kept.push((faction_id, design_id));
                    } else {
                        let ghost unpaid = stacks@;
                        let mut k: usize = 0;
                        while k < bill.len()
                            invariant
                                k <= bill.len(),
                                stacks@ == after_paying(bill@, unpaid, faction_id, k as int),
                            decreases bill.len() - k,
                        {
                            let (rid, need) = bill[k];
                            consume_faction_storage(stacks, faction_id, rid, need);
                            k += 1;
                        }
                        built.push(Assembled { faction_id, design_id, tile: y.tile });
                    }
                },
                None => {},
            },
            None => {},
        }
        i += 1;
    }
    queue.entries = kept;
    built
}

/// A shelf holds what lies on its tile, or what belongs to its faction, and nothing else.
pub proof fn shelves_hold_their_own(s: StoredStack, faction_id: u32, x: i32, y: i32)
    ensures
        Shelf::Faction(faction_id).holds(s) <==> s.faction_id == faction_id,
        Shelf::Tile(x, y).holds(s) <==> s.x == x && s.y == y,
{
}

/// A stack that is used up is gone and no other is.
pub proof fn only_empty_stacks_go(stacks: Seq<StoredStack>, i: int)
    requires
        0 <= i < stacks.len(),
    ensures
        stacks[i].qty == 0 ==> used_up(stacks).contains(stacks[i].entity),
        stacks[i].qty > 0 ==> left_over(stacks).contains(stacks[i]),
        forall|j: int| 0 <= j < left_over(stacks).len() ==> (#[trigger] left_over(stacks)[j]).qty > 0,
{
    let n = stacks.len() as int;
    let p = |k: int| stacks[k].qty > 0;
    let mk = |k: int| stacks[k];
    let q = |k: int| stacks[k].qty == 0;
    let me = |k: int| stacks[k].entity;
    collect_contains(n, p, mk, stacks[i]);
    collect_contains(n, q, me, stacks[i].entity);
    assert(mk(i) == stacks[i] && me(i) == stacks[i].entity);
    if stacks[i].qty > 0 {
        assert(p(i));
    } else {
        assert(q(i));
    }
    assert forall|j: int| 0 <= j < left_over(stacks).len() implies (#[trigger] left_over(
        stacks,
    )[j]).qty > 0 by {
        let s = left_over(stacks)[j];
        collect_contains(n, p, mk, s);
        assert(left_over(stacks).contains(s));
        let k = choose|k: int| 0 <= k < n && p(k) && #[trigger] mk(k) == s;
        assert(stacks[k] == s);
    }
}

/// Stock is drawn from the first stacks first: while one of the shelf still holds some of the
/// resource, no later one is touched. Stacks of other shelves or resources never are, and no stack
/// grows.
pub proof fn earlier_stacks_are_drawn_first(
    stacks: Seq<StoredStack>,
    shelf: Shelf,
    rid: ResourceId,
    qty: u32,
    i: int,
    j: int,
)
    requires
        0 <= i < j < stacks.len(),
    ensures
        ({
            let after = after_draw(stacks, shelf, rid, qty as int);
            &&& after[i].qty <= stacks[i].qty
            &&& shelf.holds(stacks[i]) && stacks[i].resource == rid && after[i].qty > 0
                ==> after[j] == stacks[j]
            &&& !shelf.holds(stacks[i]) || stacks[i].resource != rid ==> after[i] == stacks[i]
        }),
{
    let f = holding(stacks, shelf, rid);
    assert forall|k: int| 0 <= k < stacks.len() implies #[trigger] f(k) >= 0 by {}
    sum_grows(i + 1, j, f);
    sum_grows(0, i, f);
}

/// Each further cell costs one of its material, and a wheel, axle or weapon mount one tool more;
/// each further module costs what its own bill says.
pub proof fn prices_add_up_part_by_part(
    a: VehicleDesign,
    b: VehicleDesign,
    data: VehicleData,
    tools: ResourceId,
    rid: ResourceId,
    c: (IVec3, VehicleCell),
    m: VehicleModuleInstance,
)
    ensures
        b.grid.modules@ == a.grid.modules@ && b.grid.cells@ == a.grid.cells@.push(c) ==> price(
            b,
            data,
            tools,
            rid,
        ) - price(a, data, tools, rid) == (if c.1.material == rid {
            1int
        } else {
            0
        }) + (if rid == tools && (c.1.kind == VehiclePartKind::Wheel || c.1.kind
            == VehiclePartKind::Axle || c.1.kind == VehiclePartKind::WeaponMount) {
            1int
        } else {
            0
        }),
        b.grid.cells@ == a.grid.cells@ && b.grid.modules@ == a.grid.modules@.push(m) ==> price(
            b,
            data,
            tools,
            rid,
        ) - price(a, data, tools, rid) == (match data.module_spec(m.def) {
            Some(d) => total_of(d.extra_bill@, rid),
            None => 0,
        }),
{
    let n = a.grid.cells@.len() as int;
    let k = a.grid.modules@.len() as int;
    if b.grid.modules@ == a.grid.modules@ && b.grid.cells@ == a.grid.cells@.push(c) {
        let p = made_of(a.grid.cells@, rid);
        let q = made_of(b.grid.cells@, rid);
        let r = tooled(a.grid.cells@);
        let s = tooled(b.grid.cells@);
        assert forall|i: int| 0 <= i < n implies #[trigger] p(i) == q(i) by {
            assert(b.grid.cells@[i] == a.grid.cells@[i]);
        }
        assert forall|i: int| 0 <= i < n implies #[trigger] r(i) == s(i) by {
            assert(b.grid.cells@[i] == a.grid.cells@[i]);
        }
        counts_agree(n, p, q);
        counts_agree(n, r, s);
        assert(b.grid.cells@[n] == c);
    }
    if b.grid.cells@ == a.grid.cells@ && b.grid.modules@ == a.grid.modules@.push(m) {
        let f = module_cost(a.grid.modules@, data, rid);
        let g = module_cost(b.grid.modules@, data, rid);
        assert forall|i: int| 0 <= i < k implies #[trigger] f(i) == g(i) by {
            assert(b.grid.modules@[i] == a.grid.modules@[i]);
        }
        sum_agrees(k, f, g);
        assert(b.grid.modules@[k] == m);
    }
}

proof fn counts_agree(n: int, p: spec_fn(int) -> bool, q: spec_fn(int) -> bool)
    requires
        forall|i: int| 0 <= i < n ==> #[trigger] p(i) == q(i),
    ensures
        count(n, p) == count(n, q),
    decreases n,
{
    if n > 0 {
        counts_agree(n - 1, p, q);
        assert(p(n - 1) == q(n - 1));
    }
}

/// Each further line of a bill adds its amount to its own resource and to no other.
pub proof fn bills_count_every_line(
    lines: Seq<(ResourceId, u32)>,
    line: (ResourceId, u32),
    rid: ResourceId,
)
    ensures
        total_of(Seq::empty(), rid) == 0,
        line.0 == rid ==> total_of(lines.push(line), rid) == total_of(lines, rid) + line.1,
        line.0 != rid ==> total_of(lines.push(line), rid) == total_of(lines, rid),
{
    let n = lines.len() as int;
    let f = line_amount_of(lines, rid);
    let g = line_amount_of(lines.push(line), rid);
    assert forall|i: int| 0 <= i < n implies #[trigger] f(i) == g(i) by {
        assert(lines.push(line)[i] == lines[i]);
    }
    sum_agrees(n, f, g);
    assert(lines.push(line)[n] == line);
}

/// One order's turn. It is built at the faction's first yard when its design is known, the faction
/// knows every technology that the design asks for, and its stores hold all that the design costs;
/// then exactly that is paid. With a known design and a yard it waits for the rest; without either
/// it is forgotten.
pub proof fn orders_wait_for_tech_and_stock(
    pass: AssemblyPass,
    order: (u32, VehicleDesignId),
    registry: VehicleDesignRegistry,
    data: VehicleData,
    tools: ResourceId,
    factions: Seq<FactionTechs>,
    yards: Seq<VehicleYard>,
    y: int,
    f: int,
    rid: ResourceId,
)
    requires
        registry.lookup(order.1) is Some,
        lines_fit(cost_lines(registry.lookup(order.1)->0, data, tools)),
        0 <= y < yards.len(),
        yards[y].faction_id == order.0,
        forall|j: int| 0 <= j < y ==> (#[trigger] yards[j]).faction_id != order.0,
        0 <= f < factions.len(),
        factions[f].faction_id == order.0,
        forall|j: int| 0 <= j < f ==> (#[trigger] factions[j]).faction_id != order.0,
    ensures
        ({
            let d = registry.lookup(order.1)->0;
            let bill = bill_of(d, data, tools);
            let after = with_order(pass, order, registry, data, tools, factions, yards);
            let skilled = forall|i: int|
                0 <= i < d.tech_gates@.len() ==> factions[f].techs@.contains(
                    #[trigger] d.tech_gates@[i],
                );
            let stocked = forall|i: int|
                0 <= i < bill.len() ==> stored(
                    pass.stacks,
                    Shelf::Faction(order.0),
                    (#[trigger] bill[i]).0,
                ) >= bill[i].1;
            &&& skilled && stocked ==> {
                &&& after.kept == pass.kept
                &&& after.built.len() == pass.built.len() + 1
                &&& after.built.last().faction_id == order.0
                &&& after.built.last().design_id == order.1
                &&& after.built.last().tile == yards[y].tile
                &&& stored(after.stacks, Shelf::Faction(order.0), rid) == stored(
                    pass.stacks,
                    Shelf::Faction(order.0),
                    rid,
                ) - quantity(bill, rid)
            }
            &&& !skilled || !stocked ==> {
                &&& after.kept.len() == pass.kept.len() + 1
                &&& after.kept.last() == order
                &&& after.built == pass.built
                &&& after.stacks == pass.stacks
            }
        }),
{
    let d = registry.lookup(order.1)->0;
    let bill = bill_of(d, data, tools);
    let p = yard_of(order.0);
    assert forall|j: int| 0 <= j < y implies !p(#[trigger] yards[j]) by {}
    find_is_first(yards, p, y);
    let q = techs_of(order.0);
    assert forall|j: int| 0 <= j < f implies !q(#[trigger] factions[j]) by {}
    find_is_first(factions, q, f);
    bills_add_up(cost_lines(d, data, tools), rid);
    if affordable(bill, pass.stacks, order.0) {
        bills_are_paid_in_full(bill, pass.stacks, order.0, rid);
    }
}

/// An order for a design that nobody knows, or by a faction without a yard, is forgotten: nothing
/// is built and nothing paid.
pub proof fn homeless_orders_are_forgotten(
    pass: AssemblyPass,
    order: (u32, VehicleDesignId),
    registry: VehicleDesignRegistry,
    data: VehicleData,
    tools: ResourceId,
    factions: Seq<FactionTechs>,
    yards: Seq<VehicleYard>,
)
    requires
        registry.lookup(order.1) is None || forall|j: int|
            0 <= j < yards.len() ==> (#[trigger] yards[j]).faction_id != order.0,
    ensures
        with_order(pass, order, registry, data, tools, factions, yards) == pass,
{
    let p = yard_of(order.0);
    if forall|j: int| 0 <= j < yards.len() ==> (#[trigger] yards[j]).faction_id != order.0 {
        assert forall|j: int| 0 <= j < yards.len() implies !p(#[trigger] yards[j]) by {}
        find_is_none(yards, p);
    }
}

/// A faction of whose technologies nothing is known builds nothing that asks for any, nor anything
/// else.
pub proof fn the_unknown_know_nothing(
    factions: Seq<FactionTechs>,
    faction_id: u32,
    gates: Seq<TechId>,
)
    requires
        forall|j: int| 0 <= j < factions.len() ==> (#[trigger] factions[j]).faction_id != faction_id,
    ensures
        !knows_all(factions, faction_id, gates),
{
    let q = techs_of(faction_id);
    assert forall|j: int| 0 <= j < factions.len() implies !q(#[trigger] factions[j]) by {}
    find_is_none(factions, q);
}

/// Orders are taken up every sixty ticks and at no other time.
pub proof fn orders_are_taken_up_every_sixty_ticks(tick: u64)
    ensures
        tick % ASSEMBLY_CADENCE_TICKS == 0 <==> tick % 60 == 0,
{
}

} // verus!
