//! The health of a vehicle, cell by cell, and what a hit does.

use vstd::prelude::*;
use crate::design::VehicleDesign;
use crate::geometry::IVec3;
use crate::grid::{bounding_box, bounding_box_is_box, cell_at, cell_at_first, VehicleCell};
use crate::parts::{VehicleDisableFlags, VehiclePartKind, CARGO, MOVEMENT};
use crate::rng::roll_below;
use crate::seqs::{
    collect, collect_contains, collect_len, count, find, find_is_first, find_is_none, first_where,
    sum, sum_agrees, sum_at_most, sum_grows,
};

verus! {

/// The health of each cell and what is disabled.
#[derive(Debug)]
pub struct VehicleHealth {
    pub cells: Vec<(IVec3, u16)>,
    pub disabled: VehicleDisableFlags,
}

/// Every cell at its durability.
pub open spec fn whole(cells: Seq<(IVec3, VehicleCell)>) -> Seq<(IVec3, u16)> {
    Seq::new(cells.len(), |i: int| (cells[i].0, cells[i].1.durability))
}

pub open spec fn at_place(pos: IVec3) -> spec_fn((IVec3, u16)) -> bool {
    |c: (IVec3, u16)| c.0 == pos
}

/// The health of the first cell at `pos`, or 0.
pub open spec fn health_at(cells: Seq<(IVec3, u16)>, pos: IVec3) -> int {
    match find(cells, at_place(pos)) {
        Some(c) => c.1 as int,
        None => 0,
    }
}

/// Cell `i` still stands.
pub open spec fn stands(cells: Seq<(IVec3, u16)>) -> spec_fn(int) -> bool {
    |i: int| cells[i].1 > 0
}

/// How many cells still stand.
pub open spec fn standing(cells: Seq<(IVec3, u16)>) -> int {
    count(cells.len() as int, stands(cells)) as int
}

impl VehicleHealth {
    pub fn from_design(design: &VehicleDesign) -> (h: VehicleHealth)
        ensures
            h.cells@ == whole(design.grid.cells@),
            h.disabled.0 == 0,
    {
        let ghost all = whole(design.grid.cells@);
        let mut cells: Vec<(IVec3, u16)> = Vec::new();
        let mut i: usize = 0;
        while i < design.grid.cells.len()
            invariant
                i <= design.grid.cells.len(),
                all == whole(design.grid.cells@),
                cells@ == all.take(i as int),
            decreases design.grid.cells.len() - i,
        {
            cells.push((design.grid.cells[i].0, design.grid.cells[i].1.durability));
            i += 1;
            assert(cells@ =~= all.take(i as int));
        }
        assert(all.take(i as int) =~= all);
        VehicleHealth { cells, disabled: VehicleDisableFlags(0) }
    }

    /// The index of the first cell at `pos`.
    fn find_cell(&self, pos: IVec3) -> (r: Option<usize>)
        ensures
            match r {
                Some(i) => first_where(self.cells@, at_place(pos), i as int) && health_at(
                    self.cells@,
                    pos,
                ) == self.cells@[i as int].1,
                None => health_at(self.cells@, pos) == 0 && find(
                    self.cells@,
                    at_place(pos),
                ) is None,
            },
    {
        let ghost p = at_place(pos);
        let mut i: usize = 0;
        while i < self.cells.len()
            invariant
                i <= self.cells.len(),
                p == at_place(pos),
                forall|j: int| 0 <= j < i ==> !p(#[trigger] self.cells@[j]),
            decreases self.cells.len() - i,
        {
            if self.cells[i].0 == pos {
                proof {
                    find_is_first(self.cells@, p, i as int);
                }
                return Some(i);
            }
            i += 1;
        }
        proof {
            find_is_none(self.cells@, p);
        }
        None
    }

    /// The health of the cell at `pos`; 0 where there is none.
    pub fn cell_health(&self, pos: IVec3) -> (h: u16)
        ensures
            h == health_at(self.cells@, pos),
    {
        match self.find_cell(pos) {
            Some(i) => self.cells[i].1,
            None => 0,
        }
    }

    /// How many cells still stand.
    pub fn intact_cells(&self) -> (n: usize)
        ensures
            n == standing(self.cells@),
    {
        let ghost p = stands(self.cells@);
        let mut n: usize = 0;
        let mut i: usize = 0;
        while i < self.cells.len()
            invariant
                i <= self.cells.len(),
                p == stands(self.cells@),
                n == count(i as int, p),
                n <= i,
            decreases self.cells.len() - i,
        {
            if self.cells[i].1 > 0 {
                n += 1;
            }
            i += 1;
        }
        n
    }

    pub fn movement_disabled(&self) -> (b: bool)
        ensures
            b == self.disabled.holds(MOVEMENT),
    {
        self.disabled.has(MOVEMENT)
    }
}

/// What a hit set off.
#[derive(Clone, Copy, Debug, PartialEq, Eq, Structural)]
pub struct VehicleHitOutcome {
    pub cell_destroyed: bool,
    pub movement_disabled: bool,
    pub spill_cargo: bool,
    pub release_animals: bool,
    pub eject_crew: bool,
    pub force_overturn: bool,
}

/// Nothing happened.
pub open spec fn no_effect() -> VehicleHitOutcome {
    VehicleHitOutcome {
        cell_destroyed: false,
        movement_disabled: false,
        spill_cargo: false,
        release_animals: false,
        eject_crew: false,
        force_overturn: false,
    }
}

/// Losing a cell of this kind stops the vehicle.
pub open spec fn is_running_gear(kind: Option<VehiclePartKind>) -> bool {
    kind == Some(VehiclePartKind::Wheel) || kind == Some(VehiclePartKind::Axle) || kind == Some(
        VehiclePartKind::Track,
    )
}

/// Losing a bottom cell of this kind tips the vehicle over.
pub open spec fn is_chassis(kind: Option<VehiclePartKind>) -> bool {
    kind == Some(VehiclePartKind::Frame) || kind == Some(VehiclePartKind::Deck) || kind == Some(
        VehiclePartKind::Axle,
    )
}

/// The kind of the design cell at `pos`.
pub open spec fn kind_at(cells: Seq<(IVec3, VehicleCell)>, pos: IVec3) -> Option<VehiclePartKind> {
    match cell_at(cells, pos) {
        Some(c) => Some(c.kind),
        None => None,
    }
}

/// The bottom level of a design; 0 without cells.
pub open spec fn bottom(cells: Seq<(IVec3, VehicleCell)>) -> int {
    if cells.len() == 0 {
        0
    } else {
        bounding_box(cells).0.z as int
    }
}

/// What the loss of the cell at `pos` sets off.
pub open spec fn loss_of(cells: Seq<(IVec3, VehicleCell)>, pos: IVec3) -> VehicleHitOutcome {
    let kind = kind_at(cells, pos);
    VehicleHitOutcome {
        cell_destroyed: true,
        movement_disabled: is_running_gear(kind),
        spill_cargo: kind == Some(VehiclePartKind::CargoBay),
        release_animals: kind == Some(VehiclePartKind::Hitch) || kind == Some(
            VehiclePartKind::Yoke,
        ),
        eject_crew: kind == Some(VehiclePartKind::CrewSeat),
        force_overturn: pos.z == bottom(cells) && is_chassis(kind),
    }
}

/// A hit of strength `dmg` at `pos` destroys a standing cell.
pub open spec fn destroys(health: Seq<(IVec3, u16)>, pos: IVec3, dmg: u16) -> bool {
    0 < health_at(health, pos) <= dmg
}

/// `health` after a hit: the first cell at `pos` loses `dmg`, down to 0.
pub open spec fn after_hit(health: Seq<(IVec3, u16)>, pos: IVec3, dmg: u16) -> Seq<(IVec3, u16)> {
    Seq::new(
        health.len(),
        |i: int|
            if first_where(health, at_place(pos), i) {
                (pos, if health[i].1 > dmg {
                    (health[i].1 - dmg) as u16
                } else {
                    0u16
                })
            } else {
                health[i]
            },
    )
}

/// The flags after the loss of the cell at `pos`.
pub open spec fn flags_after(
    flags: VehicleDisableFlags,
    cells: Seq<(IVec3, VehicleCell)>,
    pos: IVec3,
) -> VehicleDisableFlags {
    let kind = kind_at(cells, pos);
    if is_running_gear(kind) {
        VehicleDisableFlags(flags.0 | MOVEMENT)
    } else if kind == Some(VehiclePartKind::CargoBay) {
        VehicleDisableFlags(flags.0 | CARGO)
    } else {
        flags
    }
}

proof fn first_is_unique(health: Seq<(IVec3, u16)>, pos: IVec3, i: int, j: int)
    requires
        first_where(health, at_place(pos), i),
        first_where(health, at_place(pos), j),
    ensures
        i == j,
{
    if i < j {
        assert(!at_place(pos)(health[i]));
    } else if j < i {
        assert(!at_place(pos)(health[j]));
    }
}

/// Hits the cell at `pos`. When that destroys it, the matching flag is set and the consequences
/// are returned.
pub fn apply_vehicle_cell_damage(
    health: &mut VehicleHealth,
    design: &VehicleDesign,
    pos: IVec3,
    dmg: u16,
) -> (out: VehicleHitOutcome)
    ensures
        final(health).cells@ == after_hit(old(health).cells@, pos, dmg),
        destroys(old(health).cells@, pos, dmg) ==> out == loss_of(design.grid.cells@, pos)
            && final(health).disabled == flags_after(
            old(health).disabled,
            design.grid.cells@,
            pos,
        ),
        !destroys(old(health).cells@, pos, dmg) ==> out == no_effect() && final(health).disabled
            == old(health).disabled,
{
    let mut out = VehicleHitOutcome {
        cell_destroyed: false,
        movement_disabled: false,
        spill_cargo: false,
        release_animals: false,
        eject_crew: false,
        force_overturn: false,
    };
    let ghost before = health.cells@;
    match health.find_cell(pos) {
        None => {
            proof {
                find_is_none(before, at_place(pos));
                assert(after_hit(before, pos, dmg) =~= before) by {
                    assert forall|i: int| 0 <= i < before.len() implies after_hit(
                        before,
                        pos,
                        dmg,
                    )[i] == before[i] by {
                        assert(!at_place(pos)(before[i]));
                    }
                }
            }
            out
        },
        Some(k) => {
            let held: u16 = health.cells[k].1;
            let left: u16 = held.saturating_sub(dmg);
            health.cells.set(k, (pos, left));
            proof {
                assert(health.cells@ =~= after_hit(before, pos, dmg)) by {
                    assert forall|i: int| 0 <= i < before.len() implies health.cells@[i]
                        == after_hit(before, pos, dmg)[i] by {
                        if first_where(before, at_place(pos), i) {
                            first_is_unique(before, pos, i, k as int);
                        }
                    }
                }
            }
            if held == 0 || left > 0 {
                return out;
            }
            out.cell_destroyed = true;
            let kind: Option<VehiclePartKind> = match design.grid.get(pos) {
                Some(c) => Some(c.kind),
                None => None,
            };
            let min_z: i32 = match design.grid.bounds() {
                Some((lo, _)) => lo.z,
                None => 0,
            };
            match kind {
                Some(VehiclePartKind::Wheel)
                | Some(VehiclePartKind::Axle)
                | Some(VehiclePartKind::Track) => {
                    health.disabled.set(MOVEMENT);
                    out.movement_disabled = true;
                },
                Some(VehiclePartKind::CargoBay) => {
                    health.disabled.set(CARGO);
                    out.spill_cargo = true;
                },
                Some(VehiclePartKind::Hitch) | Some(VehiclePartKind::Yoke) => {
                    out.release_animals = true;
                },
                Some(VehiclePartKind::CrewSeat) => {
                    out.eject_crew = true;
                },
                _ => {},
            }
            let chassis: bool = match kind {
                Some(VehiclePartKind::Frame)
                | Some(VehiclePartKind::Deck)
                | Some(VehiclePartKind::Axle) => true,
                _ => false,
            };
            if pos.z == min_z && chassis {
                out.force_overturn = true;
            }
            out
        },
    }
}

/// Damage never heals: no cell gains health, the number of standing cells never grows, and a
/// destroyed cell stays destroyed.
pub proof fn damage_never_heals(health: Seq<(IVec3, u16)>, pos: IVec3, dmg: u16)
    ensures
        after_hit(health, pos, dmg).len() == health.len(),
        forall|i: int|
            0 <= i < health.len() ==> (#[trigger] after_hit(health, pos, dmg)[i]).1 <= health[i].1
                && after_hit(health, pos, dmg)[i].0 == health[i].0,
        standing(after_hit(health, pos, dmg)) <= standing(health),
        destroys(health, pos, dmg) ==> standing(after_hit(health, pos, dmg)) == standing(health)
            - 1,
{
    let after = after_hit(health, pos, dmg);
    find_is_none(health, at_place(pos));
    if find(health, at_place(pos)) is Some {
        let k = choose|k: int| first_where(health, at_place(pos), k);
        assert(first_where(health, at_place(pos), k)) by {
            if !(exists|k: int| first_where(health, at_place(pos), k)) {
                assert(find(health, at_place(pos)) is None);
            }
        }
        find_is_first(health, at_place(pos), k);
        count_after_one_change(health, after, k, health.len() as int, pos, dmg);
    } else {
        assert(after =~= health) by {
            assert forall|i: int| 0 <= i < health.len() implies after[i] == health[i] by {
                assert(!at_place(pos)(health[i]));
            }
        }
    }
}

proof fn count_after_one_change(
    health: Seq<(IVec3, u16)>,
    after: Seq<(IVec3, u16)>,
    k: int,
    n: int,
    pos: IVec3,
    dmg: u16,
)
    requires
        0 <= n <= health.len(),
        0 <= k < health.len(),
        first_where(health, at_place(pos), k),
        after == after_hit(health, pos, dmg),
    ensures
        n <= k ==> count(n, stands(after)) == count(n, stands(health)),
        n > k ==> count(n, stands(after)) == count(n, stands(health)) - (if 0 < health[k].1
            && health[k].1 <= dmg {
            1int
        } else {
            0int
        }),
    decreases n,
{
    if n > 0 {
        count_after_one_change(health, after, k, n - 1, pos, dmg);
        if n - 1 != k && first_where(health, at_place(pos), n - 1) {
            first_is_unique(health, pos, n - 1, k);
        }
    }
}

/// The standing cells, in order.
pub open spec fn live_places(health: Seq<(IVec3, u16)>) -> Seq<IVec3> {
    collect(health.len() as int, stands(health), |i: int| health[i].0)
}

/// `z` is the greatest level of the places.
pub open spec fn is_top(places: Seq<IVec3>, z: int) -> bool {
    &&& forall|i: int| 0 <= i < places.len() ==> (#[trigger] places[i]).z <= z
    &&& exists|i: int| 0 <= i < places.len() && (#[trigger] places[i]).z == z
}

/// The greatest level of the places.
pub open spec fn top(places: Seq<IVec3>) -> int {
    choose|z: int| is_top(places, z)
}

/// How likely each place is to be hit: the lower, the likelier.
pub open spec fn reach(places: Seq<IVec3>) -> spec_fn(int) -> int {
    |i: int| top(places) - places[i].z + 1
}

/// The weights of all places together.
pub open spec fn total_reach(places: Seq<IVec3>) -> int {
    sum(places.len() as int, reach(places))
}

/// A roll points at place `i`: the weights before it do not pass the roll, its own does.
pub open spec fn points_at(places: Seq<IVec3>, roll: int, i: int) -> bool {
    &&& 0 <= i < places.len()
    &&& sum(i, reach(places)) <= roll < sum(i + 1, reach(places))
}

/// Some roll points at the place.
pub open spec fn may_be_hit(health: Seq<(IVec3, u16)>, pos: IVec3) -> bool {
    let places = live_places(health);
    exists|roll: int, i: int|
        0 <= roll < total_reach(places) && #[trigger] points_at(places, roll, i) && places[i] == pos
}

/// The weights fit in machine words.
pub open spec fn reach_fits(health: Seq<(IVec3, u16)>) -> bool {
    let places = live_places(health);
    &&& total_reach(places) <= u32::MAX
    &&& forall|i: int, j: int|
        0 <= i < places.len() && 0 <= j < places.len() ==> (#[trigger] places[i]).z - (
        #[trigger] places[j]).z + 1 <= i32::MAX
}

fn standing_places(health: &VehicleHealth) -> (live: Vec<IVec3>)
    ensures
        live@ == live_places(health.cells@),
{
    let ghost mk = |i: int| health.cells@[i].0;
    let mut live: Vec<IVec3> = Vec::new();
    let mut i: usize = 0;
    while i < health.cells.len()
        invariant
            i <= health.cells.len(),
            mk == (|i: int| health.cells@[i].0),
            live@ == collect(i as int, stands(health.cells@), mk),
        decreases health.cells.len() - i,
    {
        if health.cells[i].1 > 0 {
            live.push(health.cells[i].0);
        }
        i += 1;
    }
    live
}

fn top_level(places: &Vec<IVec3>) -> (z: i32)
    requires
        places@.len() > 0,
    ensures
        z == top(places@),
        is_top(places@, z as int),
{
    let mut z: i32 = places[0].z;
    let mut i: usize = 1;
    assert(places@[0].z == z);
    while i < places.len()
        invariant
            1 <= i <= places.len(),
            forall|j: int| 0 <= j < i ==> (#[trigger] places@[j]).z <= z,
            exists|j: int| 0 <= j < i && (#[trigger] places@[j]).z == z,
        decreases places.len() - i,
    {
        if places[i].z > z {
            z = places[i].z;
            assert(places@[i as int].z == z);
        }
        i += 1;
    }
    proof {
        assert(is_top(places@, z as int));
        let t = top(places@);
        assert(is_top(places@, t));
    }
    z
}

/// The standing cell that a roll picks. Lower cells take more of the rolls; a roll past the last
/// weight picks the last standing cell.
pub fn hit_cell_for_roll(health: &VehicleHealth, roll: u32) -> (r: Option<IVec3>)
    requires
        reach_fits(health.cells@),
    ensures
        r is None <==> standing(health.cells@) == 0,
        r matches Some(p) ==> {
            let places = live_places(health.cells@);
            ||| exists|i: int| #[trigger] points_at(places, roll as int, i) && places[i] == p
            ||| roll >= total_reach(places) && places.last() == p
        },
        r matches Some(p) ==> live_places(health.cells@).contains(p),
{
    let live = standing_places(health);
    proof {
        collect_len(
            health.cells@.len() as int,
            stands(health.cells@),
            |i: int| health.cells@[i].0,
        );
    }
    if live.len() == 0 {
        return None;
    }
    let max_z: i32 = top_level(&live);
    let ghost f = reach(live@);
    let ghost n = live@.len() as int;
    let mut left: u32 = roll;
    let mut i: usize = 0;
    while i < live.len()
        invariant
            i <= live.len(),
            live@ == live_places(health.cells@),
            live@.len() > 0,
            live@.len() == standing(health.cells@),
            reach_fits(health.cells@),
            max_z == top(live@),
            is_top(live@, max_z as int),
            f == reach(live@),
            n == live@.len(),
            left == roll - sum(i as int, f),
            sum(i as int, f) >= 0,
        decreases live.len() - i,
    {
        proof {
            let t = choose|t: int| 0 <= t < live@.len() && (#[trigger] live@[t]).z == max_z;
            assert(live@[t].z - live@[i as int].z + 1 <= i32::MAX);
        }
        let w: u32 = (max_z - live[i].z + 1) as u32;
        if left < w {
            assert(points_at(live@, roll as int, i as int));
            return Some(live[i]);
        }
        left = left - w;
        i += 1;
    }
    Some(live[live.len() - 1])
}

/// A standing cell for a melee hit, low cells more often; `None` when no cell stands.
pub fn pick_hit_cell(health: &VehicleHealth) -> (r: Option<IVec3>)
    requires
        reach_fits(health.cells@),
    ensures
        r is None <==> standing(health.cells@) == 0,
        r matches Some(p) ==> may_be_hit(health.cells@, p),
{
    let live = standing_places(health);
    proof {
        collect_len(
            health.cells@.len() as int,
            stands(health.cells@),
            |i: int| health.cells@[i].0,
        );
    }
    if live.len() == 0 {
        return None;
    }
    let max_z: i32 = top_level(&live);
    let ghost f = reach(live@);
    let ghost n = live@.len() as int;
    let mut total: u32 = 0;
    let mut i: usize = 0;
    while i < live.len()
        invariant
            i <= live.len(),
            live@ == live_places(health.cells@),
            reach_fits(health.cells@),
            max_z == top(live@),
            is_top(live@, max_z as int),
            f == reach(live@),
            n == live@.len(),
            total == sum(i as int, f),
            i > 0 ==> total > 0,
        decreases live.len() - i,
    {
        proof {
            let t = choose|t: int| 0 <= t < live@.len() && (#[trigger] live@[t]).z == max_z;
            assert(live@[t].z - live@[i as int].z + 1 <= i32::MAX);
            assert forall|k: int| 0 <= k < n implies #[trigger] f(k) >= 0 by {
                assert(live@[k].z <= max_z);
            }
            sum_grows(i + 1, n, f);
        }
        let w: u32 = (max_z - live[i].z + 1) as u32;
        total = total + w;
        i += 1;
    }
    let roll: u32 = roll_below(total);
    hit_cell_for_roll(health, roll)
}

/// Of two standing cells, the lower one answers to more rolls than the higher one.
pub proof fn low_cells_are_hit_more(places: Seq<IVec3>, i: int, j: int)
    requires
        0 <= i < places.len(),
        0 <= j < places.len(),
        places[i].z < places[j].z,
    ensures
        reach(places)(i) > reach(places)(j),
{
}

proof fn top_exists(places: Seq<IVec3>)
    requires
        places.len() > 0,
    ensures
        is_top(places, top(places)),
    decreases places.len(),
{
    let z = places.last().z as int;
    if places.len() == 1 {
        assert(is_top(places, z));
    } else {
        let rest = places.drop_last();
        top_exists(rest);
        let t = top(rest);
        let k = choose|k: int| 0 <= k < rest.len() && (#[trigger] rest[k]).z == t;
        let m = if z > t {
            z
        } else {
            t
        };
        assert(places[k].z == t);
        assert(places[places.len() - 1].z == z);
        assert forall|i: int| 0 <= i < places.len() implies (#[trigger] places[i]).z <= m by {
            if i < rest.len() {
                assert(rest[i].z <= t);
            }
        }
        assert(is_top(places, m));
    }
}

/// What a place below level `t` weighs.
spec fn weight(places: Seq<IVec3>, t: int) -> spec_fn(int) -> int {
    |i: int| t - places[i].z + 1
}

proof fn weight_of_push(places: Seq<IVec3>, t: int, p: IVec3)
    ensures
        sum(places.len() as int + 1, weight(places.push(p), t)) == sum(
            places.len() as int,
            weight(places, t),
        ) + t - p.z + 1,
{
    sum_agrees(places.len() as int, weight(places.push(p), t), weight(places, t));
}

proof fn fewer_weigh_less(
    before: Seq<(IVec3, u16)>,
    after: Seq<(IVec3, u16)>,
    n: int,
    t: int,
)
    requires
        0 <= n <= before.len(),
        after.len() == before.len(),
        forall|i: int|
            0 <= i < before.len() ==> (#[trigger] after[i]).0 == before[i].0 && after[i].1
                <= before[i].1,
        forall|i: int| 0 <= i < n && (#[trigger] before[i]).1 > 0 ==> before[i].0.z <= t,
    ensures
        ({
            let a = collect(n, stands(after), |i: int| after[i].0);
            let b = collect(n, stands(before), |i: int| before[i].0);
            &&& sum(a.len() as int, weight(a, t)) <= sum(b.len() as int, weight(b, t))
            &&& forall|p: IVec3| a.contains(p) ==> #[trigger] b.contains(p)
        }),
    decreases n,
{
    let mka = |i: int| after[i].0;
    let mkb = |i: int| before[i].0;
    if n > 0 {
        fewer_weigh_less(before, after, n - 1, t);
        let a = collect(n - 1, stands(after), mka);
        let b = collect(n - 1, stands(before), mkb);
        let p = before[n - 1].0;
        weight_of_push(a, t, p);
        weight_of_push(b, t, p);
        assert(after[n - 1].0 == p);
        let a1 = collect(n, stands(after), mka);
        let b1 = collect(n, stands(before), mkb);
        assert forall|q: IVec3| a1.contains(q) implies #[trigger] b1.contains(q) by {
            let k = choose|k: int| 0 <= k < a1.len() && a1[k] == q;
            if k < a.len() {
                assert(a[k] == q);
                assert(b.contains(q));
                let m = choose|m: int| 0 <= m < b.len() && b[m] == q;
                assert(b1[m] == q);
            } else {
                assert(b1[b.len() as int] == q);
            }
        }
    }
}

/// A hull whose weights fit in machine words is still such a hull after a hit.
pub proof fn hits_keep_the_weights(health: Seq<(IVec3, u16)>, pos: IVec3, dmg: u16)
    requires
        reach_fits(health),
    ensures
        reach_fits(after_hit(health, pos, dmg)),
{
    let after = after_hit(health, pos, dmg);
    damage_never_heals(health, pos, dmg);
    let n = health.len() as int;
    let mka = |i: int| after[i].0;
    let mkb = |i: int| health[i].0;
    let a = live_places(after);
    let b = live_places(health);
    assert(a == collect(n, stands(after), mka));
    if a.len() > 0 {
        let t = top(b);
        assert(sum(0, weight(a, t)) == 0);
        if b.len() > 0 {
            top_exists(b);
        }
        assert forall|i: int| 0 <= i < n && (#[trigger] health[i]).1 > 0 implies health[i].0.z
            <= t by {
            collect_contains(n, stands(health), mkb, health[i].0);
            assert(mkb(i) == health[i].0 && stands(health)(i));
            let k = choose|k: int| 0 <= k < b.len() && b[k] == health[i].0;
            assert(b[k].z <= t);
        }
        fewer_weigh_less(health, after, n, t);
        assert(a.contains(a[0]));
        assert(b.contains(a[0]));
        top_exists(a);
        let u = top(a);
        let k = choose|k: int| 0 <= k < a.len() && (#[trigger] a[k]).z == u;
        assert(a.contains(a[k]));
        assert(b.contains(a[k]));
        let m = choose|m: int| 0 <= m < b.len() && b[m] == a[k];
        assert(b[m].z <= t);
        sum_at_most(a.len() as int, reach(a), weight(a, t));
        sum_agrees(b.len() as int, reach(b), weight(b, t));
        assert forall|i: int, j: int| 0 <= i < a.len() && 0 <= j < a.len() implies (
        #[trigger] a[i]).z - (#[trigger] a[j]).z + 1 <= i32::MAX by {
            assert(a.contains(a[i]) && a.contains(a[j]));
            assert(b.contains(a[i]) && b.contains(a[j]));
            let x = choose|x: int| 0 <= x < b.len() && b[x] == a[i];
            let y = choose|y: int| 0 <= y < b.len() && b[y] == a[j];
            assert(b[x].z - b[y].z + 1 <= i32::MAX);
        }
    }
}

/// A hit on the cell at `pos`, where each place is held once, takes its strength from that cell,
/// down to nothing and no further, and leaves every other cell as it was.
pub proof fn hits_hurt_one_cell(health: Seq<(IVec3, u16)>, pos: IVec3, dmg: u16, k: int, i: int)
    requires
        0 <= k < health.len(),
        health[k].0 == pos,
        forall|j: int| 0 <= j < k ==> (#[trigger] health[j]).0 != pos,
        0 <= i < health.len(),
    ensures
        health_at(health, pos) == health[k].1,
        after_hit(health, pos, dmg)[k].0 == pos,
        after_hit(health, pos, dmg)[k].1 + dmg == health[k].1 || (after_hit(health, pos, dmg)[k].1
            == 0 && health[k].1 <= dmg),
        i != k ==> after_hit(health, pos, dmg)[i] == health[i],
        destroys(health, pos, dmg) <==> health[k].1 > 0 && after_hit(health, pos, dmg)[k].1 == 0,
{
    assert(first_where(health, at_place(pos), k)) by {
        assert forall|j: int| 0 <= j < k implies !at_place(pos)(#[trigger] health[j]) by {}
    }
    find_is_first(health, at_place(pos), k);
    if first_where(health, at_place(pos), i) {
        first_is_unique(health, pos, i, k);
    }
}

/// A hit where the vehicle has no cell changes nothing and destroys nothing.
pub proof fn misses_hurt_nothing(health: Seq<(IVec3, u16)>, pos: IVec3, dmg: u16)
    requires
        forall|j: int| 0 <= j < health.len() ==> (#[trigger] health[j]).0 != pos,
    ensures
        after_hit(health, pos, dmg) == health,
        !destroys(health, pos, dmg),
{
    find_is_none(health, at_place(pos));
    assert(after_hit(health, pos, dmg) =~= health) by {
        assert forall|i: int| 0 <= i < health.len() implies after_hit(health, pos, dmg)[i]
            == health[i] by {
            assert(!at_place(pos)(health[i]));
        }
    }
}

/// What the loss of the first design cell at a place sets off is told by its kind: a wheel, axle
/// or track stops the vehicle, a cargo bay spills the cargo, a hitch or yoke frees the team, a
/// crew seat puts somebody down, and a frame, deck or axle tips the vehicle over where no cell of
/// the design lies lower. Nothing else does any of this.
pub proof fn losses_follow_the_kind(cells: Seq<(IVec3, VehicleCell)>, k: int)
    requires
        0 <= k < cells.len(),
        forall|j: int| 0 <= j < k ==> (#[trigger] cells[j]).0 != cells[k].0,
    ensures
        ({
            let kind = cells[k].1.kind;
            let out = loss_of(cells, cells[k].0);
            let lowest = forall|j: int|
                0 <= j < cells.len() ==> (#[trigger] cells[j]).0.z >= cells[k].0.z;
            &&& out.cell_destroyed
            &&& out.movement_disabled <==> kind == VehiclePartKind::Wheel || kind
                == VehiclePartKind::Axle || kind == VehiclePartKind::Track
            &&& out.spill_cargo <==> kind == VehiclePartKind::CargoBay
            &&& out.release_animals <==> kind == VehiclePartKind::Hitch || kind
                == VehiclePartKind::Yoke
            &&& out.eject_crew <==> kind == VehiclePartKind::CrewSeat
            &&& out.force_overturn <==> lowest && (kind == VehiclePartKind::Frame || kind
                == VehiclePartKind::Deck || kind == VehiclePartKind::Axle)
        }),
{
    cell_at_first(cells, cells[k].0, k);
    bounding_box_is_box(cells);
    assert(cells[k].0.z >= bounding_box(cells).0.z);
}

/// The loss of running gear marks the vehicle as unable to move, that of a cargo bay as unable to
/// carry; no loss takes a mark away.
pub proof fn losses_leave_marks(
    flags: VehicleDisableFlags,
    cells: Seq<(IVec3, VehicleCell)>,
    k: int,
    mark: u8,
)
    requires
        0 <= k < cells.len(),
        forall|j: int| 0 <= j < k ==> (#[trigger] cells[j]).0 != cells[k].0,
    ensures
        ({
            let kind = cells[k].1.kind;
            let after = flags_after(flags, cells, cells[k].0);
            &&& kind == VehiclePartKind::Wheel || kind == VehiclePartKind::Axle || kind
                == VehiclePartKind::Track ==> after.holds(1)
            &&& kind == VehiclePartKind::CargoBay ==> after.holds(4)
            &&& flags.holds(mark) ==> after.holds(mark)
        }),
{
    cell_at_first(cells, cells[k].0, k);
    let f: u8 = flags.0;
    assert((f | 1u8) & 1u8 != 0) by (bit_vector);
    assert((f | 4u8) & 4u8 != 0) by (bit_vector);
    assert(f & mark != 0 ==> (f | 1u8) & mark != 0) by (bit_vector);
    assert(f & mark != 0 ==> (f | 4u8) & mark != 0) by (bit_vector);
}

/// A new vehicle is whole: every cell of its design has its full durability.
pub proof fn new_vehicles_are_whole(cells: Seq<(IVec3, VehicleCell)>, k: int)
    requires
        0 <= k < cells.len(),
        forall|j: int| 0 <= j < k ==> (#[trigger] cells[j]).0 != cells[k].0,
    ensures
        health_at(whole(cells), cells[k].0) == cells[k].1.durability,
{
    let h = whole(cells);
    assert(first_where(h, at_place(cells[k].0), k)) by {
        assert forall|j: int| 0 <= j < k implies !at_place(cells[k].0)(#[trigger] h[j]) by {
            assert(cells[j].0 != cells[k].0);
        }
    }
    find_is_first(h, at_place(cells[k].0), k);
}

/// The highest standing cells answer to one roll each, and each level lower to one more; so many
/// rolls point at a cell, and no other cell answers to them.
pub proof fn each_level_down_is_one_roll_more(places: Seq<IVec3>, i: int, t: int, roll: int, j: int)
    requires
        0 <= i < places.len(),
        0 <= t < places.len(),
        forall|k: int| 0 <= k < places.len() ==> (#[trigger] places[k]).z <= places[t].z,
    ensures
        reach(places)(t) == 1,
        reach(places)(i) == 1 + places[t].z - places[i].z,
        points_at(places, roll, i) <==> sum(i, reach(places)) <= roll < sum(i, reach(places)) + 1
            + places[t].z - places[i].z,
        points_at(places, roll, i) && points_at(places, roll, j) ==> i == j,
{
    top_exists(places);
    let f = reach(places);
    assert(is_top(places, top(places)));
    let w = choose|w: int| 0 <= w < places.len() && (#[trigger] places[w]).z == top(places);
    assert(places[t].z <= top(places) && places[w].z <= places[t].z);
    assert(sum(i + 1, f) == sum(i, f) + f(i));
    assert forall|k: int| 0 <= k < places.len() implies #[trigger] f(k) >= 0 by {
        assert(places[k].z <= places[t].z);
    }
    if points_at(places, roll, i) && points_at(places, roll, j) {
        if i < j {
            sum_grows(i + 1, j, f);
        } else if j < i {
            sum_grows(j + 1, i, f);
        }
    }
}

/// Exactly the cells that still stand can be hit.
pub proof fn only_standing_cells_can_be_hit(health: Seq<(IVec3, u16)>, pos: IVec3)
    ensures
        live_places(health).contains(pos) <==> exists|i: int|
            0 <= i < health.len() && (#[trigger] health[i]).0 == pos && health[i].1 > 0,
{
    let n = health.len() as int;
    let mk = |i: int| health[i].0;
    collect_contains(n, stands(health), mk, pos);
    if live_places(health).contains(pos) {
        let i = choose|i: int| 0 <= i < n && stands(health)(i) && #[trigger] mk(i) == pos;
        assert(health[i].0 == pos && health[i].1 > 0);
    }
    if exists|i: int| 0 <= i < health.len() && (#[trigger] health[i]).0 == pos && health[i].1 > 0 {
        let i = choose|i: int|
            0 <= i < health.len() && (#[trigger] health[i]).0 == pos && health[i].1 > 0;
        assert(stands(health)(i) && mk(i) == pos);
    }
}

/// Only what stands counts as standing: one more cell counts exactly when it has health left.
pub proof fn standing_counts_what_has_health(health: Seq<(IVec3, u16)>, c: (IVec3, u16))
    ensures
        standing(Seq::empty()) == 0,
        c.1 > 0 ==> standing(health.push(c)) == standing(health) + 1,
        c.1 == 0 ==> standing(health.push(c)) == standing(health),
{
    let n = health.len() as int;
    same_standing(health, health.push(c), n);
    assert(health.push(c)[n] == c);
}

proof fn same_standing(a: Seq<(IVec3, u16)>, b: Seq<(IVec3, u16)>, n: int)
    requires
        0 <= n <= a.len(),
        n <= b.len(),
        forall|i: int| 0 <= i < n ==> #[trigger] a[i] == b[i],
    ensures
        count(n, stands(a)) == count(n, stands(b)),
    decreases n,
{
    if n > 0 {
        same_standing(a, b, n - 1);
        assert(a[n - 1] == b[n - 1]);
    }
}

/// A blow can meet any cell that stands, and no other.
pub proof fn any_standing_cell_may_be_hit(health: Seq<(IVec3, u16)>, pos: IVec3)
    ensures
        may_be_hit(health, pos) <==> exists|k: int|
            0 <= k < health.len() && (#[trigger] health[k]).0 == pos && health[k].1 > 0,
{
    let places = live_places(health);
    let f = reach(places);
    only_standing_cells_can_be_hit(health, pos);
    if may_be_hit(health, pos) {
        let (roll, i) = choose|roll: int, i: int|
            0 <= roll < total_reach(places) && #[trigger] points_at(places, roll, i) && places[i]
                == pos;
        assert(places.contains(places[i]));
    }
    if places.contains(pos) {
        let i = choose|i: int| 0 <= i < places.len() && places[i] == pos;
        top_exists(places);
        assert forall|k: int| 0 <= k < places.len() implies #[trigger] f(k) >= 1 by {
            assert(places[k].z <= top(places));
        }
        sum_grows(0, i, f);
        sum_grows(i + 1, places.len() as int, f);
        assert(sum(i + 1, f) == sum(i, f) + f(i));
        assert(points_at(places, sum(i, f), i));
    }
}

} // verus!
