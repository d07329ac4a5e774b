//! Melee against vehicles: who can strike, how hard, and what falls off.

use vstd::prelude::*;
use crate::design::{VehicleDesign, VehicleDesignRegistry};
use crate::footprint::{cover_fits, covered, footprint_reaches, footprint_ready, reaches_spec};
use crate::geometry::{tile_distance, IVec3};
use crate::grid::VehicleCell;
use crate::health::{
    after_hit, apply_vehicle_cell_damage, damage_never_heals, destroys, flags_after,
    hits_hurt_one_cell, hits_keep_the_weights, loss_of, losses_follow_the_kind, losses_leave_marks,
    may_be_hit, pick_hit_cell, reach_fits, standing, stands, VehicleHealth, VehicleHitOutcome,
};
use crate::inventory::VehicleInventory;
use crate::parts::{Entity, ResourceId, VehiclePartKind, VehicleState};
use crate::seqs::{collect, collect_contains, count_bounds, first_where};
use crate::vehicle::{aboard, eject_all_crew, Vehicle, VehicleCrew, VehicleDraft};

verus! {

/// Damage of a bare hand.
pub const VEHICLE_BASE_ATTACK_DAMAGE: u16 = 2;

/// Someone who may strike at a vehicle.
#[derive(Clone, Copy, Debug)]
pub struct Attacker {
    /// Whom the attacker is after.
    pub target: Option<Entity>,
    /// The attacker is simulated only in the large.
    pub dormant: bool,
    /// The attacker's cooldown has run out, or there is none.
    pub ready: bool,
    pub tile: (i32, i32),
    pub weapon_bonus: Option<u8>,
    pub strength_modifier: Option<i8>,
}

/// A vehicle with all it carries.
#[derive(Debug)]
pub struct Target {
    pub entity: Entity,
    pub vehicle: Vehicle,
    pub health: VehicleHealth,
    pub inventory: VehicleInventory,
    pub draft: VehicleDraft,
    pub crew: VehicleCrew,
    /// Nothing of it stands any more; it is about to leave the world.
    pub wrecked: bool,
}

/// Whether an attacker stands close enough to some footprint tile.
pub fn can_reach(design: &VehicleDesign, vehicle: &Vehicle, attacker: (i32, i32)) -> (b: bool)
    requires
        footprint_ready(design.grid.cells@),
        cover_fits(design.grid.cells@, vehicle.anchor_tile, vehicle.heading as int),
    ensures
        b == reaches_spec(
            design.grid.cells@,
            vehicle.anchor_tile,
            vehicle.heading as int,
            attacker,
        ),
{
    footprint_reaches(design, vehicle.anchor_tile, vehicle.heading, attacker)
}

/// The damage of a blow: the base, the weapon's bonus, and a strength modifier that helps but
/// never hurts.
pub open spec fn blow(weapon_bonus: Option<u8>, strength_modifier: Option<i8>) -> int {
    VEHICLE_BASE_ATTACK_DAMAGE + (match weapon_bonus {
        Some(b) => b as int,
        None => 0,
    }) + (match strength_modifier {
        Some(m) => if m > 0 {
            m as int
        } else {
            0
        },
        None => 0,
    })
}

/// How hard an attacker strikes.
pub fn melee_damage(weapon_bonus: Option<u8>, strength_modifier: Option<i8>) -> (dmg: u16)
    ensures
        dmg == blow(weapon_bonus, strength_modifier),
{
    let mut dmg: u16 = VEHICLE_BASE_ATTACK_DAMAGE;
    match weapon_bonus {
        Some(b) => {
            dmg = dmg + b as u16;
        },
        None => {},
    }
    match strength_modifier {
        Some(m) => {
            if m > 0 {
                dmg = dmg + m as u16;
            }
        },
        None => {},
    }
    dmg
}

/// What the world has to do after a hit.
#[derive(Debug)]
pub struct Aftermath {
    /// The route is dropped.
    pub stop_path: bool,
    /// Piles of cargo that fall at the anchor tile.
    pub spilled: Vec<(ResourceId, u32)>,
    /// Animals that are set free.
    pub released: Vec<Entity>,
    /// Riders that are put down.
    pub unboarded: Vec<Entity>,
    /// Nothing stands any more.
    pub wrecked: bool,
}

/// The cargo slots that hold something.
pub open spec fn piles(items: Seq<(ResourceId, u32)>) -> Seq<(ResourceId, u32)> {
    collect(items.len() as int, |i: int| items[i].1 > 0, |i: int| items[i])
}

/// Empties the cargo and returns the slots that held something.
pub fn spill(inv: &mut VehicleInventory) -> (out: Vec<(ResourceId, u32)>)
    ensures
        out@ == piles(old(inv).items@),
        final(inv).items@.len() == 0,
{
    let ghost items = inv.items@;
    let ghost p = |i: int| items[i].1 > 0;
    let ghost mk = |i: int| items[i];
    let mut out: Vec<(ResourceId, u32)> = Vec::new();
    let mut i: usize = 0;
    while i < inv.items.len()
        invariant
            i <= inv.items.len(),
            inv.items@ == items,
            p == (|i: int| items[i].1 > 0),
            mk == (|i: int| items[i]),
            out@ == collect(i as int, p, mk),
        decreases inv.items.len() - i,
    {
        if inv.items[i].1 > 0 {
            out.push(inv.items[i]);
        }
        i += 1;
    }
    inv.items.clear();
    out
}

/// The crew after one rider is exposed, and that rider: a passenger first, then a gunner, the
/// driver last.
pub open spec fn exposed(crew: VehicleCrew) -> Option<Entity> {
    if crew.passengers@.len() > 0 {
        Some(crew.passengers@.last())
    } else if crew.gunners@.len() > 0 {
        Some(crew.gunners@.last())
    } else {
        crew.driver
    }
}

/// `after` is `crew` without its exposed rider.
pub open spec fn without_exposed(crew: VehicleCrew, after: VehicleCrew) -> bool {
    if crew.passengers@.len() > 0 {
        after.driver == crew.driver && after.passengers@ == crew.passengers@.drop_last()
            && after.gunners@ == crew.gunners@
    } else if crew.gunners@.len() > 0 {
        after.driver == crew.driver && after.passengers@ == crew.passengers@ && after.gunners@
            == crew.gunners@.drop_last()
    } else {
        after.driver is None && after.passengers@ == crew.passengers@ && after.gunners@
            == crew.gunners@
    }
}

/// Puts one rider down: a passenger first, then a gunner, the driver last.
pub fn expose_one(crew: &mut VehicleCrew) -> (rider: Option<Entity>)
    ensures
        rider == exposed(*old(crew)),
        without_exposed(*old(crew), *final(crew)),
{
    if crew.passengers.len() > 0 {
        crew.passengers.pop()
    } else if crew.gunners.len() > 0 {
        crew.gunners.pop()
    } else {
        let d = crew.driver;
        crew.driver = None;
        d
    }
}

/// One rider as a sequence.
pub open spec fn one(rider: Option<Entity>) -> Seq<Entity> {
    match rider {
        Some(r) => seq![r],
        None => Seq::empty(),
    }
}

/// Everyone a vehicle carries, before and after an exposure, in the order in which a hit puts
/// them down.
pub open spec fn put_down(
    crew: VehicleCrew,
    hauler: Option<Entity>,
    seat_lost: bool,
    down: bool,
) -> Seq<Entity> {
    let first = if seat_lost {
        one(exposed(crew))
    } else {
        Seq::empty()
    };
    if down {
        let left = if seat_lost {
            aboard_without_exposed(crew)
        } else {
            aboard(crew)
        };
        first + one(hauler) + left
    } else {
        first
    }
}

/// The crew that stays seated when one rider is exposed.
pub open spec fn aboard_without_exposed(crew: VehicleCrew) -> Seq<Entity> {
    if crew.passengers@.len() > 0 {
        one(crew.driver) + crew.passengers@.drop_last() + crew.gunners@
    } else if crew.gunners@.len() > 0 {
        one(crew.driver) + crew.passengers@ + crew.gunners@.drop_last()
    } else {
        crew.passengers@ + crew.gunners@
    }
}

/// `after` is the vehicle `before` after a hit of strength `dmg` on the cell at `hit`, and `a` is
/// what the world has to do about it.
pub open spec fn struck(
    before: Target,
    after: Target,
    cells: Seq<(IVec3, VehicleCell)>,
    hit: IVec3,
    dmg: u16,
    a: Aftermath,
) -> bool {
    let lost = destroys(before.health.cells@, hit, dmg);
    let out = loss_of(cells, hit);
    let gone = lost && standing(after.health.cells@) == 0;
    let down = gone || (lost && out.force_overturn);
    &&& after.entity == before.entity
    &&& after.health.cells@ == after_hit(before.health.cells@, hit, dmg)
    &&& after.health.disabled == (if lost {
        flags_after(before.health.disabled, cells, hit)
    } else {
        before.health.disabled
    })
    &&& a.wrecked == gone
    &&& after.wrecked == (before.wrecked || gone)
    &&& a.stop_path == (lost && out.movement_disabled || down)
    &&& after.vehicle == (Vehicle {
        state: if down {
            VehicleState::Overturned
        } else if lost && out.movement_disabled && before.vehicle.state == VehicleState::Moving {
            VehicleState::Parked
        } else {
            before.vehicle.state
        },
        hauler: if down {
            None
        } else {
            before.vehicle.hauler
        },
        ..before.vehicle
    })
    &&& (lost && out.spill_cargo || down) ==> a.spilled@ == piles(before.inventory.items@)
        && after.inventory.items@.len() == 0
    &&& !(lost && out.spill_cargo || down) ==> a.spilled@.len() == 0 && after.inventory.items@
        == before.inventory.items@
    &&& (lost && out.release_animals || down) ==> a.released@ == before.draft.hitched@
        && after.draft.hitched@.len() == 0
    &&& !(lost && out.release_animals || down) ==> a.released@.len() == 0 && after.draft.hitched@
        == before.draft.hitched@
    &&& after.draft.required_animals == before.draft.required_animals
    &&& a.unboarded@ == put_down(
        before.crew,
        before.vehicle.hauler,
        lost && out.eject_crew,
        down,
    )
    &&& down ==> aboard(after.crew).len() == 0
    &&& !down && lost && out.eject_crew ==> without_exposed(before.crew, after.crew)
    &&& !down && !(lost && out.eject_crew) ==> after.crew == before.crew
}

/// Resolves a hit of strength `dmg` on the cell at `hit`. A lost wheel, axle or track stops the
/// vehicle; a lost bay spills the cargo; a lost hitch frees the team; a lost seat puts one rider
/// down. When a bottom chassis cell or the last cell goes, the vehicle overturns: cargo, team,
/// hauler and crew all leave it.
pub fn resolve_hit(target: &mut Target, design: &VehicleDesign, hit: IVec3, dmg: u16) -> (a:
    Aftermath)
    ensures
        struck(*old(target), *final(target), design.grid.cells@, hit, dmg, a),
{
    let ghost before = *target;
    let mut a = Aftermath {
        stop_path: false,
        spilled: Vec::new(),
        released: Vec::new(),
        unboarded: Vec::new(),
        wrecked: false,
    };
    let outcome: VehicleHitOutcome = apply_vehicle_cell_damage(
        &mut target.health,
        design,
        hit,
        dmg,
    );
    if !outcome.cell_destroyed {
        assert(a.unboarded@ =~= put_down(before.crew, before.vehicle.hauler, false, false));
        return a;
    }
    if outcome.movement_disabled {
        a.stop_path = true;
        if target.vehicle.state == VehicleState::Moving {
            target.vehicle.state = VehicleState::Parked;
        }
    }
    if outcome.spill_cargo {
        a.spilled = spill(&mut target.inventory);
    }
    if outcome.release_animals {
        a.released.append(&mut target.draft.hitched);
        assert(a.released@ =~= before.draft.hitched@);
    }
    if outcome.eject_crew {
        match expose_one(&mut target.crew) {
            Some(r) => a.unboarded.push(r),
            None => {},
        }
    }
    assert(a.unboarded@ =~= put_down(
        before.crew,
        before.vehicle.hauler,
        outcome.eject_crew,
        false,
    ));
    let wreck: bool = target.health.intact_cells() == 0;
    if outcome.force_overturn || wreck {
        target.vehicle.state = VehicleState::Overturned;
        a.stop_path = true;
        let mut rest = spill(&mut target.inventory);
        a.spilled.append(&mut rest);
        assert(a.spilled@ =~= piles(before.inventory.items@)) by {
            assert(piles(Seq::<(ResourceId, u32)>::empty()) =~= Seq::empty());
        }
        a.released.append(&mut target.draft.hitched);
        assert(a.released@ =~= before.draft.hitched@);
        match target.vehicle.hauler {
            Some(h) => a.unboarded.push(h),
            None => {},
        }
        target.vehicle.hauler = None;
        let mut seated = eject_all_crew(&mut target.crew);
        a.unboarded.append(&mut seated);
        assert(a.unboarded@ =~= put_down(
            before.crew,
            before.vehicle.hauler,
            outcome.eject_crew,
            true,
        ));
    }
    if wreck {
        target.wrecked = true;
    }
    a.wrecked = wreck;
    a
}

/// What comes of one attacker.
#[derive(Debug)]
pub enum Attack {
    /// No blow is struck.
    Held,
    /// A blow that finds nothing standing.
    Missed,
    /// A blow on a cell.
    Landed(IVec3, Aftermath),
}

impl Attack {
    /// Whether the attacker has to rest before the next blow.
    pub fn tires(&self) -> (b: bool)
        ensures
            b == !(self is Held),
    {
        match self {
            Attack::Held => false,
            _ => true,
        }
    }
}

pub open spec fn is_target(e: Entity) -> spec_fn(Target) -> bool {
    |t: Target| t.entity == e
}

/// Vehicle `k` is the one that an attacker strikes at: it is what the attacker is after, it is
/// not a wreck, its design is known, and the attacker stands beside it.
pub open spec fn strikes_at(
    a: Attacker,
    fleet: Seq<Target>,
    designs: VehicleDesignRegistry,
    k: int,
) -> bool {
    &&& !a.dormant
    &&& a.ready
    &&& a.target is Some
    &&& first_where(fleet, is_target(a.target->0), k)
    &&& !fleet[k].wrecked
    &&& match designs.lookup(fleet[k].vehicle.design_id) {
        Some(d) => reaches_spec(
            d.grid.cells@,
            fleet[k].vehicle.anchor_tile,
            fleet[k].vehicle.heading as int,
            a.tile,
        ),
        None => false,
    }
}

/// What one attacker does: nothing, or one blow on a standing cell of the vehicle beside them.
/// Every other vehicle stays as it is.
pub open spec fn attacked(
    a: Attacker,
    designs: VehicleDesignRegistry,
    before: Seq<Target>,
    after: Seq<Target>,
    out: Attack,
) -> bool {
    &&& after.len() == before.len()
    &&& match out {
        Attack::Held => after == before && forall|k: int| !strikes_at(a, before, designs, k),
        Attack::Missed => after == before && exists|k: int|
            strikes_at(a, before, designs, k) && standing(before[k].health.cells@) == 0,
        Attack::Landed(hit, aftermath) => exists|k: int| #[trigger]
            strikes_at(a, before, designs, k) && may_be_hit(before[k].health.cells@, hit) && struck(
                before[k],
                after[k],
                designs.lookup(before[k].vehicle.design_id)->0.grid.cells@,
                hit,
                blow(a.weapon_bonus, a.strength_modifier) as u16,
                aftermath,
            ) && after == before.update(k, after[k]),
    }
}

/// The vehicles have room on the map and hulls of ordinary size.
pub open spec fn can_be_attacked(t: Target, designs: VehicleDesignRegistry) -> bool {
    &&& reach_fits(t.health.cells@)
    &&& match designs.lookup(t.vehicle.design_id) {
        Some(d) => footprint_ready(d.grid.cells@) && cover_fits(
            d.grid.cells@,
            t.vehicle.anchor_tile,
            t.vehicle.heading as int,
        ),
        None => true,
    }
}

/// The vehicle that an attacker is after.
fn find_target(e: Entity, fleet: &Vec<Target>) -> (r: Option<usize>)
    ensures
        match r {
            Some(k) => first_where(fleet@, is_target(e), k as int),
            None => forall|k: int| 0 <= k < fleet@.len() ==> (#[trigger] fleet@[k]).entity != e,
        },
{
    let mut k: usize = 0;
    while k < fleet.len()
        invariant
            k <= fleet.len(),
            forall|j: int| 0 <= j < k ==> (#[trigger] fleet@[j]).entity != e,
        decreases fleet.len() - k,
    {
        if fleet[k].entity == e {
            return Some(k);
        }
        k += 1;
    }
    None
}

/// One attacker's turn. Which standing cell a blow lands on is a matter of chance.
pub fn attack(a: &Attacker, designs: &VehicleDesignRegistry, fleet: &mut Vec<Target>) -> (out:
    Attack)
    requires
        forall|k: int|
            0 <= k < old(fleet)@.len() ==> can_be_attacked(#[trigger] old(fleet)@[k], *designs),
    ensures
        attacked(*a, *designs, old(fleet)@, final(fleet)@, out),
{
    let ghost before = fleet@;
    if a.dormant || !a.ready {
        return Attack::Held;
    }
    let e = match a.target {
        Some(e) => e,
        None => {
            return Attack::Held;
        },
    };
    let k = match find_target(e, fleet) {
        Some(k) => k,
        None => {
            return Attack::Held;
        },
    };
    assert forall|j: int| strikes_at(*a, before, *designs, j) implies j == k by {
        if j < k {
            assert(!is_target(e)(before[j]));
        } else if k < j {
            assert(!is_target(e)(before[k as int]));
        }
    }
    if fleet[k].wrecked {
        return Attack::Held;
    }
    let design = match designs.get(fleet[k].vehicle.design_id) {
        Some(d) => d,
        None => {
            return Attack::Held;
        },
    };
    assert(can_be_attacked(before[k as int], *designs));
    if !can_reach(design, &fleet[k].vehicle, a.tile) {
        return Attack::Held;
    }
    assert(strikes_at(*a, before, *designs, k as int));
    let hit = match pick_hit_cell(&fleet[k].health) {
        Some(p) => p,
        None => {
            return Attack::Missed;
        },
    };
    let dmg: u16 = melee_damage(a.weapon_bonus, a.strength_modifier);
    let aftermath = resolve_hit(&mut fleet[k], design, hit, dmg);
    assert(fleet@ =~= before.update(k as int, fleet@[k as int]));
    Attack::Landed(hit, aftermath)
}

/// `trace` holds the vehicles before the first attacker and after each of them.
pub open spec fn fought(
    attackers: Seq<Attacker>,
    designs: VehicleDesignRegistry,
    trace: Seq<Seq<Target>>,
    outs: Seq<Attack>,
) -> bool {
    &&& outs.len() == attackers.len()
    &&& trace.len() == attackers.len() + 1
    &&& forall|i: int|
        0 <= i < attackers.len() ==> attacked(
            #[trigger] attackers[i],
            designs,
            trace[i],
            trace[i + 1],
            outs[i],
        )
}

/// Every attacker's turn, one after the other.
pub fn vehicle_combat_system(
    attackers: &Vec<Attacker>,
    designs: &VehicleDesignRegistry,
    fleet: &mut Vec<Target>,
) -> (outs: Vec<Attack>)
    requires
        forall|k: int|
            0 <= k < old(fleet)@.len() ==> can_be_attacked(#[trigger] old(fleet)@[k], *designs),
    ensures
        exists|trace: Seq<Seq<Target>>| #[trigger]
            fought(attackers@, *designs, trace, outs@) && trace.first() == old(fleet)@
                && trace.last() == final(fleet)@,
{
    let mut outs: Vec<Attack> = Vec::new();
    let ghost mut trace: Seq<Seq<Target>> = seq![fleet@];
    let mut i: usize = 0;
    while i < attackers.len()
        invariant
            i <= attackers.len(),
            fought(attackers@.take(i as int), *designs, trace, outs@),
            trace.first() == old(fleet)@,
            trace.last() == fleet@,
            forall|k: int|
                0 <= k < fleet@.len() ==> can_be_attacked(#[trigger] fleet@[k], *designs),
        decreases attackers.len() - i,
    {
        let ghost before = fleet@;
        let ghost first = trace;
        let ghost done = outs@;
        let out = attack(&attackers[i], designs, fleet);
        proof {
            stays_attackable(attackers@[i as int], *designs, before, fleet@, out);
            trace = trace.push(fleet@);
            let a = attackers@.take(i as int + 1);
            let all = done.push(out);
            assert forall|j: int| 0 <= j < a.len() implies attacked(
                #[trigger] a[j],
                *designs,
                trace[j],
                trace[j + 1],
                all[j],
            ) by {
                if j < i {
                    let s = attackers@.take(i as int);
                    assert(s[j] == a[j]);
                    assert(trace[j] == first[j] && trace[j + 1] == first[j + 1]);
                } else {
                    assert(trace[j] == first.last());
                }
            }
        }
        outs.push(out);
        i += 1;
    }
    proof {
        assert(attackers@.take(i as int) =~= attackers@);
    }
    outs
}

proof fn stays_attackable(
    a: Attacker,
    designs: VehicleDesignRegistry,
    before: Seq<Target>,
    after: Seq<Target>,
    out: Attack,
)
    requires
        attacked(a, designs, before, after, out),
        forall|k: int|
            0 <= k < before.len() ==> can_be_attacked(#[trigger] before[k], designs),
    ensures
        forall|k: int| 0 <= k < after.len() ==> can_be_attacked(#[trigger] after[k], designs),
{
    match out {
        Attack::Landed(hit, aftermath) => {
            let dmg = blow(a.weapon_bonus, a.strength_modifier) as u16;
            let k = choose|k: int| #[trigger]
                strikes_at(a, before, designs, k) && may_be_hit(before[k].health.cells@, hit)
                    && struck(
                    before[k],
                    after[k],
                    designs.lookup(before[k].vehicle.design_id)->0.grid.cells@,
                    hit,
                    dmg,
                    aftermath,
                ) && after == before.update(k, after[k]);
            assert(can_be_attacked(before[k], designs));
            hits_keep_the_weights(before[k].health.cells@, hit, dmg);
            assert forall|j: int| 0 <= j < after.len() implies can_be_attacked(
                #[trigger] after[j],
                designs,
            ) by {
                if j != k {
                    assert(after[j] == before[j]);
                    assert(can_be_attacked(before[j], designs));
                }
            }
        },
        _ => {},
    }
}

/// A wreck is left alone, and no blow heals: from one turn to the next every wreck stays as it
/// is, and no vehicle gains a standing cell.
pub proof fn wrecks_are_left_alone(
    a: Attacker,
    designs: VehicleDesignRegistry,
    before: Seq<Target>,
    after: Seq<Target>,
    out: Attack,
    k: int,
)
    requires
        attacked(a, designs, before, after, out),
        0 <= k < before.len(),
    ensures
        before[k].wrecked ==> after[k] == before[k],
        standing(after[k].health.cells@) <= standing(before[k].health.cells@),
{
    match out {
        Attack::Landed(hit, aftermath) => {
            let dmg = blow(a.weapon_bonus, a.strength_modifier) as u16;
            let j = choose|j: int| #[trigger]
                strikes_at(a, before, designs, j) && may_be_hit(before[j].health.cells@, hit)
                    && struck(
                    before[j],
                    after[j],
                    designs.lookup(before[j].vehicle.design_id)->0.grid.cells@,
                    hit,
                    dmg,
                    aftermath,
                ) && after == before.update(j, after[j]);
            if j == k {
                damage_never_heals(before[j].health.cells@, hit, dmg);
            }
        },
        _ => {},
    }
}

/// An overturned vehicle carries no one: whoever was aboard is among those put down.
pub proof fn nobody_is_lost(
    crew: VehicleCrew,
    hauler: Option<Entity>,
    seat_lost: bool,
    e: Entity,
)
    ensures
        put_down(crew, hauler, seat_lost, true).contains(e) <==> aboard(crew).contains(e) || hauler
            == Some(e),
{
    let all = put_down(crew, hauler, seat_lost, true);
    let seated = aboard(crew);
    let first = if seat_lost {
        one(exposed(crew))
    } else {
        Seq::empty()
    };
    let left = if seat_lost {
        aboard_without_exposed(crew)
    } else {
        aboard(crew)
    };
    let h = one(hauler);
    assert(all =~= first + h + left);
    assert(seated =~= one(crew.driver) + crew.passengers@ + crew.gunners@);
    contains_of_sum(first + h, left, e);
    contains_of_sum(first, h, e);
    contains_of_sum(one(crew.driver) + crew.passengers@, crew.gunners@, e);
    contains_of_sum(one(crew.driver), crew.passengers@, e);
    one_contains(hauler, e);
    one_contains(crew.driver, e);
    one_contains(exposed(crew), e);
    if seat_lost {
        if crew.passengers@.len() > 0 {
            last_contains(crew.passengers@, e);
            contains_of_sum(one(crew.driver) + crew.passengers@.drop_last(), crew.gunners@, e);
            contains_of_sum(one(crew.driver), crew.passengers@.drop_last(), e);
        } else if crew.gunners@.len() > 0 {
            last_contains(crew.gunners@, e);
            contains_of_sum(
                one(crew.driver) + crew.passengers@,
                crew.gunners@.drop_last(),
                e,
            );
        } else {
            contains_of_sum(crew.passengers@, crew.gunners@, e);
        }
    } else {
        assert(!first.contains(e));
    }
}

proof fn one_contains(rider: Option<Entity>, e: Entity)
    ensures
        one(rider).contains(e) <==> rider == Some(e),
{
    if rider is Some {
        assert(one(rider)[0] == rider->0);
    }
}

proof fn contains_of_sum(a: Seq<Entity>, b: Seq<Entity>, e: Entity)
    ensures
        (a + b).contains(e) <==> a.contains(e) || b.contains(e),
{
    if a.contains(e) {
        let k = choose|k: int| 0 <= k < a.len() && a[k] == e;
        assert((a + b)[k] == e);
    }
    if b.contains(e) {
        let k = choose|k: int| 0 <= k < b.len() && b[k] == e;
        assert((a + b)[a.len() + k] == e);
    }
    if (a + b).contains(e) {
        let k = choose|k: int| 0 <= k < (a + b).len() && (a + b)[k] == e;
        if k < a.len() {
            assert(a[k] == e);
        } else {
            assert(b[k - a.len()] == e);
        }
    }
}

proof fn last_contains(s: Seq<Entity>, e: Entity)
    requires
        s.len() > 0,
    ensures
        s.contains(e) <==> s.drop_last().contains(e) || s.last() == e,
{
    contains_of_sum(s.drop_last(), seq![s.last()], e);
    assert(s =~= s.drop_last() + seq![s.last()]);
    one_contains(Some(s.last()), e);
    assert(one(Some(s.last())) =~= seq![s.last()]);
}

/// The hit of strength `dmg` destroys health cell `h`, the first at its place, which stands on
/// design cell `k`, the first at that place.
pub open spec fn fells(
    t: Target,
    cells: Seq<(IVec3, VehicleCell)>,
    dmg: u16,
    h: int,
    k: int,
) -> bool {
    &&& 0 <= h < t.health.cells@.len()
    &&& 0 <= k < cells.len()
    &&& t.health.cells@[h].0 == cells[k].0
    &&& forall|j: int|
        0 <= j < h ==> (#[trigger] t.health.cells@[j]).0 != t.health.cells@[h].0
    &&& forall|j: int| 0 <= j < k ==> (#[trigger] cells[j]).0 != cells[k].0
    &&& 0 < t.health.cells@[h].1 <= dmg
}

proof fn felled(
    before: Target,
    after: Target,
    cells: Seq<(IVec3, VehicleCell)>,
    dmg: u16,
    a: Aftermath,
    h: int,
    k: int,
)
    requires
        fells(before, cells, dmg, h, k),
        struck(before, after, cells, cells[k].0, dmg, a),
    ensures
        destroys(before.health.cells@, cells[k].0, dmg),
{
    hits_hurt_one_cell(before.health.cells@, cells[k].0, dmg, h, h);
    losses_follow_the_kind(cells, k);
}

/// A hit that destroys a cargo bay spills all the cargo, whether or not the vehicle overturns:
/// every slot that holds something falls to the ground as one pile, nothing else does, and the
/// vehicle carries nothing afterwards.
pub proof fn lost_bays_spill_everything(
    before: Target,
    after: Target,
    cells: Seq<(IVec3, VehicleCell)>,
    dmg: u16,
    a: Aftermath,
    h: int,
    k: int,
)
    requires
        fells(before, cells, dmg, h, k),
        struck(before, after, cells, cells[k].0, dmg, a),
        cells[k].1.kind == VehiclePartKind::CargoBay,
    ensures
        after.inventory.items@.len() == 0,
        forall|i: int|
            0 <= i < before.inventory.items@.len() && (#[trigger] before.inventory.items@[i]).1 > 0
                ==> a.spilled@.contains(before.inventory.items@[i]),
        forall|j: int|
            0 <= j < a.spilled@.len() ==> (#[trigger] a.spilled@[j]).1 > 0
                && before.inventory.items@.contains(a.spilled@[j]),
        (forall|i: int|
            0 <= i < before.inventory.items@.len() ==> (#[trigger] before.inventory.items@[i]).1
                > 0) ==> a.spilled@ == before.inventory.items@,
{
    felled(before, after, cells, dmg, a, h, k);
    losses_follow_the_kind(cells, k);
    piles_are_the_full_slots(before.inventory.items@);
}

proof fn piles_are_the_full_slots(items: Seq<(ResourceId, u32)>)
    ensures
        forall|i: int|
            0 <= i < items.len() && (#[trigger] items[i]).1 > 0 ==> piles(items).contains(
                items[i],
            ),
        forall|j: int|
            0 <= j < piles(items).len() ==> (#[trigger] piles(items)[j]).1 > 0 && items.contains(
                piles(items)[j],
            ),
        (forall|i: int| 0 <= i < items.len() ==> (#[trigger] items[i]).1 > 0) ==> piles(items)
            == items,
{
    let n = items.len() as int;
    let p = |i: int| items[i].1 > 0;
    let mk = |i: int| items[i];
    assert(piles(items) == collect(n, p, mk));
    assert forall|i: int| 0 <= i < items.len() && (#[trigger] items[i]).1 > 0 implies piles(
        items,
    ).contains(items[i]) by {
        collect_contains(n, p, mk, items[i]);
        assert(p(i) && mk(i) == items[i]);
    }
    assert forall|j: int| 0 <= j < piles(items).len() implies (#[trigger] piles(items)[j]).1 > 0
        && items.contains(piles(items)[j]) by {
        collect_contains(n, p, mk, piles(items)[j]);
        assert(piles(items).contains(piles(items)[j]));
        let i = choose|i: int| 0 <= i < n && #[trigger] p(i) && mk(i) == piles(items)[j];
        assert(items[i] == piles(items)[j]);
    }
    if forall|i: int| 0 <= i < items.len() ==> (#[trigger] items[i]).1 > 0 {
        full_slots_only(items, n);
        assert(items.take(n) =~= items);
    }
}

proof fn full_slots_only(items: Seq<(ResourceId, u32)>, n: int)
    requires
        0 <= n <= items.len(),
        forall|i: int| 0 <= i < items.len() ==> (#[trigger] items[i]).1 > 0,
    ensures
        collect(n, |i: int| items[i].1 > 0, |i: int| items[i]) == items.take(n),
    decreases n,
{
    if n > 0 {
        full_slots_only(items, n - 1);
        assert(items[n - 1].1 > 0);
        assert(items.take(n) =~= items.take(n - 1).push(items[n - 1]));
    } else {
        assert(items.take(0) =~= Seq::empty());
    }
}

/// A hit that destroys a wheel, axle or track stops the vehicle: its route is dropped, it can no
/// longer move, and it does not stay on the move.
pub proof fn lost_gear_stops_the_vehicle(
    before: Target,
    after: Target,
    cells: Seq<(IVec3, VehicleCell)>,
    dmg: u16,
    a: Aftermath,
    h: int,
    k: int,
)
    requires
        fells(before, cells, dmg, h, k),
        struck(before, after, cells, cells[k].0, dmg, a),
        cells[k].1.kind == VehiclePartKind::Wheel || cells[k].1.kind == VehiclePartKind::Axle
            || cells[k].1.kind == VehiclePartKind::Track,
    ensures
        a.stop_path,
        after.health.disabled.holds(1),
        after.vehicle.state != VehicleState::Moving,
{
    felled(before, after, cells, dmg, a, h, k);
    losses_follow_the_kind(cells, k);
    losses_leave_marks(before.health.disabled, cells, k, 1);
}

/// A hit that destroys a hitch or yoke frees the whole team.
pub proof fn lost_hitches_free_the_team(
    before: Target,
    after: Target,
    cells: Seq<(IVec3, VehicleCell)>,
    dmg: u16,
    a: Aftermath,
    h: int,
    k: int,
)
    requires
        fells(before, cells, dmg, h, k),
        struck(before, after, cells, cells[k].0, dmg, a),
        cells[k].1.kind == VehiclePartKind::Hitch || cells[k].1.kind == VehiclePartKind::Yoke,
    ensures
        a.released@ == before.draft.hitched@,
        after.draft.hitched@.len() == 0,
{
    felled(before, after, cells, dmg, a, h, k);
    losses_follow_the_kind(cells, k);
}

/// A hit that destroys a seat puts down one rider first: the last passenger, without passengers
/// the last gunner, without either the driver.
pub proof fn lost_seats_put_one_down(
    before: Target,
    after: Target,
    cells: Seq<(IVec3, VehicleCell)>,
    dmg: u16,
    a: Aftermath,
    h: int,
    k: int,
)
    requires
        fells(before, cells, dmg, h, k),
        struck(before, after, cells, cells[k].0, dmg, a),
        cells[k].1.kind == VehiclePartKind::CrewSeat,
    ensures
        before.crew.passengers@.len() > 0 ==> a.unboarded@.len() > 0 && a.unboarded@[0]
            == before.crew.passengers@.last(),
        before.crew.passengers@.len() == 0 && before.crew.gunners@.len() > 0 ==> a.unboarded@.len()
            > 0 && a.unboarded@[0] == before.crew.gunners@.last(),
        before.crew.passengers@.len() == 0 && before.crew.gunners@.len() == 0 && before.crew.driver
            is Some ==> a.unboarded@.len() > 0 && a.unboarded@[0] == before.crew.driver->0,
{
    felled(before, after, cells, dmg, a, h, k);
    losses_follow_the_kind(cells, k);
}

/// A hit that destroys a frame, deck or axle below which the design has no cell, or the last cell
/// that stands, overturns the vehicle: it lies overturned without a route, and nobody and nothing
/// is left in or before it: cargo, team, hauler and crew are all put down.
pub proof fn falls_empty_the_vehicle(
    before: Target,
    after: Target,
    cells: Seq<(IVec3, VehicleCell)>,
    dmg: u16,
    a: Aftermath,
    h: int,
    k: int,
)
    requires
        fells(before, cells, dmg, h, k),
        struck(before, after, cells, cells[k].0, dmg, a),
        ({
            let kind = cells[k].1.kind;
            ||| (kind == VehiclePartKind::Frame || kind == VehiclePartKind::Deck || kind
                == VehiclePartKind::Axle) && forall|j: int|
                0 <= j < cells.len() ==> (#[trigger] cells[j]).0.z >= cells[k].0.z
            ||| forall|j: int|
                0 <= j < before.health.cells@.len() && j != h ==> (
                #[trigger] before.health.cells@[j]).1 == 0
        }),
    ensures
        after.vehicle.state == VehicleState::Overturned,
        a.stop_path,
        after.vehicle.hauler is None,
        after.inventory.items@.len() == 0,
        after.draft.hitched@.len() == 0,
        aboard(after.crew).len() == 0,
        a.released@ == before.draft.hitched@,
        before.vehicle.hauler matches Some(r) ==> a.unboarded@.contains(r),
        before.crew.driver matches Some(r) ==> a.unboarded@.contains(r),
        forall|i: int|
            0 <= i < before.inventory.items@.len() && (#[trigger] before.inventory.items@[i]).1 > 0
                ==> a.spilled@.contains(before.inventory.items@[i]),
        (forall|j: int|
            0 <= j < before.health.cells@.len() && j != h ==> (
            #[trigger] before.health.cells@[j]).1 == 0) ==> a.wrecked && after.wrecked,
{
    felled(before, after, cells, dmg, a, h, k);
    losses_follow_the_kind(cells, k);
    piles_are_the_full_slots(before.inventory.items@);
    if forall|j: int|
        0 <= j < before.health.cells@.len() && j != h ==> (#[trigger] before.health.cells@[j]).1
            == 0 {
        let left = after.health.cells@;
        assert forall|i: int| 0 <= i < left.len() implies !#[trigger] stands(left)(i) by {
            hits_hurt_one_cell(before.health.cells@, cells[k].0, dmg, h, i);
        }
        count_bounds(left.len() as int, stands(left));
    }
    let crew = before.crew;
    let gone = a.unboarded@;
    if cells[k].1.kind == VehiclePartKind::CrewSeat {
        if crew.driver is Some {
            let d = crew.driver->0;
            if crew.passengers@.len() > 0 || crew.gunners@.len() > 0 {
                assert(gone[(1 + one(before.vehicle.hauler).len()) as int] == d);
            } else {
                assert(gone[0] == d);
            }
        }
        if before.vehicle.hauler is Some {
            assert(gone[one(exposed(crew)).len() as int] == before.vehicle.hauler->0);
        }
    } else {
        if before.vehicle.hauler is Some {
            assert(gone[0] == before.vehicle.hauler->0);
        }
        if crew.driver is Some {
            assert(aboard(crew)[0] == crew.driver->0);
            assert(gone[one(before.vehicle.hauler).len() as int] == crew.driver->0);
        }
    }
}

/// A hit that destroys nothing only hurts: cargo, team, crew, hauler, state and marks stay, and
/// nothing has to be done.
pub proof fn glancing_blows_only_hurt(
    before: Target,
    after: Target,
    cells: Seq<(IVec3, VehicleCell)>,
    hit: IVec3,
    dmg: u16,
    a: Aftermath,
    h: int,
)
    requires
        struck(before, after, cells, hit, dmg, a),
        0 <= h < before.health.cells@.len(),
        before.health.cells@[h].0 == hit,
        forall|j: int| 0 <= j < h ==> (#[trigger] before.health.cells@[j]).0 != hit,
        before.health.cells@[h].1 > dmg,
    ensures
        after.health.cells@[h].1 == before.health.cells@[h].1 - dmg,
        after.health.disabled == before.health.disabled,
        after.inventory.items@ == before.inventory.items@,
        after.draft.hitched@ == before.draft.hitched@,
        after.crew == before.crew,
        after.vehicle == before.vehicle,
        after.wrecked == before.wrecked,
        !a.stop_path && !a.wrecked,
        a.spilled@.len() == 0 && a.released@.len() == 0 && a.unboarded@.len() == 0,
{
    hits_hurt_one_cell(before.health.cells@, hit, dmg, h, h);
}

/// A blow is worth two, and more with a better weapon or a stronger arm; a weak arm takes nothing
/// away.
pub proof fn blows_grow_with_weapon_and_arm(bonus: u8, arm: i8)
    ensures
        blow(None, None) == 2,
        blow(Some(bonus), None) == 2 + bonus,
        arm > 0 ==> blow(Some(bonus), Some(arm)) == 2 + bonus + arm,
        arm <= 0 ==> blow(Some(bonus), Some(arm)) == 2 + bonus,
        blow(None, Some(arm)) >= 2,
        arm > 0 ==> blow(None, Some(arm)) == 2 + arm,
{
}

/// A blow is struck only by somebody who is awake to the world, rested and after a vehicle, one of
/// whose tiles is theirs or touches theirs; and only at the vehicle they are after, while it is no
/// wreck.
pub proof fn blows_are_struck_at_arms_length(
    a: Attacker,
    designs: VehicleDesignRegistry,
    before: Seq<Target>,
    after: Seq<Target>,
    out: Attack,
)
    requires
        attacked(a, designs, before, after, out),
    ensures
        a.dormant || !a.ready || a.target is None ==> out is Held,
        out is Held || out is Missed ==> after == before,
        !(out is Held) ==> exists|k: int|
            {
                &&& 0 <= k < before.len()
                &&& a.target == Some((#[trigger] before[k]).entity)
                &&& !before[k].wrecked
                &&& designs.lookup(before[k].vehicle.design_id) is Some
                &&& is_within_reach(
                    (designs.lookup(before[k].vehicle.design_id)->0).grid.cells@,
                    before[k].vehicle,
                    a.tile,
                )
                &&& forall|j: int|
                    0 <= j < before.len() && j != k ==> #[trigger] after[j] == before[j]
            },
{
    if !(out is Held) {
        let k = match out {
            Attack::Missed => choose|k: int|
                strikes_at(a, before, designs, k) && standing(before[k].health.cells@) == 0,
            Attack::Landed(hit, aftermath) => choose|k: int| #[trigger]
                strikes_at(a, before, designs, k) && may_be_hit(before[k].health.cells@, hit)
                    && struck(
                    before[k],
                    after[k],
                    designs.lookup(before[k].vehicle.design_id)->0.grid.cells@,
                    hit,
                    blow(a.weapon_bonus, a.strength_modifier) as u16,
                    aftermath,
                ) && after == before.update(k, after[k]),
            Attack::Held => 0,
        };
        assert(strikes_at(a, before, designs, k));
        assert(is_target(a.target->0)(before[k]));
        let v = before[k].vehicle;
        let cells = designs.lookup(v.design_id)->0.grid.cells@;
        let list = covered(cells, v.anchor_tile, v.heading as int);
        let i = choose|i: int|
            0 <= i < list.len() && tile_distance(#[trigger] list[i], a.tile) <= 1;
        assert(list.contains(list[i]));
        assert(is_within_reach(cells, v, a.tile));
        assert(before[k].entity == a.target->0);
    }
}

/// A tile of a vehicle's footprint is a tile or touches it.
pub open spec fn is_within_reach(
    cells: Seq<(IVec3, VehicleCell)>,
    v: Vehicle,
    tile: (i32, i32),
) -> bool {
    exists|t: (i32, i32)| #[trigger]
        covered(cells, v.anchor_tile, v.heading as int).contains(t) && -1 <= t.0 - tile.0 <= 1 && -1
            <= t.1 - tile.1 <= 1
}

/// Somebody rested and awake who is after a vehicle within reach that is no wreck, the first of its
/// number, does strike: the blow lands if a cell stands and misses if none does.
pub proof fn ready_attackers_strike(
    a: Attacker,
    designs: VehicleDesignRegistry,
    before: Seq<Target>,
    after: Seq<Target>,
    out: Attack,
    k: int,
)
    requires
        attacked(a, designs, before, after, out),
        !a.dormant,
        a.ready,
        0 <= k < before.len(),
        a.target == Some(before[k].entity),
        forall|j: int| 0 <= j < k ==> (#[trigger] before[j]).entity != before[k].entity,
        !before[k].wrecked,
        designs.lookup(before[k].vehicle.design_id) is Some,
        is_within_reach(
            (designs.lookup(before[k].vehicle.design_id)->0).grid.cells@,
            before[k].vehicle,
            a.tile,
        ),
    ensures
        !(out is Held),
{
    let p = is_target(before[k].entity);
    assert(first_where(before, p, k)) by {
        assert forall|j: int| 0 <= j < k implies !p(#[trigger] before[j]) by {
            assert(before[j].entity != before[k].entity);
        }
    }
    let v = before[k].vehicle;
    let cells = designs.lookup(v.design_id)->0.grid.cells@;
    let list = covered(cells, v.anchor_tile, v.heading as int);
    let t = choose|t: (i32, i32)| #[trigger] list.contains(t) && -1 <= t.0 - a.tile.0 <= 1 && -1
        <= t.1 - a.tile.1 <= 1;
    let i = choose|i: int| 0 <= i < list.len() && list[i] == t;
    assert(tile_distance(list[i], a.tile) <= 1);
    assert(strikes_at(a, before, designs, k));
}

} // verus!
