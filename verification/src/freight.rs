//! How much a vehicle carries, and which worker gets which vehicle and team for a haul.

use vstd::prelude::*;
use crate::catalog::VehicleData;
use crate::design::VehicleDesign;
use crate::geometry::{max, min};
use crate::inventory::VehicleInventory;
use crate::parts::{Entity, ResourceId, VehiclePurpose, VehicleState};
use crate::seqs::{capped_sum, find, find_is_first, find_is_none, first_where};
use crate::stats::{box_fits, derive_stats, figures_fit, stats_spec, CellFigures};
use crate::tiles::{add_number, has_number, no_numbers, numbers, numbers_grow, numbers_in};

verus! {

/// What is left to deliver before a vehicle is worth hitching.
pub const VEHICLE_HAUL_MIN_REMAINING: u32 = 12;

/// Weight and volume of one unit of a resource.
#[derive(Clone, Copy, Debug)]
pub struct Good {
    pub resource: ResourceId,
    pub weight_g: u32,
    pub volume_ml: u32,
}

pub open spec fn good_for(rid: ResourceId) -> spec_fn(Good) -> bool {
    |g: Good| g.resource == rid
}

/// The weight of one unit: a kilogram where the catalog says nothing or zero.
pub open spec fn weight_of(goods: Seq<Good>, rid: ResourceId) -> int {
    match find(goods, good_for(rid)) {
        Some(g) => if g.weight_g > 0 {
            g.weight_g as int
        } else {
            1000
        },
        None => 1000,
    }
}

/// The volume of one unit, at least one millilitre.
pub open spec fn volume_of(goods: Seq<Good>, rid: ResourceId) -> int {
    match find(goods, good_for(rid)) {
        Some(g) => max(g.volume_ml as int, 1),
        None => 1,
    }
}

fn find_good(goods: &Vec<Good>, rid: ResourceId) -> (r: Option<Good>)
    ensures
        r == find(goods@, good_for(rid)),
{
    let ghost p = good_for(rid);
    let mut i: usize = 0;
    while i < goods.len()
        invariant
            i <= goods.len(),
            p == good_for(rid),
            forall|j: int| 0 <= j < i ==> !p(#[trigger] goods@[j]),
        decreases goods.len() - i,
    {
        if goods[i].resource == rid {
            proof {
                find_is_first(goods@, p, i as int);
            }
            return Some(goods[i]);
        }
        i += 1;
    }
    proof {
        find_is_none(goods@, p);
    }
    None
}

/// The weight of one unit of a resource.
pub fn unit_weight_g(goods: &Vec<Good>, rid: ResourceId) -> (w: u32)
    ensures
        w == weight_of(goods@, rid),
        w > 0,
{
    match find_good(goods, rid) {
        Some(g) => {
            if g.weight_g > 0 {
                g.weight_g
            } else {
                1000
            }
        },
        None => 1000,
    }
}

/// How many units of a resource fit by weight, at least one.
pub fn capacity_units(payload_g: u32, goods: &Vec<Good>, rid: ResourceId) -> (n: u32)
    ensures
        n == max(payload_g as int / weight_of(goods@, rid), 1),
{
    let n: u32 = payload_g / unit_weight_g(goods, rid);
    if n < 1 {
        1
    } else {
        n
    }
}

/// How many units fit by weight and by volume. A vehicle without a volume limit counts by weight
/// alone.
pub open spec fn bounded_units(payload_g: int, volume_ml: int, goods: Seq<Good>, rid: ResourceId) -> int {
    let by_weight = payload_g / weight_of(goods, rid);
    if volume_ml == 0 {
        max(by_weight, 1)
    } else {
        max(min(by_weight, volume_ml / volume_of(goods, rid)), 1)
    }
}

/// How many units of a resource fit by weight and volume, at least one.
pub fn capacity_units_bounded(
    payload_g: u32,
    vol_ml: u32,
    goods: &Vec<Good>,
    rid: ResourceId,
) -> (n: u32)
    ensures
        n == bounded_units(payload_g as int, vol_ml as int, goods@, rid),
{
    let mut n: u32 = payload_g / unit_weight_g(goods, rid);
    if vol_ml > 0 {
        let unit: u32 = match find_good(goods, rid) {
            Some(g) => {
                if g.volume_ml < 1 {
                    1
                } else {
                    g.volume_ml
                }
            },
            None => 1,
        };
        let by_volume: u32 = vol_ml / unit;
        if by_volume < n {
            n = by_volume;
        }
    }
    if n < 1 {
        1
    } else {
        n
    }
}

/// A volume limit never lets a vehicle carry more, and a vehicle always carries something.
pub proof fn bounds_only_lower(payload_g: int, volume_ml: int, goods: Seq<Good>, rid: ResourceId)
    requires
        payload_g >= 0,
        volume_ml >= 0,
    ensures
        1 <= bounded_units(payload_g, volume_ml, goods, rid) <= bounded_units(
            payload_g,
            0,
            goods,
            rid,
        ),
        bounded_units(payload_g, 0, goods, rid) == max(payload_g / weight_of(goods, rid), 1),
{
}

/// A product, at most `u32::MAX`.
pub fn capped_product(a: u32, b: u32) -> (p: u32)
    ensures
        p == min(a * b, u32::MAX as int),
{
    assert(0 <= a * b <= 0xffff_ffff * 0xffff_ffff) by (nonlinear_arith)
        requires
            0 <= a <= 0xffff_ffff,
            0 <= b <= 0xffff_ffff,
    ;
    let wide: u64 = a as u64 * b as u64;
    if wide > u32::MAX as u64 {
        u32::MAX
    } else {
        wide as u32
    }
}

/// What the goods in a cargo weigh, slot by slot.
pub open spec fn slot_weight(items: Seq<(ResourceId, u32)>, goods: Seq<Good>) -> spec_fn(int) -> int {
    |i: int| min(weight_of(goods, items[i].0) * items[i].1, u32::MAX as int)
}

/// The weight of a cargo, at most `u32::MAX`.
pub fn cargo_weight_g(inv: &VehicleInventory, goods: &Vec<Good>) -> (w: u32)
    ensures
        w == capped_sum(
            inv.items@.len() as int,
            slot_weight(inv.items@, goods@),
            u32::MAX as int,
        ),
{
    let ghost f = slot_weight(inv.items@, goods@);
    let mut total: u32 = 0;
    let mut i: usize = 0;
    while i < inv.items.len()
        invariant
            i <= inv.items.len(),
            f == slot_weight(inv.items@, goods@),
            total == capped_sum(i as int, f, u32::MAX as int),
        decreases inv.items.len() - i,
    {
        let (rid, q) = inv.items[i];
        let unit: u32 = unit_weight_g(goods, rid);
        assert(f(i as int) >= 0) by (nonlinear_arith)
            requires
                f(i as int) == min(unit * q, u32::MAX as int),
        ;
        total = total.saturating_add(capped_product(unit, q));
        i += 1;
    }
    total
}

/// The payload of a design in grams.
pub open spec fn payload_of(
    design: VehicleDesign,
    data: VehicleData,
    figures: Seq<CellFigures>,
) -> int {
    if design.grid.cells@.len() == 0 {
        0
    } else {
        stats_spec(design.grid.cells@, data, figures).max_payload_g as int
    }
}

/// The payload of a design in grams.
pub fn design_payload_g(
    design: &VehicleDesign,
    data: &VehicleData,
    figures: &Vec<CellFigures>,
) -> (g: u32)
    requires
        figures_fit(design.grid.cells@, figures@),
        box_fits(design.grid.cells@),
    ensures
        g == payload_of(*design, *data, figures@),
{
    derive_stats(&design.grid, data, figures).max_payload_g
}

/// Whether a design hauls cargo: made for it, and able to carry any.
pub fn design_is_cargo_capable(
    design: &VehicleDesign,
    data: &VehicleData,
    figures: &Vec<CellFigures>,
) -> (b: bool)
    requires
        figures_fit(design.grid.cells@, figures@),
        box_fits(design.grid.cells@),
    ensures
        b == (design.allowed_purpose == VehiclePurpose::Cargo && payload_of(
            *design,
            *data,
            figures@,
        ) > 0),
{
    design.allowed_purpose == VehiclePurpose::Cargo && design_payload_g(design, data, figures) > 0
}

/// The kinds of domestic animals that matter here.
#[derive(Clone, Copy, Debug, PartialEq, Eq, Structural)]
pub enum DomesticSpecies {
    Cattle,
    Horse,
    Other,
}

/// A tame animal that nobody has claimed.
#[derive(Clone, Copy, Debug)]
pub struct DraftAnimal {
    pub entity: Entity,
    pub owner_faction: u32,
    pub species: DomesticSpecies,
    pub training: u8,
}

/// An animal that can be hitched.
pub open spec fn usable(
    faction_id: u32,
    threshold: u8,
    taken: Set<u64>,
) -> spec_fn(DraftAnimal) -> bool {
    |a: DraftAnimal|
        {
            &&& a.owner_faction == faction_id
            &&& !taken.contains(a.entity.0)
            &&& a.training >= threshold
            &&& a.species == DomesticSpecies::Cattle || a.species == DomesticSpecies::Horse
        }
}

/// The first trained cow or horse of a faction that is still free.
pub fn pick_idle_draft_animal(
    animals: &Vec<DraftAnimal>,
    faction_id: u32,
    threshold: u8,
    taken: &ahash::AHashSet<u64>,
) -> (r: Option<Entity>)
    ensures
        match find(animals@, usable(faction_id, threshold, numbers_in(*taken))) {
            Some(a) => r == Some(a.entity),
            None => r is None,
        },
{
    let ghost p = usable(faction_id, threshold, numbers_in(*taken));
    let mut i: usize = 0;
    while i < animals.len()
        invariant
            i <= animals.len(),
            p == usable(faction_id, threshold, numbers_in(*taken)),
            forall|j: int| 0 <= j < i ==> !p(#[trigger] animals@[j]),
        decreases animals.len() - i,
    {
        let a = animals[i];
        let draws: bool = match a.species {
            DomesticSpecies::Cattle | DomesticSpecies::Horse => true,
            DomesticSpecies::Other => false,
        };
        if a.owner_faction == faction_id && !has_number(taken, a.entity.0) && a.training
            >= threshold && draws {
            proof {
                find_is_first(animals@, p, i as int);
            }
            return Some(a.entity);
        }
        i += 1;
    }
    proof {
        find_is_none(animals@, p);
    }
    None
}

/// The animals found when `n` are wanted, one after the other; the search ends when none is left.
pub open spec fn gathered(
    animals: Seq<DraftAnimal>,
    faction_id: u32,
    threshold: u8,
    taken: Set<u64>,
    n: int,
) -> Seq<Entity>
    decreases n,
{
    if n <= 0 {
        Seq::empty()
    } else {
        let before = gathered(animals, faction_id, threshold, taken, n - 1);
        if before.len() < n - 1 {
            before
        } else {
            match find(animals, usable(faction_id, threshold, taken.union(numbers(before)))) {
                Some(a) => before.push(a.entity),
                None => before,
            }
        }
    }
}

proof fn gathered_len(
    animals: Seq<DraftAnimal>,
    faction_id: u32,
    threshold: u8,
    taken: Set<u64>,
    m: int,
    n: int,
)
    requires
        0 <= m <= n,
    ensures
        gathered(animals, faction_id, threshold, taken, n).len() <= n,
        gathered(animals, faction_id, threshold, taken, m).len() < m ==> gathered(
            animals,
            faction_id,
            threshold,
            taken,
            n,
        ) == gathered(animals, faction_id, threshold, taken, m),
    decreases n,
{
    if n > m {
        gathered_len(animals, faction_id, threshold, taken, m, n - 1);
        gathered_len(animals, faction_id, threshold, taken, n - 1, n - 1);
    } else if n > 0 {
        gathered_len(animals, faction_id, threshold, taken, n - 1, n - 1);
    }
}

/// An animal of the faction that is trained, fit to draw and not taken.
pub open spec fn is_free_draft_animal(
    animals: Seq<DraftAnimal>,
    faction_id: u32,
    threshold: u8,
    taken: Set<u64>,
    e: Entity,
) -> bool {
    &&& !taken.contains(e.0)
    &&& exists|k: int|
        0 <= k < animals.len() && (#[trigger] animals[k]).entity == e && usable(
            faction_id,
            threshold,
            taken,
        )(animals[k])
}

/// A team is made of different animals, each of the faction, trained, fit to draw and not taken
/// before.
pub proof fn teams_are_sound(
    animals: Seq<DraftAnimal>,
    faction_id: u32,
    threshold: u8,
    taken: Set<u64>,
    n: int,
)
    ensures
        gathered(animals, faction_id, threshold, taken, n).no_duplicates(),
        forall|i: int|
            0 <= i < gathered(animals, faction_id, threshold, taken, n).len()
                ==> is_free_draft_animal(
                animals,
                faction_id,
                threshold,
                taken,
                #[trigger] gathered(animals, faction_id, threshold, taken, n)[i],
            ),
    decreases n,
{
    if n > 0 {
        teams_are_sound(animals, faction_id, threshold, taken, n - 1);
        let before = gathered(animals, faction_id, threshold, taken, n - 1);
        let after = gathered(animals, faction_id, threshold, taken, n);
        let p = usable(faction_id, threshold, taken.union(numbers(before)));
        find_is_none(animals, p);
        if after.len() > before.len() {
            let a = find(animals, p)->0;
            let k = choose|k: int| 0 <= k < animals.len() && animals[k] == a;
            assert(!taken.union(numbers(before)).contains(a.entity.0));
            assert(!taken.contains(a.entity.0));
            assert(!before.contains(Entity(a.entity.0)));
            assert(usable(faction_id, threshold, taken)(animals[k]));
            assert forall|i: int| 0 <= i < after.len() implies is_free_draft_animal(
                animals,
                faction_id,
                threshold,
                taken,
                #[trigger] after[i],
            ) by {
                if i < before.len() {
                    assert(after[i] == before[i]);
                } else {
                    assert(animals[k].entity == after[i]);
                }
            }
            assert forall|i: int, j: int| 0 <= i < after.len() && 0 <= j < after.len() && i != j implies after[i]
                != after[j] by {
                if i < before.len() && j < before.len() {
                    assert(before[i] != before[j]);
                } else if i < before.len() {
                    assert(before.contains(before[i]));
                } else {
                    assert(before.contains(before[j]));
                }
            }
        } else {
            assert(after == before);
        }
    }
}

/// A vehicle as the dispatcher sees it.
#[derive(Clone, Copy, Debug, PartialEq, Eq, Structural)]
pub struct FreightVehicle {
    pub entity: Entity,
    pub owner_faction: u32,
    pub anchor_x: i32,
    pub anchor_y: i32,
    pub state: VehicleState,
    pub hauler: Option<Entity>,
    /// The design is known and hauls cargo.
    pub cargo_capable: bool,
    pub required_animals: u8,
}

/// What is to be hauled where.
#[derive(Clone, Copy, Debug, PartialEq, Eq, Structural)]
pub struct HaulPosting {
    pub blueprint: Entity,
    pub resource_id: ResourceId,
    pub delivered: u32,
    pub target: u32,
}

/// A worker as the dispatcher sees one.
#[derive(Clone, Copy, Debug, PartialEq, Eq, Structural)]
pub struct HaulWorker {
    pub entity: Entity,
    pub faction_id: u32,
    /// Awake, and due this tick.
    pub active: bool,
    pub claims_haul: bool,
    pub wants_haul: bool,
    /// Idle, without a task.
    pub idle: bool,
    pub posting: Option<HaulPosting>,
}

/// A worker sent to a vehicle.
#[derive(Clone, Copy, Debug, PartialEq, Eq, Structural)]
pub struct HaulDispatch {
    pub worker: Entity,
    pub vehicle: Entity,
    pub vehicle_x: i32,
    pub vehicle_y: i32,
    pub blueprint: Entity,
    pub resource_id: ResourceId,
}

/// An animal hitched to a vehicle for a worker.
#[derive(Clone, Copy, Debug, PartialEq, Eq, Structural)]
pub struct Hitch {
    pub animal: Entity,
    pub vehicle: Entity,
    pub worker: Entity,
}

/// A worker who is free to haul, and whose posting has enough left to deliver.
pub open spec fn may_haul(w: HaulWorker) -> bool {
    &&& w.active
    &&& w.claims_haul
    &&& w.wants_haul
    &&& w.idle
    &&& match w.posting {
        Some(p) => p.target - p.delivered >= VEHICLE_HAUL_MIN_REMAINING,
        None => false,
    }
}

pub open spec fn hauled_by(worker: Entity) -> spec_fn(FreightVehicle) -> bool {
    |v: FreightVehicle| v.hauler == Some(worker)
}

/// A vehicle that a worker of a faction may take.
pub open spec fn free_to_haul(faction_id: u32) -> spec_fn(FreightVehicle) -> bool {
    |v: FreightVehicle|
        v.owner_faction == faction_id && v.hauler is None && v.state != VehicleState::Overturned
            && v.cargo_capable
}

/// The state of a dispatch pass.
pub struct HaulPass {
    pub vehicles: Seq<FreightVehicle>,
    /// The numbers of the animals that were picked in this pass, hitched or not.
    pub taken: Set<u64>,
    pub hitches: Seq<Hitch>,
    pub sent: Seq<HaulDispatch>,
}

pub open spec fn sent_to(w: HaulWorker, v: FreightVehicle) -> HaulDispatch {
    HaulDispatch {
        worker: w.entity,
        vehicle: v.entity,
        vehicle_x: v.anchor_x,
        vehicle_y: v.anchor_y,
        blueprint: w.posting->0.blueprint,
        resource_id: w.posting->0.resource_id,
    }
}

pub open spec fn hitched_to(team: Seq<Entity>, vehicle: Entity, worker: Entity) -> Seq<Hitch> {
    Seq::new(team.len(), |i: int| Hitch { animal: team[i], vehicle, worker })
}

/// What a worker adds to a pass. A worker who already has a vehicle goes back to it. Another takes
/// the first free vehicle of the faction, if a whole team can be found for it.
pub open spec fn with_worker(
    pass: HaulPass,
    w: HaulWorker,
    animals: Seq<DraftAnimal>,
    threshold: u8,
) -> HaulPass {
    if !may_haul(w) {
        pass
    } else {
        match find(pass.vehicles, hauled_by(w.entity)) {
            Some(v) => HaulPass { sent: pass.sent.push(sent_to(w, v)), ..pass },
            None => if exists|i: int|
                first_where(pass.vehicles, free_to_haul(w.faction_id), i) {
                let i = choose|i: int| first_where(pass.vehicles, free_to_haul(w.faction_id), i);
                let v = pass.vehicles[i];
                let team = gathered(
                    animals,
                    w.faction_id,
                    threshold,
                    pass.taken,
                    v.required_animals as int,
                );
                if team.len() < v.required_animals {
                    HaulPass { taken: pass.taken.union(numbers(team)), ..pass }
                } else {
                    HaulPass {
                        vehicles: pass.vehicles.update(
                            i,
                            FreightVehicle { hauler: Some(w.entity), ..v },
                        ),
                        taken: pass.taken.union(numbers(team)),
                        hitches: pass.hitches + hitched_to(team, v.entity, w.entity),
                        sent: pass.sent.push(sent_to(w, v)),
                    }
                }
            } else {
                pass
            },
        }
    }
}

/// A pass after the first `n` workers.
pub open spec fn haul_pass(
    vehicles: Seq<FreightVehicle>,
    workers: Seq<HaulWorker>,
    animals: Seq<DraftAnimal>,
    threshold: u8,
    n: int,
) -> HaulPass
    decreases n,
{
    if n <= 0 {
        HaulPass { vehicles, taken: Set::empty(), hitches: Seq::empty(), sent: Seq::empty() }
    } else {
        with_worker(
            haul_pass(vehicles, workers, animals, threshold, n - 1),
            workers[n - 1],
            animals,
            threshold,
        )
    }
}

fn find_hauled(vehicles: &Vec<FreightVehicle>, worker: Entity) -> (r: Option<FreightVehicle>)
    ensures
        r == find(vehicles@, hauled_by(worker)),
{
    let ghost p = hauled_by(worker);
    let mut i: usize = 0;
    while i < vehicles.len()
        invariant
            i <= vehicles.len(),
            p == hauled_by(worker),
            forall|j: int| 0 <= j < i ==> !p(#[trigger] vehicles@[j]),
        decreases vehicles.len() - i,
    {
        let mine: bool = match vehicles[i].hauler {
            Some(h) => h == worker,
            None => false,
        };
        if mine {
            proof {
                find_is_first(vehicles@, p, i as int);
            }
            return Some(vehicles[i]);
        }
        i += 1;
    }
    proof {
        find_is_none(vehicles@, p);
    }
    None
}

fn find_free(vehicles: &Vec<FreightVehicle>, faction_id: u32) -> (r: Option<usize>)
    ensures
        match r {
            Some(i) => first_where(vehicles@, free_to_haul(faction_id), i as int),
            None => forall|i: int| !first_where(vehicles@, free_to_haul(faction_id), i),
        },
{
    let ghost p = free_to_haul(faction_id);
    let mut i: usize = 0;
    while i < vehicles.len()
        invariant
            i <= vehicles.len(),
            p == free_to_haul(faction_id),
            forall|j: int| 0 <= j < i ==> !p(#[trigger] vehicles@[j]),
        decreases vehicles.len() - i,
    {
        let v = vehicles[i];
        if v.owner_faction == faction_id && v.hauler.is_none() && v.state
            != VehicleState::Overturned && v.cargo_capable {
            return Some(i);
        }
        i += 1;
    }
    None
}

/// What a dispatch pass sends and hitches.
#[derive(Debug)]
pub struct HaulOrders {
    pub sent: Vec<HaulDispatch>,
    pub hitches: Vec<Hitch>,
}

/// One dispatch pass over the workers: who walks to which vehicle, and which animals are hitched.
/// Vehicles that are taken get their hauler at once.
pub fn htn_vehicle_haul_dispatch_system(
    vehicles: &mut Vec<FreightVehicle>,
    workers: &Vec<HaulWorker>,
    animals: &Vec<DraftAnimal>,
    threshold: u8,
) -> (orders: HaulOrders)
    ensures
        ({
            let pass = haul_pass(
                old(vehicles)@,
                workers@,
                animals@,
                threshold,
                workers@.len() as int,
            );
            &&& orders.sent@ == pass.sent
            &&& orders.hitches@ == pass.hitches
            &&& final(vehicles)@ == pass.vehicles
        }),
{
    let mut sent: Vec<HaulDispatch> = Vec::new();
    let mut hitches: Vec<Hitch> = Vec::new();
    let mut taken = no_numbers();
    let ghost start = vehicles@;
    let mut i: usize = 0;
    while i < workers.len()
        invariant
            i <= workers.len(),
            (HaulPass {
                vehicles: vehicles@,
                taken: numbers_in(taken),
                hitches: hitches@,
                sent: sent@,
            }) == haul_pass(start, workers@, animals@, threshold, i as int),
        decreases workers.len() - i,
    {
        let w = workers[i];
        let job: Option<HaulPosting> = if w.active && w.claims_haul && w.wants_haul && w.idle {
            match w.posting {
                Some(p) => {
                    if p.target.saturating_sub(p.delivered) >= VEHICLE_HAUL_MIN_REMAINING {
                        Some(p)
                    } else {
                        None
                    }
                },
                None => None,
            }
        } else {
            None
        };
        match job {
            Some(p) => {
                match find_hauled(vehicles, w.entity) {
                    Some(v) => {
                        sent.push(
                            HaulDispatch {
                                worker: w.entity,
                                vehicle: v.entity,
                                vehicle_x: v.anchor_x,
                                vehicle_y: v.anchor_y,
                                blueprint: p.blueprint,
                                resource_id: p.resource_id,
                            },
                        );
                    },
                    None => {
                        match find_free(vehicles, w.faction_id) {
                            Some(k) => {
                                let v = vehicles[k];
                                let ghost all = vehicles@;
                                proof {
                                    let q = free_to_haul(w.faction_id);
                                    let c = choose|c: int| first_where(all, q, c);
                                    assert(first_where(all, q, k as int));
                                    if c < k {
                                        assert(!q(all[c]));
                                    } else if k < c {
                                        assert(!q(all[k as int]));
                                    }
                                }
                                let team = gather_team(
                                    animals,
                                    w.faction_id,
                                    threshold,
                                    &mut taken,
                                    v.required_animals,
                                );
                                if team.len() >= v.required_animals as usize {
                                    let mut t: usize = 0;
                                    let ghost harness = hitches@;
                                    let ghost new = hitched_to(team@, v.entity, w.entity);
                                    assert(harness + new.take(0) =~= harness);
                                    while t < team.len()
                                        invariant
                                            t <= team.len(),
                                            new == hitched_to(team@, v.entity, w.entity),
                                            hitches@ == harness + new.take(t as int),
                                        decreases team.len() - t,
                                    {
                                        hitches.push(
                                            Hitch {
                                                animal: team[t],
                                                vehicle: v.entity,
                                                worker: w.entity,
                                            },
                                        );
                                        t += 1;
                                        assert(hitches@ =~= harness + new.take(t as int));
                                    }
                                    assert(new.take(t as int) =~= new);
                                    vehicles.set(
                                        k,
                                        FreightVehicle {
                                            entity: v.entity,
                                            owner_faction: v.owner_faction,
                                            anchor_x: v.anchor_x,
                                            anchor_y: v.anchor_y,
                                            state: v.state,
                                            hauler: Some(w.entity),
                                            cargo_capable: v.cargo_capable,
                                            required_animals: v.required_animals,
                                        },
                                    );
                                    sent.push(
                                        HaulDispatch {
                                            worker: w.entity,
                                            vehicle: v.entity,
                                            vehicle_x: v.anchor_x,
                                            vehicle_y: v.anchor_y,
                                            blueprint: p.blueprint,
                                            resource_id: p.resource_id,
                                        },
                                    );
                                }
                            },
                            None => {},
                        }
                    },
                }
            },
            None => {},
        }
        i += 1;
    }
    HaulOrders { sent, hitches }
}

/// Picks up to `wanted` animals and marks them as taken.
pub(crate) fn gather_team(
    animals: &Vec<DraftAnimal>,
    faction_id: u32,
    threshold: u8,
    taken: &mut ahash::AHashSet<u64>,
    wanted: u8,
) -> (team: Vec<Entity>)
    ensures
        team@ == gathered(
            animals@,
            faction_id,
            threshold,
            numbers_in(*old(taken)),
            wanted as int,
        ),
        numbers_in(*final(taken)) == numbers_in(*old(taken)).union(numbers(team@)),
        team@.len() <= wanted,
{
    let ghost before = numbers_in(*taken);
    let mut team: Vec<Entity> = Vec::new();
    assert(before.union(numbers(team@)) =~= before);
    let mut k: u8 = 0;
    while k < wanted
        invariant
            k <= wanted,
            before == numbers_in(*old(taken)),
            team@ == gathered(animals@, faction_id, threshold, before, k as int),
            team@.len() == k,
            numbers_in(*taken) == before.union(numbers(team@)),
        decreases wanted - k,
    {
        match pick_idle_draft_animal(animals, faction_id, threshold, taken) {
            Some(a) => {
                proof {
                    numbers_grow(team@, a);
                }
                add_number(taken, a.0);
                team.push(a);
                assert(numbers_in(*taken) =~= before.union(numbers(team@)));
            },
            None => {
                proof {
                    gathered_len(animals@, faction_id, threshold, before, k + 1, wanted as int);
                }
                return team;
            },
        }
        k += 1;
    }
    team
}

/// When the claim on a hitched animal runs out: two days on, within thirty-two bits.
pub fn draft_claim_expiry(now: u32, ticks_per_day: u32) -> (t: u32)
    ensures
        t == min(now + min(ticks_per_day * 2, u32::MAX as int), u32::MAX as int),
{
    now.saturating_add(capped_product(ticks_per_day, 2))
}

/// No vehicle that had a hauler loses or changes it in a pass, and the vehicles stay the same
/// otherwise.
pub proof fn haulers_keep_their_vehicles(
    vehicles: Seq<FreightVehicle>,
    workers: Seq<HaulWorker>,
    animals: Seq<DraftAnimal>,
    threshold: u8,
    n: int,
)
    ensures
        ({
            let after = haul_pass(vehicles, workers, animals, threshold, n).vehicles;
            &&& after.len() == vehicles.len()
            &&& forall|i: int|
                0 <= i < vehicles.len() ==> {
                    &&& (#[trigger] after[i]).entity == vehicles[i].entity
                    &&& vehicles[i].hauler is Some ==> after[i] == vehicles[i]
                }
        }),
    decreases n,
{
    if n > 0 {
        haulers_keep_their_vehicles(vehicles, workers, animals, threshold, n - 1);
        let before = haul_pass(vehicles, workers, animals, threshold, n - 1).vehicles;
        let w = workers[n - 1];
        let q = free_to_haul(w.faction_id);
        if exists|i: int| first_where(before, q, i) {
            let i = choose|i: int| first_where(before, q, i);
            assert(q(before[i]));
        }
    }
}

/// A good weighs what its first entry says; a good without weight, or without an entry, a thousand
/// grams. It takes at least a millilitre.
pub proof fn goods_weigh_what_is_listed(goods: Seq<Good>, rid: ResourceId, k: int)
    ensures
        (0 <= k < goods.len() && goods[k].resource == rid && forall|j: int|
            0 <= j < k ==> (#[trigger] goods[j]).resource != rid) ==> {
            &&& goods[k].weight_g > 0 ==> weight_of(goods, rid) == goods[k].weight_g
            &&& goods[k].weight_g == 0 ==> weight_of(goods, rid) == 1000
            &&& goods[k].volume_ml > 0 ==> volume_of(goods, rid) == goods[k].volume_ml
            &&& goods[k].volume_ml == 0 ==> volume_of(goods, rid) == 1
        },
        (forall|j: int| 0 <= j < goods.len() ==> (#[trigger] goods[j]).resource != rid)
            ==> weight_of(goods, rid) == 1000 && volume_of(goods, rid) == 1,
        weight_of(goods, rid) > 0,
        volume_of(goods, rid) > 0,
{
    let p = good_for(rid);
    if 0 <= k < goods.len() && goods[k].resource == rid && forall|j: int|
        0 <= j < k ==> (#[trigger] goods[j]).resource != rid {
        assert forall|j: int| 0 <= j < k implies !p(#[trigger] goods[j]) by {}
        find_is_first(goods, p, k);
    }
    if forall|j: int| 0 <= j < goods.len() ==> (#[trigger] goods[j]).resource != rid {
        assert forall|j: int| 0 <= j < goods.len() implies !p(#[trigger] goods[j]) by {}
        find_is_none(goods, p);
    }
}

/// A load is as large as it can be: more than one unit stays within the weight, and within the
/// volume where there is a bound on it, and one unit more would not.
pub proof fn loads_are_as_large_as_they_can_be(
    payload_g: int,
    volume_ml: int,
    goods: Seq<Good>,
    rid: ResourceId,
)
    requires
        payload_g >= 0,
        volume_ml >= 0,
    ensures
        ({
            let n = bounded_units(payload_g, volume_ml, goods, rid);
            let w = weight_of(goods, rid);
            let v = volume_of(goods, rid);
            &&& n >= 1
            &&& n > 1 ==> n * w <= payload_g && (volume_ml > 0 ==> n * v <= volume_ml)
            &&& (n + 1) * w > payload_g || (volume_ml > 0 && (n + 1) * v > volume_ml)
        }),
{
    let w = weight_of(goods, rid);
    let v = volume_of(goods, rid);
    goods_weigh_what_is_listed(goods, rid, 0);
    let n = bounded_units(payload_g, volume_ml, goods, rid);
    let a = payload_g / w;
    let b = volume_ml / v;
    assert(a * w <= payload_g < (a + 1) * w) by (nonlinear_arith)
        requires
            w > 0,
            a == payload_g / w,
    ;
    assert(b * v <= volume_ml < (b + 1) * v) by (nonlinear_arith)
        requires
            v > 0,
            b == volume_ml / v,
    ;
    assert(n <= a ==> n * w <= a * w) by (nonlinear_arith)
        requires
            w > 0,
    ;
    assert(n <= b ==> n * v <= b * v) by (nonlinear_arith)
        requires
            v > 0,
    ;
    assert(n >= a ==> (n + 1) * w >= (a + 1) * w) by (nonlinear_arith)
        requires
            w > 0,
    ;
    assert(n >= b ==> (n + 1) * v >= (b + 1) * v) by (nonlinear_arith)
        requires
            v > 0,
    ;
}

/// An animal that can be hitched belongs to the faction, is cattle or a horse, is trained enough,
/// and is not taken.
pub open spec fn can_pull(a: DraftAnimal, faction_id: u32, threshold: u8, taken: Set<u64>) -> bool {
    a.owner_faction == faction_id && a.training >= threshold && !taken.contains(a.entity.0) && (
    a.species == DomesticSpecies::Cattle || a.species == DomesticSpecies::Horse)
}

/// One of the animals that can be hitched.
pub open spec fn is_puller(
    animals: Seq<DraftAnimal>,
    faction_id: u32,
    threshold: u8,
    taken: Set<u64>,
    e: Entity,
) -> bool {
    exists|j: int|
        0 <= j < animals.len() && (#[trigger] animals[j]).entity == e && can_pull(
            animals[j],
            faction_id,
            threshold,
            taken,
        )
}

/// A team is made of animals that can be hitched, has as many as were asked for at most, and falls
/// short only when no animal that can be hitched is left out of it.
pub proof fn teams_are_filled_from_those_who_can_pull(
    animals: Seq<DraftAnimal>,
    faction_id: u32,
    threshold: u8,
    taken: Set<u64>,
    n: int,
    k: int,
)
    requires
        0 <= k < animals.len(),
    ensures
        ({
            let team = gathered(animals, faction_id, threshold, taken, n);
            &&& n >= 0 ==> team.len() <= n
            &&& forall|i: int|
                0 <= i < team.len() ==> is_puller(
                    animals,
                    faction_id,
                    threshold,
                    taken,
                    #[trigger] team[i],
                )
            &&& team.len() < n && can_pull(animals[k], faction_id, threshold, taken) ==> numbers(
                team,
            ).contains(animals[k].entity.0)
        }),
    decreases n,
{
    if n > 0 {
        teams_are_filled_from_those_who_can_pull(
            animals,
            faction_id,
            threshold,
            taken,
            n - 1,
            k,
        );
        let before = gathered(animals, faction_id, threshold, taken, n - 1);
        let team = gathered(animals, faction_id, threshold, taken, n);
        let all = taken.union(numbers(before));
        let p = usable(faction_id, threshold, all);
        find_is_none(animals, p);
        if before.len() == n - 1 {
            match find(animals, p) {
                Some(a) => {
                    let j = choose|j: int| 0 <= j < animals.len() && animals[j] == a;
                    assert(animals[j].entity == a.entity && can_pull(
                        animals[j],
                        faction_id,
                        threshold,
                        taken,
                    ));
                    assert(is_puller(animals, faction_id, threshold, taken, a.entity));
                    assert forall|i: int| 0 <= i < team.len() implies is_puller(
                        animals,
                        faction_id,
                        threshold,
                        taken,
                        #[trigger] team[i],
                    ) by {
                        if i < before.len() {
                            assert(team[i] == before[i]);
                        } else {
                            assert(team[i] == a.entity);
                        }
                    }
                },
                None => {
                    assert(!p(animals[k]));
                    assert(team == before);
                    if can_pull(animals[k], faction_id, threshold, taken) {
                        assert(all.contains(animals[k].entity.0));
                    }
                },
            }
        } else {
            assert(team == before);
        }
        assert(team.len() <= n);
        assert(team.len() < n && can_pull(animals[k], faction_id, threshold, taken) ==> numbers(
            team,
        ).contains(animals[k].entity.0));
    }
}

/// One worker's turn. Who is awake and due, has claimed a haul and wants it, is idle, and has at
/// least twelve units left to bring, is sent for what the posting names: with the vehicle that they
/// haul already, else with a free one of their own faction that hauls cargo and stands upright.
/// Then the vehicle is theirs and every animal that it asks for is hitched to it, for them. Nobody
/// else is sent, and no other vehicle changes.
pub proof fn workers_are_sent_with_sound_vehicles(
    pass: HaulPass,
    w: HaulWorker,
    animals: Seq<DraftAnimal>,
    threshold: u8,
    k: int,
)
    requires
        0 <= k < pass.vehicles.len(),
    ensures
        ({
            let after = with_worker(pass, w, animals, threshold);
            let fit = w.active && w.claims_haul && w.wants_haul && w.idle && (w.posting matches Some(
                p,
            ) && p.target >= p.delivered + 12);
            let v = pass.vehicles[k];
            &&& !fit ==> after == pass
            &&& after.sent.len() == pass.sent.len() || after.sent.len() == pass.sent.len() + 1
            &&& after.sent.len() > pass.sent.len() ==> {
                let s = after.sent.last();
                &&& after.sent.drop_last() == pass.sent
                &&& s.worker == w.entity
                &&& w.posting matches Some(p) && s.blueprint == p.blueprint && s.resource_id
                    == p.resource_id
                &&& exists|i: int|
                    0 <= i < pass.vehicles.len() && {
                        let u = #[trigger] pass.vehicles[i];
                        &&& s.vehicle == u.entity && s.vehicle_x == u.anchor_x && s.vehicle_y
                            == u.anchor_y
                        &&& after.vehicles[i].hauler == Some(w.entity)
                        &&& {
                            ||| u.hauler == Some(w.entity) && after.hitches == pass.hitches
                            ||| u.hauler is None && u.owner_faction == w.faction_id && u.state
                                != VehicleState::Overturned && u.cargo_capable
                                && after.hitches.len() == pass.hitches.len() + u.required_animals
                                && forall|j: int|
                                pass.hitches.len() <= j < after.hitches.len() ==> (
                                #[trigger] after.hitches[j]).vehicle == u.entity
                                    && after.hitches[j].worker == w.entity
                        }
                    }
            }
            &&& after.sent == pass.sent ==> after.vehicles == pass.vehicles && after.hitches
                == pass.hitches
            &&& fit && v.hauler == Some(w.entity) ==> after.sent.len() == pass.sent.len() + 1
            &&& fit && v.hauler is None && v.owner_faction == w.faction_id && v.state
                != VehicleState::Overturned && v.cargo_capable && (forall|i: int|
                0 <= i < pass.vehicles.len() ==> (#[trigger] pass.vehicles[i]).required_animals
                    == 0) ==> after.sent.len() == pass.sent.len() + 1
        }),
{
    let after = with_worker(pass, w, animals, threshold);
    let mine = hauled_by(w.entity);
    let free = free_to_haul(w.faction_id);
    find_is_none(pass.vehicles, mine);
    find_is_none(pass.vehicles, free);
    assert(mine(pass.vehicles[k]) <==> pass.vehicles[k].hauler == Some(w.entity));
    if may_haul(w) {
        match find(pass.vehicles, mine) {
            Some(v) => {
                let i = choose|i: int| 0 <= i < pass.vehicles.len() && pass.vehicles[i] == v;
                assert(mine(pass.vehicles[i]));
                assert(after.sent.drop_last() =~= pass.sent);
            },
            None => {
                assert(!mine(pass.vehicles[k]));
                if exists|i: int| first_where(pass.vehicles, free, i) {
                    let i = choose|i: int| first_where(pass.vehicles, free, i);
                    let v = pass.vehicles[i];
                    assert(free(v));
                    let n = v.required_animals as int;
                    teams_stay_small(
                        animals,
                        w.faction_id,
                        threshold,
                        pass.taken,
                        n,
                    );
                    let team = gathered(animals, w.faction_id, threshold, pass.taken, n);
                    if team.len() >= n {
                        assert(after.sent.drop_last() =~= pass.sent);
                        assert(after.vehicles[i].hauler == Some(w.entity));
                    }
                } else {
                    assert(find(pass.vehicles, free) is None);
                    assert(!free(pass.vehicles[k]));
                }
            },
        }
    }
}

proof fn teams_stay_small(
    animals: Seq<DraftAnimal>,
    faction_id: u32,
    threshold: u8,
    taken: Set<u64>,
    n: int,
)
    ensures
        n >= 0 ==> gathered(animals, faction_id, threshold, taken, n).len() <= n,
    decreases n,
{
    if n > 0 {
        teams_stay_small(animals, faction_id, threshold, taken, n - 1);
    }
}

} // verus!
