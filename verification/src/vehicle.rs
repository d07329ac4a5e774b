//! Vehicles in the world: what they are, who rides them, and what pulls them.

use vstd::prelude::*;
use crate::catalog::VehicleData;
use crate::design::VehicleDesign;
use crate::geometry::IVec3;
use crate::grid::{VehicleCell, VehicleModuleInstance};
use crate::health::VehicleHealth;
use crate::inventory::VehicleInventory;
use crate::parts::{
    Entity, VehicleDesignId, VehiclePartKind, VehiclePurpose, VehicleState,
};
use crate::seqs::{
    capped_sum, count, distinct, distinct_keeps_elements, sum, sum_agrees, sum_grows,
};

verus! {

/// A spawned vehicle.
#[derive(Clone, Copy, Debug)]
pub struct Vehicle {
    pub owner_faction: u32,
    pub design_id: VehicleDesignId,
    pub purpose: VehiclePurpose,
    pub heading: u8,
    pub state: VehicleState,
    pub anchor_tile: (i32, i32),
    pub z: i8,
    /// The worker who drives it on a haul.
    pub hauler: Option<Entity>,
}

/// A pose on a route.
#[derive(Clone, Copy, Debug, PartialEq, Eq, Structural)]
pub struct VehicleNode {
    pub x: i32,
    pub y: i32,
    pub z: i8,
    pub heading: u8,
}

/// A planned route; `cursor` is the next pose to reach.
#[derive(Debug)]
pub struct VehiclePathFollow {
    pub path: Vec<VehicleNode>,
    pub cursor: usize,
}

/// What a drawn vehicle was last drawn as.
#[derive(Clone, Copy, Debug, PartialEq, Eq, Structural)]
pub struct VehicleVisual {
    pub design_id: VehicleDesignId,
    pub heading_bucket: u8,
    pub state: VehicleState,
}

/// Carried by a person who rides a vehicle.
#[derive(Clone, Copy, Debug, PartialEq, Eq, Structural)]
pub struct BoardedVehicle {
    pub vehicle: Entity,
}

/// The crew aboard.
#[derive(Debug)]
pub struct VehicleCrew {
    pub driver: Option<Entity>,
    pub passengers: Vec<Entity>,
    pub gunners: Vec<Entity>,
}

/// The draft team.
#[derive(Debug)]
pub struct VehicleDraft {
    pub hitched: Vec<Entity>,
    pub required_animals: u8,
}

impl Default for VehicleCrew {
    fn default() -> (c: VehicleCrew)
        ensures
            c.driver is None,
            c.passengers@.len() == 0,
            c.gunners@.len() == 0,
    {
        VehicleCrew { driver: None, passengers: Vec::new(), gunners: Vec::new() }
    }
}

/// Everything that comes with a new vehicle.
#[derive(Debug)]
pub struct SpawnedVehicle {
    pub vehicle: Vehicle,
    pub inventory: VehicleInventory,
    pub crew: VehicleCrew,
    pub draft: VehicleDraft,
    pub health: VehicleHealth,
}

/// A parked vehicle of a design: empty, without crew or team, every cell whole.
pub fn spawn_vehicle_at(
    faction_id: u32,
    design: &VehicleDesign,
    tile: (i32, i32),
    z: i8,
    heading: u8,
) -> (s: SpawnedVehicle)
    ensures
        s.vehicle == (Vehicle {
            owner_faction: faction_id,
            design_id: design.id,
            purpose: design.allowed_purpose,
            heading: (heading % 4) as u8,
            state: VehicleState::Parked,
            anchor_tile: tile,
            z,
            hauler: None,
        }),
        s.inventory.items@.len() == 0,
        s.crew.driver is None,
        s.crew.passengers@.len() == 0,
        s.crew.gunners@.len() == 0,
        s.draft.hitched@.len() == 0,
        s.draft.required_animals == design.required_animals,
        s.health.cells@ == crate::health::whole(design.grid.cells@),
        s.health.disabled.0 == 0,
{
    SpawnedVehicle {
        vehicle: Vehicle {
            owner_faction: faction_id,
            design_id: design.id,
            purpose: design.allowed_purpose,
            heading: heading % 4,
            state: VehicleState::Parked,
            anchor_tile: tile,
            z,
            hauler: None,
        },
        inventory: VehicleInventory::new(),
        crew: VehicleCrew { driver: None, passengers: Vec::new(), gunners: Vec::new() },
        draft: VehicleDraft { hitched: Vec::new(), required_animals: design.required_animals },
        health: VehicleHealth::from_design(design),
    }
}

pub open spec fn is_seat(cells: Seq<(IVec3, VehicleCell)>) -> spec_fn(int) -> bool {
    |i: int| cells[i].1.kind == VehiclePartKind::CrewSeat
}

/// How many seats a design has, at most 255.
pub open spec fn seats(cells: Seq<(IVec3, VehicleCell)>) -> int {
    let n = count(cells.len() as int, is_seat(cells));
    if n > 255 {
        255
    } else {
        n as int
    }
}

/// How many `CrewSeat` cells a design has, at most 255.
pub fn crew_seat_count(design: &VehicleDesign) -> (n: u8)
    ensures
        n == seats(design.grid.cells@),
{
    let ghost p = is_seat(design.grid.cells@);
    let mut n: usize = 0;
    let mut i: usize = 0;
    while i < design.grid.cells.len()
        invariant
            i <= design.grid.cells.len(),
            p == is_seat(design.grid.cells@),
            n == count(i as int, p),
            n <= i,
        decreases design.grid.cells.len() - i,
    {
        if design.grid.cells[i].1.kind == VehiclePartKind::CrewSeat {
            n += 1;
        }
        i += 1;
    }
    if n > 255 {
        255
    } else {
        n as u8
    }
}

/// Riders that one seat holds: what the part definition says, or one.
pub open spec fn riders_per_seat(data: VehicleData) -> int {
    match data.part_spec(VehiclePartKind::CrewSeat) {
        Some(p) => p.crew_capacity as int,
        None => 1,
    }
}

pub open spec fn seat_capacity(
    cells: Seq<(IVec3, VehicleCell)>,
    data: VehicleData,
) -> spec_fn(int) -> int {
    |i: int|
        if cells[i].1.kind == VehiclePartKind::CrewSeat {
            riders_per_seat(data)
        } else {
            0
        }
}

/// How many riders a design takes: what its seats hold, but never fewer than its seats and never
/// fewer than one.
pub open spec fn operator_capacity(cells: Seq<(IVec3, VehicleCell)>, data: VehicleData) -> int {
    let held = capped_sum(cells.len() as int, seat_capacity(cells, data), usize::MAX as int);
    let floor = if seats(cells) < 1 {
        1
    } else {
        seats(cells)
    };
    if held < floor {
        floor
    } else {
        held
    }
}

/// Total rider slots of a design.
pub fn vehicle_operator_capacity(design: &VehicleDesign, data: &VehicleData) -> (n: usize)
    ensures
        n == operator_capacity(design.grid.cells@, *data),
{
    let ghost f = seat_capacity(design.grid.cells@, *data);
    let per: usize = match data.part(VehiclePartKind::CrewSeat) {
        Some(p) => p.crew_capacity as usize,
        None => 1,
    };
    let mut total: usize = 0;
    let mut i: usize = 0;
    while i < design.grid.cells.len()
        invariant
            i <= design.grid.cells.len(),
            f == seat_capacity(design.grid.cells@, *data),
            per == riders_per_seat(*data),
            total == capped_sum(i as int, f, usize::MAX as int),
        decreases design.grid.cells.len() - i,
    {
        proof {
            sum_grows(0, i as int, f);
        }
        if design.grid.cells[i].1.kind == VehiclePartKind::CrewSeat {
            total = total.saturating_add(per);
        }
        i += 1;
    }
    let seated: u8 = crew_seat_count(design);
    let floor: usize = if seated < 1 {
        1
    } else {
        seated as usize
    };
    if total < floor {
        floor
    } else {
        total
    }
}

/// Gunners that one module calls for.
pub open spec fn module_gunners(
    modules: Seq<VehicleModuleInstance>,
    data: VehicleData,
) -> spec_fn(int) -> int {
    |i: int|
        match data.module_spec(modules[i].def) {
            Some(d) => if d.range > 0 {
                d.gunner_required as int
            } else {
                0
            },
            None => 0,
        }
}

/// The catalog gives weapon mounts a range.
pub open spec fn mounts_have_range(data: VehicleData) -> bool {
    match data.part_spec(VehiclePartKind::WeaponMount) {
        Some(p) => p.mounted_weapon_range > 0,
        None => false,
    }
}

/// A cell outside any module that is a turret, or a weapon mount with range.
pub open spec fn lone_ranged(cell: VehicleCell, data: VehicleData) -> bool {
    cell.module_id is None && (cell.kind == VehiclePartKind::Turret || (cell.kind
        == VehiclePartKind::WeaponMount && mounts_have_range(data)))
}

pub open spec fn lone_gunners(
    cells: Seq<(IVec3, VehicleCell)>,
    data: VehicleData,
) -> spec_fn(int) -> int {
    |i: int|
        if lone_ranged(cells[i].1, data) {
            1
        } else {
            0
        }
}

/// How many gunners a design calls for: those of its ranged modules, and one for each turret or
/// ranged mount outside a module.
pub open spec fn gunner_demand(design: VehicleDesign, data: VehicleData) -> int {
    let total = sum(
        design.grid.modules@.len() as int,
        module_gunners(design.grid.modules@, data),
    ) + sum(design.grid.cells@.len() as int, lone_gunners(design.grid.cells@, data));
    if total > usize::MAX {
        usize::MAX as int
    } else {
        total
    }
}

/// Gunner slots of a design at full crew.
pub fn vehicle_gunner_demand(design: &VehicleDesign, data: &VehicleData) -> (n: usize)
    ensures
        n == gunner_demand(*design, *data),
{
    let ghost f = module_gunners(design.grid.modules@, *data);
    let ghost g = lone_gunners(design.grid.cells@, *data);
    let mut demand: usize = 0;
    let mut k: usize = 0;
    while k < design.grid.modules.len()
        invariant
            k <= design.grid.modules.len(),
            f == module_gunners(design.grid.modules@, *data),
            demand == capped_sum(k as int, f, usize::MAX as int),
        decreases design.grid.modules.len() - k,
    {
        proof {
            sum_grows(0, k as int, f);
        }
        match data.module_def(design.grid.modules[k].def) {
            Some(d) => {
                if d.range > 0 {
                    demand = demand.saturating_add(d.gunner_required as usize);
                }
            },
            None => {},
        }
        k += 1;
    }
    let ranged_mount: bool = match data.part(VehiclePartKind::WeaponMount) {
        Some(p) => p.mounted_weapon_range > 0,
        None => false,
    };
    let ghost first = sum(design.grid.modules@.len() as int, f);
    let mut i: usize = 0;
    proof {
        sum_grows(0, design.grid.modules@.len() as int, f);
    }
    while i < design.grid.cells.len()
        invariant
            i <= design.grid.cells.len(),
            g == lone_gunners(design.grid.cells@, *data),
            ranged_mount == mounts_have_range(*data),
            first >= 0,
            demand == (if first + sum(i as int, g) > usize::MAX {
                usize::MAX as int
            } else {
                first + sum(i as int, g)
            }),
        decreases design.grid.cells.len() - i,
    {
        proof {
            sum_grows(0, i as int, g);
        }
        let cell = design.grid.cells[i].1;
        let ranged: bool = cell.module_id.is_none() && (cell.kind == VehiclePartKind::Turret || (
        cell.kind == VehiclePartKind::WeaponMount && ranged_mount));
        if ranged {
            demand = demand.saturating_add(1);
        }
        i += 1;
    }
    demand
}

/// Who can operate a weapon: gunners, and passengers as loaders. The driver is not counted.
pub fn available_weapon_operators(crew: &VehicleCrew) -> (n: usize)
    requires
        crew.gunners@.len() + crew.passengers@.len() <= usize::MAX,
    ensures
        n == crew.gunners@.len() + crew.passengers@.len(),
{
    crew.gunners.len() + crew.passengers.len()
}

/// A design carries a weapon with range: a module, or a turret or mount outside any module whose
/// part definition gives it one.
pub open spec fn has_ranged_weapon(design: VehicleDesign, data: VehicleData) -> bool {
    ||| exists|i: int|
        0 <= i < design.grid.modules@.len() && data.module_spec(
            (#[trigger] design.grid.modules@[i]).def,
        ) is Some && data.module_spec(design.grid.modules@[i].def)->0.range > 0
    ||| exists|i: int|
        0 <= i < design.grid.cells@.len() && armed_lone_cell(
            (#[trigger] design.grid.cells@[i]).1,
            data,
        )
}

/// A turret or mount outside any module whose part has range.
pub open spec fn armed_lone_cell(cell: VehicleCell, data: VehicleData) -> bool {
    &&& cell.module_id is None
    &&& cell.kind == VehiclePartKind::Turret || cell.kind == VehiclePartKind::WeaponMount
    &&& data.part_spec(cell.kind) matches Some(p) && p.mounted_weapon_range > 0
}

/// Whether a design carries any ranged weapon.
pub fn design_has_any_ranged_weapon(design: &VehicleDesign, data: &VehicleData) -> (b: bool)
    ensures
        b == has_ranged_weapon(*design, *data),
{
    let mut k: usize = 0;
    while k < design.grid.modules.len()
        invariant
            k <= design.grid.modules.len(),
            forall|j: int|
                0 <= j < k ==> !(data.module_spec((#[trigger] design.grid.modules@[j]).def) is Some
                    && data.module_spec(design.grid.modules@[j].def)->0.range > 0),
        decreases design.grid.modules.len() - k,
    {
        match data.module_def(design.grid.modules[k].def) {
            Some(d) => {
                if d.range > 0 {
                    assert(data.module_spec(design.grid.modules@[k as int].def) is Some);
                    return true;
                }
            },
            None => {},
        }
        k += 1;
    }
    let mut i: usize = 0;
    while i < design.grid.cells.len()
        invariant
            i <= design.grid.cells.len(),
            forall|j: int|
                0 <= j < design.grid.modules@.len() ==> !(data.module_spec(
                    (#[trigger] design.grid.modules@[j]).def,
                ) is Some && data.module_spec(design.grid.modules@[j].def)->0.range > 0),
            forall|j: int|
                0 <= j < i ==> !armed_lone_cell((#[trigger] design.grid.cells@[j]).1, *data),
        decreases design.grid.cells.len() - i,
    {
        let cell = design.grid.cells[i].1;
        if cell.module_id.is_none() && (cell.kind == VehiclePartKind::Turret || cell.kind
            == VehiclePartKind::WeaponMount) {
            match data.part(cell.kind) {
                Some(p) => {
                    if p.mounted_weapon_range > 0 {
                        assert(armed_lone_cell(design.grid.cells@[i as int].1, *data));
                        return true;
                    }
                },
                None => {},
            }
        }
        i += 1;
    }
    false
}

/// Everyone aboard, in seat order: driver, passengers, gunners.
pub open spec fn aboard(crew: VehicleCrew) -> Seq<Entity> {
    let first = match crew.driver {
        Some(d) => seq![d],
        None => Seq::empty(),
    };
    first + crew.passengers@ + crew.gunners@
}

/// Empties every seat and returns who sat there: driver, passengers, gunners.
pub fn eject_all_crew(crew: &mut VehicleCrew) -> (out: Vec<Entity>)
    ensures
        out@ == aboard(*old(crew)),
        final(crew).driver is None,
        final(crew).passengers@.len() == 0,
        final(crew).gunners@.len() == 0,
{
    let mut out: Vec<Entity> = Vec::new();
    match crew.driver {
        Some(d) => out.push(d),
        None => {},
    }
    crew.driver = None;
    out.append(&mut crew.passengers);
    out.append(&mut crew.gunners);
    assert(out@ =~= aboard(*old(crew)));
    out
}

/// Everyone that moves with a vehicle: the hauler, then the crew.
pub open spec fn riding(hauler: Option<Entity>, crew: VehicleCrew) -> Seq<Entity> {
    let first = match hauler {
        Some(h) => seq![h],
        None => Seq::empty(),
    };
    first + aboard(crew)
}

/// Whether an entity is in a list.
pub fn holds_entity(list: &Vec<Entity>, e: Entity) -> (b: bool)
    ensures
        b == list@.contains(e),
{
    let mut i: usize = 0;
    while i < list.len()
        invariant
            i <= list.len(),
            forall|j: int| 0 <= j < i ==> list@[j] != e,
        decreases list.len() - i,
    {
        if list[i] == e {
            assert(list@[i as int] == e);
            return true;
        }
        i += 1;
    }
    false
}

fn add_riders(riders: &mut Vec<Entity>, more: &Vec<Entity>, done: Ghost<Seq<Entity>>)
    requires
        old(riders)@ == distinct(done@),
    ensures
        final(riders)@ == distinct(done@ + more@),
{
    let mut i: usize = 0;
    assert(done@ + more@.take(0) =~= done@);
    while i < more.len()
        invariant
            i <= more.len(),
            riders@ == distinct(done@ + more@.take(i as int)),
        decreases more.len() - i,
    {
        proof {
            let next = done@ + more@.take(i + 1);
            assert(next.drop_last() =~= done@ + more@.take(i as int));
            assert(next.last() == more@[i as int]);
        }
        if !holds_entity(riders, more[i]) {
            riders.push(more[i]);
        }
        i += 1;
    }
    assert(done@ + more@.take(i as int) =~= done@ + more@);
}

/// Everyone who moves with a vehicle, each once: the hauler, the driver, passengers, gunners.
pub fn riders_of(vehicle: &Vehicle, crew: &VehicleCrew) -> (riders: Vec<Entity>)
    ensures
        riders@ == distinct(riding(vehicle.hauler, *crew)),
{
    let mut first: Vec<Entity> = Vec::new();
    match vehicle.hauler {
        Some(h) => first.push(h),
        None => {},
    }
    match crew.driver {
        Some(d) => first.push(d),
        None => {},
    }
    let ghost done = Seq::<Entity>::empty();
    let mut riders: Vec<Entity> = Vec::new();
    add_riders(&mut riders, &first, Ghost(done));
    assert(done + first@ =~= first@);
    add_riders(&mut riders, &crew.passengers, Ghost(first@));
    add_riders(&mut riders, &crew.gunners, Ghost(first@ + crew.passengers@));
    assert(first@ + crew.passengers@ + crew.gunners@ =~= riding(vehicle.hauler, *crew));
    riders
}

/// No rider is moved twice, and none is left behind.
pub proof fn riders_are_everyone_once(vehicle: Vehicle, crew: VehicleCrew, e: Entity)
    ensures
        distinct(riding(vehicle.hauler, crew)).no_duplicates(),
        distinct(riding(vehicle.hauler, crew)).contains(e) <==> riding(
            vehicle.hauler,
            crew,
        ).contains(e),
{
    distinct_keeps_elements(riding(vehicle.hauler, crew));
}

/// A design seats at least its driver, and at least one rider per seat.
pub proof fn every_design_seats_a_driver(cells: Seq<(IVec3, VehicleCell)>, data: VehicleData)
    ensures
        operator_capacity(cells, data) >= 1,
        operator_capacity(cells, data) >= seats(cells),
{
}

/// Everyone aboard is counted: exactly the driver, the passengers and the gunners are, the driver
/// first; whoever hauls the vehicle rides along before them all.
pub proof fn everyone_aboard_is_counted(hauler: Option<Entity>, crew: VehicleCrew, e: Entity)
    ensures
        aboard(crew).contains(e) <==> crew.driver == Some(e) || crew.passengers@.contains(e)
            || crew.gunners@.contains(e),
        aboard(crew).len() == crew.passengers@.len() + crew.gunners@.len() + (if crew.driver
            is Some {
            1int
        } else {
            0
        }),
        crew.driver matches Some(d) ==> aboard(crew)[0] == d,
        riding(hauler, crew).contains(e) <==> hauler == Some(e) || aboard(crew).contains(e),
        hauler matches Some(h) ==> riding(hauler, crew)[0] == h,
{
    let first: Seq<Entity> = match crew.driver {
        Some(d) => seq![d],
        None => Seq::empty(),
    };
    let lead: Seq<Entity> = match hauler {
        Some(h) => seq![h],
        None => Seq::empty(),
    };
    joined_contains(first, crew.passengers@, e);
    joined_contains(first + crew.passengers@, crew.gunners@, e);
    joined_contains(lead, aboard(crew), e);
    assert(first.contains(e) <==> crew.driver == Some(e)) by {
        if crew.driver is Some {
            assert(first[0] == crew.driver->0);
        }
    }
    assert(lead.contains(e) <==> hauler == Some(e)) by {
        if hauler is Some {
            assert(lead[0] == hauler->0);
        }
    }
}

proof fn joined_contains(a: Seq<Entity>, b: Seq<Entity>, e: Entity)
    ensures
        (a + b).contains(e) <==> a.contains(e) || b.contains(e),
{
    if a.contains(e) {
        let i = choose|i: int| 0 <= i < a.len() && a[i] == e;
        assert((a + b)[i] == e);
    }
    if b.contains(e) {
        let i = choose|i: int| 0 <= i < b.len() && b[i] == e;
        assert((a + b)[a.len() + i] == e);
    }
    if (a + b).contains(e) {
        let i = choose|i: int| 0 <= i < (a + b).len() && (a + b)[i] == e;
        if i < a.len() {
            assert(a[i] == e);
        } else {
            assert(b[i - a.len()] == e);
        }
    }
}

proof fn seats_sum(cells: Seq<(IVec3, VehicleCell)>, data: VehicleData, n: int)
    requires
        0 <= n,
    ensures
        sum(n, seat_capacity(cells, data)) == count(n, is_seat(cells)) * riders_per_seat(data),
    decreases n,
{
    let per = riders_per_seat(data);
    if n > 0 {
        seats_sum(cells, data, n - 1);
        let k = count(n - 1, is_seat(cells)) as int;
        assert((k + 1) * per == k * per + per) by (nonlinear_arith);
    } else {
        assert(0 * per == 0) by (nonlinear_arith);
    }
}

/// A design takes as many riders as its seats hold: a seat holds what the seat part says, or one
/// where nothing is said, and at least one; a design without seats takes its driver alone.
pub proof fn seats_hold_their_riders(cells: Seq<(IVec3, VehicleCell)>, data: VehicleData)
    requires
        count(cells.len() as int, |i: int| cells[i].1.kind == VehiclePartKind::CrewSeat) <= 255,
    ensures
        ({
            let n = count(
                cells.len() as int,
                |i: int| cells[i].1.kind == VehiclePartKind::CrewSeat,
            ) as int;
            let per: int = match data.part_spec(VehiclePartKind::CrewSeat) {
                Some(p) => p.crew_capacity as int,
                None => 1,
            };
            &&& seats(cells) == n
            &&& n == 0 ==> operator_capacity(cells, data) == 1
            &&& n > 0 && per >= 1 && n * per <= usize::MAX ==> operator_capacity(cells, data) == n
                * per
            &&& n > 0 && per == 0 ==> operator_capacity(cells, data) == n
        }),
{
    let p = |i: int| cells[i].1.kind == VehiclePartKind::CrewSeat;
    assert(p =~= is_seat(cells));
    seats_sum(cells, data, cells.len() as int);
    let n = count(cells.len() as int, p) as int;
    let per = riders_per_seat(data);
    assert(n == 0 ==> n * per == 0) by (nonlinear_arith);
    assert(n > 0 && per >= 1 ==> n * per >= n) by (nonlinear_arith);
    assert(per == 0 ==> n * per == 0) by (nonlinear_arith);
}

/// Each further module with range calls for its own gunners, one without range for none; each
/// further turret outside a module calls for one, each further weapon mount outside a module for
/// one if mounts have range; no other cell calls for any.
pub proof fn weapons_call_for_gunners(
    a: VehicleDesign,
    b: VehicleDesign,
    data: VehicleData,
    m: VehicleModuleInstance,
    c: (IVec3, VehicleCell),
)
    requires
        gunner_demand(a, data) + 255 < usize::MAX,
    ensures
        b.grid.cells@ == a.grid.cells@ && b.grid.modules@ == a.grid.modules@.push(m)
            ==> gunner_demand(b, data) - gunner_demand(a, data) == (match data.module_spec(m.def) {
            Some(d) => if d.range > 0 {
                d.gunner_required as int
            } else {
                0
            },
            None => 0,
        }),
        b.grid.modules@ == a.grid.modules@ && b.grid.cells@ == a.grid.cells@.push(c) ==> {
            let more = gunner_demand(b, data) - gunner_demand(a, data);
            &&& more == 0 || more == 1
            &&& more == 1 ==> c.1.module_id is None && (c.1.kind == VehiclePartKind::Turret
                || c.1.kind == VehiclePartKind::WeaponMount)
            &&& c.1.kind == VehiclePartKind::Turret && c.1.module_id is None ==> more == 1
            &&& c.1.kind == VehiclePartKind::WeaponMount && c.1.module_id is None ==> (more == 1
                <==> (data.part_spec(VehiclePartKind::WeaponMount) matches Some(p)
                && p.mounted_weapon_range > 0))
        },
{
    let fa = module_gunners(a.grid.modules@, data);
    let fb = module_gunners(b.grid.modules@, data);
    let ga = lone_gunners(a.grid.cells@, data);
    let gb = lone_gunners(b.grid.cells@, data);
    let n = a.grid.modules@.len() as int;
    let k = a.grid.cells@.len() as int;
    if b.grid.cells@ == a.grid.cells@ && b.grid.modules@ == a.grid.modules@.push(m) {
        assert forall|i: int| 0 <= i < n implies #[trigger] fa(i) == fb(i) by {
            assert(b.grid.modules@[i] == a.grid.modules@[i]);
        }
        sum_agrees(n, fa, fb);
        assert(b.grid.modules@[n] == m);
    }
    if b.grid.modules@ == a.grid.modules@ && b.grid.cells@ == a.grid.cells@.push(c) {
        assert forall|i: int| 0 <= i < k implies #[trigger] ga(i) == gb(i) by {
            assert(b.grid.cells@[i] == a.grid.cells@[i]);
        }
        sum_agrees(k, ga, gb);
        assert(b.grid.cells@[k] == c);
    }
}

/// A design has a ranged weapon as soon as one module has range, or a turret or weapon mount
/// outside any module whose part has; without weapons of these kinds it has none.
pub proof fn range_makes_a_ranged_weapon(design: VehicleDesign, data: VehicleData, k: int)
    ensures
        0 <= k < design.grid.modules@.len() && (data.module_spec(design.grid.modules@[k].def)
            matches Some(d) && d.range > 0) ==> has_ranged_weapon(design, data),
        0 <= k < design.grid.cells@.len() && design.grid.cells@[k].1.module_id is None && (
        design.grid.cells@[k].1.kind == VehiclePartKind::Turret || design.grid.cells@[k].1.kind
            == VehiclePartKind::WeaponMount) && (data.part_spec(design.grid.cells@[k].1.kind)
            matches Some(p) && p.mounted_weapon_range > 0) ==> has_ranged_weapon(design, data),
        design.grid.modules@.len() == 0 && (forall|i: int|
            0 <= i < design.grid.cells@.len() ==> (#[trigger] design.grid.cells@[i]).1.kind
                != VehiclePartKind::Turret && design.grid.cells@[i].1.kind
                != VehiclePartKind::WeaponMount) ==> !has_ranged_weapon(design, data),
{
    if 0 <= k < design.grid.modules@.len() {
        assert(design.grid.modules@[k] == design.grid.modules@[k]);
    }
    if 0 <= k < design.grid.cells@.len() {
        assert(design.grid.cells@[k] == design.grid.cells@[k]);
    }
}

} // verus!
