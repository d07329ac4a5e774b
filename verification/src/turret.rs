//! Ranged fire from vehicles: arcs, targets, and who shoots when.

use vstd::prelude::*;
use crate::catalog::{PartDef, VehicleData, VehicleModuleDef};
use crate::design::VehicleDesign;
use crate::geometry::{abs, cheb, tile_distance, IVec3};
use crate::grid::{VehicleCell, VehicleModuleInstance};
use crate::health::{health_at, VehicleHealth};
use crate::parts::{Entity, FiringArc, VehicleModuleId, VehiclePartKind};
use crate::tiles::{
    cell_time, cell_times, module_time, module_times, set_cell_time, set_module_time, still_waits,
};
use crate::vehicle::{Vehicle, VehicleCrew};

verus! {

/// Ticks between shots of a single-cell mount.
pub const TURRET_FIRE_COOLDOWN_TICKS: u64 = 40;

/// How far around the focus tile a fire order reaches.
pub const FIRE_ORDER_RADIUS: i32 = 3;

/// How long a fire order stands.
pub const FIRE_ORDER_TTL_TICKS: u64 = 80;

/// The direction of a heading: 0 is +y, then a quarter turn counter-clockwise each.
pub open spec fn direction(heading: int) -> (i32, i32) {
    if heading % 4 == 0 {
        (0i32, 1i32)
    } else if heading % 4 == 1 {
        (-1i32, 0i32)
    } else if heading % 4 == 2 {
        (0i32, -1i32)
    } else {
        (1i32, 0i32)
    }
}

/// The unit vector of a heading.
pub fn heading_vec(heading: u8) -> (v: (i32, i32))
    ensures
        v == direction(heading as int),
{
    match heading % 4 {
        0 => (0, 1),
        1 => (-1, 0),
        2 => (0, -1),
        _ => (1, 0),
    }
}

/// `target` lies in the quarter circle that opens from `origin` along `facing`: in front, and no
/// further to the side than ahead.
pub open spec fn in_front(facing: (i32, i32), origin: (i32, i32), target: (i32, i32)) -> bool {
    let dx = target.0 - origin.0;
    let dy = target.1 - origin.1;
    let ahead = dx * facing.0 + dy * facing.1;
    let aside = dx * facing.1 - dy * facing.0;
    ahead > 0 && ahead >= abs(aside)
}

/// Whether a target lies within 45 degrees of a facing.
pub fn target_in_arc(facing: (i32, i32), origin: (i32, i32), target: (i32, i32)) -> (b: bool)
    ensures
        b == in_front(facing, origin, target),
{
    let dx: i128 = target.0 as i128 - origin.0 as i128;
    let dy: i128 = target.1 as i128 - origin.1 as i128;
    let fx: i128 = facing.0 as i128;
    let fy: i128 = facing.1 as i128;
    proof {
        product_fits(dx as int, fx as int);
        product_fits(dy as int, fy as int);
        product_fits(dx as int, fy as int);
        product_fits(dy as int, fx as int);
    }
    let ahead: i128 = dx * fx + dy * fy;
    let aside: i128 = dx * fy - dy * fx;
    if ahead <= 0 {
        return false;
    }
    if aside < 0 {
        ahead >= -aside
    } else {
        ahead >= aside
    }
}

proof fn product_fits(d: int, f: int)
    requires
        -0x1_0000_0000 < d < 0x1_0000_0000,
        -0x8000_0000 <= f <= 0x8000_0000,
    ensures
        -0x8000_0000_0000_0000 <= d * f <= 0x8000_0000_0000_0000,
{
    assert(-0x1_0000_0000 * 0x8000_0000 <= d * f <= 0x1_0000_0000 * 0x8000_0000) by (nonlinear_arith)
        requires
            -0x1_0000_0000 < d < 0x1_0000_0000,
            -0x8000_0000 <= f <= 0x8000_0000,
    ;
}

/// A front weapon never fires backwards: a target at or behind the weapon's line is out of its
/// arc, whatever its facing, and a target straight ahead is in it.
pub proof fn front_arcs_exclude_the_rear(heading: int, origin: (i32, i32), target: (i32, i32))
    requires
        0 <= heading,
    ensures
        ({
            let f = direction(heading);
            let ahead = (target.0 - origin.0) * f.0 + (target.1 - origin.1) * f.1;
            let aside = (target.0 - origin.0) * f.1 - (target.1 - origin.1) * f.0;
            &&& ahead <= 0 ==> !in_front(f, origin, target)
            &&& ahead > 0 && aside == 0 ==> in_front(f, origin, target)
        }),
{
}

/// The quarter circles of the four headings together hold every other tile.
pub proof fn arcs_cover_everything(origin: (i32, i32), target: (i32, i32))
    requires
        origin != target,
    ensures
        exists|h: int| 0 <= h < 4 && in_front(#[trigger] direction(h), origin, target),
{
    let dx = target.0 - origin.0;
    let dy = target.1 - origin.1;
    arcs_open_along_the_heading(0, origin, target);
    arcs_open_along_the_heading(1, origin, target);
    arcs_open_along_the_heading(2, origin, target);
    arcs_open_along_the_heading(3, origin, target);
    if dy > 0 && dy >= abs(dx) {
        assert(in_front(direction(0), origin, target));
    } else if dx < 0 && -dx >= abs(dy) {
        assert(in_front(direction(1), origin, target));
    } else if dy < 0 && -dy >= abs(dx) {
        assert(in_front(direction(2), origin, target));
    } else {
        assert(in_front(direction(3), origin, target));
    }
}

/// Restricts targets to a square around a focus tile.
#[derive(Clone, Copy, Debug)]
pub struct TargetingFilter {
    pub focus: Option<(i32, i32)>,
    pub focus_radius: i32,
}

impl TargetingFilter {
    /// A tile is within the focus.
    pub open spec fn admits(self, tile: (i32, i32)) -> bool {
        match self.focus {
            None => true,
            Some(c) => tile_distance(tile, c) <= self.focus_radius,
        }
    }

    /// The filter that admits every tile.
    pub fn none() -> (f: TargetingFilter)
        ensures
            f.focus is None,
            f.focus_radius == 0,
    {
        TargetingFilter { focus: None, focus_radius: 0 }
    }

    pub fn passes(&self, tile: (i32, i32)) -> (b: bool)
        ensures
            b == self.admits(tile),
    {
        match self.focus {
            None => true,
            Some(c) => self.focus_radius >= 0 && cheb(tile, c) <= self.focus_radius as u32,
        }
    }
}

/// Something that might be shot at.
#[derive(Clone, Copy, Debug)]
pub struct Candidate {
    pub entity: Entity,
    /// Where the spatial index holds it.
    pub indexed_tile: (i32, i32),
    /// Where it is.
    pub tile: (i32, i32),
    pub faction: u32,
    /// A vehicle of which nothing stands.
    pub wreck: bool,
    /// There is a clear line from the weapon.
    pub in_sight: bool,
}

/// What a weapon looks for.
#[derive(Clone, Copy, Debug)]
pub struct Aim {
    pub origin: (i32, i32),
    pub range: i32,
    /// The facing of a weapon with a front arc.
    pub facing: Option<(i32, i32)>,
    pub owner_faction: u32,
    pub filter: TargetingFilter,
}

/// A weapon may shoot at a candidate.
pub open spec fn eligible(aim: Aim, c: Candidate) -> bool {
    &&& tile_distance(c.indexed_tile, aim.origin) <= aim.range
    &&& c.faction != aim.owner_faction
    &&& !c.wreck
    &&& aim.facing matches Some(f) ==> in_front(f, aim.origin, c.tile)
    &&& aim.filter.admits(c.tile)
    &&& c.in_sight
}

/// How a candidate ranks: distance to the focus first, then distance to the weapon.
pub open spec fn rank(aim: Aim, c: Candidate) -> (int, int) {
    (
        match aim.filter.focus {
            Some(f) => tile_distance(c.tile, f),
            None => 0,
        },
        tile_distance(c.tile, aim.origin),
    )
}

/// One rank comes strictly before another.
pub open spec fn ahead_of(a: (int, int), b: (int, int)) -> bool {
    a.0 < b.0 || (a.0 == b.0 && a.1 < b.1)
}

/// Candidate `i` is the choice among the first `n`: eligible, ahead of every earlier one, and not
/// behind any later one.
pub open spec fn is_choice(aim: Aim, list: Seq<Candidate>, n: int, i: int) -> bool {
    &&& 0 <= i < n
    &&& eligible(aim, list[i])
    &&& forall|j: int|
        0 <= j < i && eligible(aim, #[trigger] list[j]) ==> ahead_of(
            rank(aim, list[i]),
            rank(aim, list[j]),
        )
    &&& forall|j: int|
        i < j < n && eligible(aim, #[trigger] list[j]) ==> !ahead_of(
            rank(aim, list[j]),
            rank(aim, list[i]),
        )
}

/// No candidate among the first `n` is eligible.
pub open spec fn no_choice(aim: Aim, list: Seq<Candidate>, n: int) -> bool {
    forall|j: int| 0 <= j < n ==> !eligible(aim, #[trigger] list[j])
}

fn is_eligible(aim: &Aim, c: &Candidate) -> (b: bool)
    ensures
        b == eligible(*aim, *c),
{
    if aim.range < 0 || cheb(c.indexed_tile, aim.origin) > aim.range as u32 {
        return false;
    }
    if c.faction == aim.owner_faction || c.wreck || !c.in_sight {
        return false;
    }
    match aim.facing {
        Some(f) => {
            if !target_in_arc(f, aim.origin, c.tile) {
                return false;
            }
        },
        None => {},
    }
    aim.filter.passes(c.tile)
}

fn focus_distance(aim: &Aim, tile: (i32, i32)) -> (d: u32)
    ensures
        d == (match aim.filter.focus {
            Some(f) => tile_distance(tile, f),
            None => 0,
        }),
{
    match aim.filter.focus {
        Some(f) => cheb(tile, f),
        None => 0,
    }
}

/// The index of the candidate that a weapon shoots at. Candidates come in scanning order; of
/// equals the first wins.
pub fn acquire_weapon_target(aim: &Aim, list: &Vec<Candidate>) -> (r: Option<usize>)
    ensures
        match r {
            Some(i) => is_choice(*aim, list@, list@.len() as int, i as int),
            None => no_choice(*aim, list@, list@.len() as int),
        },
{
    let mut best: Option<usize> = None;
    let mut best_focus: u32 = 0;
    let mut best_near: u32 = 0;
    let mut i: usize = 0;
    while i < list.len()
        invariant
            i <= list.len(),
            match best {
                Some(b) => is_choice(*aim, list@, i as int, b as int) && rank(
                    *aim,
                    list@[b as int],
                ) == (best_focus as int, best_near as int),
                None => no_choice(*aim, list@, i as int),
            },
        decreases list.len() - i,
    {
        let c = list[i];
        if is_eligible(aim, &c) {
            let focus: u32 = focus_distance(aim, c.tile);
            let near: u32 = cheb(c.tile, aim.origin);
            let better: bool = match best {
                None => true,
                Some(_) => focus < best_focus || (focus == best_focus && near < best_near),
            };
            if better {
                best = Some(i);
                best_focus = focus;
                best_near = near;
            }
        }
        i += 1;
    }
    best
}

/// A shot to be fired.
#[derive(Clone, Copy, Debug)]
pub struct Shot {
    pub target: Entity,
    pub damage: u8,
    /// The tile the projectile starts from.
    pub muzzle: (i32, i32),
    pub dest_tile: (i32, i32),
}

/// A standing order to shoot at a tile.
#[derive(Clone, Copy, Debug)]
pub struct VehicleFireOrder {
    pub target_tile: (i32, i32),
    pub expires_tick: u64,
}

/// The filter of a fire order that has not run out.
pub open spec fn order_filter(order: Option<VehicleFireOrder>, now: u64) -> TargetingFilter {
    match order {
        Some(o) => if now >= o.expires_tick {
            TargetingFilter { focus: None, focus_radius: 0 }
        } else {
            TargetingFilter { focus: Some(o.target_tile), focus_radius: FIRE_ORDER_RADIUS }
        },
        None => TargetingFilter { focus: None, focus_radius: 0 },
    }
}

/// The filter of an order, and whether the order is dropped: it is once it has run out, as soon as
/// somebody is aboard.
pub fn fire_filter(
    order: Option<VehicleFireOrder>,
    crew: &VehicleCrew,
    now: u64,
) -> (r: (TargetingFilter, bool))
    ensures
        r.0 == order_filter(order, now),
        r.1 == (manned(*crew) && (order matches Some(o) && now >= o.expires_tick)),
{
    match order {
        Some(o) => {
            if now >= o.expires_tick {
                let aboard = crew.driver.is_some() || crew.gunners.len() > 0
                    || crew.passengers.len() > 0;
                (TargetingFilter { focus: None, focus_radius: 0 }, aboard)
            } else {
                (
                    TargetingFilter {
                        focus: Some(o.target_tile),
                        focus_radius: FIRE_ORDER_RADIUS,
                    },
                    false,
                )
            }
        },
        None => (TargetingFilter { focus: None, focus_radius: 0 }, false),
    }
}

/// The key under which a vehicle's module waits.
pub open spec fn module_key(e: Entity, id: VehicleModuleId) -> (u64, u16) {
    (e.0, id.0)
}

/// The key under which a vehicle's mount waits.
pub open spec fn cell_key(e: Entity, pos: IVec3) -> (u64, i32, i32, i32) {
    (e.0, pos.x, pos.y, pos.z)
}

/// Somebody aboard can see to a weapon at all.
pub open spec fn manned(crew: VehicleCrew) -> bool {
    crew.driver is Some || crew.gunners@.len() > 0 || crew.passengers@.len() > 0
}

/// Gunners and passengers.
pub open spec fn operators(crew: VehicleCrew) -> int {
    crew.gunners@.len() as int + crew.passengers@.len() as int
}

/// The direction that a module faces in the world.
pub open spec fn world_facing(v: Vehicle, m: VehicleModuleInstance) -> (i32, i32) {
    direction((v.heading + m.facing) as int)
}

/// A module is fit to fire: it has range and damage, every cell of it stands, enough hands are
/// there, and it does not wait.
pub open spec fn module_fit(
    e: Entity,
    m: VehicleModuleInstance,
    def: VehicleModuleDef,
    health: Seq<(IVec3, u16)>,
    hands: int,
    waits: Map<(u64, u16), u64>,
    now: u64,
) -> bool {
    &&& def.range > 0
    &&& def.damage > 0
    &&& forall|i: int| 0 <= i < m.cells@.len() ==> health_at(health, #[trigger] m.cells@[i]) > 0
    &&& hands >= def.gunner_required
    &&& hands >= 1
    &&& !still_waits(waits, module_key(e, m.id), now)
}

/// What a module looks for.
pub open spec fn module_aim(
    v: Vehicle,
    m: VehicleModuleInstance,
    def: VehicleModuleDef,
    filter: TargetingFilter,
) -> Aim {
    Aim {
        origin: v.anchor_tile,
        range: def.range as i32,
        facing: if def.firing_arc == FiringArc::Front90 {
            Some(world_facing(v, m))
        } else {
            None
        },
        owner_faction: v.owner_faction,
        filter,
    }
}

fn has_passed(until: Option<u64>, now: u64) -> (b: bool)
    ensures
        b == (until matches Some(t) ==> now >= t),
{
    match until {
        Some(t) => now >= t,
        None => true,
    }
}

/// The choice of a weapon, as a value.
pub open spec fn choice(aim: Aim, list: Seq<Candidate>) -> Option<Candidate> {
    if exists|i: int| is_choice(aim, list, list.len() as int, i) {
        Some(list[choose|i: int| is_choice(aim, list, list.len() as int, i)])
    } else {
        None
    }
}

proof fn choice_is(aim: Aim, list: Seq<Candidate>, i: int)
    requires
        is_choice(aim, list, list.len() as int, i),
    ensures
        choice(aim, list) == Some(list[i]),
{
    let k = choose|k: int| is_choice(aim, list, list.len() as int, k);
    if k < i {
        assert(eligible(aim, list[k]));
        assert(eligible(aim, list[i]));
    } else if i < k {
        assert(eligible(aim, list[i]));
        assert(eligible(aim, list[k]));
    }
}

proof fn choice_is_none(aim: Aim, list: Seq<Candidate>)
    requires
        no_choice(aim, list, list.len() as int),
    ensures
        choice(aim, list) is None,
{
    if exists|i: int| is_choice(aim, list, list.len() as int, i) {
        let i = choose|i: int| is_choice(aim, list, list.len() as int, i);
        assert(eligible(aim, list[i]));
    }
}

/// The state of a firing pass: shots so far, and when each weapon may fire again.
pub struct Volley {
    pub shots: Seq<Shot>,
    pub module_waits: Map<(u64, u16), u64>,
    pub cell_waits: Map<(u64, i32, i32, i32), u64>,
}

/// What a module adds to a volley.
pub open spec fn with_module_fire(
    volley: Volley,
    e: Entity,
    v: Vehicle,
    m: VehicleModuleInstance,
    health: Seq<(IVec3, u16)>,
    crew: VehicleCrew,
    data: VehicleData,
    filter: TargetingFilter,
    list: Seq<Candidate>,
    now: u64,
) -> Volley {
    match data.module_spec(m.def) {
        Some(def) => if module_fit(e, m, def, health, operators(crew), volley.module_waits, now) {
            match choice(module_aim(v, m, def, filter), list) {
                Some(c) => Volley {
                    shots: volley.shots.push(
                        Shot {
                            target: c.entity,
                            damage: def.damage,
                            muzzle: (
                                (v.anchor_tile.0 + world_facing(v, m).0) as i32,
                                (v.anchor_tile.1 + world_facing(v, m).1) as i32,
                            ),
                            dest_tile: c.tile,
                        },
                    ),
                    module_waits: volley.module_waits.insert(
                        module_key(e, m.id),
                        (now + def.cooldown_ticks) as u64,
                    ),
                    cell_waits: volley.cell_waits,
                },
                None => volley,
            }
        } else {
            volley
        },
        None => volley,
    }
}

/// A volley after the first `n` modules.
pub open spec fn module_volley(
    start: Volley,
    e: Entity,
    v: Vehicle,
    modules: Seq<VehicleModuleInstance>,
    health: Seq<(IVec3, u16)>,
    crew: VehicleCrew,
    data: VehicleData,
    filter: TargetingFilter,
    list: Seq<Candidate>,
    now: u64,
    n: int,
) -> Volley
    decreases n,
{
    if n <= 0 {
        start
    } else {
        with_module_fire(
            module_volley(start, e, v, modules, health, crew, data, filter, list, now, n - 1),
            e,
            v,
            modules[n - 1],
            health,
            crew,
            data,
            filter,
            list,
            now,
        )
    }
}

/// A mount outside any module is fit to fire.
pub open spec fn mount_fit(
    e: Entity,
    pos: IVec3,
    cell: VehicleCell,
    part: PartDef,
    health: Seq<(IVec3, u16)>,
    hands: int,
    waits: Map<(u64, i32, i32, i32), u64>,
    now: u64,
) -> bool {
    &&& cell.module_id is None
    &&& cell.kind == VehiclePartKind::Turret || cell.kind == VehiclePartKind::WeaponMount
    &&& part.mounted_weapon_range > 0
    &&& part.mounted_weapon_damage > 0
    &&& health_at(health, pos) > 0
    &&& hands >= 1
    &&& !still_waits(waits, cell_key(e, pos), now)
}

/// What a mount looks for.
pub open spec fn mount_aim(v: Vehicle, part: PartDef, filter: TargetingFilter) -> Aim {
    Aim {
        origin: v.anchor_tile,
        range: part.mounted_weapon_range as i32,
        facing: None,
        owner_faction: v.owner_faction,
        filter,
    }
}

/// What a cell adds to a volley.
pub open spec fn with_mount_fire(
    volley: Volley,
    e: Entity,
    v: Vehicle,
    c: (IVec3, VehicleCell),
    health: Seq<(IVec3, u16)>,
    crew: VehicleCrew,
    data: VehicleData,
    filter: TargetingFilter,
    list: Seq<Candidate>,
    now: u64,
) -> Volley {
    match data.part_spec(c.1.kind) {
        Some(part) => if mount_fit(
            e,
            c.0,
            c.1,
            part,
            health,
            operators(crew),
            volley.cell_waits,
            now,
        ) {
            match choice(mount_aim(v, part, filter), list) {
                Some(t) => Volley {
                    shots: volley.shots.push(
                        Shot {
                            target: t.entity,
                            damage: part.mounted_weapon_damage,
                            muzzle: v.anchor_tile,
                            dest_tile: t.tile,
                        },
                    ),
                    module_waits: volley.module_waits,
                    cell_waits: volley.cell_waits.insert(
                        cell_key(e, c.0),
                        (now + TURRET_FIRE_COOLDOWN_TICKS) as u64,
                    ),
                },
                None => volley,
            }
        } else {
            volley
        },
        None => volley,
    }
}

/// A volley after the first `n` cells.
pub open spec fn mount_volley(
    start: Volley,
    e: Entity,
    v: Vehicle,
    cells: Seq<(IVec3, VehicleCell)>,
    health: Seq<(IVec3, u16)>,
    crew: VehicleCrew,
    data: VehicleData,
    filter: TargetingFilter,
    list: Seq<Candidate>,
    now: u64,
    n: int,
) -> Volley
    decreases n,
{
    if n <= 0 {
        start
    } else {
        with_mount_fire(
            mount_volley(start, e, v, cells, health, crew, data, filter, list, now, n - 1),
            e,
            v,
            cells[n - 1],
            health,
            crew,
            data,
            filter,
            list,
            now,
        )
    }
}

/// Ticks and tiles stay within machine words during a volley.
pub open spec fn volley_fits(v: Vehicle, design: VehicleDesign, data: VehicleData, now: u64) -> bool {
    &&& now + TURRET_FIRE_COOLDOWN_TICKS <= u64::MAX
    &&& i32::MIN < v.anchor_tile.0 < i32::MAX
    &&& i32::MIN < v.anchor_tile.1 < i32::MAX
    &&& forall|i: int|
        0 <= i < design.grid.modules@.len() ==> {
            &&& v.heading + (#[trigger] design.grid.modules@[i]).facing <= 255
            &&& data.module_spec(design.grid.modules@[i].def) matches Some(d) ==> now
                + d.cooldown_ticks <= u64::MAX
        }
}

fn all_stand(m: &VehicleModuleInstance, health: &VehicleHealth) -> (b: bool)
    ensures
        b == forall|i: int|
            0 <= i < m.cells@.len() ==> health_at(health.cells@, #[trigger] m.cells@[i]) > 0,
{
    let mut i: usize = 0;
    while i < m.cells.len()
        invariant
            i <= m.cells.len(),
            forall|j: int|
                0 <= j < i ==> health_at(health.cells@, #[trigger] m.cells@[j]) > 0,
        decreases m.cells.len() - i,
    {
        if health.cell_health(m.cells[i]) == 0 {
            assert(health_at(health.cells@, m.cells@[i as int]) == 0);
            return false;
        }
        i += 1;
    }
    true
}

/// The shots of one vehicle this tick, and the waits that they start. Modules fire first, one
/// shot each; then turrets and mounts outside any module. Without anybody aboard nothing fires.
pub fn vehicle_fire(
    e: Entity,
    v: &Vehicle,
    health: &VehicleHealth,
    crew: &VehicleCrew,
    design: &VehicleDesign,
    data: &VehicleData,
    filter: TargetingFilter,
    list: &Vec<Candidate>,
    now: u64,
    module_waits: &mut ahash::AHashMap<(u64, u16), u64>,
    cell_waits: &mut ahash::AHashMap<(u64, i32, i32, i32), u64>,
) -> (shots: Vec<Shot>)
    requires
        volley_fits(*v, *design, *data, now),
        operators(*crew) <= usize::MAX,
    ensures
        ({
            let start = Volley {
                shots: Seq::empty(),
                module_waits: module_times(*old(module_waits)),
                cell_waits: cell_times(*old(cell_waits)),
            };
            let fired = if manned(*crew) {
                mount_volley(
                    module_volley(
                        start,
                        e,
                        *v,
                        design.grid.modules@,
                        health.cells@,
                        *crew,
                        *data,
                        filter,
                        list@,
                        now,
                        design.grid.modules@.len() as int,
                    ),
                    e,
                    *v,
                    design.grid.cells@,
                    health.cells@,
                    *crew,
                    *data,
                    filter,
                    list@,
                    now,
                    design.grid.cells@.len() as int,
                )
            } else {
                start
            };
            &&& shots@ == fired.shots
            &&& module_times(*final(module_waits)) == fired.module_waits
            &&& cell_times(*final(cell_waits)) == fired.cell_waits
        }),
{
    let mut shots: Vec<Shot> = Vec::new();
    if crew.driver.is_none() && crew.gunners.len() == 0 && crew.passengers.len() == 0 {
        return shots;
    }
    let hands: usize = crew.gunners.len() + crew.passengers.len();
    let ghost start = Volley {
        shots: Seq::empty(),
        module_waits: module_times(*module_waits),
        cell_waits: cell_times(*cell_waits),
    };
    let mut k: usize = 0;
    while k < design.grid.modules.len()
        invariant
            k <= design.grid.modules.len(),
            volley_fits(*v, *design, *data, now),
            hands == operators(*crew),
            cell_times(*cell_waits) == start.cell_waits,
            (Volley {
                shots: shots@,
                module_waits: module_times(*module_waits),
                cell_waits: cell_times(*cell_waits),
            }) == module_volley(
                start,
                e,
                *v,
                design.grid.modules@,
                health.cells@,
                *crew,
                *data,
                filter,
                list@,
                now,
                k as int,
            ),
        decreases design.grid.modules.len() - k,
    {
        let m = &design.grid.modules[k];
        assert(v.heading + design.grid.modules@[k as int].facing <= 255);
        match data.module_def(m.def) {
            Some(def) => {
                let fit: bool = def.range > 0 && def.damage > 0 && all_stand(m, health) && hands
                    >= def.gunner_required as usize && hands >= 1 && has_passed(
                    module_time(module_waits, (e.0, m.id.0)),
                    now,
                );
                if fit {
                    let facing: (i32, i32) = heading_vec(v.heading + m.facing);
                    let aim = Aim {
                        origin: v.anchor_tile,
                        range: def.range as i32,
                        facing: if def.firing_arc == FiringArc::Front90 {
                            Some(facing)
                        } else {
                            None
                        },
                        owner_faction: v.owner_faction,
                        filter,
                    };
                    match acquire_weapon_target(&aim, list) {
                        Some(i) => {
                            proof {
                                choice_is(aim, list@, i as int);
                            }
                            let c = list[i];
                            shots.push(
                                Shot {
                                    target: c.entity,
                                    damage: def.damage,
                                    muzzle: (
                                        v.anchor_tile.0 + facing.0,
                                        v.anchor_tile.1 + facing.1,
                                    ),
                                    dest_tile: c.tile,
                                },
                            );
                            set_module_time(
                                module_waits,
                                (e.0, m.id.0),
                                now + def.cooldown_ticks,
                            );
                        },
                        None => {
                            proof {
                                choice_is_none(aim, list@);
                            }
                        },
                    }
                }
            },
            None => {},
        }
        k += 1;
    }
    let ghost after_modules = Volley {
        shots: shots@,
        module_waits: module_times(*module_waits),
        cell_waits: cell_times(*cell_waits),
    };
    let mut i: usize = 0;
    while i < design.grid.cells.len()
        invariant
            i <= design.grid.cells.len(),
            now + TURRET_FIRE_COOLDOWN_TICKS <= u64::MAX,
            hands == operators(*crew),
            module_times(*module_waits) == after_modules.module_waits,
            (Volley {
                shots: shots@,
                module_waits: module_times(*module_waits),
                cell_waits: cell_times(*cell_waits),
            }) == mount_volley(
                after_modules,
                e,
                *v,
                design.grid.cells@,
                health.cells@,
                *crew,
                *data,
                filter,
                list@,
                now,
                i as int,
            ),
        decreases design.grid.cells.len() - i,
    {
        let (pos, cell) = design.grid.cells[i];
        let weapon: bool = cell.module_id.is_none() && (cell.kind == VehiclePartKind::Turret
            || cell.kind == VehiclePartKind::WeaponMount);
        match data.part(cell.kind) {
            Some(part) => {
                let fit: bool = weapon && part.mounted_weapon_range > 0
                    && part.mounted_weapon_damage > 0 && health.cell_health(pos) > 0 && hands >= 1
                    && has_passed(cell_time(cell_waits, (e.0, pos.x, pos.y, pos.z)), now);
                if fit {
                    let aim = Aim {
                        origin: v.anchor_tile,
                        range: part.mounted_weapon_range as i32,
                        facing: None,
                        owner_faction: v.owner_faction,
                        filter,
                    };
                    match acquire_weapon_target(&aim, list) {
                        Some(t) => {
                            proof {
                                choice_is(aim, list@, t as int);
                            }
                            let c = list[t];
                            shots.push(
                                Shot {
                                    target: c.entity,
                                    damage: part.mounted_weapon_damage,
                                    muzzle: v.anchor_tile,
                                    dest_tile: c.tile,
                                },
                            );
                            set_cell_time(
                                cell_waits,
                                (e.0, pos.x, pos.y, pos.z),
                                now + TURRET_FIRE_COOLDOWN_TICKS,
                            );
                        },
                        None => {
                            proof {
                                choice_is_none(aim, list@);
                            }
                        },
                    }
                }
            },
            None => {},
        }
        i += 1;
    }
    shots
}

/// A module that has fired does not fire again before its wait is over, whatever happens to its
/// vehicle in the meantime.
pub proof fn modules_rest_between_shots(
    volley: Volley,
    e: Entity,
    v: Vehicle,
    m: VehicleModuleInstance,
    health: Seq<(IVec3, u16)>,
    crew: VehicleCrew,
    data: VehicleData,
    filter: TargetingFilter,
    list: Seq<Candidate>,
    now: u64,
    later: u64,
    later_health: Seq<(IVec3, u16)>,
    hands: int,
)
    ensures
        ({
            let after = with_module_fire(volley, e, v, m, health, crew, data, filter, list, now);
            after.shots != volley.shots ==> {
                &&& data.module_spec(m.def) matches Some(def)
                &&& now + def.cooldown_ticks <= u64::MAX && later < now + def.cooldown_ticks
                    ==> !module_fit(e, m, def, later_health, hands, after.module_waits, later)
            }
        }),
{
}

/// A mount that has fired does not fire again before its wait is over.
pub proof fn mounts_rest_between_shots(
    volley: Volley,
    e: Entity,
    v: Vehicle,
    c: (IVec3, VehicleCell),
    health: Seq<(IVec3, u16)>,
    crew: VehicleCrew,
    data: VehicleData,
    filter: TargetingFilter,
    list: Seq<Candidate>,
    now: u64,
    later: u64,
    later_health: Seq<(IVec3, u16)>,
    hands: int,
)
    requires
        now + TURRET_FIRE_COOLDOWN_TICKS <= u64::MAX,
        later < now + TURRET_FIRE_COOLDOWN_TICKS,
    ensures
        ({
            let after = with_mount_fire(volley, e, v, c, health, crew, data, filter, list, now);
            after.shots != volley.shots ==> (data.part_spec(c.1.kind) matches Some(part)
                && !mount_fit(e, c.0, c.1, part, later_health, hands, after.cell_waits, later))
        }),
{
}

/// Every chosen target is hostile, stands, and is in sight.
pub proof fn shots_only_at_enemies(aim: Aim, list: Seq<Candidate>)
    ensures
        choice(aim, list) matches Some(c) ==> c.faction != aim.owner_faction && !c.wreck
            && c.in_sight && list.contains(c),
{
    if choice(aim, list) is Some {
        let i = choose|i: int| is_choice(aim, list, list.len() as int, i);
        assert(is_choice(aim, list, list.len() as int, i));
        assert(list[i] == choice(aim, list)->0);
    }
}

/// `d` is one step along quarter turn `q`: up, left, down, right.
pub open spec fn is_step(q: int, d: (int, int)) -> bool {
    &&& q == 0 ==> d == (0int, 1int)
    &&& q == 1 ==> d == (-1int, 0int)
    &&& q == 2 ==> d == (0int, -1int)
    &&& q == 3 ==> d == (1int, 0int)
}

/// A displacement lies in the quarter circle around quarter turn `q`.
pub open spec fn in_quarter(q: int, dx: int, dy: int) -> bool {
    &&& q == 0 ==> dy > 0 && -dy <= dx <= dy
    &&& q == 1 ==> dx < 0 && dx <= dy <= -dx
    &&& q == 2 ==> dy < 0 && dy <= dx <= -dy
    &&& q == 3 ==> dx > 0 && -dx <= dy <= dx
}

/// The arc of a heading is the quarter circle around it: a target straight ahead is in it, one
/// straight behind is not.
pub proof fn arcs_open_along_the_heading(heading: int, origin: (i32, i32), target: (i32, i32))
    requires
        0 <= heading,
    ensures
        is_step(heading % 4, (direction(heading).0 as int, direction(heading).1 as int)),
        in_front(direction(heading), origin, target) <==> in_quarter(
            heading % 4,
            target.0 - origin.0,
            target.1 - origin.1,
        ),
{
    let dx = target.0 - origin.0;
    let dy = target.1 - origin.1;
    let f = direction(heading);
    assert(dx * 0 == 0 && dy * 0 == 0);
    assert(dx * 1 == dx && dy * 1 == dy && dx * (-1) == -dx && dy * (-1) == -dy);
    if heading % 4 == 0 {
        assert(f == (0i32, 1i32));
    } else if heading % 4 == 1 {
        assert(f == (-1i32, 0i32));
    } else if heading % 4 == 2 {
        assert(f == (0i32, -1i32));
    } else {
        assert(f == (1i32, 0i32));
    }
}

/// A module of a vehicle may be aimed at a candidate: it is an enemy that stands, in sight, in
/// range, near the focus where there is one, and for a module with a front arc in the quarter
/// circle around the vehicle's heading and the module's own facing together.
pub open spec fn module_may_hit(
    v: Vehicle,
    m: VehicleModuleInstance,
    def: VehicleModuleDef,
    filter: TargetingFilter,
    c: Candidate,
) -> bool {
    let at = v.anchor_tile;
    &&& c.faction != v.owner_faction && !c.wreck && c.in_sight
    &&& -def.range <= c.indexed_tile.0 - at.0 <= def.range
    &&& -def.range <= c.indexed_tile.1 - at.1 <= def.range
    &&& filter.focus matches Some(f) ==> -filter.focus_radius <= c.tile.0 - f.0
        <= filter.focus_radius && -filter.focus_radius <= c.tile.1 - f.1 <= filter.focus_radius
    &&& def.firing_arc == FiringArc::Front90 ==> in_quarter(
        (v.heading + m.facing) % 4,
        c.tile.0 - at.0,
        c.tile.1 - at.1,
    )
}

proof fn module_arcs(
    v: Vehicle,
    m: VehicleModuleInstance,
    def: VehicleModuleDef,
    filter: TargetingFilter,
    c: Candidate,
)
    ensures
        eligible(module_aim(v, m, def, filter), c) <==> module_may_hit(v, m, def, filter, c),
{
    arcs_open_along_the_heading(v.heading + m.facing, v.anchor_tile, c.tile);
}

/// A module fires once at most, along the heading of its vehicle turned by its own facing, from
/// the tile one step that way, with its own damage, at a candidate that it may be aimed at; then
/// that module, and no other weapon, waits for its own cooldown. It fires whenever it has range
/// and damage, stands whole, has a hand for each gunner it asks for and one at least, does not
/// wait, and may be aimed at some candidate; otherwise it does not.
pub proof fn modules_fire_along_their_heading(
    volley: Volley,
    e: Entity,
    v: Vehicle,
    m: VehicleModuleInstance,
    health: Seq<(IVec3, u16)>,
    crew: VehicleCrew,
    data: VehicleData,
    filter: TargetingFilter,
    list: Seq<Candidate>,
    now: u64,
)
    requires
        i32::MIN < v.anchor_tile.0 < i32::MAX,
        i32::MIN < v.anchor_tile.1 < i32::MAX,
        data.module_spec(m.def) is Some,
        now + data.module_spec(m.def)->0.cooldown_ticks <= u64::MAX,
    ensures
        ({
            let def = data.module_spec(m.def)->0;
            let after = with_module_fire(volley, e, v, m, health, crew, data, filter, list, now);
            let hands = crew.gunners@.len() + crew.passengers@.len();
            let ready = def.range > 0 && def.damage > 0 && hands >= 1 && hands
                >= def.gunner_required && (forall|k: int|
                0 <= k < m.cells@.len() ==> health_at(health, #[trigger] m.cells@[k]) > 0) && (
            volley.module_waits.dom().contains((e.0, m.id.0)) ==> volley.module_waits[(
                e.0,
                m.id.0,
            )] <= now);
            let fires = ready && exists|i: int|
                0 <= i < list.len() && module_may_hit(v, m, def, filter, #[trigger] list[i]);
            &&& !fires ==> after == volley
            &&& fires ==> {
                &&& after.shots.len() == volley.shots.len() + 1
                &&& after.shots.drop_last() == volley.shots
                &&& after.shots.last().damage == def.damage
                &&& is_step(
                    (v.heading + m.facing) % 4,
                    (
                        after.shots.last().muzzle.0 - v.anchor_tile.0,
                        after.shots.last().muzzle.1 - v.anchor_tile.1,
                    ),
                )
                &&& exists|i: int|
                    0 <= i < list.len() && module_may_hit(v, m, def, filter, #[trigger] list[i])
                        && list[i].entity == after.shots.last().target && list[i].tile
                        == after.shots.last().dest_tile
                &&& after.cell_waits == volley.cell_waits
                &&& after.module_waits == volley.module_waits.insert(
                    (e.0, m.id.0),
                    (now + def.cooldown_ticks) as u64,
                )
            }
        }),
{
    let def = data.module_spec(m.def)->0;
    let aim = module_aim(v, m, def, filter);
    assert forall|i: int| 0 <= i < list.len() implies eligible(aim, #[trigger] list[i])
        == module_may_hit(v, m, def, filter, list[i]) by {
        module_arcs(v, m, def, filter, list[i]);
    }
    arcs_open_along_the_heading(v.heading + m.facing, v.anchor_tile, v.anchor_tile);
    let after = with_module_fire(volley, e, v, m, health, crew, data, filter, list, now);
    if exists|i: int| 0 <= i < list.len() && eligible(aim, #[trigger] list[i]) {
        some_choice(aim, list, list.len() as int);
        let i = choose|i: int| is_choice(aim, list, list.len() as int, i);
        choice_is(aim, list, i);
        assert(eligible(aim, list[i]));
    } else {
        choice_is_none(aim, list);
    }
    if after.shots.len() > volley.shots.len() {
        assert(after.shots.drop_last() =~= volley.shots);
    }
}

/// Where somebody is eligible, somebody is chosen.
proof fn some_choice(aim: Aim, list: Seq<Candidate>, n: int)
    requires
        0 <= n <= list.len(),
        exists|i: int| 0 <= i < n && eligible(aim, #[trigger] list[i]),
    ensures
        exists|i: int| is_choice(aim, list, n, i),
    decreases n,
{
    if exists|i: int| 0 <= i < n - 1 && eligible(aim, #[trigger] list[i]) {
        let m = n - 1;
        some_choice(aim, list, m);
        let b = choose|i: int| is_choice(aim, list, m, i);
        if eligible(aim, list[n - 1]) && ahead_of(rank(aim, list[n - 1]), rank(aim, list[b])) {
            assert forall|j: int| 0 <= j < n - 1 && eligible(aim, #[trigger] list[j]) implies ahead_of(
                rank(aim, list[n - 1]),
                rank(aim, list[j]),
            ) by {}
            assert(is_choice(aim, list, n, n - 1));
        } else {
            assert(is_choice(aim, list, n, b));
        }
    } else {
        assert(is_choice(aim, list, n, n - 1));
    }
}

/// A turret or mount may be aimed at a candidate, whatever way the vehicle faces: it is an enemy
/// that stands, in sight, in range, and near the focus where there is one.
pub open spec fn mount_may_hit(
    v: Vehicle,
    part: PartDef,
    filter: TargetingFilter,
    c: Candidate,
) -> bool {
    let at = v.anchor_tile;
    let reach = part.mounted_weapon_range as int;
    &&& c.faction != v.owner_faction && !c.wreck && c.in_sight
    &&& -reach <= c.indexed_tile.0 - at.0 <= reach
    &&& -reach <= c.indexed_tile.1 - at.1 <= reach
    &&& filter.focus matches Some(f) ==> -filter.focus_radius <= c.tile.0 - f.0
        <= filter.focus_radius && -filter.focus_radius <= c.tile.1 - f.1 <= filter.focus_radius
}

/// A turret or weapon mount outside any module fires once at most, from the anchor tile, with its
/// part's damage; then that mount, and no other weapon, waits forty ticks. It fires whenever its
/// part has range and damage, it stands, a gunner or passenger is aboard, it does not wait, and it
/// may be aimed at some candidate; otherwise it does not.
pub proof fn mounts_fire_all_round(
    volley: Volley,
    e: Entity,
    v: Vehicle,
    c: (IVec3, VehicleCell),
    health: Seq<(IVec3, u16)>,
    crew: VehicleCrew,
    data: VehicleData,
    filter: TargetingFilter,
    list: Seq<Candidate>,
    now: u64,
)
    requires
        data.part_spec(c.1.kind) is Some,
        now + 40 <= u64::MAX,
    ensures
        ({
            let part = data.part_spec(c.1.kind)->0;
            let key = (e.0, c.0.x, c.0.y, c.0.z);
            let after = with_mount_fire(volley, e, v, c, health, crew, data, filter, list, now);
            let ready = (c.1.kind == VehiclePartKind::Turret || c.1.kind
                == VehiclePartKind::WeaponMount) && c.1.module_id is None
                && part.mounted_weapon_range > 0 && part.mounted_weapon_damage > 0 && (
            crew.gunners@.len() > 0 || crew.passengers@.len() > 0) && health_at(health, c.0) > 0
                && (volley.cell_waits.dom().contains(key) ==> volley.cell_waits[key] <= now);
            let fires = ready && exists|i: int|
                0 <= i < list.len() && mount_may_hit(v, part, filter, #[trigger] list[i]);
            &&& !fires ==> after == volley
            &&& fires ==> {
                &&& after.shots.len() == volley.shots.len() + 1
                &&& after.shots.drop_last() == volley.shots
                &&& after.shots.last().damage == part.mounted_weapon_damage
                &&& after.shots.last().muzzle == v.anchor_tile
                &&& exists|i: int|
                    0 <= i < list.len() && mount_may_hit(v, part, filter, #[trigger] list[i])
                        && list[i].entity == after.shots.last().target && list[i].tile
                        == after.shots.last().dest_tile
                &&& after.module_waits == volley.module_waits
                &&& after.cell_waits == volley.cell_waits.insert(key, (now + 40) as u64)
            }
        }),
{
    let part = data.part_spec(c.1.kind)->0;
    let aim = mount_aim(v, part, filter);
    assert forall|i: int| 0 <= i < list.len() implies eligible(aim, #[trigger] list[i])
        == mount_may_hit(v, part, filter, list[i]) by {}
    let after = with_mount_fire(volley, e, v, c, health, crew, data, filter, list, now);
    if exists|i: int| 0 <= i < list.len() && eligible(aim, #[trigger] list[i]) {
        some_choice(aim, list, list.len() as int);
        let i = choose|i: int| is_choice(aim, list, list.len() as int, i);
        choice_is(aim, list, i);
        assert(eligible(aim, list[i]));
    } else {
        choice_is_none(aim, list);
    }
    if after.shots.len() > volley.shots.len() {
        assert(after.shots.drop_last() =~= volley.shots);
    }
}

/// Of all that a weapon may shoot at it takes the nearest to the focus, and of those, or without a
/// focus, the nearest to itself.
pub proof fn the_nearest_enemy_is_taken(aim: Aim, list: Seq<Candidate>, j: int)
    requires
        0 <= j < list.len(),
        eligible(aim, list[j]),
    ensures
        choice(aim, list) is Some,
        ({
            let c = choice(aim, list)->0;
            match aim.filter.focus {
                Some(f) => {
                    ||| tile_distance(c.tile, f) < tile_distance(list[j].tile, f)
                    ||| tile_distance(c.tile, f) == tile_distance(list[j].tile, f)
                        && tile_distance(c.tile, aim.origin) <= tile_distance(
                        list[j].tile,
                        aim.origin,
                    )
                },
                None => tile_distance(c.tile, aim.origin) <= tile_distance(
                    list[j].tile,
                    aim.origin,
                ),
            }
        }),
{
    some_choice(aim, list, list.len() as int);
    let i = choose|i: int| is_choice(aim, list, list.len() as int, i);
    choice_is(aim, list, i);
    assert(eligible(aim, list[i]) && eligible(aim, list[j]));
}

/// `b` is `a` after a quarter turn counter-clockwise about `centre`.
pub open spec fn is_turned(centre: (i32, i32), a: (i32, i32), b: (i32, i32)) -> bool {
    &&& b.0 - centre.0 == -(a.1 - centre.1)
    &&& b.1 - centre.1 == a.0 - centre.0
}

/// The candidates of `b` are those of `a` after a quarter turn about `centre`.
pub open spec fn all_turned(centre: (i32, i32), a: Seq<Candidate>, b: Seq<Candidate>) -> bool {
    &&& a.len() == b.len()
    &&& forall|i: int|
        0 <= i < a.len() ==> {
            let p = #[trigger] a[i];
            let q = b[i];
            &&& is_turned(centre, p.tile, q.tile)
            &&& is_turned(centre, p.indexed_tile, q.indexed_tile)
            &&& q.entity == p.entity && q.faction == p.faction
            &&& q.wreck == p.wreck && q.in_sight == p.in_sight
        }
}

/// The filter `b` is `a` after a quarter turn about `centre`.
pub open spec fn filter_turned(
    centre: (i32, i32),
    a: TargetingFilter,
    b: TargetingFilter,
) -> bool {
    &&& a.focus_radius == b.focus_radius
    &&& match (a.focus, b.focus) {
        (Some(f), Some(g)) => is_turned(centre, f, g),
        (None, None) => true,
        _ => false,
    }
}

/// The volley `b` is `a` with every shot turned by a quarter about `centre`.
pub open spec fn volley_turned(centre: (i32, i32), a: Volley, b: Volley) -> bool {
    &&& a.module_waits == b.module_waits
    &&& a.cell_waits == b.cell_waits
    &&& a.shots.len() == b.shots.len()
    &&& forall|i: int|
        0 <= i < a.shots.len() ==> {
            let p = #[trigger] a.shots[i];
            let q = b.shots[i];
            &&& q.target == p.target && q.damage == p.damage
            &&& is_turned(centre, p.muzzle, q.muzzle)
            &&& is_turned(centre, p.dest_tile, q.dest_tile)
        }
}

/// Turning a vehicle and everything around it by a quarter turns what a module of it does: the
/// same target is hit, from the turned tile.
pub proof fn modules_turn_with_the_vehicle(
    a: Volley,
    b: Volley,
    e: Entity,
    v: Vehicle,
    w: Vehicle,
    m: VehicleModuleInstance,
    health: Seq<(IVec3, u16)>,
    crew: VehicleCrew,
    data: VehicleData,
    filter: TargetingFilter,
    turned_filter: TargetingFilter,
    list: Seq<Candidate>,
    turned_list: Seq<Candidate>,
    now: u64,
)
    requires
        i32::MIN < v.anchor_tile.0 < i32::MAX,
        i32::MIN < v.anchor_tile.1 < i32::MAX,
        w == (Vehicle { heading: w.heading, ..v }),
        w.heading % 4 == (v.heading + 1) % 4,
        filter_turned(v.anchor_tile, filter, turned_filter),
        all_turned(v.anchor_tile, list, turned_list),
        volley_turned(v.anchor_tile, a, b),
    ensures
        volley_turned(
            v.anchor_tile,
            with_module_fire(a, e, v, m, health, crew, data, filter, list, now),
            with_module_fire(
                b,
                e,
                w,
                m,
                health,
                crew,
                data,
                turned_filter,
                turned_list,
                now,
            ),
        ),
{
    if data.module_spec(m.def) is Some {
        let def = data.module_spec(m.def)->0;
        let p = module_aim(v, m, def, filter);
        let q = module_aim(w, m, def, turned_filter);
        assert((w.heading + m.facing) % 4 == (v.heading + m.facing + 1) % 4);
        assert forall|i: int| 0 <= i < list.len() implies eligible(p, #[trigger] list[i])
            == eligible(q, turned_list[i]) && rank(p, list[i]) == rank(q, turned_list[i]) by {
            module_arcs(v, m, def, filter, list[i]);
            module_arcs(w, m, def, turned_filter, turned_list[i]);
        }
        arcs_open_along_the_heading(v.heading + m.facing, v.anchor_tile, v.anchor_tile);
        arcs_open_along_the_heading(w.heading + m.facing, v.anchor_tile, v.anchor_tile);
        same_choice(p, q, list, turned_list);
    }
}

/// Two weapons that rank two lists alike choose at the same place.
proof fn same_choice(p: Aim, q: Aim, a: Seq<Candidate>, b: Seq<Candidate>)
    requires
        a.len() == b.len(),
        forall|i: int|
            0 <= i < a.len() ==> eligible(p, #[trigger] a[i]) == eligible(q, b[i]) && rank(p, a[i])
                == rank(q, b[i]),
    ensures
        choice(p, a) is Some == choice(q, b) is Some,
        choice(p, a) is Some ==> exists|i: int|
            0 <= i < a.len() && choice(p, a) == Some(#[trigger] a[i]) && choice(q, b) == Some(b[i]),
{
    let n = a.len() as int;
    if exists|i: int| is_choice(p, a, n, i) {
        let i = choose|i: int| is_choice(p, a, n, i);
        assert(eligible(p, a[i]));
        assert forall|j: int| 0 <= j < n && eligible(q, #[trigger] b[j]) implies eligible(p, a[j]) by {}
        assert(is_choice(q, b, n, i));
        choice_is(p, a, i);
        choice_is(q, b, i);
    } else if exists|i: int| is_choice(q, b, n, i) {
        let i = choose|i: int| is_choice(q, b, n, i);
        assert(eligible(q, b[i]));
        assert(eligible(p, a[i]));
        assert forall|j: int| 0 <= j < n && eligible(p, #[trigger] a[j]) implies eligible(q, b[j]) by {}
        assert(is_choice(p, a, n, i));
    }
}

/// Turning a vehicle and everything around it by a quarter turns what its modules do together.
pub proof fn volleys_turn_with_the_vehicle(
    a: Volley,
    b: Volley,
    e: Entity,
    v: Vehicle,
    w: Vehicle,
    modules: Seq<VehicleModuleInstance>,
    health: Seq<(IVec3, u16)>,
    crew: VehicleCrew,
    data: VehicleData,
    filter: TargetingFilter,
    turned_filter: TargetingFilter,
    list: Seq<Candidate>,
    turned_list: Seq<Candidate>,
    now: u64,
    n: int,
)
    requires
        i32::MIN < v.anchor_tile.0 < i32::MAX,
        i32::MIN < v.anchor_tile.1 < i32::MAX,
        w == (Vehicle { heading: w.heading, ..v }),
        w.heading % 4 == (v.heading + 1) % 4,
        filter_turned(v.anchor_tile, filter, turned_filter),
        all_turned(v.anchor_tile, list, turned_list),
        volley_turned(v.anchor_tile, a, b),
    ensures
        volley_turned(
            v.anchor_tile,
            module_volley(a, e, v, modules, health, crew, data, filter, list, now, n),
            module_volley(
                b,
                e,
                w,
                modules,
                health,
                crew,
                data,
                turned_filter,
                turned_list,
                now,
                n,
            ),
        ),
    decreases n,
{
    if n > 0 {
        volleys_turn_with_the_vehicle(
            a,
            b,
            e,
            v,
            w,
            modules,
            health,
            crew,
            data,
            filter,
            turned_filter,
            list,
            turned_list,
            now,
            n - 1,
        );
        modules_turn_with_the_vehicle(
            module_volley(a, e, v, modules, health, crew, data, filter, list, now, n - 1),
            module_volley(
                b,
                e,
                w,
                modules,
                health,
                crew,
                data,
                turned_filter,
                turned_list,
                now,
                n - 1,
            ),
            e,
            v,
            w,
            modules[n - 1],
            health,
            crew,
            data,
            filter,
            turned_filter,
            list,
            turned_list,
            now,
        );
    }
}

/// A fire order narrows the aim to the tiles within three of its own while it stands; once it has
/// run out, or without one, every tile will do.
pub proof fn fire_orders_narrow_the_aim(
    order: Option<VehicleFireOrder>,
    now: u64,
    tile: (i32, i32),
)
    ensures
        order_filter(order, now).admits(tile) <==> (order matches Some(o) ==> now
            >= o.expires_tick || (-3 <= tile.0 - o.target_tile.0 <= 3 && -3 <= tile.1
            - o.target_tile.1 <= 3)),
        order_filter(order, now).focus is Some <==> (order matches Some(o) && now < o.expires_tick),
{
}

/// A vehicle is manned as soon as somebody is aboard, in whatever seat; its weapons are served by
/// gunners and passengers, not by the driver.
pub proof fn drivers_do_not_serve_weapons(crew: VehicleCrew)
    ensures
        manned(crew) <==> crew.driver is Some || crew.passengers@.len() > 0 || crew.gunners@.len()
            > 0,
        operators(crew) == crew.passengers@.len() + crew.gunners@.len(),
        crew.passengers@.len() == 0 && crew.gunners@.len() == 0 ==> operators(crew) == 0,
{
}

} // verus!
