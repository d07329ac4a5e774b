//! A vehicle on its route: the poses it passes, and what happens when it tips over.

use vstd::prelude::*;
use crate::combat::{piles, spill};
use crate::haul::{repark_vehicle, reparked};
use crate::inventory::VehicleInventory;
use crate::geometry::abs;
use crate::parts::{Entity, ResourceId, VehicleState};
use crate::rings::{moved, room_around, square_offset, Walk};
use crate::seqs::{distinct, find, find_is_first, find_is_none};
use crate::terrain::TerrainWindow;
use crate::vehicle::{
    aboard, eject_all_crew, riders_of, riding, Vehicle, VehicleCrew, VehicleDraft, VehicleNode,
    VehiclePathFollow,
};

verus! {

/// Health that a fall costs for each level of the vehicle's height.
pub const ROLLOVER_FALL_DAMAGE_PER_Z: u8 = 8;

/// Ticks between two searches for lost haulers.
pub const VEHICLE_RECOVERY_CADENCE: u64 = 60;

/// What a vehicle with a route does now.
#[derive(Clone, Copy, Debug, PartialEq, Eq, Structural)]
pub enum RouteStep {
    /// Stand still.
    Hold,
    /// The route is done: drop it and park.
    Arrived,
    /// Nobody knows how the vehicle is built: drop the route.
    DropRoute,
    /// Make for this pose.
    Head(VehicleNode),
}

/// What a vehicle with a route does now.
pub open spec fn route_step_spec(
    v: Vehicle,
    follow: VehiclePathFollow,
    driver_dormant: bool,
    design_known: bool,
) -> RouteStep {
    if v.state == VehicleState::Overturned || (v.hauler is Some && driver_dormant) {
        RouteStep::Hold
    } else if follow.cursor >= follow.path@.len() {
        RouteStep::Arrived
    } else if !design_known {
        RouteStep::DropRoute
    } else {
        RouteStep::Head(follow.path@[follow.cursor as int])
    }
}

/// Decides what a vehicle with a route does now.
pub fn route_step(
    v: &Vehicle,
    follow: &VehiclePathFollow,
    driver_dormant: bool,
    design_known: bool,
) -> (s: RouteStep)
    ensures
        s == route_step_spec(*v, *follow, driver_dormant, design_known),
{
    if v.state == VehicleState::Overturned {
        return RouteStep::Hold;
    }
    if v.hauler.is_some() && driver_dormant {
        return RouteStep::Hold;
    }
    if follow.cursor >= follow.path.len() {
        return RouteStep::Arrived;
    }
    if !design_known {
        return RouteStep::DropRoute;
    }
    RouteStep::Head(follow.path[follow.cursor])
}

/// What disturbed a vehicle on one step.
#[derive(Clone, Copy, Debug, PartialEq, Eq, Structural)]
pub struct StepJolt {
    pub turned: bool,
    /// Levels climbed or descended.
    pub z_slope: u32,
    pub rough_terrain: bool,
    pub overloaded: bool,
}

/// The vehicle at a pose.
pub open spec fn posed(v: Vehicle, n: VehicleNode) -> Vehicle {
    Vehicle { anchor_tile: (n.x, n.y), heading: n.heading, z: n.z, ..v }
}

/// The pose before the one a route heads for.
pub open spec fn pose_before(follow: VehiclePathFollow) -> VehicleNode {
    if follow.cursor == 0 {
        follow.path@[0]
    } else {
        follow.path@[follow.cursor - 1]
    }
}

/// A vehicle reaches the pose it heads for: it takes the pose, the route moves on, and the step's
/// disturbances are returned.
pub fn reach_pose(
    v: &mut Vehicle,
    follow: &mut VehiclePathFollow,
    terrain: &TerrainWindow,
    cargo_g: u32,
    max_payload_g: u32,
) -> (jolt: StepJolt)
    requires
        terrain.wf(),
        old(follow).cursor < old(follow).path@.len(),
    ensures
        ({
            let node = old(follow).path@[old(follow).cursor as int];
            let prev = pose_before(*old(follow));
            &&& *final(v) == posed(*old(v), node)
            &&& final(follow).path@ == old(follow).path@
            &&& final(follow).cursor == old(follow).cursor + 1
            &&& jolt.turned == (node.heading != prev.heading)
            &&& jolt.z_slope == abs(node.z - prev.z)
            &&& jolt.rough_terrain == (terrain.kind(node.x as int, node.y as int) matches Some(k)
                && k.rough())
            &&& jolt.overloaded == (cargo_g > max_payload_g)
        }),
{
    let node = follow.path[follow.cursor];
    let prev = if follow.cursor == 0 {
        follow.path[0]
    } else {
        follow.path[follow.cursor - 1]
    };
    let dz: i32 = node.z as i32 - prev.z as i32;
    let z_slope: u32 = if dz < 0 {
        (-dz) as u32
    } else {
        dz as u32
    };
    let rough_terrain: bool = match terrain.tile_kind_at(node.x, node.y) {
        Some(k) => k.is_rough(),
        None => false,
    };
    v.anchor_tile = (node.x, node.y);
    v.heading = node.heading;
    v.z = node.z;
    let poses: usize = follow.path.len();
    assert(follow.cursor < poses);
    follow.cursor = follow.cursor + 1;
    StepJolt {
        turned: node.heading != prev.heading,
        z_slope,
        rough_terrain,
        overloaded: cargo_g > max_payload_g,
    }
}

/// A route followed to its end leaves the vehicle at its last pose.
pub proof fn routes_end_at_their_last_pose(v: Vehicle, path: Seq<VehicleNode>, n: int)
    requires
        1 <= n <= path.len(),
    ensures
        travelled(v, path, n) == posed(v, path[n - 1]),
    decreases n,
{
    if n > 1 {
        routes_end_at_their_last_pose(v, path, n - 1);
    }
    reveal_with_fuel(travelled, 2);
}

/// A vehicle after the first `n` poses of a path.
pub open spec fn travelled(v: Vehicle, path: Seq<VehicleNode>, n: int) -> Vehicle
    decreases n,
{
    if n <= 0 {
        v
    } else {
        posed(travelled(v, path, n - 1), path[n - 1])
    }
}

/// The nine tiles around and under a place, row by row.
pub open spec fn close_by(t: (i32, i32)) -> Seq<(i32, i32)> {
    Seq::new(9, |k: int| moved(t, square_offset(1, Walk::Rows, k)))
}

/// A thrown driver can land on a tile.
pub open spec fn soft_landing(terrain: TerrainWindow) -> spec_fn((i32, i32)) -> bool {
    |t: (i32, i32)|
        match terrain.tile(t.0 as int, t.1 as int) {
            Some(i) => terrain.passable(t.0 as int, t.1 as int, i.surface_z as int),
            None => false,
        }
}

/// Where a thrown driver lands: the first suitable tile, else the vehicle's own.
pub open spec fn thrown_to(terrain: TerrainWindow, anchor: (i32, i32)) -> (i32, i32) {
    match find(close_by(anchor), soft_landing(terrain)) {
        Some(t) => t,
        None => anchor,
    }
}

/// Where a thrown driver lands.
pub fn throw_landing(terrain: &TerrainWindow, anchor: (i32, i32)) -> (t: (i32, i32))
    requires
        terrain.wf(),
        room_around(anchor, 1),
    ensures
        t == thrown_to(*terrain, anchor),
{
    let ghost all = close_by(anchor);
    let ghost p = soft_landing(*terrain);
    let mut k: i32 = 0;
    while k < 9
        invariant
            0 <= k <= 9,
            terrain.wf(),
            room_around(anchor, 1),
            all == close_by(anchor),
            p == soft_landing(*terrain),
            forall|j: int| 0 <= j < k ==> !p(#[trigger] all[j]),
        decreases 9 - k,
    {
        let dx: i32 = k % 3 - 1;
        let dy: i32 = k / 3 - 1;
        let t: (i32, i32) = (anchor.0 + dx, anchor.1 + dy);
        assert(all[k as int] == t);
        match terrain.at(t.0, t.1) {
            Some(i) => {
                if terrain.passable_at(t.0, t.1, i.surface_z) {
                    proof {
                        find_is_first(all, p, k as int);
                    }
                    return t;
                }
            },
            None => {},
        }
        assert(!p(all[k as int]));
        k += 1;
    }
    proof {
        find_is_none(all, p);
    }
    anchor
}

/// What an overturned vehicle leaves behind.
#[derive(Debug)]
pub struct Rollover {
    /// The driver who is thrown, and where to.
    pub thrown: Option<(Entity, (i32, i32))>,
    /// Health that the fall costs.
    pub fall_damage: u8,
    /// Whom it costs that: everybody who was aboard, each once.
    pub hurt: Vec<Entity>,
    pub spilled: Vec<(ResourceId, u32)>,
    pub released: Vec<Entity>,
    pub riders: Vec<Entity>,
}

/// The cost of a fall from a vehicle.
pub open spec fn fall_from(height_z: u8) -> int {
    if height_z * ROLLOVER_FALL_DAMAGE_PER_Z > 255 {
        255
    } else {
        height_z * ROLLOVER_FALL_DAMAGE_PER_Z
    }
}

/// A vehicle tips over: its driver is thrown, its cargo spilled, its team released and its crew
/// put out; the fall hurts everybody aboard. One that lies on its side already stays as it is.
pub fn overturn(
    v: &mut Vehicle,
    inv: &mut VehicleInventory,
    draft: &mut VehicleDraft,
    crew: &mut VehicleCrew,
    height_z: u8,
    terrain: &TerrainWindow,
) -> (r: Option<Rollover>)
    requires
        terrain.wf(),
        room_around(old(v).anchor_tile, 1),
    ensures
        match r {
            None => {
                &&& old(v).state == VehicleState::Overturned
                &&& *final(v) == *old(v)
                &&& *final(inv) == *old(inv)
                &&& *final(draft) == *old(draft)
                &&& *final(crew) == *old(crew)
            },
            Some(o) => {
                &&& old(v).state != VehicleState::Overturned
                &&& *final(v) == (Vehicle {
                    state: VehicleState::Overturned,
                    hauler: None,
                    ..*old(v)
                })
                &&& o.thrown == match old(v).hauler {
                    Some(h) => Some((h, thrown_to(*terrain, old(v).anchor_tile))),
                    None => None,
                }
                &&& o.fall_damage == fall_from(height_z)
                &&& o.hurt@ == distinct(riding(old(v).hauler, *old(crew)))
                &&& o.spilled@ == piles(old(inv).items@)
                &&& final(inv).items@.len() == 0
                &&& o.released@ == old(draft).hitched@
                &&& final(draft).hitched@.len() == 0
                &&& final(draft).required_animals == old(draft).required_animals
                &&& o.riders@ == aboard(*old(crew))
                &&& final(crew).driver is None
                &&& final(crew).passengers@.len() == 0
                &&& final(crew).gunners@.len() == 0
            },
        },
{
    if v.state == VehicleState::Overturned {
        return None;
    }
    let hurt = riders_of(v, crew);
    v.state = VehicleState::Overturned;
    let thrown: Option<(Entity, (i32, i32))> = match v.hauler {
        Some(h) => Some((h, throw_landing(terrain, v.anchor_tile))),
        None => None,
    };
    v.hauler = None;
    let spilled = spill(inv);
    let released = repark_vehicle(v, draft);
    let riders = eject_all_crew(crew);
    let wide: u16 = height_z as u16 * ROLLOVER_FALL_DAMAGE_PER_Z as u16;
    let fall_damage: u8 = if wide > 255 {
        255
    } else {
        wide as u8
    };
    Some(Rollover { thrown, fall_damage, hurt, spilled, released, riders })
}

/// Takes a vehicle out of a haul whose worker is lost: dead, or neither hauling nor aboard. The
/// search runs now and then.
pub fn recover_haul(
    tick: u64,
    v: &mut Vehicle,
    draft: &mut VehicleDraft,
    hauler_at_work: bool,
) -> (released: Option<Vec<Entity>>)
    ensures
        ({
            let lost = tick % VEHICLE_RECOVERY_CADENCE == 0 && old(v).hauler is Some
                && !hauler_at_work;
            match released {
                Some(list) => {
                    &&& lost
                    &&& *final(v) == reparked(*old(v))
                    &&& list@ == old(draft).hitched@
                    &&& final(draft).hitched@.len() == 0
                    &&& final(draft).required_animals == old(draft).required_animals
                },
                None => !lost && *final(v) == *old(v) && *final(draft) == *old(draft),
            }
        }),
{
    if tick % VEHICLE_RECOVERY_CADENCE != 0 || v.hauler.is_none() || hauler_at_work {
        return None;
    }
    Some(repark_vehicle(v, draft))
}

/// A vehicle with a route stands still exactly while it lies on its side or its driver sleeps; it
/// has arrived when no pose is left; else it makes for the next pose, if its design is known.
pub proof fn routes_are_followed_pose_by_pose(
    v: Vehicle,
    follow: VehiclePathFollow,
    driver_dormant: bool,
    design_known: bool,
)
    ensures
        ({
            let s = route_step_spec(v, follow, driver_dormant, design_known);
            let left = follow.path@.len() - follow.cursor;
            &&& s is Hold <==> v.state == VehicleState::Overturned || (v.hauler is Some
                && driver_dormant)
            &&& s is Arrived ==> left <= 0
            &&& !(s is Hold) && left <= 0 ==> s is Arrived
            &&& s is DropRoute <==> !(s is Hold) && left > 0 && !design_known
            &&& s is Head ==> design_known && left > 0
            &&& s matches RouteStep::Head(n) ==> n == follow.path@.skip(follow.cursor as int)[0]
        }),
{
}

/// A vehicle that takes a pose stands on its tile, at its level, facing its way; whose it is, what
/// it is and who hauls it stay.
pub proof fn poses_move_the_vehicle(v: Vehicle, n: VehicleNode)
    ensures
        ({
            let w = posed(v, n);
            &&& w.anchor_tile.0 == n.x && w.anchor_tile.1 == n.y && w.z == n.z && w.heading
                == n.heading
            &&& w.owner_faction == v.owner_faction && w.design_id == v.design_id && w.purpose
                == v.purpose && w.state == v.state && w.hauler == v.hauler
        }),
{
}

/// Between two poses of a route the disturbance is measured from the pose just left; the first
/// pose disturbs nothing.
pub proof fn jolts_are_measured_from_the_last_pose(follow: VehiclePathFollow)
    requires
        follow.cursor < follow.path@.len(),
    ensures
        follow.cursor == 0 ==> pose_before(follow) == follow.path@[follow.cursor as int],
        follow.cursor > 0 ==> pose_before(follow) == follow.path@.take(follow.cursor as int).last(),
{
}

/// A fall costs eight for each level, and 255 at most.
pub proof fn falls_cost_more_from_higher(height_z: u8)
    ensures
        height_z <= 31 ==> fall_from(height_z) == 8 * height_z,
        height_z >= 32 ==> fall_from(height_z) == 255,
        height_z < 255 ==> fall_from(height_z) <= fall_from((height_z + 1) as u8),
{
}

/// A thrown driver lands on the vehicle's tile or one that touches it; on one that can be stood on
/// at ground level, if any of these can.
pub proof fn the_thrown_land_close_by(terrain: TerrainWindow, anchor: (i32, i32), t: (i32, i32))
    requires
        room_around(anchor, 1),
        -1 <= t.0 - anchor.0 <= 1,
        -1 <= t.1 - anchor.1 <= 1,
    ensures
        ({
            let l = thrown_to(terrain, anchor);
            &&& -1 <= l.0 - anchor.0 <= 1
            &&& -1 <= l.1 - anchor.1 <= 1
            &&& terrain.tile(t.0 as int, t.1 as int) is Some && terrain.passable(
                t.0 as int,
                t.1 as int,
                (terrain.tile(t.0 as int, t.1 as int)->0).surface_z as int,
            ) ==> terrain.tile(l.0 as int, l.1 as int) is Some && terrain.passable(
                l.0 as int,
                l.1 as int,
                (terrain.tile(l.0 as int, l.1 as int)->0).surface_z as int,
            )
        }),
{
    let all = close_by(anchor);
    let p = soft_landing(terrain);
    find_is_none(all, p);
    let k = 3 * (t.1 - anchor.1 + 1) + (t.0 - anchor.0 + 1);
    assert(k % 3 == t.0 - anchor.0 + 1 && k / 3 == t.1 - anchor.1 + 1);
    assert(square_offset(1, Walk::Rows, k) == ((t.0 - anchor.0) as i32, (t.1 - anchor.1) as i32));
    assert(all[k] == t);
    if find(all, p) is Some {
        let l = find(all, p)->0;
        let j = choose|j: int| 0 <= j < all.len() && all[j] == l;
        let o = square_offset(1, Walk::Rows, j);
        assert(-1 <= j % 3 - 1 <= 1 && -1 <= j / 3 - 1 <= 1);
        assert(o.0 == j % 3 - 1 && o.1 == j / 3 - 1);
    }
}

/// Vehicles whose haulers are gone are looked for every sixty ticks and at no other time.
pub proof fn haulers_are_missed_every_sixty_ticks(tick: u64)
    ensures
        tick % VEHICLE_RECOVERY_CADENCE == 0 <==> tick % 60 == 0,
{
}

} // verus!
