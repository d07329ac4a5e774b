//! Driving by hand, choosing goals for a route, and finding a place for a new vehicle.

use vstd::prelude::*;
use crate::assembly::VehicleYard;
use crate::design::VehicleDesign;
use crate::footprint::{cover_fits, footprint_ready};
use crate::geometry::tile_distance;
use crate::occupancy::{around, is_stance_open, stance_open, VehicleOccupancyIndex};
use crate::parts::Entity;
use crate::rings::{rings, rings_between, rings_go_outward, rings_hold, room_around, Walk};
use crate::seqs::collect;
use crate::sorting::{order_by_keys, order_of, ordering_is_stable, Key};
use crate::terrain::TerrainWindow;
use crate::turret::{direction, heading_vec};
use crate::vehicle::{holds_entity, Vehicle, VehicleNode, VehiclePathFollow};

verus! {

/// One step of a vehicle driven by hand.
#[derive(Clone, Copy, Debug, PartialEq, Eq, Structural)]
pub enum ManualIntent {
    Forward,
    ForwardLeft,
    ForwardRight,
    TurnCCW,
    TurnCW,
}

/// The pose of a vehicle.
pub open spec fn pose(v: Vehicle) -> VehicleNode {
    VehicleNode {
        x: v.anchor_tile.0,
        y: v.anchor_tile.1,
        z: v.z,
        heading: (v.heading % 4) as u8,
    }
}

/// The pose after a step. A heading turns in place; a move keeps the heading.
pub open spec fn stepped(p: VehicleNode, intent: ManualIntent) -> VehicleNode {
    let h = p.heading as int;
    let fwd = direction(h);
    let left = direction(h + 1);
    let right = direction(h + 3);
    match intent {
        ManualIntent::TurnCCW => VehicleNode { heading: ((h + 1) % 4) as u8, ..p },
        ManualIntent::TurnCW => VehicleNode { heading: ((h + 3) % 4) as u8, ..p },
        ManualIntent::Forward => VehicleNode {
            x: (p.x + fwd.0) as i32,
            y: (p.y + fwd.1) as i32,
            ..p
        },
        ManualIntent::ForwardLeft => VehicleNode {
            x: (p.x + fwd.0 + left.0) as i32,
            y: (p.y + fwd.1 + left.1) as i32,
            ..p
        },
        ManualIntent::ForwardRight => VehicleNode {
            x: (p.x + fwd.0 + right.0) as i32,
            y: (p.y + fwd.1 + right.1) as i32,
            ..p
        },
    }
}

/// The two poses of a step by hand, or nothing where the vehicle cannot stand at its end.
pub fn plan_manual_step(
    vehicle: &Vehicle,
    design: &VehicleDesign,
    intent: ManualIntent,
    terrain: &TerrainWindow,
    occupancy: &VehicleOccupancyIndex,
    self_e: Entity,
) -> (r: Option<Vec<VehicleNode>>)
    requires
        terrain.wf(),
        footprint_ready(design.grid.cells@),
        room_around(vehicle.anchor_tile, 1),
        ({
            let end = stepped(pose(*vehicle), intent);
            cover_fits(design.grid.cells@, (end.x, end.y), end.heading as int)
        }),
    ensures
        ({
            let start = pose(*vehicle);
            let end = stepped(start, intent);
            let open = stance_open(
                design.grid.cells@,
                *terrain,
                occupancy.at(),
                Some(self_e),
                (end.x, end.y),
                end.z as int,
                end.heading as int,
            );
            match r {
                Some(path) => open && path@ == seq![start, end],
                None => !open,
            }
        }),
{
    let h: u8 = vehicle.heading % 4;
    let fwd: (i32, i32) = heading_vec(h);
    let left: (i32, i32) = heading_vec(h + 1);
    let right: (i32, i32) = heading_vec(h + 3);
    let start = VehicleNode {
        x: vehicle.anchor_tile.0,
        y: vehicle.anchor_tile.1,
        z: vehicle.z,
        heading: h,
    };
    let end = match intent {
        ManualIntent::TurnCCW => VehicleNode {
            x: start.x,
            y: start.y,
            z: start.z,
            heading: (h + 1) % 4,
        },
        ManualIntent::TurnCW => VehicleNode {
            x: start.x,
            y: start.y,
            z: start.z,
            heading: (h + 3) % 4,
        },
        ManualIntent::Forward => VehicleNode {
            x: start.x + fwd.0,
            y: start.y + fwd.1,
            z: start.z,
            heading: h,
        },
        ManualIntent::ForwardLeft => VehicleNode {
            x: start.x + (fwd.0 + left.0),
            y: start.y + (fwd.1 + left.1),
            z: start.z,
            heading: h,
        },
        ManualIntent::ForwardRight => VehicleNode {
            x: start.x + (fwd.0 + right.0),
            y: start.y + (fwd.1 + right.1),
            z: start.z,
            heading: h,
        },
    };
    if !is_stance_open(
        design,
        terrain,
        occupancy,
        Some(self_e),
        (end.x, end.y),
        end.z,
        end.heading,
    ) {
        return None;
    }
    let mut path: Vec<VehicleNode> = Vec::new();
    path.push(start);
    path.push(end);
    assert(path@ =~= seq![start, end]);
    Some(path)
}

/// Turning one way and then the other restores the pose, and so do four turns the same way. A
/// move changes the place by one tile, as the crow flies, and never the heading.
pub proof fn steps_by_hand(p: VehicleNode)
    requires
        p.heading < 4,
        room_around((p.x, p.y), 1),
    ensures
        stepped(stepped(p, ManualIntent::TurnCCW), ManualIntent::TurnCW) == p,
        stepped(stepped(p, ManualIntent::TurnCW), ManualIntent::TurnCCW) == p,
        stepped(
            stepped(
                stepped(stepped(p, ManualIntent::TurnCCW), ManualIntent::TurnCCW),
                ManualIntent::TurnCCW,
            ),
            ManualIntent::TurnCCW,
        ) == p,
        forall|i: ManualIntent|
            {
                let q = #[trigger] stepped(p, i);
                if i == ManualIntent::TurnCCW || i == ManualIntent::TurnCW {
                    q.x == p.x && q.y == p.y && q.heading != p.heading
                } else {
                    tile_distance((q.x, q.y), (p.x, p.y)) == 1 && q.heading == p.heading
                }
            },
{
}

/// Index of the pose a new route heads for first: the one behind the start.
pub const ROUTE_CURSOR_START: usize = 1;

/// The anchors that a route to `target` may end at, best first: the target, then the two rings
/// around it.
pub open spec fn goals_of(target: (i32, i32)) -> Seq<(i32, i32)> {
    seq![target] + around(target, rings(1, 2, Walk::Rows))
}

/// The goals of a route, in the order in which they are tried.
pub fn route_goals(target: (i32, i32)) -> (goals: Vec<(i32, i32)>)
    requires
        room_around(target, 2),
    ensures
        goals@ == goals_of(target),
{
    let offsets = rings_between(1, 2, Walk::Rows);
    let mut goals: Vec<(i32, i32)> = Vec::new();
    goals.push(target);
    let ghost all = around(target, offsets@);
    let mut i: usize = 0;
    while i < offsets.len()
        invariant
            i <= offsets.len(),
            room_around(target, 2),
            offsets@ == rings(1, 2, Walk::Rows),
            all == around(target, offsets@),
            goals@ == seq![target] + all.take(i as int),
        decreases offsets.len() - i,
    {
        let o = offsets[i];
        proof {
            rings_hold(1, 2, Walk::Rows, o);
            assert(offsets@.contains(o)) by {
                assert(offsets@[i as int] == o);
            }
        }
        goals.push((target.0 + o.0, target.1 + o.1));
        i += 1;
        assert(goals@ =~= seq![target] + all.take(i as int));
    }
    assert(all.take(i as int) =~= all);
    goals
}

/// A planned path leads somewhere.
pub open spec fn leads_somewhere(path: Option<Vec<VehicleNode>>) -> bool {
    match path {
        Some(p) => p@.len() >= 2,
        None => false,
    }
}

/// The route that a vehicle takes, given what the planner found for each goal in order: the first
/// that leads somewhere, entered behind its start.
pub fn first_route(found: &Vec<Option<Vec<VehicleNode>>>) -> (r: Option<VehiclePathFollow>)
    ensures
        match r {
            Some(f) => f.cursor == ROUTE_CURSOR_START && exists|i: int|
                {
                    &&& 0 <= i < found@.len()
                    &&& leads_somewhere(#[trigger] found@[i])
                    &&& found@[i]->0@ == f.path@
                    &&& forall|j: int| 0 <= j < i ==> !leads_somewhere(#[trigger] found@[j])
                },
            None => forall|j: int|
                0 <= j < found@.len() ==> !leads_somewhere(#[trigger] found@[j]),
        },
{
    let mut i: usize = 0;
    while i < found.len()
        invariant
            i <= found.len(),
            forall|j: int| 0 <= j < i ==> !leads_somewhere(#[trigger] found@[j]),
        decreases found.len() - i,
    {
        match &found[i] {
            Some(p) => {
                if p.len() >= 2 {
                    let path = copied(p);
                    assert(leads_somewhere(found@[i as int]));
                    return Some(VehiclePathFollow { path, cursor: ROUTE_CURSOR_START });
                }
            },
            None => {},
        }
        i += 1;
    }
    None
}

fn copied(p: &Vec<VehicleNode>) -> (q: Vec<VehicleNode>)
    ensures
        q@ == p@,
{
    let mut q: Vec<VehicleNode> = Vec::new();
    let mut i: usize = 0;
    while i < p.len()
        invariant
            i <= p.len(),
            q@ == p@.take(i as int),
        decreases p.len() - i,
    {
        q.push(p[i]);
        i += 1;
        assert(q@ =~= p@.take(i as int));
    }
    assert(p@.take(i as int) =~= p@);
    q
}

/// The goals of a route: the target first, then exactly the tiles within two of it, nearer ones
/// before farther ones.
pub proof fn goals_surround_the_target(target: (i32, i32), t: (i32, i32))
    requires
        room_around(target, 2),
    ensures
        goals_of(target)[0] == target,
        goals_of(target).contains(t) <==> tile_distance(t, target) <= 2,
{
    let offsets = rings(1, 2, Walk::Rows);
    let all = around(target, offsets);
    let goals = goals_of(target);
    let o = ((t.0 - target.0) as i32, (t.1 - target.1) as i32);
    rings_hold(1, 2, Walk::Rows, o);
    if tile_distance(t, target) <= 2 {
        if t == target {
            assert(goals[0] == t);
        } else {
            let k = choose|k: int| 0 <= k < offsets.len() && offsets[k] == o;
            assert(all[k] == t);
            assert(goals[k + 1] == t);
        }
    }
    if goals.contains(t) {
        let k = choose|k: int| 0 <= k < goals.len() && goals[k] == t;
        if k > 0 {
            assert(goals[k] == all[k - 1]);
            let q = offsets[k - 1];
            assert(offsets.contains(q));
            rings_hold(1, 2, Walk::Rows, q);
        }
    }
}

/// Search radius around a yard of the faction.
pub const SPAWN_YARD_RADIUS: u32 = 8;

/// Search radius around the faction's home.
pub const SPAWN_HOME_RADIUS: u32 = 6;

/// Search radius around what the player looks at.
pub const SPAWN_CAMERA_RADIUS: u32 = 12;

/// The level at which a vehicle parks on a tile.
pub open spec fn ground_level(terrain: TerrainWindow, t: (i32, i32)) -> Option<i8> {
    match terrain.tile(t.0 as int, t.1 as int) {
        Some(i) => if terrain.z_min <= i.surface_z <= terrain.z_max && terrain.passable(
            t.0 as int,
            t.1 as int,
            i.surface_z as int,
        ) {
            Some(i.surface_z as i8)
        } else {
            None
        },
        None => None,
    }
}

fn surface_z_for(terrain: &TerrainWindow, t: (i32, i32)) -> (r: Option<i8>)
    requires
        terrain.wf(),
    ensures
        r == ground_level(*terrain, t),
{
    match terrain.at(t.0, t.1) {
        Some(i) => {
            if i.surface_z < terrain.z_min || i.surface_z > terrain.z_max {
                return None;
            }
            if terrain.passable_at(t.0, t.1, i.surface_z) {
                Some(i.surface_z as i8)
            } else {
                None
            }
        },
        None => None,
    }
}

/// A design fits on a tile facing `heading`.
pub open spec fn fits_at(
    design: VehicleDesign,
    terrain: TerrainWindow,
    at: Map<(i32, i32), Entity>,
    t: (i32, i32),
    heading: int,
) -> bool {
    match ground_level(terrain, t) {
        Some(z) => stance_open(design.grid.cells@, terrain, at, None, t, z as int, heading),
        None => false,
    }
}

/// A place for a design on one tile: the first heading that fits.
pub open spec fn site_on(
    design: VehicleDesign,
    terrain: TerrainWindow,
    at: Map<(i32, i32), Entity>,
    t: (i32, i32),
) -> Option<((i32, i32), i8, u8)> {
    if fits_at(design, terrain, at, t, 0) {
        Some((t, ground_level(terrain, t)->0, 0u8))
    } else if fits_at(design, terrain, at, t, 1) {
        Some((t, ground_level(terrain, t)->0, 1u8))
    } else if fits_at(design, terrain, at, t, 2) {
        Some((t, ground_level(terrain, t)->0, 2u8))
    } else if fits_at(design, terrain, at, t, 3) {
        Some((t, ground_level(terrain, t)->0, 3u8))
    } else {
        None
    }
}

/// The first place among the first `n` tiles of a list.
pub open spec fn site_among(
    design: VehicleDesign,
    terrain: TerrainWindow,
    at: Map<(i32, i32), Entity>,
    tiles: Seq<(i32, i32)>,
    n: int,
) -> Option<((i32, i32), i8, u8)>
    decreases n,
{
    if n <= 0 {
        None
    } else {
        match site_among(design, terrain, at, tiles, n - 1) {
            Some(s) => Some(s),
            None => site_on(design, terrain, at, tiles[n - 1]),
        }
    }
}

/// The tiles within `radius` of a centre, nearest first.
pub open spec fn spiral(centre: (i32, i32), radius: int) -> Seq<(i32, i32)> {
    around(centre, rings(0, radius, Walk::Rows))
}

/// The first place around the first `n` yards.
pub open spec fn site_near_yards(
    design: VehicleDesign,
    terrain: TerrainWindow,
    at: Map<(i32, i32), Entity>,
    yards: Seq<(i32, i32)>,
    n: int,
) -> Option<((i32, i32), i8, u8)>
    decreases n,
{
    if n <= 0 {
        None
    } else {
        match site_near_yards(design, terrain, at, yards, n - 1) {
            Some(s) => Some(s),
            None => {
                let tiles = spiral(yards[n - 1], SPAWN_YARD_RADIUS as int);
                site_among(design, terrain, at, tiles, tiles.len() as int)
            },
        }
    }
}

/// The yards of a faction among the first `n`.
pub open spec fn yards_of(yards: Seq<VehicleYard>, faction_id: u32, n: int) -> Seq<(i32, i32)>
    decreases n,
{
    if n <= 0 {
        Seq::empty()
    } else if yards[n - 1].faction_id == faction_id {
        yards_of(yards, faction_id, n - 1).push(yards[n - 1].tile)
    } else {
        yards_of(yards, faction_id, n - 1)
    }
}

/// The key by which tiles are ordered: first coordinate, then second.
pub open spec fn tile_keys(tiles: Seq<(i32, i32)>) -> Seq<Key> {
    Seq::new(tiles.len(), |i: int| (tiles[i].0 as i64, tiles[i].1 as i64))
}

/// Tiles in ascending order.
pub open spec fn in_order(tiles: Seq<(i32, i32)>) -> Seq<(i32, i32)> {
    let o = order_of(tile_keys(tiles));
    Seq::new(o.len(), |i: int| tiles[o[i] as int])
}

/// A place for a design: around a yard of the faction, else around its home, else around what the
/// player looks at.
pub open spec fn spawn_site(
    design: VehicleDesign,
    terrain: TerrainWindow,
    at: Map<(i32, i32), Entity>,
    yards: Seq<(i32, i32)>,
    home: (i32, i32),
    camera: (i32, i32),
) -> Option<((i32, i32), i8, u8)> {
    match site_near_yards(design, terrain, at, yards, yards.len() as int) {
        Some(s) => Some(s),
        None => {
            let h = spiral(home, SPAWN_HOME_RADIUS as int);
            match site_among(design, terrain, at, h, h.len() as int) {
                Some(s) => Some(s),
                None => {
                    let c = spiral(camera, SPAWN_CAMERA_RADIUS as int);
                    site_among(design, terrain, at, c, c.len() as int)
                },
            }
        },
    }
}

/// The search around a centre stays within `i32`, footprints included.
pub open spec fn search_fits(design: VehicleDesign, centre: (i32, i32), radius: int) -> bool {
    &&& room_around(centre, radius)
    &&& forall|t: (i32, i32), h: int|
        tile_distance(t, centre) <= radius && 0 <= h < 4 ==> #[trigger] cover_fits(
            design.grid.cells@,
            t,
            h,
        )
}

fn find_site_around(
    design: &VehicleDesign,
    terrain: &TerrainWindow,
    occupancy: &VehicleOccupancyIndex,
    centre: (i32, i32),
    radius: u32,
) -> (r: Option<((i32, i32), i8, u8)>)
    requires
        terrain.wf(),
        footprint_ready(design.grid.cells@),
        radius <= i32::MAX,
        search_fits(*design, centre, radius as int),
    ensures
        ({
            let tiles = spiral(centre, radius as int);
            r == site_among(*design, *terrain, occupancy.at(), tiles, tiles.len() as int)
        }),
{
    let offsets = rings_between(0, radius, Walk::Rows);
    let ghost all = spiral(centre, radius as int);
    let mut i: usize = 0;
    while i < offsets.len()
        invariant
            i <= offsets.len(),
            terrain.wf(),
            footprint_ready(design.grid.cells@),
            radius <= i32::MAX,
            search_fits(*design, centre, radius as int),
            offsets@ == rings(0, radius as int, Walk::Rows),
            all == around(centre, offsets@),
            all == spiral(centre, radius as int),
            site_among(*design, *terrain, occupancy.at(), all, i as int) is None,
        decreases offsets.len() - i,
    {
        let o = offsets[i];
        proof {
            rings_hold(0, radius as int, Walk::Rows, o);
            assert(offsets@.contains(o)) by {
                assert(offsets@[i as int] == o);
            }
        }
        let t: (i32, i32) = (centre.0 + o.0, centre.1 + o.1);
        assert(all[i as int] == t);
        match surface_z_for(terrain, t) {
            Some(z) => {
                let mut heading: u8 = 0;
                while heading < 4
                    invariant
                        heading <= 4,
                        i < offsets.len(),
                        terrain.wf(),
                        footprint_ready(design.grid.cells@),
                        search_fits(*design, centre, radius as int),
                        tile_distance(t, centre) <= radius,
                        all[i as int] == t,
                        all.len() == offsets.len(),
                        all == spiral(centre, radius as int),
                        ground_level(*terrain, t) == Some(z),
                        site_among(*design, *terrain, occupancy.at(), all, i as int) is None,
                        forall|h: int|
                            0 <= h < heading ==> !#[trigger] fits_at(
                                *design,
                                *terrain,
                                occupancy.at(),
                                t,
                                h,
                            ),
                    decreases 4 - heading,
                {
                    assert(cover_fits(design.grid.cells@, t, heading as int));
                    if is_stance_open(design, terrain, occupancy, None, t, z, heading) {
                        proof {
                            assert(fits_at(
                                *design,
                                *terrain,
                                occupancy.at(),
                                t,
                                heading as int,
                            ));
                            site_stays(*design, *terrain, occupancy.at(), all, i + 1, all.len() as int);
                        }
                        return Some((t, z, heading));
                    }
                    heading += 1;
                }
                assert(!fits_at(*design, *terrain, occupancy.at(), t, 0));
                assert(!fits_at(*design, *terrain, occupancy.at(), t, 1));
                assert(!fits_at(*design, *terrain, occupancy.at(), t, 2));
                assert(!fits_at(*design, *terrain, occupancy.at(), t, 3));
            },
            None => {},
        }
        i += 1;
    }
    None
}

proof fn site_stays(
    design: VehicleDesign,
    terrain: TerrainWindow,
    at: Map<(i32, i32), Entity>,
    tiles: Seq<(i32, i32)>,
    m: int,
    n: int,
)
    requires
        0 <= m <= n,
        site_among(design, terrain, at, tiles, m) is Some,
    ensures
        site_among(design, terrain, at, tiles, n) == site_among(design, terrain, at, tiles, m),
    decreases n,
{
    if n > m {
        site_stays(design, terrain, at, tiles, m, n - 1);
    }
}

proof fn yard_site_stays(
    design: VehicleDesign,
    terrain: TerrainWindow,
    at: Map<(i32, i32), Entity>,
    yards: Seq<(i32, i32)>,
    m: int,
    n: int,
)
    requires
        0 <= m <= n,
        site_near_yards(design, terrain, at, yards, m) is Some,
    ensures
        site_near_yards(design, terrain, at, yards, n) == site_near_yards(
            design,
            terrain,
            at,
            yards,
            m,
        ),
    decreases n,
{
    if n > m {
        yard_site_stays(design, terrain, at, yards, m, n - 1);
    }
}

fn faction_yards(yards: &Vec<VehicleYard>, faction_id: u32) -> (tiles: Vec<(i32, i32)>)
    ensures
        tiles@ == in_order(yards_of(yards@, faction_id, yards@.len() as int)),
{
    let mut mine: Vec<(i32, i32)> = Vec::new();
    let mut i: usize = 0;
    while i < yards.len()
        invariant
            i <= yards.len(),
            mine@ == yards_of(yards@, faction_id, i as int),
        decreases yards.len() - i,
    {
        if yards[i].faction_id == faction_id {
            mine.push(yards[i].tile);
        }
        i += 1;
    }
    let mut keys: Vec<Key> = Vec::new();
    i = 0;
    while i < mine.len()
        invariant
            i <= mine.len(),
            keys@ == tile_keys(mine@).take(i as int),
        decreases mine.len() - i,
    {
        keys.push((mine[i].0 as i64, mine[i].1 as i64));
        i += 1;
        assert(keys@ =~= tile_keys(mine@).take(i as int));
    }
    assert(keys@ =~= tile_keys(mine@));
    let order = order_by_keys(&keys);
    let n: usize = keys.len();
    proof {
        ordering_is_stable(keys@);
    }
    let ghost all = in_order(mine@);
    let mut tiles: Vec<(i32, i32)> = Vec::new();
    i = 0;
    while i < order.len()
        invariant
            i <= order.len(),
            order@ == order_of(tile_keys(mine@)),
            n == mine.len(),
            forall|k: int| 0 <= k < order@.len() ==> (#[trigger] order@[k]) < n,
            all == in_order(mine@),
            tiles@ == all.take(i as int),
        decreases order.len() - i,
    {
        tiles.push(mine[order[i]]);
        i += 1;
        assert(tiles@ =~= all.take(i as int));
    }
    assert(all.take(i as int) =~= all);
    tiles
}

/// A place where a design can be put down: the tile, its level and a heading. Yards of the
/// faction are searched first, in the order of their tiles, then the home, then the player's
/// view; around each centre the nearest tile wins, and on a tile the lowest heading.
pub fn find_debug_spawn_site(
    design: &VehicleDesign,
    faction_id: u32,
    home_tile: (i32, i32),
    terrain: &TerrainWindow,
    occupancy: &VehicleOccupancyIndex,
    yards: &Vec<VehicleYard>,
    camera_focus: (i32, i32),
) -> (r: Option<((i32, i32), i8, u8)>)
    requires
        terrain.wf(),
        footprint_ready(design.grid.cells@),
        search_fits(*design, home_tile, SPAWN_HOME_RADIUS as int),
        search_fits(*design, camera_focus, SPAWN_CAMERA_RADIUS as int),
        forall|i: int|
            0 <= i < yards@.len() ==> search_fits(
                *design,
                (#[trigger] yards@[i]).tile,
                SPAWN_YARD_RADIUS as int,
            ),
    ensures
        r == spawn_site(
            *design,
            *terrain,
            occupancy.at(),
            in_order(yards_of(yards@, faction_id, yards@.len() as int)),
            home_tile,
            camera_focus,
        ),
{
    let tiles = faction_yards(yards, faction_id);
    let ghost mine = yards_of(yards@, faction_id, yards@.len() as int);
    let n: usize = yards.len();
    proof {
        yards_len(yards@, faction_id, yards@.len() as int);
        ordering_is_stable(tile_keys(mine));
        assert forall|k: int| 0 <= k < tiles@.len() implies search_fits(
            *design,
            #[trigger] tiles@[k],
            SPAWN_YARD_RADIUS as int,
        ) by {
            let o = order_of(tile_keys(mine));
            assert(o[k] < mine.len());
            let m = o[k] as int;
            assert(exists|i: int| 0 <= i < yards@.len() && (#[trigger] yards@[i]).tile == mine[m]);
        }
    }
    let mut i: usize = 0;
    while i < tiles.len()
        invariant
            i <= tiles.len(),
            terrain.wf(),
            footprint_ready(design.grid.cells@),
            tiles@ == in_order(yards_of(yards@, faction_id, yards@.len() as int)),
            forall|k: int|
                0 <= k < tiles@.len() ==> search_fits(
                    *design,
                    #[trigger] tiles@[k],
                    SPAWN_YARD_RADIUS as int,
                ),
            site_near_yards(*design, *terrain, occupancy.at(), tiles@, i as int) is None,
        decreases tiles.len() - i,
    {
        let site = find_site_around(design, terrain, occupancy, tiles[i], SPAWN_YARD_RADIUS);
        if site.is_some() {
            proof {
                yard_site_stays(
                    *design,
                    *terrain,
                    occupancy.at(),
                    tiles@,
                    i + 1,
                    tiles@.len() as int,
                );
            }
            return site;
        }
        i += 1;
    }
    let site = find_site_around(design, terrain, occupancy, home_tile, SPAWN_HOME_RADIUS);
    if site.is_some() {
        return site;
    }
    find_site_around(design, terrain, occupancy, camera_focus, SPAWN_CAMERA_RADIUS)
}

proof fn yards_len(yards: Seq<VehicleYard>, faction_id: u32, n: int)
    requires
        0 <= n <= yards.len(),
    ensures
        yards_of(yards, faction_id, n).len() <= n,
        forall|m: int|
            0 <= m < yards_of(yards, faction_id, n).len() ==> exists|i: int|
                0 <= i < n && (#[trigger] yards[i]).tile == #[trigger] yards_of(
                    yards,
                    faction_id,
                    n,
                )[m] && yards[i].faction_id == faction_id,
    decreases n,
{
    if n > 0 {
        yards_len(yards, faction_id, n - 1);
        let before = yards_of(yards, faction_id, n - 1);
        let after = yards_of(yards, faction_id, n);
        assert forall|m: int| 0 <= m < after.len() implies exists|i: int|
            0 <= i < n && (#[trigger] yards[i]).tile == #[trigger] after[m] && yards[i].faction_id
                == faction_id by {
            if m < before.len() {
                assert(after[m] == before[m]);
                let i = choose|i: int|
                    0 <= i < n - 1 && (#[trigger] yards[i]).tile == before[m]
                        && yards[i].faction_id == faction_id;
                assert(yards[i].tile == after[m]);
            } else {
                assert(yards[n - 1].tile == after[m]);
            }
        }
    }
}

/// A place that was found is open to the design, at ground level and with nothing on it.
pub proof fn spawn_sites_are_open(
    design: VehicleDesign,
    terrain: TerrainWindow,
    at: Map<(i32, i32), Entity>,
    yards: Seq<(i32, i32)>,
    home: (i32, i32),
    camera: (i32, i32),
)
    ensures
        spawn_site(design, terrain, at, yards, home, camera) matches Some(s) ==> {
            &&& s.2 < 4
            &&& ground_level(terrain, s.0) == Some(s.1)
            &&& stance_open(design.grid.cells@, terrain, at, None, s.0, s.1 as int, s.2 as int)
        },
{
    yard_sites_open(design, terrain, at, yards, yards.len() as int);
    let h = spiral(home, SPAWN_HOME_RADIUS as int);
    sites_open(design, terrain, at, h, h.len() as int);
    let c = spiral(camera, SPAWN_CAMERA_RADIUS as int);
    sites_open(design, terrain, at, c, c.len() as int);
}

proof fn sites_open(
    design: VehicleDesign,
    terrain: TerrainWindow,
    at: Map<(i32, i32), Entity>,
    tiles: Seq<(i32, i32)>,
    n: int,
)
    ensures
        site_among(design, terrain, at, tiles, n) matches Some(s) ==> {
            &&& s.2 < 4
            &&& ground_level(terrain, s.0) == Some(s.1)
            &&& stance_open(design.grid.cells@, terrain, at, None, s.0, s.1 as int, s.2 as int)
        },
    decreases n,
{
    if n > 0 {
        sites_open(design, terrain, at, tiles, n - 1);
    }
}

proof fn yard_sites_open(
    design: VehicleDesign,
    terrain: TerrainWindow,
    at: Map<(i32, i32), Entity>,
    yards: Seq<(i32, i32)>,
    n: int,
)
    ensures
        site_near_yards(design, terrain, at, yards, n) matches Some(s) ==> {
            &&& s.2 < 4
            &&& ground_level(terrain, s.0) == Some(s.1)
            &&& stance_open(design.grid.cells@, terrain, at, None, s.0, s.1 as int, s.2 as int)
        },
    decreases n,
{
    if n > 0 {
        yard_sites_open(design, terrain, at, yards, n - 1);
        let t = spiral(yards[n - 1], SPAWN_YARD_RADIUS as int);
        sites_open(design, terrain, at, t, t.len() as int);
    }
}

/// Which vehicle the player steers, and what the last attempt came to.
#[derive(Debug)]
pub struct ManualDriveState {
    pub active: Option<Entity>,
    pub last_status: Option<String>,
}

impl Default for ManualDriveState {
    fn default() -> (s: ManualDriveState)
        ensures
            s.active is None,
            s.last_status is None,
    {
        ManualDriveState { active: None, last_status: None }
    }
}

/// An animal made up for a test drive.
#[derive(Clone, Copy, Debug, PartialEq, Eq, Structural)]
pub struct GhostAnimal {
    pub x: i32,
    pub y: i32,
    pub female: bool,
    pub training: u8,
}

/// The `i`th animal made up for a vehicle: on the square of nine around it, every other one
/// female, and trained somewhat beyond what draft work asks for.
pub open spec fn ghost_animal(tile: (i32, i32), draft_training: u8, i: int) -> GhostAnimal {
    GhostAnimal {
        x: (tile.0 + i % 3 - 1) as i32,
        y: (tile.1 + (i / 3) % 3 - 1) as i32,
        female: i % 2 == 0,
        training: if draft_training + 10 > 255 {
            255u8
        } else {
            (draft_training + 10) as u8
        },
    }
}

/// The animals made up for a test drive.
pub fn spawn_ghost_draft_for(vehicle_tile: (i32, i32), required: u8, draft_training: u8) -> (team: Vec<
    GhostAnimal,
>)
    requires
        room_around(vehicle_tile, 1),
    ensures
        team@ == Seq::new(
            required as nat,
            |i: int| ghost_animal(vehicle_tile, draft_training, i),
        ),
{
    let mut team: Vec<GhostAnimal> = Vec::new();
    let mut slot: u8 = 0;
    while slot < required
        invariant
            slot <= required,
            room_around(vehicle_tile, 1),
            team@ == Seq::new(
                slot as nat,
                |i: int| ghost_animal(vehicle_tile, draft_training, i),
            ),
        decreases required - slot,
    {
        let dx: i32 = (slot % 3) as i32 - 1;
        let dy: i32 = ((slot / 3) % 3) as i32 - 1;
        team.push(
            GhostAnimal {
                x: vehicle_tile.0 + dx,
                y: vehicle_tile.1 + dy,
                female: slot % 2 == 0,
                training: draft_training.saturating_add(10),
            },
        );
        slot += 1;
        assert(team@ =~= Seq::new(
            slot as nat,
            |i: int| ghost_animal(vehicle_tile, draft_training, i),
        ));
    }
    team
}

/// The made-up animals whose vehicle is gone. Each ghost is given with its vehicle.
pub fn cleanup_debug_ghost_draft_system(ghosts: &Vec<(Entity, Entity)>, vehicles: &Vec<Entity>) -> (orphans: Vec<
    Entity,
>)
    ensures
        orphans@ == collect(
            ghosts@.len() as int,
            |i: int| !vehicles@.contains(ghosts@[i].1),
            |i: int| ghosts@[i].0,
        ),
{
    let ghost p = |i: int| !vehicles@.contains(ghosts@[i].1);
    let ghost mk = |i: int| ghosts@[i].0;
    let mut orphans: Vec<Entity> = Vec::new();
    let mut i: usize = 0;
    while i < ghosts.len()
        invariant
            i <= ghosts.len(),
            p == (|i: int| !vehicles@.contains(ghosts@[i].1)),
            mk == (|i: int| ghosts@[i].0),
            orphans@ == collect(i as int, p, mk),
        decreases ghosts.len() - i,
    {
        if !holds_entity(vehicles, ghosts[i].1) {
            orphans.push(ghosts[i].0);
        }
        i += 1;
    }
    orphans
}

/// A step by hand goes where the vehicle faces: forward is one tile up, left, down or right, turning
/// left adds a quarter counter-clockwise and turning right takes one away, and a step to the front
/// left or right is forward and then sideways without a turn. The level stays.
pub proof fn steps_go_where_the_vehicle_faces(p: VehicleNode)
    requires
        p.heading < 4,
        room_around((p.x, p.y), 2),
    ensures
        ({
            let q = stepped(p, ManualIntent::Forward);
            &&& p.heading == 0 ==> q.x == p.x && q.y == p.y + 1
            &&& p.heading == 1 ==> q.x == p.x - 1 && q.y == p.y
            &&& p.heading == 2 ==> q.x == p.x && q.y == p.y - 1
            &&& p.heading == 3 ==> q.x == p.x + 1 && q.y == p.y
        }),
        stepped(p, ManualIntent::TurnCCW).heading == (if p.heading == 3 {
            0int
        } else {
            p.heading + 1
        }),
        stepped(p, ManualIntent::TurnCW).heading == (if p.heading == 0 {
            3int
        } else {
            p.heading - 1
        }),
        stepped(p, ManualIntent::ForwardLeft) == stepped(
            stepped(
                stepped(stepped(p, ManualIntent::Forward), ManualIntent::TurnCCW),
                ManualIntent::Forward,
            ),
            ManualIntent::TurnCW,
        ),
        stepped(p, ManualIntent::ForwardRight) == stepped(
            stepped(
                stepped(stepped(p, ManualIntent::Forward), ManualIntent::TurnCW),
                ManualIntent::Forward,
            ),
            ManualIntent::TurnCCW,
        ),
        forall|i: ManualIntent| (#[trigger] stepped(p, i)).z == p.z,
{
}

/// The pose of a vehicle is where it stands and which of the four ways it faces.
pub proof fn poses_are_where_vehicles_stand(v: Vehicle)
    ensures
        pose(v).x == v.anchor_tile.0,
        pose(v).y == v.anchor_tile.1,
        pose(v).z == v.z,
        pose(v).heading < 4,
        (v.heading - pose(v).heading) % 4 == 0,
{
}

proof fn site_among_is_first(
    design: VehicleDesign,
    terrain: TerrainWindow,
    at: Map<(i32, i32), Entity>,
    tiles: Seq<(i32, i32)>,
    n: int,
)
    requires
        0 <= n <= tiles.len(),
    ensures
        match site_among(design, terrain, at, tiles, n) {
            Some(s) => exists|i: int|
                0 <= i < n && site_on(design, terrain, at, #[trigger] tiles[i]) == Some(s)
                    && forall|j: int|
                    0 <= j < i ==> site_on(design, terrain, at, #[trigger] tiles[j]) is None,
            None => forall|j: int|
                0 <= j < n ==> site_on(design, terrain, at, #[trigger] tiles[j]) is None,
        },
    decreases n,
{
    if n > 0 {
        site_among_is_first(design, terrain, at, tiles, n - 1);
        assert(site_on(design, terrain, at, tiles[n - 1]) == site_on(
            design,
            terrain,
            at,
            tiles[n - 1],
        ));
    }
}

/// The search round a centre: a site within the radius, than which no tile nearer to the centre
/// will do, or none at all.
proof fn spiral_site(
    design: VehicleDesign,
    terrain: TerrainWindow,
    at: Map<(i32, i32), Entity>,
    centre: (i32, i32),
    radius: int,
    other: (i32, i32),
)
    requires
        0 <= radius <= 100,
        room_around(centre, radius),
    ensures
        ({
            let tiles = spiral(centre, radius);
            match site_among(design, terrain, at, tiles, tiles.len() as int) {
                Some(s) => {
                    &&& site_on(design, terrain, at, s.0) == Some(s)
                    &&& tile_distance(s.0, centre) <= radius
                    &&& site_on(design, terrain, at, other) is Some ==> tile_distance(s.0, centre)
                        <= tile_distance(other, centre)
                },
                None => tile_distance(other, centre) <= radius ==> site_on(
                    design,
                    terrain,
                    at,
                    other,
                ) is None,
            }
        }),
{
    let offsets = rings(0, radius, Walk::Rows);
    let tiles = spiral(centre, radius);
    let n = tiles.len() as int;
    site_among_is_first(design, terrain, at, tiles, n);
    let near = tile_distance(other, centre) <= radius;
    if near {
        let o = ((other.0 - centre.0) as i32, (other.1 - centre.1) as i32);
        rings_hold(0, radius, Walk::Rows, o);
        let j = choose|j: int| 0 <= j < offsets.len() && offsets[j] == o;
        assert(tiles[j] == other);
        if site_among(design, terrain, at, tiles, n) is None {
            assert(site_on(design, terrain, at, tiles[j]) is None);
        }
    }
    if site_among(design, terrain, at, tiles, n) is Some {
        let s = site_among(design, terrain, at, tiles, n)->0;
        let i = choose|i: int|
            0 <= i < n && site_on(design, terrain, at, #[trigger] tiles[i]) == Some(s)
                && forall|j: int|
                0 <= j < i ==> site_on(design, terrain, at, #[trigger] tiles[j]) is None;
        assert(s.0 == tiles[i]);
        assert(offsets.contains(offsets[i]));
        rings_hold(0, radius, Walk::Rows, offsets[i]);
        if near && site_on(design, terrain, at, other) is Some {
            let o = ((other.0 - centre.0) as i32, (other.1 - centre.1) as i32);
            let j = choose|j: int| 0 <= j < offsets.len() && offsets[j] == o;
            assert(tiles[j] == other);
            assert(i <= j);
            rings_go_outward(0, radius, Walk::Rows, i, j);
        }
    }
}

/// A tile will do for a design if it fits there some way round, at ground level; it then stands
/// the first way round that fits.
pub proof fn sites_face_the_first_way_that_fits(
    design: VehicleDesign,
    terrain: TerrainWindow,
    at: Map<(i32, i32), Entity>,
    t: (i32, i32),
    h: int,
)
    requires
        terrain.wf(),
        0 <= h < 4,
    ensures
        match site_on(design, terrain, at, t) {
            Some(s) => {
                &&& s.0 == t
                &&& terrain.tile(t.0 as int, t.1 as int) matches Some(g) && g.surface_z == s.1
                &&& terrain.passable(t.0 as int, t.1 as int, s.1 as int)
                &&& stance_open(design.grid.cells@, terrain, at, None, t, s.1 as int, s.2 as int)
                &&& stance_open(design.grid.cells@, terrain, at, None, t, s.1 as int, h) ==> s.2
                    <= h
            },
            None => ground_level(terrain, t) matches Some(z) ==> !stance_open(
                design.grid.cells@,
                terrain,
                at,
                None,
                t,
                z as int,
                h,
            ),
        },
{
    assert(h == 0 || h == 1 || h == 2 || h == 3);
}

/// A vehicle from nowhere comes to stand by a yard if there is room within eight tiles of one, the
/// first yard that has any; else within six tiles of home; else within twelve of where the player
/// looks; in each case no nearer tile would have done. Without room in any of these there is no
/// site.
pub proof fn yards_come_before_home_before_the_camera(
    design: VehicleDesign,
    terrain: TerrainWindow,
    at: Map<(i32, i32), Entity>,
    yards: Seq<(i32, i32)>,
    home: (i32, i32),
    camera: (i32, i32),
    other: (i32, i32),
    k: int,
)
    requires
        room_around(home, 6),
        room_around(camera, 12),
        forall|i: int| 0 <= i < yards.len() ==> room_around(#[trigger] yards[i], 8),
        0 <= k < yards.len(),
    ensures
        ({
            let will_do = site_on(design, terrain, at, other) is Some;
            match spawn_site(design, terrain, at, yards, home, camera) {
                Some(s) => {
                    &&& will_do && tile_distance(other, yards[k]) <= 8 ==> exists|j: int|
                        0 <= j <= k && tile_distance(s.0, #[trigger] yards[j]) <= 8 && (j == k
                            ==> tile_distance(s.0, yards[k]) <= tile_distance(other, yards[k]))
                    &&& {
                        ||| exists|j: int|
                            0 <= j < yards.len() && tile_distance(s.0, #[trigger] yards[j]) <= 8
                        ||| tile_distance(s.0, home) <= 6 && (will_do ==> tile_distance(s.0, home)
                            <= tile_distance(other, home))
                        ||| tile_distance(s.0, camera) <= 12 && (will_do ==> tile_distance(
                            other,
                            home,
                        ) > 6 && tile_distance(s.0, camera) <= tile_distance(other, camera))
                    }
                },
                None => will_do ==> tile_distance(other, yards[k]) > 8 && tile_distance(
                    other,
                    home,
                ) > 6 && tile_distance(other, camera) > 12,
            }
        }),
{
    yard_site(design, terrain, at, yards, yards.len() as int, other, k);
    spiral_site(design, terrain, at, home, 6, other);
    spiral_site(design, terrain, at, camera, 12, other);
}

proof fn yard_site(
    design: VehicleDesign,
    terrain: TerrainWindow,
    at: Map<(i32, i32), Entity>,
    yards: Seq<(i32, i32)>,
    n: int,
    other: (i32, i32),
    k: int,
)
    requires
        forall|i: int| 0 <= i < yards.len() ==> room_around(#[trigger] yards[i], 8),
        0 <= n <= yards.len(),
        0 <= k < yards.len(),
    ensures
        match site_near_yards(design, terrain, at, yards, n) {
            Some(s) => {
                &&& exists|j: int|
                    0 <= j < n && tile_distance(s.0, #[trigger] yards[j]) <= 8
                &&& k < n && site_on(design, terrain, at, other) is Some && tile_distance(
                    other,
                    yards[k],
                ) <= 8 ==> exists|j: int|
                    0 <= j <= k && tile_distance(s.0, #[trigger] yards[j]) <= 8 && (j == k
                        ==> tile_distance(s.0, yards[k]) <= tile_distance(other, yards[k]))
            },
            None => k < n && site_on(design, terrain, at, other) is Some ==> tile_distance(
                other,
                yards[k],
            ) > 8,
        },
    decreases n,
{
    if n > 0 {
        yard_site(design, terrain, at, yards, n - 1, other, k);
        spiral_site(design, terrain, at, yards[n - 1], 8, other);
        if site_near_yards(design, terrain, at, yards, n - 1) is None {
            if site_near_yards(design, terrain, at, yards, n) is Some {
                let s = site_near_yards(design, terrain, at, yards, n)->0;
                assert(tile_distance(s.0, yards[n - 1]) <= 8);
            }
        }
    }
}

/// A faction's yards are those that it owns, and no others.
pub proof fn yards_belong_to_their_faction(
    yards: Seq<VehicleYard>,
    faction_id: u32,
    n: int,
    t: (i32, i32),
)
    requires
        0 <= n <= yards.len(),
    ensures
        yards_of(yards, faction_id, n).contains(t) <==> exists|i: int|
            0 <= i < n && (#[trigger] yards[i]).faction_id == faction_id && yards[i].tile == t,
    decreases n,
{
    if n > 0 {
        yards_belong_to_their_faction(yards, faction_id, n - 1, t);
        let before = yards_of(yards, faction_id, n - 1);
        let after = yards_of(yards, faction_id, n);
        if before.contains(t) {
            let i = choose|i: int| 0 <= i < before.len() && before[i] == t;
            assert(after[i] == t);
        }
        if yards[n - 1].faction_id == faction_id {
            assert(after[before.len() as int] == yards[n - 1].tile);
        }
        if after.contains(t) && !before.contains(t) {
            let i = choose|i: int| 0 <= i < after.len() && after[i] == t;
            assert(i == before.len());
        }
    }
}

/// A conjured team stands on the tiles around the vehicle or its own, females and males in turn,
/// each trained ten beyond what pulling takes, as far as training goes.
pub proof fn conjured_teams_can_pull(tile: (i32, i32), draft_training: u8, i: int)
    requires
        room_around(tile, 1),
        0 <= i,
    ensures
        ({
            let a = ghost_animal(tile, draft_training, i);
            let b = ghost_animal(tile, draft_training, i + 1);
            &&& -1 <= a.x - tile.0 <= 1 && -1 <= a.y - tile.1 <= 1
            &&& a.female != b.female && ghost_animal(tile, draft_training, 0).female
            &&& draft_training <= 245 ==> a.training == draft_training + 10
            &&& draft_training > 245 ==> a.training == 255
            &&& i < 8 ==> a.x != b.x || a.y != b.y
            &&& i == 0 ==> a.x == tile.0 - 1 && a.y == tile.1 - 1
        }),
{
}

/// The first nine animals of a conjured team stand in three rows of three around the vehicle's tile.
pub proof fn conjured_teams_stand_in_rows(
    tile: (i32, i32),
    draft_training: u8,
    row: int,
    column: int,
)
    requires
        room_around(tile, 1),
        0 <= row < 3,
        0 <= column < 3,
    ensures
        ({
            let a = ghost_animal(tile, draft_training, 3 * row + column);
            a.x == tile.0 + column - 1 && a.y == tile.1 + row - 1
        }),
{
}

} // verus!
