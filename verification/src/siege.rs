//! Siege engines against walls.

use vstd::prelude::*;
use crate::catalog::VehicleData;
use crate::design::VehicleDesign;
use crate::footprint::{
    cover_fits, covered, footprint_reaches, footprint_ready, reaches_spec, VehicleFootprint,
};
use crate::geometry::{tile_distance, IVec3};
use crate::grid::{VehicleCell, VehicleModuleInstance};
use crate::occupancy::{around, cell_open, headroom, is_cell_open, VehicleOccupancyIndex};
use crate::parts::Entity;
use crate::rings::{ring, ring_holds, ring_offsets, room_around, Walk};
use crate::seqs::{capped_sum, find, find_is_first, find_is_none, sum, sum_agrees};
use crate::terrain::TerrainWindow;
use crate::tiles::{set_siege_time, siege_time, siege_times, still_waits};
use crate::vehicle::Vehicle;

verus! {

/// Ticks between two strikes of one engine.
pub const SIEGE_COOLDOWN_TICKS: u64 = 60;

/// Ticks between two attempts to plan a way to the wall.
pub const SIEGE_REROUTE_TICKS: u64 = 30;

/// A standing order to bring down the wall on a tile.
#[derive(Clone, Copy, Debug)]
pub struct SiegeOrder {
    pub target_tile: (i32, i32),
    pub last_route_attempt_tick: u64,
}

/// What each module adds to a strike.
pub open spec fn ram_damage(
    modules: Seq<VehicleModuleInstance>,
    data: VehicleData,
) -> spec_fn(int) -> int {
    |i: int|
        match data.module_spec(modules[i].def) {
            Some(d) => d.siege_damage as int,
            None => 0,
        }
}

/// The damage of one strike: the sum over all modules, at most 255.
pub open spec fn siege_damage(modules: Seq<VehicleModuleInstance>, data: VehicleData) -> int {
    capped_sum(modules.len() as int, ram_damage(modules, data), 255)
}

/// Damage that one strike deals to a wall.
pub fn design_siege_damage(design: &VehicleDesign, data: &VehicleData) -> (d: u8)
    ensures
        d == siege_damage(design.grid.modules@, *data),
{
    let ghost f = ram_damage(design.grid.modules@, *data);
    let mut total: u8 = 0;
    let mut i: usize = 0;
    while i < design.grid.modules.len()
        invariant
            i <= design.grid.modules.len(),
            f == ram_damage(design.grid.modules@, *data),
            total == capped_sum(i as int, f, 255),
            sum(i as int, f) >= 0,
        decreases design.grid.modules.len() - i,
    {
        match data.module_def(design.grid.modules[i].def) {
            Some(d) => {
                total = if total as u16 + d.siege_damage as u16 > 255 {
                    255
                } else {
                    total + d.siege_damage
                };
            },
            None => {},
        }
        i += 1;
    }
    total
}

/// Whether a design carries a ram at all.
pub fn design_is_siege_capable(design: &VehicleDesign, data: &VehicleData) -> (b: bool)
    ensures
        b == (siege_damage(design.grid.modules@, *data) > 0),
{
    design_siege_damage(design, data) > 0
}

/// A design is fit for a siege exactly when one of its modules rams.
pub proof fn siege_needs_a_ram(modules: Seq<VehicleModuleInstance>, data: VehicleData)
    ensures
        siege_damage(modules, data) > 0 <==> exists|i: int|
            0 <= i < modules.len() && (data.module_spec((#[trigger] modules[i]).def) matches Some(d)
                && d.siege_damage > 0),
{
    let f = ram_damage(modules, data);
    ram_sum(modules, data, modules.len() as int);
    if exists|i: int| 0 <= i < modules.len() && #[trigger] f(i) > 0 {
        let i = choose|i: int| 0 <= i < modules.len() && #[trigger] f(i) > 0;
        assert(modules[i] == modules[i]);
    }
    if exists|i: int|
        0 <= i < modules.len() && (data.module_spec((#[trigger] modules[i]).def) matches Some(d)
            && d.siege_damage > 0) {
        let i = choose|i: int|
            0 <= i < modules.len() && (data.module_spec((#[trigger] modules[i]).def) matches Some(d)
                && d.siege_damage > 0);
        assert(f(i) > 0);
    }
}

proof fn ram_sum(modules: Seq<VehicleModuleInstance>, data: VehicleData, n: int)
    requires
        0 <= n <= modules.len(),
    ensures
        sum(n, ram_damage(modules, data)) >= 0,
        sum(n, ram_damage(modules, data)) > 0 <==> exists|i: int|
            0 <= i < n && #[trigger] ram_damage(modules, data)(i) > 0,
    decreases n,
{
    if n > 0 {
        ram_sum(modules, data, n - 1);
        let f = ram_damage(modules, data);
        assert(f(n - 1) >= 0);
        if sum(n - 1, f) > 0 {
            let i = choose|i: int| 0 <= i < n - 1 && #[trigger] f(i) > 0;
            assert(f(i) > 0);
        }
    }
}

/// A body may be sent to a tile.
pub open spec fn berth(
    cells: Seq<(IVec3, VehicleCell)>,
    terrain: TerrainWindow,
    at: Map<(i32, i32), Entity>,
    me: Entity,
    z: int,
) -> spec_fn((i32, i32)) -> bool {
    |t: (i32, i32)| cell_open(terrain, at, Some(me), t, z, headroom(cells))
}

/// The first of the eight tiles around a wall to which a body may be sent.
pub open spec fn wall_berth(
    cells: Seq<(IVec3, VehicleCell)>,
    terrain: TerrainWindow,
    at: Map<(i32, i32), Entity>,
    me: Entity,
    wall: (i32, i32),
    z: int,
) -> Option<(i32, i32)> {
    find(around(wall, ring(1, Walk::Columns)), berth(cells, terrain, at, me, z))
}

/// A tile beside a wall from which an engine can strike.
pub fn find_passable_adjacent_to_wall(
    wall_tile: (i32, i32),
    z: i8,
    self_e: Entity,
    design: &VehicleDesign,
    terrain: &TerrainWindow,
    occupancy: &VehicleOccupancyIndex,
) -> (r: Option<(i32, i32)>)
    requires
        terrain.wf(),
        room_around(wall_tile, 1),
        footprint_ready(design.grid.cells@),
    ensures
        r == wall_berth(
            design.grid.cells@,
            *terrain,
            occupancy.at(),
            self_e,
            wall_tile,
            z as int,
        ),
{
    let f = VehicleFootprint::from_grid(&design.grid);
    let height: i32 = if f.height_z == 0 {
        1
    } else {
        f.height_z as i32
    };
    let offsets = ring_offsets(1, Walk::Columns);
    let ghost p = berth(design.grid.cells@, *terrain, occupancy.at(), self_e, z as int);
    let ghost all = around(wall_tile, offsets@);
    let mut i: usize = 0;
    while i < offsets.len()
        invariant
            i <= offsets.len(),
            terrain.wf(),
            room_around(wall_tile, 1),
            height == headroom(design.grid.cells@),
            offsets@ == ring(1, Walk::Columns),
            all == around(wall_tile, offsets@),
            p == berth(design.grid.cells@, *terrain, occupancy.at(), self_e, z as int),
            forall|j: int| 0 <= j < i ==> !p(#[trigger] all[j]),
        decreases offsets.len() - i,
    {
        let o = offsets[i];
        proof {
            ring_holds(1, Walk::Columns, o);
            assert(offsets@.contains(o)) by {
                assert(offsets@[i as int] == o);
            }
        }
        let t: (i32, i32) = (wall_tile.0 + o.0, wall_tile.1 + o.1);
        assert(all[i as int] == t);
        if is_cell_open(terrain, occupancy, Some(self_e), t, z as i32, height) {
            proof {
                find_is_first(all, p, i as int);
            }
            return Some(t);
        }
        i += 1;
    }
    proof {
        find_is_none(all, p);
    }
    None
}

/// A berth touches the wall and is not the wall's own tile.
pub proof fn berths_touch_the_wall(
    cells: Seq<(IVec3, VehicleCell)>,
    terrain: TerrainWindow,
    at: Map<(i32, i32), Entity>,
    me: Entity,
    wall: (i32, i32),
    z: int,
)
    requires
        room_around(wall, 1),
    ensures
        match wall_berth(cells, terrain, at, me, wall, z) {
            Some(t) => tile_distance(t, wall) == 1 && cell_open(
                terrain,
                at,
                Some(me),
                t,
                z,
                headroom(cells),
            ),
            None => forall|t: (i32, i32)|
                tile_distance(t, wall) == 1 ==> !#[trigger] cell_open(
                    terrain,
                    at,
                    Some(me),
                    t,
                    z,
                    headroom(cells),
                ),
        },
{
    let offsets = ring(1, Walk::Columns);
    let all = around(wall, offsets);
    let p = berth(cells, terrain, at, me, z);
    find_is_none(all, p);
    match wall_berth(cells, terrain, at, me, wall, z) {
        Some(t) => {
            let k = choose|k: int| 0 <= k < all.len() && all[k] == t;
            assert(offsets.contains(offsets[k]));
            ring_holds(1, Walk::Columns, offsets[k]);
        },
        None => {
            assert forall|t: (i32, i32)| tile_distance(t, wall) == 1 implies !#[trigger] cell_open(
                terrain,
                at,
                Some(me),
                t,
                z,
                headroom(cells),
            ) by {
                let o = ((t.0 - wall.0) as i32, (t.1 - wall.1) as i32);
                ring_holds(1, Walk::Columns, o);
                let k = choose|k: int| 0 <= k < offsets.len() && offsets[k] == o;
                assert(all[k] == t);
                assert(!p(all[k]));
            }
        },
    }
}

/// What a siege engine does this tick.
#[derive(Clone, Copy, Debug)]
pub enum SiegeAction {
    /// The order is over.
    DropOrder,
    /// Nothing to do now.
    Wait,
    /// Hit the wall.
    Strike(u8),
    /// Plan a way to this tile.
    Approach((i32, i32)),
}

/// What stands before a siege engine.
pub struct SiegeView<'a> {
    pub wall_stands: bool,
    pub design: Option<&'a VehicleDesign>,
    pub has_driver: bool,
    pub under_way: bool,
    pub now: u64,
}

/// The last attempt to plan a way is too recent.
pub open spec fn just_tried(order: SiegeOrder, now: u64) -> bool {
    now - order.last_route_attempt_tick < SIEGE_REROUTE_TICKS
}

/// What an engine does in one tick; its order, and until when every engine waits, afterwards.
pub open spec fn siege_outcome(
    view: SiegeView,
    data: VehicleData,
    v: Vehicle,
    me: Entity,
    terrain: TerrainWindow,
    at: Map<(i32, i32), Entity>,
    order: SiegeOrder,
    times: Map<u64, u64>,
) -> (SiegeAction, SiegeOrder, Map<u64, u64>) {
    if !view.wall_stands {
        (SiegeAction::DropOrder, order, times)
    } else {
        match view.design {
            None => (SiegeAction::Wait, order, times),
            Some(d) => {
                let cells = d.grid.cells@;
                let force = siege_damage(d.grid.modules@, data);
                if force <= 0 {
                    (SiegeAction::DropOrder, order, times)
                } else if reaches_spec(cells, v.anchor_tile, v.heading as int, order.target_tile) {
                    if !view.has_driver || still_waits(times, me.0, view.now) {
                        (SiegeAction::Wait, order, times)
                    } else {
                        (
                            SiegeAction::Strike(force as u8),
                            order,
                            times.insert(me.0, (view.now + SIEGE_COOLDOWN_TICKS) as u64),
                        )
                    }
                } else if view.under_way || just_tried(order, view.now) {
                    (SiegeAction::Wait, order, times)
                } else {
                    (
                        match wall_berth(cells, terrain, at, me, order.target_tile, v.z as int) {
                            Some(t) => SiegeAction::Approach(t),
                            None => SiegeAction::Wait,
                        },
                        SiegeOrder { last_route_attempt_tick: view.now, ..order },
                        times,
                    )
                }
            },
        }
    }
}

/// One tick of a siege. An engine beside the wall strikes when it has a driver and its wait is
/// over; one further off plans its way now and then. The order ends when the wall is gone or the
/// engine has no ram.
pub fn siege_step(
    view: &SiegeView,
    data: &VehicleData,
    v: &Vehicle,
    me: Entity,
    terrain: &TerrainWindow,
    occupancy: &VehicleOccupancyIndex,
    order: &mut SiegeOrder,
    cooldowns: &mut ahash::AHashMap<u64, u64>,
) -> (action: SiegeAction)
    requires
        terrain.wf(),
        view.now + SIEGE_COOLDOWN_TICKS <= u64::MAX,
        room_around(old(order).target_tile, 1),
        view.design matches Some(d) ==> footprint_ready(d.grid.cells@) && cover_fits(
            d.grid.cells@,
            v.anchor_tile,
            v.heading as int,
        ),
    ensures
        (action, *final(order), siege_times(*final(cooldowns))) == siege_outcome(
            *view,
            *data,
            *v,
            me,
            *terrain,
            occupancy.at(),
            *old(order),
            siege_times(*old(cooldowns)),
        ),
{
    if !view.wall_stands {
        return SiegeAction::DropOrder;
    }
    match view.design {
        None => SiegeAction::Wait,
        Some(design) => {
            let force: u8 = design_siege_damage(design, data);
            if force == 0 {
                return SiegeAction::DropOrder;
            }
            if footprint_reaches(design, v.anchor_tile, v.heading, order.target_tile) {
                if !view.has_driver {
                    return SiegeAction::Wait;
                }
                match siege_time(cooldowns, me.0) {
                    Some(t) => {
                        if view.now < t {
                            return SiegeAction::Wait;
                        }
                    },
                    None => {},
                }
                set_siege_time(cooldowns, me.0, view.now + SIEGE_COOLDOWN_TICKS);
                return SiegeAction::Strike(force);
            }
            if view.under_way {
                return SiegeAction::Wait;
            }
            let since: u64 = if view.now >= order.last_route_attempt_tick {
                view.now - order.last_route_attempt_tick
            } else {
                0
            };
            if since < SIEGE_REROUTE_TICKS {
                return SiegeAction::Wait;
            }
            order.last_route_attempt_tick = view.now;
            match find_passable_adjacent_to_wall(
                order.target_tile,
                v.z,
                me,
                design,
                terrain,
                occupancy,
            ) {
                Some(t) => SiegeAction::Approach(t),
                None => SiegeAction::Wait,
            }
        },
    }
}

/// A strike is led: an engine strikes only a wall that stands, with a driver aboard, from a design
/// that is known, and when its wait is over. Only a strike makes an engine wait, sixty ticks from
/// now, and it makes no other engine wait.
pub proof fn strikes_are_led(
    view: SiegeView,
    data: VehicleData,
    v: Vehicle,
    me: Entity,
    terrain: TerrainWindow,
    at: Map<(i32, i32), Entity>,
    order: SiegeOrder,
    times: Map<u64, u64>,
    other: u64,
)
    requires
        view.now + 60 <= u64::MAX,
    ensures
        ({
            let (action, order_after, times_after) = siege_outcome(
                view,
                data,
                v,
                me,
                terrain,
                at,
                order,
                times,
            );
            &&& action is Strike ==> view.wall_stands && view.has_driver && view.design is Some
            &&& action is Strike && times.dom().contains(me.0) ==> times[me.0] <= view.now
            &&& !view.has_driver ==> !(action is Strike)
            &&& !(action is Strike) ==> times_after == times
            &&& action is Strike ==> times_after.dom().contains(me.0) && times_after[me.0]
                == view.now + 60
            &&& other != me.0 ==> times_after.dom().contains(other) == times.dom().contains(other)
                && times_after[other] == times[other]
            &&& order_after.target_tile == order.target_tile
        }),
{
}

/// An engine with a driver whose wait is over, one of whose tiles is the wall's or touches it,
/// strikes a standing wall with all of its rams. Without a tile so near it does not strike.
pub proof fn engines_strike_what_they_touch(
    view: SiegeView,
    data: VehicleData,
    v: Vehicle,
    me: Entity,
    terrain: TerrainWindow,
    at: Map<(i32, i32), Entity>,
    order: SiegeOrder,
    times: Map<u64, u64>,
)
    requires
        view.wall_stands,
        view.design is Some,
        siege_damage((view.design->0).grid.modules@, data) > 0,
    ensures
        ({
            let d = view.design->0;
            let near = exists|t: (i32, i32)| #[trigger]
                covered(d.grid.cells@, v.anchor_tile, v.heading as int).contains(t) && -1 <= t.0
                    - order.target_tile.0 <= 1 && -1 <= t.1 - order.target_tile.1 <= 1;
            let (action, order_after, times_after) = siege_outcome(
                view,
                data,
                v,
                me,
                terrain,
                at,
                order,
                times,
            );
            &&& near && view.has_driver && (times.dom().contains(me.0) ==> times[me.0] <= view.now)
                ==> action == SiegeAction::Strike(siege_damage(d.grid.modules@, data) as u8)
            &&& near ==> order_after == order && !(action is Approach)
            &&& !near ==> !(action is Strike)
        }),
{
    let cells = (view.design->0).grid.cells@;
    let list = covered(cells, v.anchor_tile, v.heading as int);
    if reaches_spec(cells, v.anchor_tile, v.heading as int, order.target_tile) {
        let i = choose|i: int|
            0 <= i < list.len() && tile_distance(#[trigger] list[i], order.target_tile) <= 1;
        assert(list.contains(list[i]));
    }
    if exists|t: (i32, i32)| #[trigger] list.contains(t) && -1 <= t.0 - order.target_tile.0 <= 1
        && -1 <= t.1 - order.target_tile.1 <= 1 {
        let t = choose|t: (i32, i32)| #[trigger] list.contains(t) && -1 <= t.0
            - order.target_tile.0 <= 1 && -1 <= t.1 - order.target_tile.1 <= 1;
        let i = choose|i: int| 0 <= i < list.len() && list[i] == t;
        assert(tile_distance(list[i], order.target_tile) <= 1);
    }
}

/// The order ends exactly when the wall is gone, or when the design is known and no module of it
/// rams.
pub proof fn sieges_end_with_wall_or_ram(
    view: SiegeView,
    data: VehicleData,
    v: Vehicle,
    me: Entity,
    terrain: TerrainWindow,
    at: Map<(i32, i32), Entity>,
    order: SiegeOrder,
    times: Map<u64, u64>,
)
    ensures
        siege_outcome(view, data, v, me, terrain, at, order, times).0 is DropOrder <==> (
        !view.wall_stands || (view.design is Some && forall|i: int|
            0 <= i < (view.design->0).grid.modules@.len() ==> (data.module_spec(
                (#[trigger] (view.design->0).grid.modules@[i]).def,
            ) matches Some(d) ==> d.siege_damage == 0))),
{
    if view.design is Some {
        siege_needs_a_ram((view.design->0).grid.modules@, data);
    }
}

/// An engine sets out only while it is not under way and thirty ticks after it last tried, to a
/// tile that touches the wall; that it tried is noted, and nothing else of the order changes.
pub proof fn engines_approach_now_and_again(
    view: SiegeView,
    data: VehicleData,
    v: Vehicle,
    me: Entity,
    terrain: TerrainWindow,
    at: Map<(i32, i32), Entity>,
    order: SiegeOrder,
    times: Map<u64, u64>,
)
    requires
        room_around(order.target_tile, 1),
    ensures
        ({
            let (action, order_after, times_after) = siege_outcome(
                view,
                data,
                v,
                me,
                terrain,
                at,
                order,
                times,
            );
            let wall = order.target_tile;
            &&& action matches SiegeAction::Approach(t) ==> {
                &&& -1 <= t.0 - wall.0 <= 1 && -1 <= t.1 - wall.1 <= 1 && t != wall
                &&& !view.under_way
                &&& view.now >= order.last_route_attempt_tick + 30
                &&& order_after.last_route_attempt_tick == view.now
            }
            &&& order_after == order || (order_after.target_tile == wall
                && order_after.last_route_attempt_tick == view.now && !view.under_way && view.now
                >= order.last_route_attempt_tick + 30 && view.wall_stands)
        }),
{
    if view.design is Some {
        berths_touch_the_wall(
            (view.design->0).grid.cells@,
            terrain,
            at,
            me,
            order.target_tile,
            v.z as int,
        );
    }
}

/// Each further ram adds its own damage to a strike, up to 255 in all; without modules there is
/// none.
pub proof fn rams_add_up(
    modules: Seq<VehicleModuleInstance>,
    m: VehicleModuleInstance,
    data: VehicleData,
)
    ensures
        siege_damage(Seq::empty(), data) == 0,
        ({
            let with = siege_damage(modules.push(m), data);
            let without = siege_damage(modules, data);
            match data.module_spec(m.def) {
                Some(d) => with == without + d.siege_damage || (with == 255 && without
                    + d.siege_damage > 255),
                None => with == without,
            }
        }),
{
    let n = modules.len() as int;
    let f = ram_damage(modules, data);
    let g = ram_damage(modules.push(m), data);
    ram_sum(modules, data, n);
    assert forall|i: int| 0 <= i < n implies #[trigger] f(i) == g(i) by {
        assert(modules.push(m)[i] == modules[i]);
    }
    sum_agrees(n, f, g);
    assert(modules.push(m)[n] == m);
}

} // verus!
