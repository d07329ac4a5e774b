//! Which tiles vehicles stand on, and where one may stand or step off.

use vstd::prelude::*;
use crate::design::{VehicleDesign, VehicleDesignRegistry};
use crate::footprint::{
    cover_fits, covered, footprint_ready, footprint_tiles, levels_of, VehicleFootprint,
};
use crate::geometry::{max, tile_distance, IVec3};
use crate::grid::VehicleCell;
use crate::parts::Entity;
use crate::rings::{
    moved, rings, rings_between, rings_go_outward, rings_hold, room_around, Walk,
};
use crate::seqs::{find, find_is_first, find_is_none, first_where};
use crate::terrain::TerrainWindow;
use crate::tiles::{
    add_tile, clear_entities, entities_at, entity_at, has_tile, no_entities, no_tiles, put_entity,
    tiles_in,
};
use crate::vehicle::Vehicle;

verus! {

/// The vehicle that stands on each tile. A tile belongs to one vehicle, whatever the level.
pub struct VehicleOccupancyIndex(pub ahash::AHashMap<(i32, i32), Entity>);

/// A map with every tile of a list given to one vehicle.
pub open spec fn stamped(
    m: Map<(i32, i32), Entity>,
    e: Entity,
    tiles: Seq<(i32, i32)>,
    n: int,
) -> Map<(i32, i32), Entity>
    decreases n,
{
    if n <= 0 {
        m
    } else {
        stamped(m, e, tiles, n - 1).insert(tiles[n - 1], e)
    }
}

/// The tiles of a vehicle, where its design is known.
pub open spec fn stands_on(r: VehicleDesignRegistry, v: Vehicle) -> Seq<(i32, i32)> {
    match r.lookup(v.design_id) {
        Some(d) => covered(d.grid.cells@, v.anchor_tile, v.heading as int),
        None => Seq::empty(),
    }
}

/// The index after the first `n` vehicles, one after the other.
pub open spec fn stamped_all(
    r: VehicleDesignRegistry,
    vehicles: Seq<(Entity, Vehicle)>,
    n: int,
) -> Map<(i32, i32), Entity>
    decreases n,
{
    if n <= 0 {
        Map::empty()
    } else {
        let (e, v) = vehicles[n - 1];
        let tiles = stands_on(r, v);
        stamped(stamped_all(r, vehicles, n - 1), e, tiles, tiles.len() as int)
    }
}

/// Every vehicle of known design has a footprint whose tiles fit in `i32`.
pub open spec fn vehicles_fit(r: VehicleDesignRegistry, vehicles: Seq<(Entity, Vehicle)>) -> bool {
    forall|i: int|
        0 <= i < vehicles.len() ==> match r.lookup((#[trigger] vehicles[i]).1.design_id) {
            Some(d) => footprint_ready(d.grid.cells@) && cover_fits(
                d.grid.cells@,
                vehicles[i].1.anchor_tile,
                vehicles[i].1.heading as int,
            ),
            None => true,
        }
}

impl VehicleOccupancyIndex {
    /// The vehicle on each tile.
    pub open spec fn at(self) -> Map<(i32, i32), Entity> {
        entities_at(self.0)
    }

    pub fn new() -> (x: VehicleOccupancyIndex)
        ensures
            x.at() == Map::<(i32, i32), Entity>::empty(),
    {
        VehicleOccupancyIndex(no_entities())
    }

    /// The vehicle on a tile.
    pub fn occupant(&self, t: (i32, i32)) -> (r: Option<Entity>)
        ensures
            r == (if self.at().dom().contains(t) {
                Some(self.at()[t])
            } else {
                None
            }),
    {
        entity_at(&self.0, t)
    }

    /// Gives a tile to a vehicle.
    pub fn register(&mut self, t: (i32, i32), e: Entity)
        ensures
            final(self).at() == old(self).at().insert(t, e),
    {
        put_entity(&mut self.0, t, e);
    }
}

/// Rebuilds the index from the vehicles that there are. Where two overlap the later one has
/// the tile.
pub fn vehicle_occupancy_sync_system(
    index: &mut VehicleOccupancyIndex,
    registry: &VehicleDesignRegistry,
    vehicles: &Vec<(Entity, Vehicle)>,
)
    requires
        registry.wf(),
        vehicles_fit(*registry, vehicles@),
    ensures
        final(index).at() == stamped_all(*registry, vehicles@, vehicles@.len() as int),
{
    clear_entities(&mut index.0);
    let mut i: usize = 0;
    while i < vehicles.len()
        invariant
            i <= vehicles.len(),
            registry.wf(),
            vehicles_fit(*registry, vehicles@),
            index.at() == stamped_all(*registry, vehicles@, i as int),
        decreases vehicles.len() - i,
    {
        let (e, v) = vehicles[i];
        assert(vehicles@[i as int].1 == v);
        match registry.get(v.design_id) {
            Some(design) => {
                let tiles = footprint_tiles(design, v.anchor_tile, v.heading);
                let ghost start = index.at();
                let mut k: usize = 0;
                while k < tiles.len()
                    invariant
                        k <= tiles.len(),
                        index.at() == stamped(start, e, tiles@, k as int),
                    decreases tiles.len() - k,
                {
                    index.register(tiles[k], e);
                    k += 1;
                }
            },
            None => {},
        }
        i += 1;
    }
}

proof fn stamped_holds(
    m: Map<(i32, i32), Entity>,
    e: Entity,
    tiles: Seq<(i32, i32)>,
    n: int,
    t: (i32, i32),
)
    requires
        0 <= n <= tiles.len(),
    ensures
        tiles.take(n).contains(t) ==> stamped(m, e, tiles, n).dom().contains(t) && stamped(
            m,
            e,
            tiles,
            n,
        )[t] == e,
        !tiles.take(n).contains(t) ==> stamped(m, e, tiles, n).dom().contains(t) == m.dom().contains(
            t,
        ) && (m.dom().contains(t) ==> stamped(m, e, tiles, n)[t] == m[t]),
    decreases n,
{
    if n > 0 {
        stamped_holds(m, e, tiles, n - 1, t);
        let a = tiles.take(n - 1);
        let b = tiles.take(n);
        if b.contains(t) {
            let k = choose|k: int| 0 <= k < b.len() && b[k] == t;
            if k < n - 1 {
                assert(a[k] == t);
            }
        }
        if a.contains(t) {
            let k = choose|k: int| 0 <= k < a.len() && a[k] == t;
            assert(b[k] == t);
        }
        assert(b[n - 1] == tiles[n - 1]);
    }
}

/// A tile is occupied exactly when some vehicle stands on it, and the index names a vehicle that
/// does.
pub proof fn occupied_tiles_have_a_vehicle(
    r: VehicleDesignRegistry,
    vehicles: Seq<(Entity, Vehicle)>,
    t: (i32, i32),
)
    ensures
        ({
            let m = stamped_all(r, vehicles, vehicles.len() as int);
            &&& m.dom().contains(t) <==> exists|i: int|
                0 <= i < vehicles.len() && stands_on(r, (#[trigger] vehicles[i]).1).contains(t)
            &&& m.dom().contains(t) ==> exists|i: int|
                0 <= i < vehicles.len() && stands_on(r, (#[trigger] vehicles[i]).1).contains(t)
                    && vehicles[i].0 == m[t]
        }),
{
    stamped_all_holds(r, vehicles, vehicles.len() as int, t);
}

proof fn stamped_all_holds(
    r: VehicleDesignRegistry,
    vehicles: Seq<(Entity, Vehicle)>,
    n: int,
    t: (i32, i32),
)
    requires
        0 <= n <= vehicles.len(),
    ensures
        ({
            let m = stamped_all(r, vehicles, n);
            &&& m.dom().contains(t) <==> exists|i: int|
                0 <= i < n && stands_on(r, (#[trigger] vehicles[i]).1).contains(t)
            &&& m.dom().contains(t) ==> exists|i: int|
                0 <= i < n && stands_on(r, (#[trigger] vehicles[i]).1).contains(t)
                    && vehicles[i].0 == m[t]
        }),
    decreases n,
{
    if n > 0 {
        stamped_all_holds(r, vehicles, n - 1, t);
        let before = stamped_all(r, vehicles, n - 1);
        let (e, v) = vehicles[n - 1];
        let tiles = stands_on(r, v);
        stamped_holds(before, e, tiles, tiles.len() as int, t);
        assert(tiles.take(tiles.len() as int) =~= tiles);
        assert(vehicles[n - 1].1 == v);
        if !tiles.contains(t) && before.dom().contains(t) {
            let i = choose|i: int|
                0 <= i < n - 1 && stands_on(r, (#[trigger] vehicles[i]).1).contains(t)
                    && vehicles[i].0 == before[t];
            assert(stands_on(r, vehicles[i].1).contains(t) && vehicles[i].0 == stamped_all(
                r,
                vehicles,
                n,
            )[t]);
        }
        if exists|i: int| 0 <= i < n && stands_on(r, (#[trigger] vehicles[i]).1).contains(t) {
            let i = choose|i: int|
                0 <= i < n && stands_on(r, (#[trigger] vehicles[i]).1).contains(t);
            if i < n - 1 {
                assert(before.dom().contains(t));
            }
        }
    }
}

/// A tile is free for `me`: nothing stands there, or `me` does.
pub open spec fn free_for(
    at: Map<(i32, i32), Entity>,
    t: (i32, i32),
    me: Option<Entity>,
) -> bool {
    at.dom().contains(t) ==> me == Some(at[t])
}

/// A tile can carry a body of `height` levels at level `z`: it can be entered, there is room
/// above, and no other vehicle stands on it.
pub open spec fn cell_open(
    terrain: TerrainWindow,
    at: Map<(i32, i32), Entity>,
    me: Option<Entity>,
    t: (i32, i32),
    z: int,
    height: int,
) -> bool {
    &&& terrain.passable(t.0 as int, t.1 as int, z)
    &&& terrain.tile(t.0 as int, t.1 as int) matches Some(i) && i.clearance >= height
    &&& free_for(at, t, me)
}

/// Whether a tile can carry a body.
pub fn is_cell_open(
    terrain: &TerrainWindow,
    occupancy: &VehicleOccupancyIndex,
    me: Option<Entity>,
    t: (i32, i32),
    z: i32,
    height: i32,
) -> (b: bool)
    requires
        terrain.wf(),
    ensures
        b == cell_open(*terrain, occupancy.at(), me, t, z as int, height as int),
{
    if !terrain.passable_at(t.0, t.1, z) {
        return false;
    }
    match terrain.at(t.0, t.1) {
        Some(i) => {
            if i.clearance < height {
                return false;
            }
        },
        None => {
            return false;
        },
    }
    match occupancy.occupant(t) {
        Some(o) => match me {
            Some(m) => m == o,
            None => false,
        },
        None => true,
    }
}

/// The levels that a body needs, at least one.
pub open spec fn headroom(cells: Seq<(IVec3, VehicleCell)>) -> int {
    max(levels_of(cells) as int, 1)
}

/// A body can stand at `anchor` facing `heading`: every tile that it would cover can carry it.
pub open spec fn stance_open(
    cells: Seq<(IVec3, VehicleCell)>,
    terrain: TerrainWindow,
    at: Map<(i32, i32), Entity>,
    me: Option<Entity>,
    anchor: (i32, i32),
    z: int,
    heading: int,
) -> bool {
    forall|i: int|
        0 <= i < covered(cells, anchor, heading).len() ==> cell_open(
            terrain,
            at,
            me,
            #[trigger] covered(cells, anchor, heading)[i],
            z,
            headroom(cells),
        )
}

/// Whether a design can stand somewhere.
pub fn is_stance_open(
    design: &VehicleDesign,
    terrain: &TerrainWindow,
    occupancy: &VehicleOccupancyIndex,
    me: Option<Entity>,
    anchor: (i32, i32),
    z: i8,
    heading: u8,
) -> (b: bool)
    requires
        terrain.wf(),
        footprint_ready(design.grid.cells@),
        cover_fits(design.grid.cells@, anchor, heading as int),
    ensures
        b == stance_open(
            design.grid.cells@,
            *terrain,
            occupancy.at(),
            me,
            anchor,
            z as int,
            heading as int,
        ),
{
    let f = VehicleFootprint::from_grid(&design.grid);
    let height: i32 = if f.height_z == 0 {
        1
    } else {
        f.height_z as i32
    };
    let tiles = footprint_tiles(design, anchor, heading);
    let mut i: usize = 0;
    while i < tiles.len()
        invariant
            i <= tiles.len(),
            terrain.wf(),
            height == headroom(design.grid.cells@),
            tiles@ == covered(design.grid.cells@, anchor, heading as int),
            forall|j: int|
                0 <= j < i ==> cell_open(
                    *terrain,
                    occupancy.at(),
                    me,
                    #[trigger] tiles@[j],
                    z as int,
                    height as int,
                ),
        decreases tiles.len() - i,
    {
        if !is_cell_open(terrain, occupancy, me, tiles[i], z as i32, height) {
            assert(!cell_open(
                *terrain,
                occupancy.at(),
                me,
                tiles@[i as int],
                z as int,
                height as int,
            ));
            return false;
        }
        i += 1;
    }
    true
}

/// The tiles at given offsets around one.
pub open spec fn around(t: (i32, i32), offsets: Seq<(i32, i32)>) -> Seq<(i32, i32)> {
    Seq::new(offsets.len(), |i: int| moved(t, offsets[i]))
}

/// How far from the vehicle riders look for a place to step off.
pub const DISEMBARK_SEARCH_RADIUS: u32 = 6;

/// A rider can step onto a tile: it is outside the footprint, nobody chose it before, no vehicle
/// stands there, and it can be entered.
pub open spec fn can_land(
    terrain: TerrainWindow,
    at: Map<(i32, i32), Entity>,
    footprint: Set<(i32, i32)>,
    used: Set<(i32, i32)>,
    z: int,
) -> spec_fn((i32, i32)) -> bool {
    |t: (i32, i32)|
        {
            &&& !footprint.contains(t)
            &&& !used.contains(t)
            &&& !at.dom().contains(t)
            &&& terrain.passable(t.0 as int, t.1 as int, z)
        }
}

/// Where a rider steps off: the first suitable tile, ring by ring.
pub open spec fn landing(
    terrain: TerrainWindow,
    at: Map<(i32, i32), Entity>,
    footprint: Set<(i32, i32)>,
    used: Set<(i32, i32)>,
    anchor: (i32, i32),
    z: int,
) -> Option<(i32, i32)> {
    find(
        around(anchor, rings(1, DISEMBARK_SEARCH_RADIUS as int, Walk::Columns)),
        can_land(terrain, at, footprint, used, z),
    )
}

/// The tile on which a rider steps off.
pub fn find_disembark_landing(
    anchor: (i32, i32),
    z: i8,
    footprint: &ahash::AHashSet<(i32, i32)>,
    used: &ahash::AHashSet<(i32, i32)>,
    terrain: &TerrainWindow,
    occupancy: &VehicleOccupancyIndex,
) -> (r: Option<(i32, i32)>)
    requires
        terrain.wf(),
        room_around(anchor, DISEMBARK_SEARCH_RADIUS as int),
    ensures
        r == landing(
            *terrain,
            occupancy.at(),
            tiles_in(*footprint),
            tiles_in(*used),
            anchor,
            z as int,
        ),
{
    let offsets = rings_between(1, DISEMBARK_SEARCH_RADIUS, Walk::Columns);
    let ghost p = can_land(
        *terrain,
        occupancy.at(),
        tiles_in(*footprint),
        tiles_in(*used),
        z as int,
    );
    let ghost all = around(anchor, offsets@);
    let mut i: usize = 0;
    while i < offsets.len()
        invariant
            i <= offsets.len(),
            terrain.wf(),
            room_around(anchor, DISEMBARK_SEARCH_RADIUS as int),
            offsets@ == rings(1, DISEMBARK_SEARCH_RADIUS as int, Walk::Columns),
            all == around(anchor, offsets@),
            p == can_land(
                *terrain,
                occupancy.at(),
                tiles_in(*footprint),
                tiles_in(*used),
                z as int,
            ),
            forall|j: int| 0 <= j < i ==> !p(#[trigger] all[j]),
        decreases offsets.len() - i,
    {
        let o = offsets[i];
        proof {
            rings_hold(1, DISEMBARK_SEARCH_RADIUS as int, Walk::Columns, o);
            assert(offsets@.contains(o)) by {
                assert(offsets@[i as int] == o);
            }
        }
        let t: (i32, i32) = (anchor.0 + o.0, anchor.1 + o.1);
        assert(all[i as int] == t);
        let blocked: bool = has_tile(footprint, t) || has_tile(used, t) || occupancy.occupant(
            t,
        ).is_some();
        if !blocked && terrain.passable_at(t.0, t.1, z as i32) {
            proof {
                find_is_first(all, p, i as int);
            }
            return Some(t);
        }
        assert(!p(all[i as int]));
        i += 1;
    }
    proof {
        find_is_none(all, p);
    }
    None
}

/// Where `n` riders step off, one after the other; none shares a tile with an earlier one.
pub open spec fn landings(
    terrain: TerrainWindow,
    at: Map<(i32, i32), Entity>,
    footprint: Set<(i32, i32)>,
    anchor: (i32, i32),
    z: int,
    n: int,
) -> Seq<Option<(i32, i32)>>
    decreases n,
{
    if n <= 0 {
        Seq::empty()
    } else {
        let before = landings(terrain, at, footprint, anchor, z, n - 1);
        before.push(landing(terrain, at, footprint, chosen(before), anchor, z))
    }
}

/// The tiles that were chosen.
pub open spec fn chosen(list: Seq<Option<(i32, i32)>>) -> Set<(i32, i32)> {
    Set::new(|t: (i32, i32)| list.contains(Some(t)))
}

/// The tiles on which the riders of a vehicle step off.
pub fn disembark_all(
    design: &VehicleDesign,
    vehicle: &Vehicle,
    riders: usize,
    terrain: &TerrainWindow,
    occupancy: &VehicleOccupancyIndex,
) -> (list: Vec<Option<(i32, i32)>>)
    requires
        terrain.wf(),
        room_around(vehicle.anchor_tile, DISEMBARK_SEARCH_RADIUS as int),
        footprint_ready(design.grid.cells@),
        cover_fits(design.grid.cells@, vehicle.anchor_tile, vehicle.heading as int),
    ensures
        list@ == landings(
            *terrain,
            occupancy.at(),
            covered(
                design.grid.cells@,
                vehicle.anchor_tile,
                vehicle.heading as int,
            ).to_set(),
            vehicle.anchor_tile,
            vehicle.z as int,
            riders as int,
        ),
{
    let tiles = footprint_tiles(design, vehicle.anchor_tile, vehicle.heading);
    let mut footprint = no_tiles();
    let mut k: usize = 0;
    while k < tiles.len()
        invariant
            k <= tiles.len(),
            forall|t: (i32, i32)|
                tiles_in(footprint).contains(t) <==> exists|j: int|
                    0 <= j < k && #[trigger] tiles@[j] == t,
        decreases tiles.len() - k,
    {
        let ghost before = tiles_in(footprint);
        add_tile(&mut footprint, tiles[k]);
        proof {
            assert forall|t: (i32, i32)|
                tiles_in(footprint).contains(t) <==> exists|j: int|
                    0 <= j < k + 1 && #[trigger] tiles@[j] == t by {
                if t == tiles@[k as int] {
                    assert(tiles@[k as int] == t);
                } else if before.contains(t) {
                    let j = choose|j: int| 0 <= j < k && #[trigger] tiles@[j] == t;
                    assert(tiles@[j] == t);
                }
            }
        }
        k += 1;
    }
    assert(tiles_in(footprint) =~= tiles@.to_set());
    let mut used = no_tiles();
    let mut list: Vec<Option<(i32, i32)>> = Vec::new();
    let mut n: usize = 0;
    assert(tiles_in(used) =~= chosen(list@));
    while n < riders
        invariant
            n <= riders,
            terrain.wf(),
            room_around(vehicle.anchor_tile, DISEMBARK_SEARCH_RADIUS as int),
            tiles_in(footprint) == tiles@.to_set(),
            tiles_in(used) == chosen(list@),
            list@ == landings(
                *terrain,
                occupancy.at(),
                tiles@.to_set(),
                vehicle.anchor_tile,
                vehicle.z as int,
                n as int,
            ),
        decreases riders - n,
    {
        let spot = find_disembark_landing(
            vehicle.anchor_tile,
            vehicle.z,
            &footprint,
            &used,
            terrain,
            occupancy,
        );
        let ghost before = list@;
        list.push(spot);
        match spot {
            Some(t) => {
                add_tile(&mut used, t);
            },
            None => {},
        }
        proof {
            assert forall|t: (i32, i32)|
                chosen(list@).contains(t) <==> chosen(before).contains(t) || spot == Some(t) by {
                if before.contains(Some(t)) {
                    let j = choose|j: int| 0 <= j < before.len() && before[j] == Some(t);
                    assert(list@[j] == Some(t));
                }
                if spot == Some(t) {
                    assert(list@[before.len() as int] == Some(t));
                }
                if list@.contains(Some(t)) && spot != Some(t) {
                    let j = choose|j: int| 0 <= j < list@.len() && list@[j] == Some(t);
                    assert(before[j] == Some(t));
                }
            }
            assert(tiles_in(used) =~= chosen(list@));
        }
        n += 1;
    }
    list
}

/// Riders never land on each other, under the vehicle, on another vehicle or in a place that
/// cannot be entered, and never further off than the search radius.
pub proof fn landings_are_apart(
    terrain: TerrainWindow,
    at: Map<(i32, i32), Entity>,
    footprint: Set<(i32, i32)>,
    anchor: (i32, i32),
    z: int,
    n: int,
)
    requires
        room_around(anchor, DISEMBARK_SEARCH_RADIUS as int),
        n >= 0,
    ensures
        landings(terrain, at, footprint, anchor, z, n).len() == n,
        forall|i: int, j: int|
            0 <= i < j < n && (#[trigger] landings(terrain, at, footprint, anchor, z, n)[i])
                is Some ==> landings(terrain, at, footprint, anchor, z, n)[i]
                != #[trigger] landings(terrain, at, footprint, anchor, z, n)[j],
        forall|i: int|
            0 <= i < n ==> match #[trigger] landings(terrain, at, footprint, anchor, z, n)[i] {
                Some(t) => {
                    &&& !footprint.contains(t)
                    &&& !at.dom().contains(t)
                    &&& terrain.passable(t.0 as int, t.1 as int, z)
                    &&& 1 <= tile_distance(t, anchor) <= DISEMBARK_SEARCH_RADIUS
                },
                None => true,
            },
    decreases n,
{
    if n > 0 {
        landings_are_apart(terrain, at, footprint, anchor, z, n - 1);
        let before = landings(terrain, at, footprint, anchor, z, n - 1);
        let offsets = rings(1, DISEMBARK_SEARCH_RADIUS as int, Walk::Columns);
        let all = around(anchor, offsets);
        let p = can_land(terrain, at, footprint, chosen(before), z);
        find_is_none(all, p);
        let last = landing(terrain, at, footprint, chosen(before), anchor, z);
        if last is Some {
            let t = last->0;
            assert(p(t));
            let k = choose|k: int| 0 <= k < all.len() && all[k] == t;
            assert(offsets.contains(offsets[k]));
            rings_hold(1, DISEMBARK_SEARCH_RADIUS as int, Walk::Columns, offsets[k]);
            assert(!chosen(before).contains(t));
        }
        let after = landings(terrain, at, footprint, anchor, z, n);
        assert forall|i: int, j: int| 0 <= i < j < n && (#[trigger] after[i]) is Some implies after[i]
            != #[trigger] after[j] by {
            assert(after[i] == before[i]);
            if j == n - 1 {
                if last == after[i] {
                    assert(before.contains(last));
                }
            } else {
                assert(after[j] == before[j]);
            }
        }
        assert forall|i: int| 0 <= i < n implies match #[trigger] after[i] {
            Some(t) => {
                &&& !footprint.contains(t)
                &&& !at.dom().contains(t)
                &&& terrain.passable(t.0 as int, t.1 as int, z)
                &&& 1 <= tile_distance(t, anchor) <= DISEMBARK_SEARCH_RADIUS
            },
            None => true,
        } by {
            if i < n - 1 {
                assert(after[i] == before[i]);
            }
        }
    }
}

/// A search that walks the rings around a tile finds a match if there is one from distance `lo` to
/// distance `hi`, and then none that is nearer is passed over.
pub proof fn the_nearest_match_is_found(
    t: (i32, i32),
    lo: int,
    hi: int,
    walk: Walk,
    p: spec_fn((i32, i32)) -> bool,
    other: (i32, i32),
)
    requires
        0 <= lo,
        hi <= i32::MAX,
        room_around(t, hi),
    ensures
        match find(around(t, rings(lo, hi, walk)), p) {
            Some(f) => p(f) && lo <= tile_distance(f, t) <= hi && (p(other) && lo <= tile_distance(
                other,
                t,
            ) ==> tile_distance(f, t) <= tile_distance(other, t)),
            None => p(other) ==> tile_distance(other, t) < lo || hi < tile_distance(other, t),
        },
{
    let offsets = rings(lo, hi, walk);
    let all = around(t, offsets);
    find_is_none(all, p);
    let near = lo <= tile_distance(other, t) <= hi;
    if near && p(other) {
        let o = ((other.0 - t.0) as i32, (other.1 - t.1) as i32);
        rings_hold(lo, hi, walk, o);
        let j = choose|j: int| 0 <= j < offsets.len() && offsets[j] == o;
        assert(all[j] == other);
        assert(p(all[j]));
    }
    if find(all, p) is Some {
        let f = find(all, p)->0;
        let k = choose|k: int| first_where(all, p, k);
        assert(first_where(all, p, k)) by {
            let i = choose|i: int| 0 <= i < all.len() && all[i] == f;
            if !(exists|k: int| first_where(all, p, k)) {
                assert(find(all, p) is None);
            }
        }
        find_is_first(all, p, k);
        assert(offsets.contains(offsets[k]));
        rings_hold(lo, hi, walk, offsets[k]);
        if near && p(other) {
            let o = ((other.0 - t.0) as i32, (other.1 - t.1) as i32);
            let j = choose|j: int| 0 <= j < offsets.len() && offsets[j] == o;
            assert(all[j] == other);
            if j < k {
                assert(!p(all[j]));
            }
            rings_go_outward(lo, hi, walk, k, j);
        }
    }
}

/// A tile carries a body exactly when it can be entered at that level, has that much room above,
/// and no other vehicle stands there.
pub proof fn others_are_in_the_way(
    terrain: TerrainWindow,
    at: Map<(i32, i32), Entity>,
    me: Option<Entity>,
    t: (i32, i32),
    z: int,
    height: int,
    other: Entity,
    elsewhere: (i32, i32),
)
    requires
        me != Some(other),
        elsewhere != t,
    ensures
        cell_open(terrain, at, me, t, z, height) ==> terrain.passable(t.0 as int, t.1 as int, z),
        cell_open(terrain, at, me, t, z, height) ==> (terrain.tile(t.0 as int, t.1 as int) matches
            Some(g) && g.clearance >= height),
        !cell_open(terrain, at.insert(t, other), me, t, z, height),
        cell_open(terrain, at.insert(elsewhere, other), me, t, z, height) == cell_open(
            terrain,
            at,
            me,
            t,
            z,
            height,
        ),
        me matches Some(e) ==> cell_open(terrain, at.insert(t, e), me, t, z, height) == cell_open(
            terrain,
            at.remove(t),
            me,
            t,
            z,
            height,
        ),
        cell_open(terrain, at.remove(t), me, t, z, height) <==> terrain.passable(
            t.0 as int,
            t.1 as int,
            z,
        ) && (terrain.tile(t.0 as int, t.1 as int) matches Some(g) && g.clearance >= height),
{
}

/// A body needs as many levels of room as lie between its lowest and its highest cell, these two
/// with them, and one at least.
pub proof fn bodies_need_their_height(cells: Seq<(IVec3, VehicleCell)>, i: int, j: int)
    requires
        0 <= i < cells.len(),
        0 <= j < cells.len(),
        forall|k: int|
            0 <= k < cells.len() ==> cells[i].0.z <= (#[trigger] cells[k]).0.z <= cells[j].0.z,
        cells[j].0.z - cells[i].0.z < 255,
    ensures
        headroom(cells) == cells[j].0.z - cells[i].0.z + 1,
{
    crate::grid::bounding_box_is_box(cells);
    let b = crate::grid::bounding_box(cells);
    assert(b.0.z <= cells[i].0.z && cells[j].0.z <= b.1.z);
}

/// A rider steps off onto the nearest tile that will do, within six: outside the footprint, not
/// taken by another rider, without a vehicle, and open at the vehicle's level; and stays aboard
/// only if there is none.
pub proof fn riders_step_off_close_by(
    terrain: TerrainWindow,
    at: Map<(i32, i32), Entity>,
    footprint: Set<(i32, i32)>,
    used: Set<(i32, i32)>,
    anchor: (i32, i32),
    z: int,
    other: (i32, i32),
)
    requires
        room_around(anchor, 6),
    ensures
        ({
            let will_do = !footprint.contains(other) && !used.contains(other) && !at.dom().contains(
                other,
            ) && terrain.passable(other.0 as int, other.1 as int, z) && other != anchor;
            match landing(terrain, at, footprint, used, anchor, z) {
                Some(t) => {
                    &&& !footprint.contains(t) && !used.contains(t) && !at.dom().contains(t)
                    &&& terrain.passable(t.0 as int, t.1 as int, z)
                    &&& 1 <= tile_distance(t, anchor) <= 6
                    &&& will_do ==> tile_distance(t, anchor) <= tile_distance(other, anchor)
                },
                None => will_do ==> tile_distance(other, anchor) > 6,
            }
        }),
{
    let p = can_land(terrain, at, footprint, used, z);
    the_nearest_match_is_found(anchor, 1, 6, Walk::Columns, p, other);
}

/// Where the footprints of vehicles overlap, the tile belongs to the last of them.
pub proof fn the_last_vehicle_holds_the_tile(
    r: VehicleDesignRegistry,
    vehicles: Seq<(Entity, Vehicle)>,
    n: int,
    i: int,
    t: (i32, i32),
)
    requires
        0 <= i < n <= vehicles.len(),
        stands_on(r, vehicles[i].1).contains(t),
        forall|j: int| i < j < n ==> !stands_on(r, (#[trigger] vehicles[j]).1).contains(t),
    ensures
        stamped_all(r, vehicles, n).dom().contains(t),
        stamped_all(r, vehicles, n)[t] == vehicles[i].0,
    decreases n,
{
    let (e, v) = vehicles[n - 1];
    let tiles = stands_on(r, v);
    let before = stamped_all(r, vehicles, n - 1);
    stamps_hold(before, e, tiles, tiles.len() as int, t);
    if i < n - 1 {
        the_last_vehicle_holds_the_tile(r, vehicles, n - 1, i, t);
        assert(!stands_on(r, vehicles[n - 1].1).contains(t));
    }
    assert(tiles.take(tiles.len() as int) =~= tiles);
}

proof fn stamps_hold(
    m: Map<(i32, i32), Entity>,
    e: Entity,
    tiles: Seq<(i32, i32)>,
    n: int,
    t: (i32, i32),
)
    requires
        0 <= n <= tiles.len(),
    ensures
        tiles.take(n).contains(t) ==> stamped(m, e, tiles, n).dom().contains(t) && stamped(
            m,
            e,
            tiles,
            n,
        )[t] == e,
        !tiles.take(n).contains(t) ==> stamped(m, e, tiles, n).dom().contains(t)
            == m.dom().contains(t) && stamped(m, e, tiles, n)[t] == m[t],
    decreases n,
{
    if n > 0 {
        stamps_hold(m, e, tiles, n - 1, t);
        let shorter = tiles.take(n - 1);
        let longer = tiles.take(n);
        assert(longer =~= shorter.push(tiles[n - 1]));
        if shorter.contains(t) {
            let k = choose|k: int| 0 <= k < shorter.len() && shorter[k] == t;
            assert(longer[k] == t);
        }
        if tiles[n - 1] == t {
            assert(longer[n - 1] == t);
        }
        if longer.contains(t) && !shorter.contains(t) {
            let k = choose|k: int| 0 <= k < longer.len() && longer[k] == t;
            if k < n - 1 {
                assert(shorter[k] == t);
            }
        }
    }
}

} // verus!
