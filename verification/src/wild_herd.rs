//! Wild herds: mostly a number far away, a crowd of animals when somebody looks.

use vstd::prelude::*;
use crate::geometry::{
    abs, cheb, clamped, max, min, near_is_near_on_both_axes, sign, sign_of, tile_distance,
};
use crate::occupancy::{around, the_nearest_match_is_found};
use crate::parts::Entity;
use crate::rings::{rings, rings_between, rings_hold, room_around, Walk};
use crate::seqs::{
    collect, collect_contains, find, find_is_first, find_is_none, sum, sum_agrees,
};
use crate::terrain::{TerrainWindow, TileKind};
use crate::tiles::{add_tile, has_tile, no_tiles, tiles_in};

verus! {

/// How many herds a new world has.
pub const WILD_HERD_COUNT: u32 = 3;

/// How many heads a new herd has.
pub const WILD_HERD_AGGREGATE: u16 = 120;

/// A herd comes into view when the camera is this near.
pub const BLOOM_RADIUS_TILES: i32 = 32;

/// A herd in view is let go when the camera is farther off than this.
pub const COLLAPSE_RADIUS_TILES: i32 = 48;

/// At most this many animals of a herd come into view.
pub const BLOOM_VISIBLE_CAP: u16 = 60;

/// A threat this near makes a herd flee.
pub const HERD_FLEE_RADIUS: i32 = 8;

/// A herd keeps away from a camp this near.
pub const HERD_CAMP_AVOID_RADIUS: i32 = 10;

/// Heads born in a season.
pub const WILD_HERD_BIRTH_PER_SEASON: u16 = 12;

/// A herd does not grow beyond this.
pub const WILD_HERD_AGGREGATE_CAP: u16 = 200;

/// How far a herd smells water.
pub const HERD_WATER_PROBE_RADIUS: i32 = 12;

/// A herd with water this near does not look for any.
pub const HERD_WATER_NEAR: u32 = 4;

/// How far a herd strays from the middle of its range.
pub const HERD_RANGE_HALF: i32 = 30;

/// How far the range moves in winter.
pub const WINTER_SHIFT_TILES: i32 = 12;

/// How far the range moves in spring.
pub const SPRING_SHIFT_TILES: i32 = 12;

/// Animals that come into view stand this near to the leader.
pub const HERD_SPAWN_RADIUS: u32 = 4;

#[derive(Clone, Copy, Debug, PartialEq, Eq, Structural)]
pub enum WildHerdSpecies {
    Horse,
    Cow,
}

#[derive(Clone, Copy, Debug, PartialEq, Eq, Structural)]
pub enum Season {
    Spring,
    Summer,
    Autumn,
    Winter,
}

/// A herd.
#[derive(Debug)]
pub struct WildHerd {
    pub id: u32,
    pub species: WildHerdSpecies,
    /// Heads that are only a number.
    pub aggregate_count: u16,
    pub leader_tile: (i32, i32),
    /// The middle of the range, before the season moves it.
    pub range_center: (i32, i32),
    pub bloomed: bool,
    /// Animals in view.
    pub members: Vec<Entity>,
    /// The herd flees until then.
    pub flee_until_tick: u32,
    pub last_birthed_tick: u32,
    pub cluster_id: u32,
}

/// The herds in a map, by identity.
pub uninterp spec fn herds_in(m: ahash::AHashMap<u32, WildHerd>) -> Map<u32, WildHerd>;

/// `AHashMap::new` gives a map without herds.
#[verifier::external_body]
pub(crate) fn no_herds() -> (m: ahash::AHashMap<u32, WildHerd>)
    ensures
        (herds_in(m) == Map::<u32, WildHerd>::empty()),
{
    ahash::AHashMap::new()
}

/// `is_empty`, which `AHashMap` has from the standard hash map inside, says whether there is no
/// herd.
#[verifier::external_body]
pub(crate) fn has_no_herds(m: &ahash::AHashMap<u32, WildHerd>) -> (b: bool)
    ensures
        b == (herds_in(*m).dom() =~= Set::empty()),
{
    m.is_empty()
}

/// `AHashMap::insert` puts a herd under its identity, in place of any that was there.
#[verifier::external_body]
pub(crate) fn put_herd(m: &mut ahash::AHashMap<u32, WildHerd>, id: u32, herd: WildHerd)
    ensures
        herds_in(*final(m)) == herds_in(*old(m)).insert(id, herd),
{
    m.insert(id, herd);
}

/// `AHashMap::remove` takes a herd out and hands it over.
#[verifier::external_body]
pub(crate) fn take_herd(m: &mut ahash::AHashMap<u32, WildHerd>, id: u32) -> (r: Option<WildHerd>)
    ensures
        herds_in(*final(m)) == herds_in(*old(m)).remove(id),
        r == (if herds_in(*old(m)).dom().contains(id) {
            Some(herds_in(*old(m))[id])
        } else {
            None
        }),
{
    m.remove(&id)
}

/// `keys`, which `AHashMap` has from the standard hash map inside, gives each identity once, in
/// an order that is not known.
#[verifier::external_body]
pub(crate) fn herd_ids(m: &ahash::AHashMap<u32, WildHerd>) -> (ids: Vec<u32>)
    ensures
        ids@.no_duplicates(),
        forall|id: u32| ids@.contains(id) <==> herds_in(*m).dom().contains(id),
{
    m.keys().copied().collect()
}

/// All herds.
pub struct WildHerdRegistry {
    pub herds: ahash::AHashMap<u32, WildHerd>,
    pub next_id: u32,
}

/// A number within thirty-two bits, counted on from zero beyond them.
pub open spec fn wrapped(n: int) -> int {
    n % 0x1_0000_0000
}

pub open spec fn is_other(members: Seq<Entity>, e: Entity) -> spec_fn(int) -> bool {
    |i: int| members[i] != e
}

/// The animals but one.
pub open spec fn without(members: Seq<Entity>, e: Entity) -> Seq<Entity> {
    collect(members.len() as int, is_other(members, e), |i: int| members[i])
}

/// A herd without one of its animals.
pub open spec fn without_member(h: WildHerd, e: Entity, after: WildHerd) -> bool {
    &&& after.members@ == without(h.members@, e)
    &&& after.aggregate_count == max(h.aggregate_count - 1, 0)
    &&& after.id == h.id
    &&& after.species == h.species
    &&& after.leader_tile == h.leader_tile
    &&& after.range_center == h.range_center
    &&& after.bloomed == h.bloomed
    &&& after.flee_until_tick == h.flee_until_tick
    &&& after.last_birthed_tick == h.last_birthed_tick
    &&& after.cluster_id == h.cluster_id
}

impl WildHerdRegistry {
    /// The herds by identity.
    pub open spec fn at(self) -> Map<u32, WildHerd> {
        herds_in(self.herds)
    }

    pub fn new() -> (r: WildHerdRegistry)
        ensures
            r.at() == Map::<u32, WildHerd>::empty(),
            r.next_id == 0,
    {
        WildHerdRegistry { herds: no_herds(), next_id: 0 }
    }

    fn alloc_id(&mut self) -> (id: u32)
        ensures
            id == old(self).next_id,
            final(self).next_id == wrapped(old(self).next_id + 1),
            final(self).at() == old(self).at(),
    {
        let id: u32 = self.next_id;
        self.next_id = self.next_id.wrapping_add(1);
        id
    }

    /// An animal leaves its herd for good.
    pub fn remove_member(&mut self, herd_id: u32, entity: Entity)
        ensures
            final(self).next_id == old(self).next_id,
            final(self).at().dom() == old(self).at().dom(),
            forall|id: u32|
                id != herd_id && old(self).at().dom().contains(id) ==> #[trigger] final(self).at()[id]
                    == old(self).at()[id],
            old(self).at().dom().contains(herd_id) ==> without_member(
                old(self).at()[herd_id],
                entity,
                final(self).at()[herd_id],
            ),
    {
        match take_herd(&mut self.herds, herd_id) {
            Some(mut herd) => {
                let ghost start = herd;
                let ghost all = herd.members@;
                let ghost p = is_other(all, entity);
                let ghost mk = |i: int| all[i];
                let mut kept: Vec<Entity> = Vec::new();
                let mut i: usize = 0;
                while i < herd.members.len()
                    invariant
                        i <= herd.members.len(),
                        herd == start,
                        herd.members@ == all,
                        p == is_other(all, entity),
                        mk == (|i: int| all[i]),
                        kept@ == collect(i as int, p, mk),
                    decreases herd.members.len() - i,
                {
                    if herd.members[i] != entity {
                        kept.push(herd.members[i]);
                    }
                    i += 1;
                }
                herd.members = kept;
                herd.aggregate_count = herd.aggregate_count.saturating_sub(1);
                put_herd(&mut self.herds, herd_id, herd);
                assert(self.at().dom() =~= old(self).at().dom());
            },
            None => {
                assert(self.at().dom() =~= old(self).at().dom());
                assert(self.at() =~= old(self).at());
            },
        }
    }
}

/// The number from which the `i`th herd's place is drawn.
pub open spec fn seed_step(i: int) -> int
    decreases i + 1,
{
    if i < 0 {
        0x9E37_79B9
    } else {
        wrapped(wrapped(seed_step(i - 1) * 0x85EB_CA6B) + i)
    }
}

/// The place of the `i`th herd.
pub open spec fn seed_tile(grass: Seq<(i32, i32)>, i: int) -> (i32, i32) {
    grass[seed_step(i) % (grass.len() as int)]
}

/// A new herd is as this says: far off, all heads a number, at home where it stands.
pub open spec fn is_new_herd(
    h: WildHerd,
    id: int,
    cluster: int,
    species: WildHerdSpecies,
    tile: (i32, i32),
) -> bool {
    &&& h.id == id
    &&& h.species == species
    &&& h.aggregate_count == WILD_HERD_AGGREGATE
    &&& h.leader_tile == tile
    &&& h.range_center == tile
    &&& !h.bloomed
    &&& h.members@.len() == 0
    &&& h.flee_until_tick == 0
    &&& h.last_birthed_tick == 0
    &&& h.cluster_id == cluster
}

/// The species of the `i`th herd: horses, horses, cows.
pub open spec fn seed_species(i: int) -> WildHerdSpecies {
    if i == 2 {
        WildHerdSpecies::Cow
    } else {
        WildHerdSpecies::Horse
    }
}

/// A registry holds the first `n` of the new herds and no others.
pub open spec fn seeded(
    at: Map<u32, WildHerd>,
    grass: Seq<(i32, i32)>,
    first_id: int,
    first_cluster: int,
    n: int,
) -> bool {
    &&& forall|id: u32|
        at.dom().contains(id) <==> exists|i: int|
            0 <= i < n && #[trigger] wrapped(first_id + i) == id
    &&& forall|i: int|
        0 <= i < n ==> is_new_herd(
            at[(#[trigger] wrapped(first_id + i)) as u32],
            wrapped(first_id + i),
            wrapped(first_cluster + i),
            seed_species(i),
            seed_tile(grass, i),
        )
}

/// Puts herds on the grassland of a new world. A world that has herds, or no grassland, stays as
/// it is; the result says whether herds were put.
pub fn seed_wild_herds_system(
    registry: &mut WildHerdRegistry,
    next_cluster: &mut u32,
    grass: &Vec<(i32, i32)>,
) -> (done: bool)
    ensures
        done == (old(registry).at().dom() =~= Set::empty() && grass@.len() > 0),
        !done ==> final(registry).at() == old(registry).at() && final(registry).next_id == old(registry).next_id && *final(next_cluster) == *old(next_cluster),
        done ==> {
            &&& seeded(
                final(registry).at(),
                grass@,
                old(registry).next_id as int,
                *old(next_cluster) as int,
                WILD_HERD_COUNT as int,
            )
            &&& final(registry).next_id == wrapped(old(registry).next_id + WILD_HERD_COUNT)
            &&& *final(next_cluster) == wrapped(*old(next_cluster) + WILD_HERD_COUNT)
        },
{
    if !has_no_herds(&registry.herds) || grass.len() == 0 {
        return false;
    }
    let ghost first = registry.next_id as int;
    let ghost cluster = *next_cluster as int;
    let mut seed: u32 = 0x9E37_79B9;
    let mut i: u32 = 0;
    assert(registry.at() =~= Map::empty());
    while i < WILD_HERD_COUNT
        invariant
            i <= WILD_HERD_COUNT,
            grass@.len() > 0,
            0 <= first <= u32::MAX,
            0 <= cluster <= u32::MAX,
            seed == seed_step(i - 1),
            registry.next_id == wrapped(first + i),
            *next_cluster == wrapped(cluster + i),
            seeded(registry.at(), grass@, first, cluster, i as int),
        decreases WILD_HERD_COUNT - i,
    {
        let ghost before = registry.at();
        seed = seed.wrapping_mul(0x85EB_CA6B).wrapping_add(i);
        assert(seed == seed_step(i as int));
        let idx: usize = (seed as usize) % grass.len();
        let centre: (i32, i32) = grass[idx];
        let species = if i == 2 {
            WildHerdSpecies::Cow
        } else {
            WildHerdSpecies::Horse
        };
        let id: u32 = registry.alloc_id();
        let cluster_id: u32 = *next_cluster;
        *next_cluster = next_cluster.wrapping_add(1);
        let herd = WildHerd {
            id,
            species,
            aggregate_count: WILD_HERD_AGGREGATE,
            leader_tile: centre,
            range_center: centre,
            bloomed: false,
            members: Vec::new(),
            flee_until_tick: 0,
            last_birthed_tick: 0,
            cluster_id,
        };
        assert(is_new_herd(
            herd,
            wrapped(first + i),
            wrapped(cluster + i),
            seed_species(i as int),
            seed_tile(grass@, i as int),
        ));
        put_herd(&mut registry.herds, id, herd);
        proof {
            let after = registry.at();
            assert forall|k: u32|
                after.dom().contains(k) <==> exists|j: int|
                    0 <= j < i + 1 && #[trigger] wrapped(first + j) == k by {
                if k == id {
                    assert(wrapped(first + i) == k);
                } else if before.dom().contains(k) {
                    let j = choose|j: int| 0 <= j < i && #[trigger] wrapped(first + j) == k;
                    assert(wrapped(first + j) == k);
                }
            }
            assert forall|j: int| 0 <= j < i + 1 implies is_new_herd(
                after[(#[trigger] wrapped(first + j)) as u32],
                wrapped(first + j),
                wrapped(cluster + j),
                seed_species(j),
                seed_tile(grass@, j),
            ) by {
                if j < i {
                    assert(wrapped(first + j) != id);
                    assert(before.dom().contains(wrapped(first + j) as u32));
                }
            }
        }
        i += 1;
    }
    true
}

/// A tile is grassland.
pub open spec fn is_grass(terrain: TerrainWindow) -> spec_fn(int) -> bool {
    |k: int| terrain.tiles@[k].kind == TileKind::Grass
}

/// The place of the `k`th tile of a window.
pub open spec fn window_tile(terrain: TerrainWindow) -> spec_fn(int) -> (i32, i32) {
    |k: int|
        (
            (terrain.min.0 + k % (terrain.width as int)) as i32,
            (terrain.min.1 + k / (terrain.width as int)) as i32,
        )
}

/// The grassland of a window, row by row.
pub fn collect_grassland(terrain: &TerrainWindow) -> (tiles: Vec<(i32, i32)>)
    requires
        terrain.wf(),
        terrain.min.0 + terrain.width <= i32::MAX,
        terrain.min.1 + terrain.height <= i32::MAX,
    ensures
        tiles@ == collect(
            terrain.tiles@.len() as int,
            is_grass(*terrain),
            window_tile(*terrain),
        ),
{
    let ghost p = is_grass(*terrain);
    let ghost mk = window_tile(*terrain);
    let mut tiles: Vec<(i32, i32)> = Vec::new();
    let mut k: usize = 0;
    while k < terrain.tiles.len()
        invariant
            k <= terrain.tiles.len(),
            terrain.wf(),
            terrain.min.0 + terrain.width <= i32::MAX,
            terrain.min.1 + terrain.height <= i32::MAX,
            p == is_grass(*terrain),
            mk == window_tile(*terrain),
            tiles@ == collect(k as int, p, mk),
        decreases terrain.tiles.len() - k,
    {
        proof {
            assert(terrain.width > 0) by (nonlinear_arith)
                requires
                    k < terrain.width * terrain.height,
                    k >= 0,
                    terrain.width >= 0,
            ;
            let w = terrain.width as int;
            let h = terrain.height as int;
            assert(0 <= k as int / w < h) by (nonlinear_arith)
                requires
                    0 <= k < w * h,
                    w > 0,
            ;
        }
        if terrain.tiles[k].kind == TileKind::Grass {
            let col: usize = k % terrain.width;
            let row: usize = k / terrain.width;
            let x: i64 = terrain.min.0 as i64 + col as i64;
            let y: i64 = terrain.min.1 as i64 + row as i64;
            tiles.push((x as i32, y as i32));
        }
        k += 1;
    }
    tiles
}

/// Water on a tile.
pub open spec fn watery(terrain: TerrainWindow) -> spec_fn((i32, i32)) -> bool {
    |t: (i32, i32)|
        match terrain.kind(t.0 as int, t.1 as int) {
            Some(k) => k.water(),
            None => false,
        }
}

/// Fresh water on a tile.
pub open spec fn freshwater(terrain: TerrainWindow) -> spec_fn((i32, i32)) -> bool {
    |t: (i32, i32)|
        match terrain.kind(t.0 as int, t.1 as int) {
            Some(k) => k.fresh(),
            None => false,
        }
}

/// The tiles within `r`, nearest first; from distance `lo` on.
pub open spec fn nearby(t: (i32, i32), lo: int, r: int) -> Seq<(i32, i32)> {
    around(t, rings(lo, r, Walk::Rows))
}

fn nearby_tiles(t: (i32, i32), lo: u32, r: u32) -> (tiles: Vec<(i32, i32)>)
    requires
        room_around(t, r as int),
    ensures
        tiles@ == nearby(t, lo as int, r as int),
{
    let offsets = rings_between(lo, r, Walk::Rows);
    let ghost all = around(t, offsets@);
    let mut tiles: Vec<(i32, i32)> = Vec::new();
    let mut i: usize = 0;
    while i < offsets.len()
        invariant
            i <= offsets.len(),
            room_around(t, r as int),
            offsets@ == rings(lo as int, r as int, Walk::Rows),
            all == around(t, offsets@),
            tiles@ == all.take(i as int),
        decreases offsets.len() - i,
    {
        let o = offsets[i];
        proof {
            rings_hold(lo as int, r as int, Walk::Rows, o);
            assert(offsets@.contains(o)) by {
                assert(offsets@[i as int] == o);
            }
        }
        tiles.push((t.0 + o.0, t.1 + o.1));
        i += 1;
        assert(tiles@ =~= all.take(i as int));
    }
    assert(all.take(i as int) =~= all);
    tiles
}

/// Whether there is water within `radius` of a tile.
pub fn water_within(terrain: &TerrainWindow, tile: (i32, i32), radius: u32) -> (b: bool)
    requires
        terrain.wf(),
        room_around(tile, radius as int),
    ensures
        b == (find(nearby(tile, 0, radius as int), watery(*terrain)) is Some),
{
    let list = nearby_tiles(tile, 0, radius);
    let ghost p = watery(*terrain);
    let mut i: usize = 0;
    while i < list.len()
        invariant
            i <= list.len(),
            terrain.wf(),
            list@ == nearby(tile, 0, radius as int),
            p == watery(*terrain),
            forall|j: int| 0 <= j < i ==> !p(#[trigger] list@[j]),
        decreases list.len() - i,
    {
        match terrain.tile_kind_at(list[i].0, list[i].1) {
            Some(k) => {
                if k.is_water_like() {
                    proof {
                        find_is_first(list@, p, i as int);
                    }
                    return true;
                }
            },
            None => {},
        }
        assert(!p(list@[i as int]));
        i += 1;
    }
    proof {
        find_is_none(list@, p);
    }
    false
}

/// The water that a herd goes to: the nearest fresh water, else the nearest of any kind.
pub open spec fn water_sought(terrain: TerrainWindow, from: (i32, i32), r: int) -> Option<
    (i32, i32),
> {
    match find(nearby(from, 1, r), freshwater(terrain)) {
        Some(t) => Some(t),
        None => find(nearby(from, 1, r), watery(terrain)),
    }
}

/// The nearest fresh water around a tile, else the nearest of any kind.
pub fn nearest_water(terrain: &TerrainWindow, from: (i32, i32), max_radius: u32) -> (r: Option<
    (i32, i32),
>)
    requires
        terrain.wf(),
        room_around(from, max_radius as int),
    ensures
        r == water_sought(*terrain, from, max_radius as int),
{
    let list = nearby_tiles(from, 1, max_radius);
    let ghost p = freshwater(*terrain);
    let ghost q = watery(*terrain);
    let mut salt: Option<(i32, i32)> = None;
    let mut i: usize = 0;
    while i < list.len()
        invariant
            i <= list.len(),
            terrain.wf(),
            p == freshwater(*terrain),
            q == watery(*terrain),
            list@ == nearby(from, 1, max_radius as int),
            forall|j: int| 0 <= j < i ==> !p(#[trigger] list@[j]),
            match salt {
                Some(s) => find(list@, q) == Some(s),
                None => forall|j: int| 0 <= j < i ==> !q(#[trigger] list@[j]),
            },
        decreases list.len() - i,
    {
        let t: (i32, i32) = list[i];
        match terrain.tile_kind_at(t.0, t.1) {
            Some(k) => {
                if k.is_freshwater() {
                    proof {
                        find_is_first(list@, p, i as int);
                    }
                    return Some(t);
                }
                if salt.is_none() && k.is_water_like() {
                    proof {
                        find_is_first(list@, q, i as int);
                    }
                    salt = Some(t);
                }
            },
            None => {},
        }
        i += 1;
    }
    proof {
        find_is_none(list@, p);
        find_is_none(list@, q);
    }
    salt
}

/// The calendar, as far as herds keep it.
#[derive(Clone, Copy, Debug)]
pub struct HerdCalendar {
    pub season: Season,
    pub ticks_per_day: u32,
    pub ticks_per_season: u32,
}

/// The middle of a herd's range in a season.
pub open spec fn season_centre(c: (i32, i32), season: Season) -> (int, int) {
    match season {
        Season::Winter => (c.0 as int, c.1 - WINTER_SHIFT_TILES),
        Season::Spring => (c.0 as int, c.1 + SPRING_SHIFT_TILES),
        _ => (c.0 as int, c.1 as int),
    }
}

/// The aimless drift of a herd on a day, from -1 to 2 on each axis.
pub open spec fn aimless(id: u32, day: int) -> (int, int) {
    let seed = wrapped(wrapped(id * 0x85EB_CA6B) + day);
    (seed % 4 - 1, (seed / 4) % 4 - 1)
}

fn aimless_drift(id: u32, day: u32) -> (d: (i32, i32))
    ensures
        (d.0 as int, d.1 as int) == aimless(id, day as int),
{
    let seed: u32 = id.wrapping_mul(0x85EB_CA6B).wrapping_add(day);
    ((seed % 4) as i32 - 1, ((seed / 4) % 4) as i32 - 1)
}

/// How a threat pushes a herd along one axis.
pub open spec fn push_x(threats: Seq<(i32, i32)>, leader: (i32, i32)) -> spec_fn(int) -> int {
    |i: int|
        if tile_distance(threats[i], leader) <= HERD_FLEE_RADIUS {
            leader.0 - threats[i].0
        } else {
            0
        }
}

pub open spec fn push_y(threats: Seq<(i32, i32)>, leader: (i32, i32)) -> spec_fn(int) -> int {
    |i: int|
        if tile_distance(threats[i], leader) <= HERD_FLEE_RADIUS {
            leader.1 - threats[i].1
        } else {
            0
        }
}

/// Some threat is near.
pub open spec fn threatened(threats: Seq<(i32, i32)>, leader: (i32, i32)) -> bool {
    exists|i: int|
        0 <= i < threats.len() && tile_distance(#[trigger] threats[i], leader) <= HERD_FLEE_RADIUS
}

/// Three steps away from all threats together.
pub open spec fn flight(threats: Seq<(i32, i32)>, leader: (i32, i32)) -> (int, int) {
    let n = threats.len() as int;
    (3 * sign(sum(n, push_x(threats, leader))), 3 * sign(sum(n, push_y(threats, leader))))
}

/// How camps push a herd along one axis.
pub open spec fn camp_push_x(camps: Seq<(i32, i32)>, leader: (i32, i32)) -> spec_fn(int) -> int {
    |i: int|
        if tile_distance(camps[i], leader) <= HERD_CAMP_AVOID_RADIUS {
            4 * sign(leader.0 - camps[i].0)
        } else {
            0
        }
}

pub open spec fn camp_push_y(camps: Seq<(i32, i32)>, leader: (i32, i32)) -> spec_fn(int) -> int {
    |i: int|
        if tile_distance(camps[i], leader) <= HERD_CAMP_AVOID_RADIUS {
            4 * sign(leader.1 - camps[i].1)
        } else {
            0
        }
}

/// What surrounds the herds today.
pub struct HerdWorld<'a> {
    pub calendar: HerdCalendar,
    pub terrain: &'a TerrainWindow,
    /// Wolves and armed hunters.
    pub threats: &'a Vec<(i32, i32)>,
    /// Camps of people on the move.
    pub camps: &'a Vec<(i32, i32)>,
}

/// A herd takes flight today: threatened, and not fleeing already.
pub open spec fn takes_flight(h: WildHerd, world: HerdWorld, now: int) -> bool {
    now >= h.flee_until_tick && threatened(world.threats@, h.leader_tile)
}

/// Where a herd would go if it were not for water, camps and threats.
pub open spec fn drift(h: WildHerd, world: HerdWorld, now: int) -> (int, int) {
    let day = now / (world.calendar.ticks_per_day as int);
    let leader = h.leader_tile;
    let away = flight(world.threats@, leader);
    if now < h.flee_until_tick {
        aimless(h.id, day)
    } else if takes_flight(h, world, now) {
        if away == (0int, 0int) {
            aimless(h.id, day)
        } else {
            away
        }
    } else {
        let dry = find(nearby(leader, 0, HERD_WATER_NEAR as int), watery(*world.terrain)) is None;
        let sought = water_sought(*world.terrain, leader, HERD_WATER_PROBE_RADIUS as int);
        let step = match sought {
            Some(t) => if dry {
                (sign(t.0 - leader.0), sign(t.1 - leader.1))
            } else {
                aimless(h.id, day)
            },
            None => aimless(h.id, day),
        };
        let n = world.camps@.len() as int;
        (
            step.0 + sum(n, camp_push_x(world.camps@, leader)),
            step.1 + sum(n, camp_push_y(world.camps@, leader)),
        )
    }
}

/// The tile that a herd makes for, kept within its range.
pub open spec fn heads_for(h: WildHerd, world: HerdWorld, now: int) -> (int, int) {
    let c = season_centre(h.range_center, world.calendar.season);
    let d = drift(h, world, now);
    (
        clamped(h.leader_tile.0 + d.0, c.0 - HERD_RANGE_HALF, c.0 + HERD_RANGE_HALF),
        clamped(h.leader_tile.1 + d.1, c.1 - HERD_RANGE_HALF, c.1 + HERD_RANGE_HALF),
    )
}

/// A herd has young: in any season but winter, once a season, up to its limit.
pub open spec fn bears(h: WildHerd, cal: HerdCalendar, now: int) -> bool {
    &&& cal.season != Season::Winter
    &&& max(now - h.last_birthed_tick, 0) >= cal.ticks_per_season
    &&& h.aggregate_count < WILD_HERD_AGGREGATE_CAP
}

/// A herd after a day.
pub open spec fn after_day(h: WildHerd, world: HerdWorld, now: int) -> WildHerd {
    let t = heads_for(h, world, now);
    let born = bears(h, world.calendar, now);
    WildHerd {
        leader_tile: if world.terrain.walkable(t.0, t.1) {
            (t.0 as i32, t.1 as i32)
        } else {
            h.leader_tile
        },
        flee_until_tick: if takes_flight(h, world, now) {
            (now + world.calendar.ticks_per_day) as u32
        } else {
            h.flee_until_tick
        },
        aggregate_count: if born {
            min(
                h.aggregate_count + WILD_HERD_BIRTH_PER_SEASON,
                WILD_HERD_AGGREGATE_CAP as int,
            ) as u16
        } else {
            h.aggregate_count
        },
        last_birthed_tick: if born {
            now as u32
        } else {
            h.last_birthed_tick
        },
        ..h
    }
}

/// A herd and what it looks around for stay within `i32`.
pub open spec fn herd_fits(h: WildHerd) -> bool {
    &&& room_around(h.range_center, (HERD_RANGE_HALF + WINTER_SHIFT_TILES) as int)
    &&& room_around(h.leader_tile, HERD_WATER_PROBE_RADIUS as int)
}

fn sign_wide(n: i128) -> (s: i128)
    ensures
        s == sign(n as int),
{
    if n > 0 {
        1
    } else if n < 0 {
        -1
    } else {
        0
    }
}

fn clamp_wide(n: i128, lo: i128, hi: i128) -> (m: i128)
    requires
        lo <= hi,
    ensures
        m == clamped(n as int, lo as int, hi as int),
{
    if n < lo {
        lo
    } else if n > hi {
        hi
    } else {
        n
    }
}

/// The push of all threats, and whether any is near.
fn threat_push(threats: &Vec<(i32, i32)>, leader: (i32, i32)) -> (r: (i128, i128, bool))
    ensures
        r.0 == sum(threats@.len() as int, push_x(threats@, leader)),
        r.1 == sum(threats@.len() as int, push_y(threats@, leader)),
        r.2 == threatened(threats@, leader),
{
    let ghost fx = push_x(threats@, leader);
    let ghost fy = push_y(threats@, leader);
    let mut x: i128 = 0;
    let mut y: i128 = 0;
    let mut near: bool = false;
    let mut i: usize = 0;
    while i < threats.len()
        invariant
            i <= threats.len(),
            fx == push_x(threats@, leader),
            fy == push_y(threats@, leader),
            x == sum(i as int, fx),
            y == sum(i as int, fy),
            -8 * i <= x <= 8 * i,
            -8 * i <= y <= 8 * i,
            near == exists|j: int|
                0 <= j < i && tile_distance(#[trigger] threats@[j], leader) <= HERD_FLEE_RADIUS,
        decreases threats.len() - i,
    {
        let t: (i32, i32) = threats[i];
        if cheb(t, leader) <= HERD_FLEE_RADIUS as u32 {
            assert(tile_distance(threats@[i as int], leader) <= HERD_FLEE_RADIUS);
            near = true;
            x = x + (leader.0 as i128 - t.0 as i128);
            y = y + (leader.1 as i128 - t.1 as i128);
        }
        i += 1;
    }
    (x, y, near)
}

/// The push of all camps.
fn camp_push(camps: &Vec<(i32, i32)>, leader: (i32, i32)) -> (r: (i128, i128))
    ensures
        r.0 == sum(camps@.len() as int, camp_push_x(camps@, leader)),
        r.1 == sum(camps@.len() as int, camp_push_y(camps@, leader)),
        -0x4_0000_0000_0000_0000 <= r.0 <= 0x4_0000_0000_0000_0000,
        -0x4_0000_0000_0000_0000 <= r.1 <= 0x4_0000_0000_0000_0000,
{
    let ghost fx = camp_push_x(camps@, leader);
    let ghost fy = camp_push_y(camps@, leader);
    let mut x: i128 = 0;
    let mut y: i128 = 0;
    let mut i: usize = 0;
    while i < camps.len()
        invariant
            i <= camps.len(),
            fx == camp_push_x(camps@, leader),
            fy == camp_push_y(camps@, leader),
            x == sum(i as int, fx),
            y == sum(i as int, fy),
            -4 * i <= x <= 4 * i,
            -4 * i <= y <= 4 * i,
        decreases camps.len() - i,
    {
        let c: (i32, i32) = camps[i];
        if cheb(c, leader) <= HERD_CAMP_AVOID_RADIUS as u32 {
            x = x + 4 * sign_of(leader.0, c.0) as i128;
            y = y + 4 * sign_of(leader.1, c.1) as i128;
        }
        i += 1;
    }
    (x, y)
}

/// One day of a herd.
pub fn migrate_herd(herd: &mut WildHerd, world: &HerdWorld, now: u32)
    requires
        world.terrain.wf(),
        world.calendar.ticks_per_day > 0,
        now + world.calendar.ticks_per_day <= u32::MAX,
        herd_fits(*old(herd)),
    ensures
        *final(herd) == after_day(*old(herd), *world, now as int),
{
    let ghost start = *herd;
    let day: u32 = now / world.calendar.ticks_per_day;
    let leader: (i32, i32) = herd.leader_tile;
    let mut dx: i128;
    let mut dy: i128;
    if now < herd.flee_until_tick {
        let d = aimless_drift(herd.id, day);
        dx = d.0 as i128;
        dy = d.1 as i128;
    } else {
        let (px, py, near) = threat_push(world.threats, leader);
        if near {
            herd.flee_until_tick = now + world.calendar.ticks_per_day;
            dx = 3 * sign_wide(px);
            dy = 3 * sign_wide(py);
            if dx == 0 && dy == 0 {
                let d = aimless_drift(herd.id, day);
                dx = d.0 as i128;
                dy = d.1 as i128;
            }
        } else {
            let mut step: (i32, i32) = aimless_drift(herd.id, day);
            if !water_within(world.terrain, leader, HERD_WATER_NEAR) {
                match nearest_water(world.terrain, leader, HERD_WATER_PROBE_RADIUS as u32) {
                    Some(t) => {
                        step = (sign_of(t.0, leader.0), sign_of(t.1, leader.1));
                    },
                    None => {},
                }
            }
            let (cx, cy) = camp_push(world.camps, leader);
            dx = step.0 as i128 + cx;
            dy = step.1 as i128 + cy;
        }
    }
    assert(dx == drift(start, *world, now as int).0 && dy == drift(start, *world, now as int).1);
    let cx: i128 = herd.range_center.0 as i128;
    let cy: i128 = match world.calendar.season {
        Season::Winter => herd.range_center.1 as i128 - WINTER_SHIFT_TILES as i128,
        Season::Spring => herd.range_center.1 as i128 + SPRING_SHIFT_TILES as i128,
        _ => herd.range_center.1 as i128,
    };
    let half: i128 = HERD_RANGE_HALF as i128;
    let nx: i128 = clamp_wide(leader.0 as i128 + dx, cx - half, cx + half);
    let ny: i128 = clamp_wide(leader.1 as i128 + dy, cy - half, cy + half);
    if world.terrain.is_passable(nx as i32, ny as i32) {
        herd.leader_tile = (nx as i32, ny as i32);
    }
    let since: u32 = now.saturating_sub(herd.last_birthed_tick);
    if world.calendar.season != Season::Winter && since >= world.calendar.ticks_per_season
        && herd.aggregate_count < WILD_HERD_AGGREGATE_CAP {
        let grown: u16 = herd.aggregate_count + WILD_HERD_BIRTH_PER_SEASON;
        herd.aggregate_count = if grown > WILD_HERD_AGGREGATE_CAP {
            WILD_HERD_AGGREGATE_CAP
        } else {
            grown
        };
        herd.last_birthed_tick = now;
    }
}

/// One day of every herd.
pub fn wild_herd_migration_system(registry: &mut WildHerdRegistry, world: &HerdWorld, tick: u64)
    requires
        world.terrain.wf(),
        world.calendar.ticks_per_day > 0,
        wrapped(tick as int) + world.calendar.ticks_per_day <= u32::MAX,
        forall|id: u32|
            #[trigger] old(registry).at().dom().contains(id) ==> herd_fits(old(registry).at()[id]),
    ensures
        final(registry).next_id == old(registry).next_id,
        final(registry).at() == (if tick % (world.calendar.ticks_per_day as u64) == 0 {
            Map::new(
                |id: u32| old(registry).at().dom().contains(id),
                |id: u32| after_day(old(registry).at()[id], *world, wrapped(tick as int)),
            )
        } else {
            old(registry).at()
        }),
{
    if tick % (world.calendar.ticks_per_day as u64) != 0 {
        return;
    }
    let now: u32 = (tick % 0x1_0000_0000) as u32;
    let ids = herd_ids(&registry.herds);
    let ghost before = registry.at();
    let ghost day = |id: u32| after_day(before[id], *world, now as int);
    let mut i: usize = 0;
    while i < ids.len()
        invariant
            i <= ids.len(),
            world.terrain.wf(),
            world.calendar.ticks_per_day > 0,
            now + world.calendar.ticks_per_day <= u32::MAX,
            ids@.no_duplicates(),
            forall|id: u32| ids@.contains(id) <==> before.dom().contains(id),
            forall|id: u32| #[trigger] before.dom().contains(id) ==> herd_fits(before[id]),
            day == (|id: u32| after_day(before[id], *world, now as int)),
            registry.next_id == old(registry).next_id,
            registry.at().dom() == before.dom(),
            forall|k: int|
                0 <= k < i ==> registry.at()[#[trigger] ids@[k]] == day(ids@[k]),
            forall|k: int|
                i <= k < ids@.len() ==> registry.at()[#[trigger] ids@[k]] == before[ids@[k]],
        decreases ids.len() - i,
    {
        let id: u32 = ids[i];
        assert(ids@.contains(id)) by {
            assert(ids@[i as int] == id);
        }
        let ghost here = registry.at();
        match take_herd(&mut registry.herds, id) {
            Some(mut herd) => {
                migrate_herd(&mut herd, world, now);
                put_herd(&mut registry.herds, id, herd);
            },
            None => {},
        }
        proof {
            assert(registry.at().dom() =~= before.dom());
            assert forall|k: int| 0 <= k < i + 1 implies registry.at()[#[trigger] ids@[k]] == day(
                ids@[k],
            ) by {
                if k < i {
                    assert(ids@[k] != ids@[i as int]);
                }
            }
            assert forall|k: int| i + 1 <= k < ids@.len() implies registry.at()[#[trigger] ids@[k]]
                == before[ids@[k]] by {
                assert(ids@[k] != ids@[i as int]);
            }
        }
        i += 1;
    }
    proof {
        let after = Map::new(
            |id: u32| old(registry).at().dom().contains(id),
            |id: u32| after_day(old(registry).at()[id], *world, wrapped(tick as int)),
        );
        assert forall|id: u32| registry.at().dom().contains(id) implies registry.at()[id]
            == after[id] by {
            assert(ids@.contains(id));
            let k = choose|k: int| 0 <= k < ids@.len() && ids@[k] == id;
            assert(registry.at()[ids@[k]] == day(ids@[k]));
        }
        assert(registry.at() =~= after);
    }
}

/// A herd stays within its range once it moves, never shrinks by a day, never grows beyond its
/// limit, and keeps the animals that are in view.
pub proof fn days_keep_herds_sound(h: WildHerd, world: HerdWorld, now: int)
    requires
        herd_fits(h),
        h.aggregate_count <= WILD_HERD_AGGREGATE_CAP,
    ensures
        ({
            let n = after_day(h, world, now);
            let c = season_centre(h.range_center, world.calendar.season);
            &&& n.leader_tile == h.leader_tile || {
                &&& abs(n.leader_tile.0 - c.0) <= HERD_RANGE_HALF
                &&& abs(n.leader_tile.1 - c.1) <= HERD_RANGE_HALF
                &&& world.terrain.walkable(n.leader_tile.0 as int, n.leader_tile.1 as int)
            }
            &&& h.aggregate_count <= n.aggregate_count <= WILD_HERD_AGGREGATE_CAP
            &&& n.aggregate_count - h.aggregate_count <= WILD_HERD_BIRTH_PER_SEASON
            &&& world.calendar.season == Season::Winter ==> n.aggregate_count == h.aggregate_count
            &&& n.members == h.members && n.bloomed == h.bloomed
        }),
{
}

/// What a herd does about the camera.
#[derive(Clone, Copy, Debug, PartialEq, Eq, Structural)]
pub enum BloomStep {
    Stay,
    /// Come into view, with at most so many animals.
    Bloom(u16),
    /// Go out of view.
    Collapse,
}

/// What a herd does about the camera.
pub open spec fn bloom_step_spec(h: WildHerd, camera: Option<(i32, i32)>) -> BloomStep {
    let far = match camera {
        Some(t) => tile_distance(t, h.leader_tile),
        None => i32::MAX as int,
    };
    if !h.bloomed && far <= BLOOM_RADIUS_TILES {
        BloomStep::Bloom(min(h.aggregate_count as int, BLOOM_VISIBLE_CAP as int) as u16)
    } else if h.bloomed && far > COLLAPSE_RADIUS_TILES {
        BloomStep::Collapse
    } else {
        BloomStep::Stay
    }
}

/// What a herd does about the camera.
pub fn bloom_step(herd: &WildHerd, camera: Option<(i32, i32)>) -> (s: BloomStep)
    ensures
        s == bloom_step_spec(*herd, camera),
{
    let far: u32 = match camera {
        Some(t) => cheb(t, herd.leader_tile),
        None => i32::MAX as u32,
    };
    if !herd.bloomed && far <= BLOOM_RADIUS_TILES as u32 {
        BloomStep::Bloom(
            if herd.aggregate_count < BLOOM_VISIBLE_CAP {
                herd.aggregate_count
            } else {
                BLOOM_VISIBLE_CAP
            },
        )
    } else if herd.bloomed && far > COLLAPSE_RADIUS_TILES as u32 {
        BloomStep::Collapse
    } else {
        BloomStep::Stay
    }
}

/// A camera that stands still does not make a herd flicker: where one comes into view it is not
/// let go, and where one is let go none comes into view.
pub proof fn herds_do_not_flicker(h: WildHerd, camera: Option<(i32, i32)>, members: Vec<Entity>)
    ensures
        bloom_step_spec(h, camera) is Bloom ==> bloom_step_spec(
            WildHerd { bloomed: true, members, ..h },
            camera,
        ) is Stay,
        bloom_step_spec(h, camera) is Collapse ==> bloom_step_spec(
            WildHerd { bloomed: false, members, ..h },
            camera,
        ) is Stay,
{
}

/// An animal can stand on a tile: it can be walked on, is neither wall nor bare stone, and nobody
/// of the herd stands there.
pub open spec fn grazes_on(
    terrain: TerrainWindow,
    used: Set<(i32, i32)>,
) -> spec_fn((i32, i32)) -> bool {
    |t: (i32, i32)|
        {
            &&& !used.contains(t)
            &&& terrain.walkable(t.0 as int, t.1 as int)
            &&& terrain.kind(t.0 as int, t.1 as int) != Some(TileKind::Wall)
            &&& terrain.kind(t.0 as int, t.1 as int) != Some(TileKind::Stone)
        }
}

/// Where `n` animals come into view, one after the other; those who find no place stay away.
pub open spec fn bloom_tiles(terrain: TerrainWindow, centre: (i32, i32), n: int) -> Seq<(i32, i32)>
    decreases n,
{
    if n <= 0 {
        Seq::empty()
    } else {
        let before = bloom_tiles(terrain, centre, n - 1);
        match find(
            nearby(centre, 0, HERD_SPAWN_RADIUS as int),
            grazes_on(terrain, before.to_set()),
        ) {
            Some(t) => before.push(t),
            None => before,
        }
    }
}

/// The tiles on which animals of a herd come into view.
pub fn place_herd_members(terrain: &TerrainWindow, centre: (i32, i32), count: u32) -> (tiles: Vec<
    (i32, i32),
>)
    requires
        terrain.wf(),
        room_around(centre, HERD_SPAWN_RADIUS as int),
    ensures
        tiles@ == bloom_tiles(*terrain, centre, count as int),
{
    let list = nearby_tiles(centre, 0, HERD_SPAWN_RADIUS);
    let mut used = no_tiles();
    let mut tiles: Vec<(i32, i32)> = Vec::new();
    let mut n: u32 = 0;
    assert(tiles_in(used) =~= tiles@.to_set());
    while n < count
        invariant
            n <= count,
            terrain.wf(),
            list@ == nearby(centre, 0, HERD_SPAWN_RADIUS as int),
            tiles_in(used) == tiles@.to_set(),
            tiles@ == bloom_tiles(*terrain, centre, n as int),
        decreases count - n,
    {
        let ghost p = grazes_on(*terrain, tiles@.to_set());
        let mut spot: Option<(i32, i32)> = None;
        let mut i: usize = 0;
        while i < list.len() && spot.is_none()
            invariant
                i <= list.len(),
                terrain.wf(),
                p == grazes_on(*terrain, tiles_in(used)),
                match spot {
                    Some(t) => find(list@, p) == Some(t),
                    None => forall|j: int| 0 <= j < i ==> !p(#[trigger] list@[j]),
                },
            decreases list.len() - i,
        {
            let t: (i32, i32) = list[i];
            let bare: bool = match terrain.tile_kind_at(t.0, t.1) {
                Some(k) => match k {
                    TileKind::Wall | TileKind::Stone => true,
                    _ => false,
                },
                None => false,
            };
            if !has_tile(&used, t) && terrain.is_passable(t.0, t.1) && !bare {
                proof {
                    find_is_first(list@, p, i as int);
                }
                spot = Some(t);
            }
            i += 1;
        }
        let ghost before = tiles@;
        match spot {
            Some(t) => {
                add_tile(&mut used, t);
                tiles.push(t);
                proof {
                    assert forall|u: (i32, i32)|
                        tiles@.to_set().contains(u) <==> before.to_set().contains(u) || u == t by {
                        if before.contains(u) {
                            let j = choose|j: int| 0 <= j < before.len() && before[j] == u;
                            assert(tiles@[j] == u);
                        }
                        if u == t {
                            assert(tiles@[before.len() as int] == u);
                        }
                        if tiles@.contains(u) && u != t {
                            let j = choose|j: int| 0 <= j < tiles@.len() && tiles@[j] == u;
                            assert(before[j] == u);
                        }
                    }
                    assert(tiles_in(used) =~= tiles@.to_set());
                }
            },
            None => {
                proof {
                    find_is_none(list@, p);
                }
            },
        }
        n += 1;
    }
    tiles
}

/// Animals come into view on different tiles, near the leader, where they can stand; and no more
/// than were called.
pub proof fn herds_bloom_apart(terrain: TerrainWindow, centre: (i32, i32), n: int)
    requires
        room_around(centre, HERD_SPAWN_RADIUS as int),
        n >= 0,
    ensures
        bloom_tiles(terrain, centre, n).len() <= n,
        bloom_tiles(terrain, centre, n).no_duplicates(),
        forall|i: int|
            0 <= i < bloom_tiles(terrain, centre, n).len() ==> {
                let t = #[trigger] bloom_tiles(terrain, centre, n)[i];
                terrain.walkable(t.0 as int, t.1 as int) && tile_distance(t, centre)
                    <= HERD_SPAWN_RADIUS
            },
    decreases n,
{
    if n > 0 {
        herds_bloom_apart(terrain, centre, n - 1);
        let before = bloom_tiles(terrain, centre, n - 1);
        let after = bloom_tiles(terrain, centre, n);
        let list = nearby(centre, 0, HERD_SPAWN_RADIUS as int);
        let p = grazes_on(terrain, before.to_set());
        find_is_none(list, p);
        if after.len() > before.len() {
            let t = find(list, p)->0;
            let k = choose|k: int| 0 <= k < list.len() && list[k] == t;
            let offsets = rings(0, HERD_SPAWN_RADIUS as int, Walk::Rows);
            assert(offsets.contains(offsets[k]));
            rings_hold(0, HERD_SPAWN_RADIUS as int, Walk::Rows, offsets[k]);
            assert forall|i: int| 0 <= i < after.len() implies {
                let u = #[trigger] after[i];
                terrain.walkable(u.0 as int, u.1 as int) && tile_distance(u, centre)
                    <= HERD_SPAWN_RADIUS
            } by {
                if i < before.len() {
                    assert(after[i] == before[i]);
                }
            }
            assert forall|i: int, j: int|
                0 <= i < after.len() && 0 <= j < after.len() && i != j implies after[i]
                != after[j] by {
                if i < before.len() && j < before.len() {
                    assert(before[i] != before[j]);
                } else if i < before.len() {
                    assert(before.contains(before[i]));
                } else {
                    assert(before.contains(before[j]));
                }
            }
        }
    }
}

/// The health of an animal that comes into view.
pub fn herd_health(species: WildHerdSpecies) -> (hp: u8)
    ensures
        hp == (match species {
            WildHerdSpecies::Horse => 40u8,
            WildHerdSpecies::Cow => 35u8,
        }),
{
    match species {
        WildHerdSpecies::Horse => 40,
        WildHerdSpecies::Cow => 35,
    }
}

/// The work slot of the next animal that comes into view, out of twenty.
pub fn next_bucket(counter: &mut u32) -> (slot: u32)
    ensures
        slot == *old(counter) % 20,
        *final(counter) == wrapped(*old(counter) + 1),
{
    let slot: u32 = *counter % 20;
    *counter = counter.wrapping_add(1);
    slot
}

/// A herd has come into view with these animals.
pub fn set_bloomed(herd: &mut WildHerd, spawned: Vec<Entity>)
    requires
        spawned@.len() <= u16::MAX,
    ensures
        *final(herd) == (WildHerd {
            aggregate_count: max(old(herd).aggregate_count - spawned@.len(), 0) as u16,
            members: spawned,
            bloomed: true,
            ..*old(herd)
        }),
{
    let n: u16 = spawned.len() as u16;
    herd.aggregate_count = herd.aggregate_count.saturating_sub(n);
    herd.members = spawned;
    herd.bloomed = true;
}

/// The members that are still alive.
pub open spec fn survivors(members: Seq<Entity>, alive: Seq<Entity>) -> Seq<Entity> {
    collect(members.len() as int, |i: int| alive.contains(members[i]), |i: int| members[i])
}

/// A herd goes out of view: the animals that live count again, the others are lost. Returns those
/// that live.
pub fn set_collapsed(herd: &mut WildHerd, alive: &Vec<Entity>) -> (restored: Vec<Entity>)
    requires
        old(herd).members@.len() <= u16::MAX,
    ensures
        restored@ == survivors(old(herd).members@, alive@),
        final(herd).members@.len() == 0,
        !final(herd).bloomed,
        final(herd).aggregate_count == min(
            old(herd).aggregate_count + restored@.len(),
            u16::MAX as int,
        ),
        final(herd).id == old(herd).id,
        final(herd).species == old(herd).species,
        final(herd).leader_tile == old(herd).leader_tile,
        final(herd).range_center == old(herd).range_center,
        final(herd).flee_until_tick == old(herd).flee_until_tick,
        final(herd).last_birthed_tick == old(herd).last_birthed_tick,
        final(herd).cluster_id == old(herd).cluster_id,
{
    let ghost all = herd.members@;
    let ghost p = |i: int| alive@.contains(all[i]);
    let ghost mk = |i: int| all[i];
    let mut restored: Vec<Entity> = Vec::new();
    let mut i: usize = 0;
    while i < herd.members.len()
        invariant
            i <= herd.members.len(),
            *herd == *old(herd),
            herd.members@ == all,
            p == (|i: int| alive@.contains(all[i])),
            mk == (|i: int| all[i]),
            restored@ == collect(i as int, p, mk),
            restored@.len() <= i,
        decreases herd.members.len() - i,
    {
        if crate::vehicle::holds_entity(alive, herd.members[i]) {
            restored.push(herd.members[i]);
        }
        i += 1;
    }
    let n: u16 = restored.len() as u16;
    herd.members.clear();
    herd.aggregate_count = herd.aggregate_count.saturating_add(n);
    herd.bloomed = false;
    restored
}

/// A herd that comes into view and goes out of it has as many heads as before, less those that
/// were lost in between.
pub proof fn heads_are_conserved(count: int, members: Seq<Entity>, alive: Seq<Entity>)
    requires
        members.len() <= min(count, BLOOM_VISIBLE_CAP as int),
        count <= u16::MAX,
    ensures
        ({
            let shown = max(count - members.len(), 0);
            let back = min(shown + survivors(members, alive).len(), u16::MAX as int);
            &&& back == count - (members.len() - survivors(members, alive).len())
            &&& (forall|i: int| 0 <= i < members.len() ==> alive.contains(#[trigger] members[i]))
                ==> back == count
            &&& back <= count
        }),
{
    let p = |i: int| alive.contains(members[i]);
    let mk = |i: int| members[i];
    crate::seqs::collect_len(members.len() as int, p, mk);
    crate::seqs::count_bounds(members.len() as int, p);
    if forall|i: int| 0 <= i < members.len() ==> alive.contains(#[trigger] members[i]) {
        all_count(members.len() as int, p);
    }
}

proof fn all_count(n: int, p: spec_fn(int) -> bool)
    requires
        n >= 0,
        forall|i: int| 0 <= i < n ==> #[trigger] p(i),
    ensures
        crate::seqs::count(n, p) == n,
    decreases n,
{
    if n > 0 {
        all_count(n - 1, p);
        assert(p(n - 1));
    }
}

/// The herd does not flee and nothing near makes it: its drift is free today.
pub open spec fn at_peace(h: WildHerd, world: HerdWorld, now: int) -> bool {
    &&& now >= h.flee_until_tick
    &&& forall|i: int|
        0 <= i < world.threats@.len() ==> {
            let t = #[trigger] world.threats@[i];
            t.0 - h.leader_tile.0 > 8 || h.leader_tile.0 - t.0 > 8 || t.1 - h.leader_tile.1 > 8
                || h.leader_tile.1 - t.1 > 8
        }
}

proof fn peace_is_not_threatened(h: WildHerd, world: HerdWorld, now: int)
    requires
        at_peace(h, world, now),
    ensures
        !takes_flight(h, world, now),
{
    if threatened(world.threats@, h.leader_tile) {
        let i = choose|i: int|
            0 <= i < world.threats@.len() && tile_distance(
                #[trigger] world.threats@[i],
                h.leader_tile,
            ) <= HERD_FLEE_RADIUS;
        near_is_near_on_both_axes(world.threats@[i], h.leader_tile, 8);
    }
}

/// The share of a camp in a herd's drift: a camp within ten tiles pushes a herd at peace four
/// steps away on each axis on which they differ, and none on one on which they do not; a camp
/// farther off does nothing. `without` is the same world before the last camp was pitched.
pub proof fn camps_push_herds_away(
    h: WildHerd,
    world: HerdWorld,
    without: HerdWorld,
    camp: (i32, i32),
    now: int,
)
    requires
        at_peace(h, world, now),
        without.calendar == world.calendar,
        without.terrain == world.terrain,
        without.threats == world.threats,
        world.camps@ == without.camps@.push(camp),
    ensures
        ({
            let a = drift(h, world, now);
            let b = drift(h, without, now);
            let near = -10 <= camp.0 - h.leader_tile.0 <= 10 && -10 <= camp.1 - h.leader_tile.1
                <= 10;
            &&& near && h.leader_tile.0 > camp.0 ==> a.0 == b.0 + 4
            &&& near && h.leader_tile.0 < camp.0 ==> a.0 == b.0 - 4
            &&& near && h.leader_tile.1 > camp.1 ==> a.1 == b.1 + 4
            &&& near && h.leader_tile.1 < camp.1 ==> a.1 == b.1 - 4
            &&& !near || h.leader_tile.0 == camp.0 ==> a.0 == b.0
            &&& !near || h.leader_tile.1 == camp.1 ==> a.1 == b.1
        }),
{
    peace_is_not_threatened(h, world, now);
    peace_is_not_threatened(h, without, now);
    near_is_near_on_both_axes(camp, h.leader_tile, 10);
    let n = without.camps@.len() as int;
    let fx = camp_push_x(world.camps@, h.leader_tile);
    let gx = camp_push_x(without.camps@, h.leader_tile);
    let fy = camp_push_y(world.camps@, h.leader_tile);
    let gy = camp_push_y(without.camps@, h.leader_tile);
    assert(world.camps@.len() == n + 1 && world.camps@[n] == camp);
    assert forall|i: int| 0 <= i < n implies #[trigger] fx(i) == gx(i) by {
        assert(world.camps@[i] == without.camps@[i]);
    }
    assert forall|i: int| 0 <= i < n implies #[trigger] fy(i) == gy(i) by {
        assert(world.camps@[i] == without.camps@[i]);
    }
    sum_agrees(n, fx, gx);
    sum_agrees(n, fy, gy);
    assert(sum(n + 1, fx) == sum(n, fx) + fx(n));
    assert(sum(n + 1, fy) == sum(n, fy) + fy(n));
}

/// A herd at peace within its range never comes closer to the only camp within ten tiles: on each
/// axis it stays on its side of the camp and as far off as it was, or farther.
pub proof fn herds_shun_camps(h: WildHerd, world: HerdWorld, camp: (i32, i32), now: int)
    requires
        herd_fits(h),
        world.calendar.ticks_per_day > 0,
        at_peace(h, world, now),
        world.camps@ == seq![camp],
        -10 <= camp.0 - h.leader_tile.0 <= 10,
        -10 <= camp.1 - h.leader_tile.1 <= 10,
        ({
            let c = season_centre(h.range_center, world.calendar.season);
            &&& c.0 - 30 <= h.leader_tile.0 <= c.0 + 30
            &&& c.1 - 30 <= h.leader_tile.1 <= c.1 + 30
        }),
    ensures
        ({
            let a = after_day(h, world, now).leader_tile;
            let b = h.leader_tile;
            &&& b.0 > camp.0 ==> a.0 >= b.0
            &&& b.0 < camp.0 ==> a.0 <= b.0
            &&& b.1 > camp.1 ==> a.1 >= b.1
            &&& b.1 < camp.1 ==> a.1 <= b.1
        }),
{
    peace_is_not_threatened(h, world, now);
    near_is_near_on_both_axes(camp, h.leader_tile, 10);
    let fx = camp_push_x(world.camps@, h.leader_tile);
    let fy = camp_push_y(world.camps@, h.leader_tile);
    assert(world.camps@[0] == camp && world.camps@.len() == 1);
    reveal_with_fuel(sum, 2);
    assert(sum(1, fx) == fx(0) && sum(1, fy) == fy(0));
    let d = drift(h, world, now);
    assert(h.leader_tile.0 > camp.0 ==> d.0 >= 3);
    assert(h.leader_tile.0 < camp.0 ==> d.0 <= -2);
    assert(h.leader_tile.1 > camp.1 ==> d.1 >= 3);
    assert(h.leader_tile.1 < camp.1 ==> d.1 <= -2);
}

proof fn pushes_add_up(n: int, f: spec_fn(int) -> int)
    requires
        forall|i: int| 0 <= i < n ==> #[trigger] f(i) >= 0,
    ensures
        sum(n, f) >= 0,
        (exists|i: int| 0 <= i < n && #[trigger] f(i) > 0) ==> sum(n, f) > 0,
    decreases n,
{
    if n > 0 {
        pushes_add_up(n - 1, f);
        assert(f(n - 1) >= 0);
        if exists|i: int| 0 <= i < n && #[trigger] f(i) > 0 {
            let i = choose|i: int| 0 <= i < n && #[trigger] f(i) > 0;
            if i < n - 1 {
                assert(exists|j: int| 0 <= j < n - 1 && #[trigger] f(j) > 0);
            }
        }
    }
}

proof fn pushes_take_away(n: int, f: spec_fn(int) -> int)
    requires
        forall|i: int| 0 <= i < n ==> #[trigger] f(i) <= 0,
    ensures
        sum(n, f) <= 0,
        (exists|i: int| 0 <= i < n && #[trigger] f(i) < 0) ==> sum(n, f) < 0,
    decreases n,
{
    if n > 0 {
        pushes_take_away(n - 1, f);
        assert(f(n - 1) <= 0);
        if exists|i: int| 0 <= i < n && #[trigger] f(i) < 0 {
            let i = choose|i: int| 0 <= i < n && #[trigger] f(i) < 0;
            if i < n - 1 {
                assert(exists|j: int| 0 <= j < n - 1 && #[trigger] f(j) < 0);
            }
        }
    }
}

/// A threat within eight tiles of a herd that does not flee yet puts it to flight for a day: three
/// steps away from a lone threat on each axis on which they differ. Camps and water do not matter
/// then.
pub proof fn herds_flee_from_threats(
    h: WildHerd,
    world: HerdWorld,
    threat: (i32, i32),
    now: int,
)
    requires
        world.threats@ == seq![threat],
        -8 <= threat.0 - h.leader_tile.0 <= 8,
        -8 <= threat.1 - h.leader_tile.1 <= 8,
        threat != h.leader_tile,
        now >= h.flee_until_tick,
        0 <= now,
        now + world.calendar.ticks_per_day <= u32::MAX,
    ensures
        ({
            let d = drift(h, world, now);
            &&& h.leader_tile.0 > threat.0 ==> d.0 == 3
            &&& h.leader_tile.0 < threat.0 ==> d.0 == -3
            &&& h.leader_tile.0 == threat.0 ==> d.0 == 0
            &&& h.leader_tile.1 > threat.1 ==> d.1 == 3
            &&& h.leader_tile.1 < threat.1 ==> d.1 == -3
            &&& h.leader_tile.1 == threat.1 ==> d.1 == 0
        }),
        after_day(h, world, now).flee_until_tick == now + world.calendar.ticks_per_day,
{
    near_is_near_on_both_axes(threat, h.leader_tile, 8);
    assert(world.threats@[0] == threat && world.threats@.len() == 1);
    assert(threatened(world.threats@, h.leader_tile));
    let fx = push_x(world.threats@, h.leader_tile);
    let fy = push_y(world.threats@, h.leader_tile);
    reveal_with_fuel(sum, 2);
    assert(sum(1, fx) == fx(0) && sum(1, fy) == fy(0));
}

/// From several threats the herd flees where they all push: with every near threat on one side
/// along the first axis, or level, and one of them truly on that side, the herd takes three steps
/// to the other.
pub proof fn herds_flee_from_every_side(h: WildHerd, world: HerdWorld, now: int, k: int)
    requires
        0 <= k < world.threats@.len(),
        -8 <= world.threats@[k].0 - h.leader_tile.0 <= 8,
        -8 <= world.threats@[k].1 - h.leader_tile.1 <= 8,
        now >= h.flee_until_tick,
    ensures
        (forall|i: int|
            0 <= i < world.threats@.len() ==> (#[trigger] world.threats@[i]).0 <= h.leader_tile.0)
            && world.threats@[k].0 < h.leader_tile.0 ==> drift(h, world, now).0 == 3,
        (forall|i: int|
            0 <= i < world.threats@.len() ==> (#[trigger] world.threats@[i]).0 >= h.leader_tile.0)
            && world.threats@[k].0 > h.leader_tile.0 ==> drift(h, world, now).0 == -3,
        (forall|i: int|
            0 <= i < world.threats@.len() ==> (#[trigger] world.threats@[i]).1 <= h.leader_tile.1)
            && world.threats@[k].1 < h.leader_tile.1 ==> drift(h, world, now).1 == 3,
        (forall|i: int|
            0 <= i < world.threats@.len() ==> (#[trigger] world.threats@[i]).1 >= h.leader_tile.1)
            && world.threats@[k].1 > h.leader_tile.1 ==> drift(h, world, now).1 == -3,
{
    let threats = world.threats@;
    let n = threats.len() as int;
    near_is_near_on_both_axes(threats[k], h.leader_tile, 8);
    assert(threatened(threats, h.leader_tile));
    let fx = push_x(threats, h.leader_tile);
    let fy = push_y(threats, h.leader_tile);
    assert(fx(k) == h.leader_tile.0 - threats[k].0);
    assert(fy(k) == h.leader_tile.1 - threats[k].1);
    if forall|i: int| 0 <= i < n ==> (#[trigger] threats[i]).0 <= h.leader_tile.0 {
        assert forall|i: int| 0 <= i < n implies #[trigger] fx(i) >= 0 by {
            assert(threats[i].0 <= h.leader_tile.0);
        }
        pushes_add_up(n, fx);
    }
    if forall|i: int| 0 <= i < n ==> (#[trigger] threats[i]).0 >= h.leader_tile.0 {
        assert forall|i: int| 0 <= i < n implies #[trigger] fx(i) <= 0 by {
            assert(threats[i].0 >= h.leader_tile.0);
        }
        pushes_take_away(n, fx);
    }
    if forall|i: int| 0 <= i < n ==> (#[trigger] threats[i]).1 <= h.leader_tile.1 {
        assert forall|i: int| 0 <= i < n implies #[trigger] fy(i) >= 0 by {
            assert(threats[i].1 <= h.leader_tile.1);
        }
        pushes_add_up(n, fy);
    }
    if forall|i: int| 0 <= i < n ==> (#[trigger] threats[i]).1 >= h.leader_tile.1 {
        assert forall|i: int| 0 <= i < n implies #[trigger] fy(i) <= 0 by {
            assert(threats[i].1 >= h.leader_tile.1);
        }
        pushes_take_away(n, fy);
    }
}

/// A herd in flight takes no notice of threats, camps or water, and does not take flight anew.
pub proof fn herds_in_flight_heed_nothing(
    h: WildHerd,
    a: HerdWorld,
    b: HerdWorld,
    now: int,
)
    requires
        now < h.flee_until_tick,
        a.calendar == b.calendar,
    ensures
        drift(h, a, now) == drift(h, b, now),
        after_day(h, a, now).flee_until_tick == h.flee_until_tick,
{
}

/// A herd at peace with no camp about and no water within four tiles takes one step on each axis
/// towards the water that it smells within twelve: fresh water if there is any, and then none that
/// is nearer, else any water.
pub proof fn thirsty_herds_go_to_water(
    h: WildHerd,
    world: HerdWorld,
    now: int,
    other: (i32, i32),
)
    requires
        herd_fits(h),
        at_peace(h, world, now),
        world.camps@.len() == 0,
        world.calendar.ticks_per_day > 0,
        forall|t: (i32, i32)|
            #![trigger watery(*world.terrain)(t)]
            -4 <= t.0 - h.leader_tile.0 <= 4 && -4 <= t.1 - h.leader_tile.1 <= 4 ==> !watery(
                *world.terrain,
            )(t),
        -12 <= other.0 - h.leader_tile.0 <= 12,
        -12 <= other.1 - h.leader_tile.1 <= 12,
        watery(*world.terrain)(other),
    ensures
        ({
            let l = h.leader_tile;
            let d = drift(h, world, now);
            let found = water_sought(*world.terrain, l, 12);
            &&& found is Some
            &&& watery(*world.terrain)(found->0)
            &&& freshwater(*world.terrain)(other) ==> freshwater(*world.terrain)(found->0)
                && tile_distance(found->0, l) <= tile_distance(other, l)
            &&& (found->0).0 > l.0 ==> d.0 == 1
            &&& (found->0).0 < l.0 ==> d.0 == -1
            &&& (found->0).0 == l.0 ==> d.0 == 0
            &&& (found->0).1 > l.1 ==> d.1 == 1
            &&& (found->0).1 < l.1 ==> d.1 == -1
            &&& (found->0).1 == l.1 ==> d.1 == 0
        }),
{
    let l = h.leader_tile;
    let wet = watery(*world.terrain);
    let fresh = freshwater(*world.terrain);
    peace_is_not_threatened(h, world, now);
    near_is_near_on_both_axes(other, l, 12);
    near_is_near_on_both_axes(other, l, 4);
    near_is_near_on_both_axes(other, l, 0);
    assert(tile_distance(other, l) >= 1);
    the_nearest_match_is_found(l, 1, 12, Walk::Rows, fresh, other);
    the_nearest_match_is_found(l, 1, 12, Walk::Rows, wet, other);
    if find(nearby(l, 0, 4), wet) is Some {
        let t = find(nearby(l, 0, 4), wet)->0;
        the_nearest_match_is_found(l, 0, 4, Walk::Rows, wet, t);
        near_is_near_on_both_axes(t, l, 4);
        assert(false);
    }
    let found = water_sought(*world.terrain, l, 12);
    assert(found is Some);
    if fresh(found->0) {
        assert(wet(found->0));
    }
}

/// The range of a herd lies thirty tiles to each side of its home, twelve tiles down in winter and
/// twelve up in spring: the leader stays where it is or comes to stand within it.
pub proof fn ranges_follow_the_seasons(h: WildHerd, world: HerdWorld, now: int)
    requires
        herd_fits(h),
    ensures
        ({
            let a = after_day(h, world, now).leader_tile;
            let up: int = match world.calendar.season {
                Season::Winter => -12,
                Season::Spring => 12,
                _ => 0,
            };
            a != h.leader_tile ==> {
                &&& -30 <= a.0 - h.range_center.0 <= 30
                &&& -30 <= a.1 - h.range_center.1 - up <= 30
                &&& world.terrain.walkable(a.0 as int, a.1 as int)
            }
        }),
{
}

/// Young are born in any season but winter, a season after the last, to a herd of fewer than two
/// hundred: twelve, or as many as make two hundred; then the season counts anew. Otherwise the
/// count and its day stay. A day changes nothing else but the place and the flight.
pub proof fn herds_bear_once_a_season(h: WildHerd, world: HerdWorld, now: int)
    requires
        0 <= now <= u32::MAX,
        world.calendar.ticks_per_season > 0,
    ensures
        ({
            let a = after_day(h, world, now);
            let due = world.calendar.season != Season::Winter && now - h.last_birthed_tick
                >= world.calendar.ticks_per_season && h.aggregate_count < 200;
            &&& due && h.aggregate_count <= 188 ==> a.aggregate_count == h.aggregate_count + 12
            &&& due && h.aggregate_count > 188 ==> a.aggregate_count == 200
            &&& due ==> a.last_birthed_tick == now
            &&& !due ==> a.aggregate_count == h.aggregate_count && a.last_birthed_tick
                == h.last_birthed_tick
            &&& a.id == h.id && a.species == h.species && a.range_center == h.range_center
            &&& a.bloomed == h.bloomed && a.members == h.members && a.cluster_id == h.cluster_id
        }),
{
}

/// A herd out of view comes into view when the camera is within thirty-two tiles of its leader,
/// with sixty heads at most; one in view is let go when the camera is more than forty-eight tiles
/// off, or gone; all others stay as they are.
pub proof fn herds_show_when_looked_at(h: WildHerd, camera: Option<(i32, i32)>)
    ensures
        ({
            let s = bloom_step_spec(h, camera);
            let within = |r: int|
                camera matches Some(t) && -r <= t.0 - h.leader_tile.0 <= r && -r <= t.1
                    - h.leader_tile.1 <= r;
            &&& s is Bloom <==> !h.bloomed && within(32)
            &&& s is Collapse <==> h.bloomed && !within(48)
            &&& s matches BloomStep::Bloom(n) ==> n <= 60 && n <= h.aggregate_count && (n == 60
                || n == h.aggregate_count)
        }),
{
    if camera is Some {
        near_is_near_on_both_axes(camera->0, h.leader_tile, 32);
        near_is_near_on_both_axes(camera->0, h.leader_tile, 48);
    }
}

/// The aimless drift moves at most two steps along each axis and changes from day to day: along
/// the first axis it is each day one more than the day before, and starts over after two.
pub proof fn aimless_herds_wander(id: u32, day: int)
    requires
        0 <= day,
    ensures
        -1 <= aimless(id, day).0 <= 2,
        -1 <= aimless(id, day).1 <= 2,
        aimless(id, day).0 < 2 ==> aimless(id, day + 1).0 == aimless(id, day).0 + 1,
        aimless(id, day).0 == 2 ==> aimless(id, day + 1).0 == -1,
{
}

/// A herd that loses an animal has one head less and no longer that animal; all others stay, and
/// the herd where and what it was.
pub proof fn losses_are_counted_once(h: WildHerd, e: Entity, after: WildHerd, other: Entity)
    requires
        without_member(h, e, after),
    ensures
        !after.members@.contains(e),
        other != e ==> after.members@.contains(other) == h.members@.contains(other),
        h.aggregate_count > 0 ==> after.aggregate_count == h.aggregate_count - 1,
        h.aggregate_count == 0 ==> after.aggregate_count == 0,
        after.leader_tile == h.leader_tile && after.bloomed == h.bloomed && after.species
            == h.species,
{
    let n = h.members@.len() as int;
    let p = is_other(h.members@, e);
    let mk = |i: int| h.members@[i];
    collect_contains(n, p, mk, e);
    collect_contains(n, p, mk, other);
    if after.members@.contains(e) {
        let i = choose|i: int| 0 <= i < n && p(i) && #[trigger] mk(i) == e;
        assert(false);
    }
    if other != e && h.members@.contains(other) {
        let i = choose|i: int| 0 <= i < n && h.members@[i] == other;
        assert(p(i) && mk(i) == other);
    }
    if after.members@.contains(other) {
        let i = choose|i: int| 0 <= i < n && p(i) && #[trigger] mk(i) == other;
        assert(h.members@.contains(h.members@[i]));
    }
}

/// A new herd has a hundred and twenty heads, none in view, at home where its leader stands, and
/// neither flees nor has borne yet; the third herd is of cows, the others of horses.
pub proof fn new_herds_are_at_home(
    at: Map<u32, WildHerd>,
    grass: Seq<(i32, i32)>,
    first_id: int,
    first_cluster: int,
    n: int,
    i: int,
)
    requires
        seeded(at, grass, first_id, first_cluster, n),
        0 <= i < n,
        grass.len() > 0,
    ensures
        ({
            let h = at[wrapped(first_id + i) as u32];
            &&& at.dom().contains(wrapped(first_id + i) as u32)
            &&& h.aggregate_count == 120 && h.members@.len() == 0 && !h.bloomed
            &&& h.leader_tile == h.range_center && grass.contains(h.leader_tile)
            &&& h.flee_until_tick == 0 && h.last_birthed_tick == 0
            &&& i == 2 ==> h.species == WildHerdSpecies::Cow
            &&& i == 0 || i == 1 ==> h.species == WildHerdSpecies::Horse
        }),
{
    let m = grass.len() as int;
    let s = seed_step(i);
    assert(0 <= s % m < m) by (nonlinear_arith)
        requires
            m > 0,
    ;
    assert(wrapped(first_id + i) == wrapped(first_id + i) as u32);
    assert(grass[s % m] == seed_tile(grass, i));
}

/// Animals come into view within four tiles of their leader, each on a tile of its own that can be
/// walked on, and no more of them than asked for; one that finds such a tile free is not left out.
pub proof fn animals_appear_around_the_leader(
    terrain: TerrainWindow,
    centre: (i32, i32),
    n: int,
    k: int,
)
    requires
        room_around(centre, 4),
        n >= 0,
    ensures
        bloom_tiles(terrain, centre, n).len() <= n,
        0 <= k < bloom_tiles(terrain, centre, n).len() ==> ({
            let t = bloom_tiles(terrain, centre, n)[k];
            &&& -4 <= t.0 - centre.0 <= 4 && -4 <= t.1 - centre.1 <= 4
            &&& terrain.walkable(t.0 as int, t.1 as int)
        }),
        bloom_tiles(terrain, centre, 0).len() == 0,
        bloom_tiles(terrain, centre, n + 1).len() == bloom_tiles(terrain, centre, n).len()
            ==> forall|i: int|
            0 <= i < nearby(centre, 0, 4).len() ==> !grazes_on(
                terrain,
                bloom_tiles(terrain, centre, n).to_set(),
            )(#[trigger] nearby(centre, 0, 4)[i]),
{
    herds_bloom_apart(terrain, centre, n);
    if 0 <= k < bloom_tiles(terrain, centre, n).len() {
        near_is_near_on_both_axes(bloom_tiles(terrain, centre, n)[k], centre, 4);
    }
    find_is_none(
        nearby(centre, 0, 4),
        grazes_on(terrain, bloom_tiles(terrain, centre, n).to_set()),
    );
}

/// Three herds are seeded, no more and no fewer.
pub proof fn three_herds_are_seeded(first_id: int)
    ensures
        first_id + WILD_HERD_COUNT - first_id == 3,
{
}

} // verus!
