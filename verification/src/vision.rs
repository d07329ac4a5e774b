//! What a faction sees from its bases and its lookouts.

use vstd::prelude::*;
use crate::geometry::{
    abs, cheb, clamp, clamped, max, near_is_near_on_both_axes, tile_distance,
};
use crate::parts::Entity;
use crate::rings::{moved, room_around, square_offset, Walk};
use crate::seqs::{collect, collect_contains, find, find_is_first, find_is_none};
use crate::terrain::TerrainWindow;
use crate::tiles::{add_tile, clear_tiles, has_tile, no_tiles, tiles_in};

verus! {

/// How far anybody sees.
pub const STANDARD_VIEW_RADIUS: u32 = 15;

/// How far a lookout sees.
pub const LOOKOUT_VIEW_RADIUS: u32 = 50;

/// How long a scout stops to look about.
pub const AUTONOMOUS_LOOKOUT_TICKS: u64 = 120;

/// The ages of technology.
#[derive(Clone, Copy, Debug, PartialEq, Eq, Structural)]
pub enum Era {
    Paleolithic,
    Mesolithic,
    Neolithic,
    Chalcolithic,
    BronzeAge,
}

/// How far a base sees in an age.
pub open spec fn era_radius(era: Era) -> u32 {
    match era {
        Era::Paleolithic => 16,
        Era::Mesolithic => 20,
        Era::Neolithic => 25,
        Era::Chalcolithic => 30,
        Era::BronzeAge => 40,
    }
}

/// How far a base sees in an age.
pub fn base_vision_radius_for_era(era: Era) -> (r: u32)
    ensures
        r == era_radius(era),
{
    match era {
        Era::Paleolithic => 16,
        Era::Mesolithic => 20,
        Era::Neolithic => 25,
        Era::Chalcolithic => 30,
        Era::BronzeAge => 40,
    }
}

/// A person who keeps watch.
#[derive(Clone, Copy, Debug)]
pub struct ActiveLookout {
    pub anchor_tile: (i32, i32),
    pub anchor_z: i8,
    pub radius: u32,
    /// When the watch ends; a watch that was ordered does not end by itself.
    pub expires_tick: Option<u64>,
}

/// How far a person sees.
pub fn effective_vision_radius(lookout: Option<&ActiveLookout>) -> (r: u32)
    ensures
        r == (match lookout {
            Some(l) => l.radius,
            None => STANDARD_VIEW_RADIUS,
        }),
{
    match lookout {
        Some(l) => l.radius,
        None => STANDARD_VIEW_RADIUS,
    }
}

/// The tiles that a source saw when it last looked.
pub struct CachedVisionSet {
    pub tiles: ahash::AHashSet<(i32, i32)>,
    /// The source must look again.
    pub dirty: bool,
    pub faction: u32,
    pub radius: u32,
    pub origin: (i32, i32, i8),
}

impl CachedVisionSet {
    /// The tiles seen.
    pub open spec fn seen(self) -> Set<(i32, i32)> {
        tiles_in(self.tiles)
    }

    /// A source that has not looked yet.
    pub fn new(faction: u32) -> (c: CachedVisionSet)
        ensures
            c.seen() == Set::<(i32, i32)>::empty(),
            c.dirty,
            c.faction == faction,
            c.radius == 0,
            c.origin == (0i32, 0i32, 0i8),
    {
        CachedVisionSet { tiles: no_tiles(), dirty: true, faction, radius: 0, origin: (0, 0, 0) }
    }

    /// Whether a tile was seen.
    pub fn sees(&self, tile: (i32, i32)) -> (b: bool)
        ensures
            b == self.seen().contains(tile),
    {
        has_tile(&self.tiles, tile)
    }
}

/// An offset lies within a circle.
pub open spec fn in_circle(r: int, o: (i32, i32)) -> bool {
    o.0 * o.0 + o.1 * o.1 <= r * r
}

/// An offset is looked at: within the circle, and not the source's own tile.
pub open spec fn looked_at(r: int, o: (i32, i32)) -> bool {
    in_circle(r, o) && o != (0i32, 0i32)
}

/// How many tiles the square of a radius has.
pub open spec fn square_size(r: int) -> int {
    (2 * r + 1) * (2 * r + 1)
}

/// The tiles that a source looks at, row by row.
pub open spec fn candidates(centre: (i32, i32), r: int) -> Seq<(i32, i32)> {
    collect(
        square_size(r),
        |k: int| looked_at(r, square_offset(r, Walk::Rows, k)),
        |k: int| moved(centre, square_offset(r, Walk::Rows, k)),
    )
}

/// The greatest radius whose square fits in `i32`.
pub const MAX_VISION_RADIUS: u32 = 46340;

/// The tiles that a source looks at.
pub fn vision_candidates(centre: (i32, i32), radius: u32) -> (list: Vec<(i32, i32)>)
    requires
        radius <= MAX_VISION_RADIUS,
        room_around(centre, radius as int),
    ensures
        list@ == candidates(centre, radius as int),
{
    let side: u64 = 2 * radius as u64 + 1;
    assert(side * side <= 92681 * 92681) by (nonlinear_arith)
        requires
            0 < side <= 92681,
    ;
    let total: u64 = side * side;
    let r: i64 = radius as i64;
    assert(radius * radius <= 46340 * 46340) by (nonlinear_arith)
        requires
            0 <= radius <= 46340,
    ;
    let r_sq: i64 = r * r;
    let ghost rr = radius as int;
    let ghost p = |k: int| looked_at(rr, square_offset(rr, Walk::Rows, k));
    let ghost mk = |k: int| moved(centre, square_offset(rr, Walk::Rows, k));
    let mut list: Vec<(i32, i32)> = Vec::new();
    let mut k: u64 = 0;
    while k < total
        invariant
            k <= total,
            radius <= MAX_VISION_RADIUS,
            room_around(centre, radius as int),
            rr == radius,
            r == radius,
            side == 2 * radius + 1,
            total == side * side,
            r_sq == rr * rr,
            p == (|k: int| looked_at(rr, square_offset(rr, Walk::Rows, k))),
            mk == (|k: int| moved(centre, square_offset(rr, Walk::Rows, k))),
            list@ == collect(k as int, p, mk),
        decreases total - k,
    {
        let col: u64 = k % side;
        let row: u64 = k / side;
        assert(row < side) by (nonlinear_arith)
            requires
                row == k / side,
                k < side * side,
                side > 0,
        ;
        let dx: i64 = col as i64 - r;
        let dy: i64 = row as i64 - r;
        assert(dx * dx <= 46340 * 46340 && dy * dy <= 46340 * 46340 && dx * dx >= 0 && dy * dy
            >= 0) by (nonlinear_arith)
            requires
                -46340 <= dx <= 46340,
                -46340 <= dy <= 46340,
        ;
        let ghost o = square_offset(rr, Walk::Rows, k as int);
        assert(o == (dx as i32, dy as i32));
        if dx * dx + dy * dy <= r_sq && (dx != 0 || dy != 0) {
            list.push((centre.0 + dx as i32, centre.1 + dy as i32));
        }
        k += 1;
    }
    list
}

/// A source sees a tile: its own, the ones next to it, and those within the circle to which there
/// is a clear line. `clear` says so for each candidate.
pub open spec fn visible(centre: (i32, i32), r: int, clear: Seq<bool>, t: (i32, i32)) -> bool {
    t == centre || exists|i: int|
        0 <= i < candidates(centre, r).len() && #[trigger] candidates(centre, r)[i] == t && (
        tile_distance(t, centre) <= 1 || clear[i])
}

/// Fills a set with the tiles that a source sees.
pub fn compute_vision_set(
    out: &mut ahash::AHashSet<(i32, i32)>,
    origin: (i32, i32),
    radius: u32,
    clear: &Vec<bool>,
)
    requires
        radius <= MAX_VISION_RADIUS,
        room_around(origin, radius as int),
        clear@.len() == candidates(origin, radius as int).len(),
    ensures
        forall|t: (i32, i32)|
            #[trigger] tiles_in(*final(out)).contains(t) <==> visible(
                origin,
                radius as int,
                clear@,
                t,
            ),
{
    clear_tiles(out);
    add_tile(out, origin);
    let list = vision_candidates(origin, radius);
    let mut i: usize = 0;
    while i < list.len()
        invariant
            i <= list.len(),
            clear@.len() == list@.len(),
            forall|t: (i32, i32)|
                #[trigger] tiles_in(*out).contains(t) <==> (t == origin || exists|j: int|
                    0 <= j < i && #[trigger] list@[j] == t && (tile_distance(t, origin) <= 1
                        || clear@[j])),
        decreases list.len() - i,
    {
        let t = list[i];
        let ghost before = tiles_in(*out);
        let near: bool = cheb(t, origin) <= 1;
        if near || clear[i] {
            add_tile(out, t);
        }
        proof {
            assert forall|u: (i32, i32)|
                #[trigger] tiles_in(*out).contains(u) <==> (u == origin || exists|j: int|
                    0 <= j < i + 1 && #[trigger] list@[j] == u && (tile_distance(u, origin) <= 1
                        || clear@[j])) by {
                if before.contains(u) && u != origin {
                    let j = choose|j: int|
                        0 <= j < i && #[trigger] list@[j] == u && (tile_distance(u, origin) <= 1
                            || clear@[j]);
                    assert(list@[j] == u);
                }
                if u == t && (near || clear@[i as int]) {
                    assert(list@[i as int] == u);
                }
                if u != origin && exists|j: int|
                    0 <= j < i + 1 && #[trigger] list@[j] == u && (tile_distance(u, origin) <= 1
                        || clear@[j]) {
                    let j = choose|j: int|
                        0 <= j < i + 1 && #[trigger] list@[j] == u && (tile_distance(u, origin)
                            <= 1 || clear@[j]);
                    if j < i {
                        assert(before.contains(u));
                    }
                }
            }
        }
        i += 1;
    }
}

/// On open ground a source sees exactly the circle around it. Whatever stands about, it sees its
/// own tile, and nothing beyond the circle.
pub proof fn vision_covers_the_circle(
    centre: (i32, i32),
    r: int,
    clear: Seq<bool>,
    o: (i32, i32),
)
    requires
        0 <= r <= MAX_VISION_RADIUS,
        room_around(centre, r),
        clear.len() == candidates(centre, r).len(),
        max(abs(o.0 as int), abs(o.1 as int)) <= r,
    ensures
        visible(centre, r, clear, centre),
        visible(centre, r, clear, moved(centre, o)) ==> in_circle(r, o),
        in_circle(r, o) && (forall|i: int| 0 <= i < clear.len() ==> #[trigger] clear[i])
            ==> visible(centre, r, clear, moved(centre, o)),
        in_circle(r, o) && max(abs(o.0 as int), abs(o.1 as int)) <= 1 ==> visible(
            centre,
            r,
            clear,
            moved(centre, o),
        ),
{
    let t = moved(centre, o);
    let p = |k: int| looked_at(r, square_offset(r, Walk::Rows, k));
    let mk = |k: int| moved(centre, square_offset(r, Walk::Rows, k));
    collect_contains(square_size(r), p, mk, t);
    let side = 2 * r + 1;
    let k = (o.1 + r) * side + (o.0 + r);
    assert(0 <= k < side * side) by (nonlinear_arith)
        requires
            0 <= o.1 + r < side,
            0 <= o.0 + r < side,
            k == (o.1 + r) * side + (o.0 + r),
    ;
    vstd::arithmetic::div_mod::lemma_fundamental_div_mod_converse(k, side, o.1 + r, o.0 + r);
    assert(square_offset(r, Walk::Rows, k) == o);
    assert(mk(k) == t);
    let list = candidates(centre, r);
    if in_circle(r, o) && o != (0i32, 0i32) {
        assert(p(k));
        assert(list.contains(t));
        let i = choose|i: int| 0 <= i < list.len() && list[i] == t;
        assert(candidates(centre, r)[i] == t);
    }
    if visible(centre, r, clear, t) && o != (0i32, 0i32) {
        assert(list.contains(t));
        let m = choose|m: int| 0 <= m < square_size(r) && p(m) && #[trigger] mk(m) == t;
        let q = square_offset(r, Walk::Rows, m);
        assert(0 <= m / side < side) by (nonlinear_arith)
            requires
                0 <= m < side * side,
                side > 0,
        ;
        assert(q == o);
    }
    if o == (0i32, 0i32) {
        assert(in_circle(r, o)) by (nonlinear_arith)
            requires
                o.0 == 0,
                o.1 == 0,
        ;
    }
}

/// Where a source of sight is.
#[derive(Clone, Copy, Debug)]
pub enum VisionSource {
    Lookout(ActiveLookout),
    /// A settlement or a camp: its tile and its owner.
    Base((i32, i32), u32),
    /// Neither.
    Unattached,
}

/// What a set of sight belongs to: a lookout before a settlement, a settlement before a camp. A
/// settlement and a camp are given by their tile and their owner.
pub open spec fn source_spec(
    settlement: Option<((i32, i32), u32)>,
    camp: Option<((i32, i32), u32)>,
    lookout: Option<ActiveLookout>,
) -> VisionSource {
    match (lookout, settlement, camp) {
        (Some(l), _, _) => VisionSource::Lookout(l),
        (None, Some(s), _) => VisionSource::Base(s.0, s.1),
        (None, None, Some(c)) => VisionSource::Base(c.0, c.1),
        (None, None, None) => VisionSource::Unattached,
    }
}

/// What a set of sight belongs to.
pub fn source_of(
    settlement: Option<((i32, i32), u32)>,
    camp: Option<((i32, i32), u32)>,
    lookout: Option<ActiveLookout>,
) -> (source: VisionSource)
    ensures
        source == source_spec(settlement, camp, lookout),
{
    if let Some(l) = lookout {
        return VisionSource::Lookout(l);
    }
    if let Some(s) = settlement {
        return VisionSource::Base(s.0, s.1);
    }
    match camp {
        Some(c) => VisionSource::Base(c.0, c.1),
        None => VisionSource::Unattached,
    }
}

pub open spec fn age_of(faction_id: u32) -> spec_fn((u32, Era)) -> bool {
    |f: (u32, Era)| f.0 == faction_id
}

/// How far the bases of a faction see; those of an unknown faction as in the first age.
pub open spec fn base_radius(eras: Seq<(u32, Era)>, faction_id: u32) -> u32 {
    match find(eras, age_of(faction_id)) {
        Some(f) => era_radius(f.1),
        None => era_radius(Era::Paleolithic),
    }
}

/// How far the bases of a faction see.
pub fn era_radius_for_faction(eras: &Vec<(u32, Era)>, faction_id: u32) -> (r: u32)
    ensures
        r == base_radius(eras@, faction_id),
{
    let ghost p = age_of(faction_id);
    let mut i: usize = 0;
    while i < eras.len()
        invariant
            i <= eras.len(),
            p == age_of(faction_id),
            forall|j: int| 0 <= j < i ==> !p(#[trigger] eras@[j]),
        decreases eras.len() - i,
    {
        if eras[i].0 == faction_id {
            proof {
                find_is_first(eras@, p, i as int);
            }
            return base_vision_radius_for_era(eras[i].1);
        }
        i += 1;
    }
    proof {
        find_is_none(eras@, p);
    }
    base_vision_radius_for_era(Era::Paleolithic)
}

/// The place and the reach of a source. A base stands on the ground, at whatever level that is.
pub open spec fn resolved(
    source: VisionSource,
    eras: Seq<(u32, Era)>,
    origin: (i32, i32, i8),
    radius: u32,
) -> ((i32, i32), Option<i8>, u32) {
    match source {
        VisionSource::Lookout(l) => (l.anchor_tile, Some(l.anchor_z), l.radius),
        VisionSource::Base(t, f) => (t, None, base_radius(eras, f)),
        VisionSource::Unattached => ((origin.0, origin.1), Some(origin.2), radius),
    }
}

/// The place and the reach of a source.
pub fn resolve_source(
    source: &VisionSource,
    eras: &Vec<(u32, Era)>,
    cache: &CachedVisionSet,
) -> (r: ((i32, i32), Option<i8>, u32))
    ensures
        r == resolved(*source, eras@, cache.origin, cache.radius),
{
    match *source {
        VisionSource::Lookout(l) => (l.anchor_tile, Some(l.anchor_z), l.radius),
        VisionSource::Base(t, f) => (t, None, era_radius_for_faction(eras, f)),
        VisionSource::Unattached => (
            (cache.origin.0, cache.origin.1),
            Some(cache.origin.2),
            cache.radius,
        ),
    }
}

/// A change at a tile may open or block a line of sight.
pub open spec fn touches_sight(origin: (i32, i32, i8), radius: u32, t: (i32, i32)) -> bool {
    tile_distance(t, (origin.0, origin.1)) <= radius
}

/// A source must look again: it has moved, it sees farther, or something changed within its
/// reach.
pub open spec fn outdated(
    source: VisionSource,
    eras: Seq<(u32, Era)>,
    origin: (i32, i32, i8),
    radius: u32,
    changed: Seq<(i32, i32)>,
) -> bool {
    let (tile, z, reach) = resolved(source, eras, origin, radius);
    ||| tile != (origin.0, origin.1)
    ||| (z is Some && z != Some(origin.2))
    ||| reach > radius
    ||| exists|i: int| 0 <= i < changed.len() && touches_sight(origin, radius, #[trigger] changed[i])
}

/// Marks a source that must look again. `changed` are the tiles where ground or walls changed.
pub fn invalidate_vision_cache(
    cache: &mut CachedVisionSet,
    source: &VisionSource,
    eras: &Vec<(u32, Era)>,
    changed: &Vec<(i32, i32)>,
)
    ensures
        final(cache).dirty == (old(cache).dirty || outdated(
            *source,
            eras@,
            old(cache).origin,
            old(cache).radius,
            changed@,
        )),
        final(cache).seen() == old(cache).seen(),
        final(cache).faction == old(cache).faction,
        final(cache).radius == old(cache).radius,
        final(cache).origin == old(cache).origin,
{
    let (tile, z, reach) = resolve_source(source, eras, cache);
    let moved: bool = tile.0 != cache.origin.0 || tile.1 != cache.origin.1 || match z {
        Some(level) => level != cache.origin.2,
        None => false,
    };
    if moved || reach > cache.radius {
        cache.dirty = true;
        return;
    }
    let mut i: usize = 0;
    while i < changed.len()
        invariant
            i <= changed.len(),
            *cache == *old(cache),
            (tile, z, reach) == resolved(*source, eras@, cache.origin, cache.radius),
            tile == (cache.origin.0, cache.origin.1),
            z is Some ==> z == Some(cache.origin.2),
            reach <= cache.radius,
            forall|j: int|
                0 <= j < i ==> !touches_sight(cache.origin, cache.radius, #[trigger] changed@[j]),
        decreases changed.len() - i,
    {
        if cheb(changed[i], (cache.origin.0, cache.origin.1)) <= cache.radius {
            assert(touches_sight(cache.origin, cache.radius, changed@[i as int]));
            cache.dirty = true;
            return;
        }
        i += 1;
    }
}

/// The level of the ground, within eight bits.
pub open spec fn level_at(terrain: TerrainWindow, t: (i32, i32)) -> i8 {
    match terrain.tile(t.0 as int, t.1 as int) {
        Some(i) => clamped(i.surface_z as int, i8::MIN as int, i8::MAX as int) as i8,
        None => 0,
    }
}

fn ground_level_at(terrain: &TerrainWindow, t: (i32, i32)) -> (z: i8)
    requires
        terrain.wf(),
    ensures
        z == level_at(*terrain, t),
{
    match terrain.at(t.0, t.1) {
        Some(i) => clamp(i.surface_z, i8::MIN as i32, i8::MAX as i32) as i8,
        None => 0,
    }
}

/// From where and how far a source looks, if it must look again. A base looks from the ground.
pub fn vision_plan(
    cache: &CachedVisionSet,
    source: &VisionSource,
    eras: &Vec<(u32, Era)>,
    terrain: &TerrainWindow,
) -> (r: Option<((i32, i32, i8), u32)>)
    requires
        terrain.wf(),
    ensures
        r == (if cache.dirty {
            let (tile, z, reach) = resolved(*source, eras@, cache.origin, cache.radius);
            let level = if source is Lookout {
                z->0
            } else {
                level_at(*terrain, tile)
            };
            Some(((tile.0, tile.1, level), reach))
        } else {
            None
        }),
{
    if !cache.dirty {
        return None;
    }
    let (tile, z, reach) = resolve_source(source, eras, cache);
    let level: i8 = match *source {
        VisionSource::Lookout(l) => l.anchor_z,
        _ => ground_level_at(terrain, tile),
    };
    Some(((tile.0, tile.1, level), reach))
}

/// A source looks again.
pub fn rebuild_vision(
    cache: &mut CachedVisionSet,
    origin: (i32, i32, i8),
    radius: u32,
    clear: &Vec<bool>,
)
    requires
        radius <= MAX_VISION_RADIUS,
        room_around((origin.0, origin.1), radius as int),
        clear@.len() == candidates((origin.0, origin.1), radius as int).len(),
    ensures
        forall|t: (i32, i32)|
            #[trigger] final(cache).seen().contains(t) <==> visible(
                (origin.0, origin.1),
                radius as int,
                clear@,
                t,
            ),
        !final(cache).dirty,
        final(cache).faction == old(cache).faction,
        final(cache).radius == radius,
        final(cache).origin == origin,
{
    compute_vision_set(&mut cache.tiles, (origin.0, origin.1), radius, clear);
    cache.origin = origin;
    cache.radius = radius;
    cache.dirty = false;
}

/// A source that has looked need not look again until it moves, its faction advances or something
/// changes within its reach.
pub proof fn fresh_sight_stays_fresh(
    source: VisionSource,
    eras: Seq<(u32, Era)>,
    terrain: TerrainWindow,
    origin: (i32, i32, i8),
    radius: u32,
)
    ensures
        ({
            let (tile, z, reach) = resolved(source, eras, origin, radius);
            let level = if source is Lookout {
                z->0
            } else {
                level_at(terrain, tile)
            };
            source !is Unattached ==> !outdated(
                source,
                eras,
                (tile.0, tile.1, level),
                reach,
                Seq::empty(),
            )
        }),
{
}

/// What a person on watch does.
#[derive(Clone, Copy, Debug)]
pub enum LookoutStep {
    /// Still on the way.
    Walk,
    /// The watch is over.
    Finish,
    /// The watch begins.
    Begin(ActiveLookout),
    /// The watch goes on.
    Hold,
}

/// What a person on watch does now.
pub open spec fn lookout_step_spec(
    here: (i32, i32, i8),
    anchor: (i32, i32),
    anchor_z: i8,
    expires_tick: Option<u64>,
    watching: bool,
    now: u64,
) -> LookoutStep {
    if here != (anchor.0, anchor.1, anchor_z) {
        LookoutStep::Walk
    } else if expires_tick matches Some(t) && now >= t {
        LookoutStep::Finish
    } else if watching {
        LookoutStep::Hold
    } else {
        LookoutStep::Begin(
            ActiveLookout {
                anchor_tile: anchor,
                anchor_z,
                radius: LOOKOUT_VIEW_RADIUS,
                expires_tick,
            },
        )
    }
}

/// What a person on watch does now. A watch that was ordered has no end.
pub fn lookout_step(
    here: (i32, i32, i8),
    anchor: (i32, i32),
    anchor_z: i8,
    expires_tick: Option<u64>,
    watching: bool,
    now: u64,
) -> (s: LookoutStep)
    ensures
        s == lookout_step_spec(here, anchor, anchor_z, expires_tick, watching, now),
{
    if here.0 != anchor.0 || here.1 != anchor.1 || here.2 != anchor_z {
        return LookoutStep::Walk;
    }
    match expires_tick {
        Some(t) => {
            if now >= t {
                return LookoutStep::Finish;
            }
        },
        None => {},
    }
    if watching {
        LookoutStep::Hold
    } else {
        LookoutStep::Begin(
            ActiveLookout {
                anchor_tile: anchor,
                anchor_z,
                radius: LOOKOUT_VIEW_RADIUS,
                expires_tick,
            },
        )
    }
}

/// Whether a scout stops to look about, and until when: a hunter in search of food who has just
/// reached a place to explore.
pub fn scout_pause(
    is_hunter: bool,
    seeks_food: bool,
    exploring: bool,
    arrived: bool,
    now: u64,
) -> (until: Option<u64>)
    requires
        now + AUTONOMOUS_LOOKOUT_TICKS <= u64::MAX,
    ensures
        until == (if is_hunter && seeks_food && exploring && arrived {
            Some((now + AUTONOMOUS_LOOKOUT_TICKS) as u64)
        } else {
            None
        }),
{
    if is_hunter && seeks_food && exploring && arrived {
        Some(now + AUTONOMOUS_LOOKOUT_TICKS)
    } else {
        None
    }
}

/// Whether a person has left the place of the watch.
pub fn lookout_drifted(here: (i32, i32, i8), lookout: &ActiveLookout) -> (b: bool)
    ensures
        b == (here != (lookout.anchor_tile.0, lookout.anchor_tile.1, lookout.anchor_z)),
{
    here.0 != lookout.anchor_tile.0 || here.1 != lookout.anchor_tile.1 || here.2
        != lookout.anchor_z
}

/// A watch of limited length ends when its time is up, not before; an ordered one does not end.
pub proof fn watches_end_in_time(
    anchor: (i32, i32),
    anchor_z: i8,
    expires_tick: Option<u64>,
    watching: bool,
    now: u64,
)
    ensures
        ({
            let s = lookout_step_spec(
                (anchor.0, anchor.1, anchor_z),
                anchor,
                anchor_z,
                expires_tick,
                watching,
                now,
            );
            &&& s is Finish <==> (expires_tick matches Some(t) && now >= t)
            &&& s !is Walk
        }),
{
}

/// The bases that get sight: those of the player's faction. Each base is given with its owner.
pub fn attach_base_vision_caches_system(bases: &Vec<(Entity, u32)>, player_faction: u32) -> (list: Vec<Entity>)
    ensures
        list@ == collect(
            bases@.len() as int,
            |i: int| bases@[i].1 == player_faction,
            |i: int| bases@[i].0,
        ),
{
    let ghost p = |i: int| bases@[i].1 == player_faction;
    let ghost mk = |i: int| bases@[i].0;
    let mut list: Vec<Entity> = Vec::new();
    let mut i: usize = 0;
    while i < bases.len()
        invariant
            i <= bases.len(),
            p == (|i: int| bases@[i].1 == player_faction),
            mk == (|i: int| bases@[i].0),
            list@ == collect(i as int, p, mk),
        decreases bases.len() - i,
    {
        if bases[i].1 == player_faction {
            list.push(bases[i].0);
        }
        i += 1;
    }
    list
}

/// Each age sees farther than the one before it, from sixteen tiles to forty.
pub proof fn ages_see_farther()
    ensures
        era_radius(Era::Paleolithic) == 16,
        era_radius(Era::Paleolithic) < era_radius(Era::Mesolithic) < era_radius(Era::Neolithic),
        era_radius(Era::Neolithic) < era_radius(Era::Chalcolithic) < era_radius(Era::BronzeAge),
        era_radius(Era::Mesolithic) == 20 && era_radius(Era::Neolithic) == 25,
        era_radius(Era::Chalcolithic) == 30 && era_radius(Era::BronzeAge) == 40,
{
}

/// A base sees as far as the age of its owner; an owner whose age is not known is in the first.
pub proof fn bases_see_with_their_age(eras: Seq<(u32, Era)>, faction_id: u32, k: int)
    ensures
        (0 <= k < eras.len() && eras[k].0 == faction_id && forall|j: int|
            0 <= j < k ==> (#[trigger] eras[j]).0 != faction_id) ==> base_radius(eras, faction_id)
            == era_radius(eras[k].1),
        (forall|j: int| 0 <= j < eras.len() ==> (#[trigger] eras[j]).0 != faction_id)
            ==> base_radius(eras, faction_id) == 16,
{
    let p = age_of(faction_id);
    if 0 <= k < eras.len() && eras[k].0 == faction_id && forall|j: int|
        0 <= j < k ==> (#[trigger] eras[j]).0 != faction_id {
        assert forall|j: int| 0 <= j < k implies !p(#[trigger] eras[j]) by {}
        find_is_first(eras, p, k);
    }
    if forall|j: int| 0 <= j < eras.len() ==> (#[trigger] eras[j]).0 != faction_id {
        assert forall|j: int| 0 <= j < eras.len() implies !p(#[trigger] eras[j]) by {}
        find_is_none(eras, p);
    }
}

/// Nothing is seen beyond the circle, and without a clear line nothing beyond the neighbouring
/// tiles.
pub proof fn sight_ends_at_the_circle(
    centre: (i32, i32),
    r: int,
    clear: Seq<bool>,
    t: (i32, i32),
)
    requires
        0 <= r <= 46340,
        room_around(centre, r),
        clear.len() == candidates(centre, r).len(),
        visible(centre, r, clear, t),
    ensures
        (t.0 - centre.0) * (t.0 - centre.0) + (t.1 - centre.1) * (t.1 - centre.1) <= r * r,
        (forall|i: int| 0 <= i < clear.len() ==> !#[trigger] clear[i]) ==> -1 <= t.0 - centre.0
            <= 1 && -1 <= t.1 - centre.1 <= 1,
{
    if t != centre {
        let i = choose|i: int|
            0 <= i < candidates(centre, r).len() && #[trigger] candidates(centre, r)[i] == t && (
            tile_distance(t, centre) <= 1 || clear[i]);
        let p = |k: int| looked_at(r, square_offset(r, Walk::Rows, k));
        let mk = |k: int| moved(centre, square_offset(r, Walk::Rows, k));
        collect_contains(square_size(r), p, mk, t);
        assert(candidates(centre, r).contains(t));
        let k = choose|k: int| 0 <= k < square_size(r) && p(k) && #[trigger] mk(k) == t;
        let o = square_offset(r, Walk::Rows, k);
        let side = 2 * r + 1;
        assert(0 <= k % side < side && 0 <= k / side < side) by (nonlinear_arith)
            requires
                side > 0,
                0 <= k < side * side,
        ;
        assert(-r <= o.0 <= r && -r <= o.1 <= r);
        assert(t.0 - centre.0 == o.0 && t.1 - centre.1 == o.1);
    } else {
        assert(r * r >= 0) by (nonlinear_arith);
        assert(0int * 0int == 0);
    }
}

/// A watch comes before a settlement and a settlement before a camp; a watcher sees from where they
/// stand as far as the watch reaches, a base from its tile, and what is neither stays as it was.
pub proof fn watches_come_first(
    settlement: Option<((i32, i32), u32)>,
    camp: Option<((i32, i32), u32)>,
    lookout: Option<ActiveLookout>,
    eras: Seq<(u32, Era)>,
    origin: (i32, i32, i8),
    radius: u32,
)
    ensures
        ({
            let r = resolved(source_spec(settlement, camp, lookout), eras, origin, radius);
            &&& lookout matches Some(l) ==> r == (l.anchor_tile, Some(l.anchor_z), l.radius)
            &&& lookout is None && settlement is Some ==> r.0 == (settlement->0).0 && r.1 is None
                && r.2 == base_radius(eras, (settlement->0).1)
            &&& lookout is None && settlement is None && camp is Some ==> r.0 == (camp->0).0 && r.1
                is None && r.2 == base_radius(eras, (camp->0).1)
            &&& lookout is None && settlement is None && camp is None ==> r.0.0 == origin.0
                && r.0.1 == origin.1 && r.1 == Some(origin.2) && r.2 == radius
        }),
{
}

/// Sight is out of date exactly when its source has moved, across or up or down, sees farther than
/// before, or something has changed within its square.
pub proof fn sight_is_outdated_by_change(
    source: VisionSource,
    eras: Seq<(u32, Era)>,
    origin: (i32, i32, i8),
    radius: u32,
    changed: Seq<(i32, i32)>,
)
    ensures
        ({
            let (tile, z, reach) = resolved(source, eras, origin, radius);
            let touched = exists|i: int|
                {
                    &&& 0 <= i < changed.len()
                    &&& -radius <= (#[trigger] changed[i]).0 - origin.0 <= radius
                    &&& -radius <= changed[i].1 - origin.1 <= radius
                };
            outdated(source, eras, origin, radius, changed) <==> tile.0 != origin.0 || tile.1
                != origin.1 || (z matches Some(l) && l != origin.2) || reach > radius || touched
        }),
{
    if exists|i: int|
        0 <= i < changed.len() && touches_sight(origin, radius, #[trigger] changed[i]) {
        let i = choose|i: int|
            0 <= i < changed.len() && touches_sight(origin, radius, #[trigger] changed[i]);
        near_is_near_on_both_axes(changed[i], (origin.0, origin.1), radius as int);
    }
    if exists|i: int|
        {
            &&& 0 <= i < changed.len()
            &&& -radius <= (#[trigger] changed[i]).0 - origin.0 <= radius
            &&& -radius <= changed[i].1 - origin.1 <= radius
        } {
        let i = choose|i: int|
            {
                &&& 0 <= i < changed.len()
                &&& -radius <= (#[trigger] changed[i]).0 - origin.0 <= radius
                &&& -radius <= changed[i].1 - origin.1 <= radius
            };
        near_is_near_on_both_axes(changed[i], (origin.0, origin.1), radius as int);
        assert(touches_sight(origin, radius, changed[i]));
    }
}

/// A watcher walks until they stand on their post; there the watch begins once, reaches fifty tiles
/// from the post, and ends as it was set to.
pub proof fn watches_begin_at_their_post(
    here: (i32, i32, i8),
    anchor: (i32, i32),
    anchor_z: i8,
    expires_tick: Option<u64>,
    watching: bool,
    now: u64,
)
    ensures
        ({
            let s = lookout_step_spec(here, anchor, anchor_z, expires_tick, watching, now);
            let there = here.0 == anchor.0 && here.1 == anchor.1 && here.2 == anchor_z;
            &&& s is Walk <==> !there
            &&& s is Hold ==> watching
            &&& s matches LookoutStep::Begin(l) ==> !watching && l.anchor_tile == anchor
                && l.anchor_z == anchor_z && l.radius == 50 && l.expires_tick == expires_tick
            &&& there && expires_tick is None ==> (if watching {
                s is Hold
            } else {
                s is Begin
            })
        }),
{
}

/// The level of a loaded tile is that of its surface, as far as levels go; elsewhere it is zero.
pub proof fn levels_are_those_of_the_ground(terrain: TerrainWindow, t: (i32, i32))
    ensures
        match terrain.tile(t.0 as int, t.1 as int) {
            Some(g) => {
                &&& -128 <= g.surface_z <= 127 ==> level_at(terrain, t) == g.surface_z
                &&& g.surface_z > 127 ==> level_at(terrain, t) == 127
                &&& g.surface_z < -128 ==> level_at(terrain, t) == -128
            },
            None => level_at(terrain, t) == 0,
        },
{
}

/// A scout's pause lasts a hundred and twenty ticks, and people who keep no watch see fifteen tiles
/// far, not a third as far as those who do.
pub proof fn pauses_and_views_are_measured(now: int)
    ensures
        now + AUTONOMOUS_LOOKOUT_TICKS - now == 120,
        STANDARD_VIEW_RADIUS == 15,
        3 * STANDARD_VIEW_RADIUS < LOOKOUT_VIEW_RADIUS,
{
}

} // verus!
