//! Wells that are dug by hand: a shaft down to the water, a helix of steps around it, and a
//! parapet around both.

use vstd::prelude::*;
use crate::geometry::{clamped, max, tile_distance};
use crate::occupancy::around;
use crate::parts::{Entity, TechId};
use crate::rings::{ring, ring_holds, ring_offsets, room_around, Walk};
use crate::seqs::{collect, collect_contains};
use crate::terrain::TerrainWindow;
use crate::tiles::{drop_entity, entities_at, entity_at, no_entities, put_entity};

verus! {

/// A shaft goes down at most this far: the helix has one tile for each level.
pub const MAX_HAND_DUG_WELL_DEPTH_Z: i32 = 8;

/// A shaft goes down at least this far.
pub const MIN_WELL_DEPTH_Z: i32 = 2;

/// The shaft ends this far below the water table.
pub const WELL_SUMP_Z: i32 = 1;

/// What is to be dug.
#[derive(Clone, Copy, Debug, PartialEq, Eq, Structural)]
pub struct WellSpec {
    pub surf_z: i8,
    pub bottom_z: i8,
    /// Levels from the surface to the bottom; also the length of the helix.
    pub depth: i32,
}

/// What came of looking for water.
#[derive(Clone, Copy, Debug, PartialEq, Eq, Structural)]
pub enum WellResult {
    Diggable(WellSpec),
    /// The water lies deeper than a hand-dug shaft can reach.
    TooDeep,
    /// The ground or its water is not known yet.
    Unresolvable,
}

/// How deep a shaft must go to stand in water whose table lies at level `table`.
pub open spec fn depth_needed(surf_z: int, table: int) -> int {
    surf_z - table + WELL_SUMP_Z
}

/// How deep a shaft is dug: as deep as the water asks for, and never less than a little.
pub open spec fn depth_dug(surf_z: int, table: int) -> int {
    max(depth_needed(surf_z, table), MIN_WELL_DEPTH_Z as int)
}

/// A level as an `i8`, cut at the ends of its range.
pub open spec fn level_of(z: int) -> i8 {
    clamped(z, i8::MIN as int, i8::MAX as int) as i8
}

/// The shaft for a surface level and a water table. Water that asks for more than can be dug by
/// hand is refused, and no other.
pub open spec fn well_for(surf_z: int, table: int) -> WellResult {
    if depth_needed(surf_z, table) > MAX_HAND_DUG_WELL_DEPTH_Z {
        WellResult::TooDeep
    } else {
        let depth = depth_dug(surf_z, table);
        WellResult::Diggable(
            WellSpec {
                surf_z: level_of(surf_z),
                bottom_z: level_of(surf_z - depth),
                depth: depth as i32,
            },
        )
    }
}

fn to_level(z: i64) -> (l: i8)
    ensures
        l == level_of(z as int),
{
    if z < i8::MIN as i64 {
        i8::MIN
    } else if z > i8::MAX as i64 {
        i8::MAX
    } else {
        z as i8
    }
}

/// The shaft for a surface level and the level at which the water table lies, rounded down.
pub fn well_spec_from(surf_z: i32, table_floor: i32) -> (r: WellResult)
    ensures
        r == well_for(surf_z as int, table_floor as int),
{
    let needed: i64 = surf_z as i64 - table_floor as i64 + WELL_SUMP_Z as i64;
    if needed > MAX_HAND_DUG_WELL_DEPTH_Z as i64 {
        return WellResult::TooDeep;
    }
    let depth: i64 = if needed < MIN_WELL_DEPTH_Z as i64 {
        MIN_WELL_DEPTH_Z as i64
    } else {
        needed
    };
    WellResult::Diggable(
        WellSpec {
            surf_z: to_level(surf_z as i64),
            bottom_z: to_level(surf_z as i64 - depth),
            depth: depth as i32,
        },
    )
}

/// The shaft at a place, given the level of the water table there where it is known. Ground below
/// the lowest level of the world is not known.
pub fn well_spec_at(
    terrain: &TerrainWindow,
    center: (i32, i32),
    table_floor: Option<i32>,
) -> (r: WellResult)
    requires
        terrain.wf(),
    ensures
        r == (match (terrain.tile(center.0 as int, center.1 as int), table_floor) {
            (Some(i), Some(table)) => if i.surface_z < terrain.z_min {
                WellResult::Unresolvable
            } else {
                well_for(i.surface_z as int, table as int)
            },
            _ => WellResult::Unresolvable,
        }),
{
    match terrain.at(center.0, center.1) {
        Some(i) => {
            if i.surface_z < terrain.z_min {
                return WellResult::Unresolvable;
            }
            match table_floor {
                Some(table) => well_spec_from(i.surface_z, table),
                None => WellResult::Unresolvable,
            }
        },
        None => WellResult::Unresolvable,
    }
}

/// A site is refused exactly where the shaft would have to go down more than eight levels. Any
/// other well is as deep as the water asks for, but at least two levels; its bottom is its depth
/// below the surface, and below the water table.
pub proof fn wells_reach_water(surf_z: int, table: int)
    ensures
        well_for(surf_z, table) is TooDeep <==> surf_z - table + WELL_SUMP_Z
            > MAX_HAND_DUG_WELL_DEPTH_Z,
        well_for(surf_z, table) !is Unresolvable,
        well_for(surf_z, table) matches WellResult::Diggable(s) ==> {
            &&& s.depth == max(MIN_WELL_DEPTH_Z as int, surf_z - table + WELL_SUMP_Z)
            &&& MIN_WELL_DEPTH_Z <= s.depth <= MAX_HAND_DUG_WELL_DEPTH_Z
            &&& i8::MIN <= surf_z <= i8::MAX ==> s.surf_z == surf_z
            &&& i8::MIN <= surf_z - s.depth && surf_z <= i8::MAX ==> s.depth == s.surf_z
                - s.bottom_z && s.bottom_z <= table - WELL_SUMP_Z
        },
{
}

/// The offset of the `k`th tile of the helix, clockwise from north.
pub open spec fn helix_offset(k: int) -> (i32, i32) {
    if k == 0 {
        (0i32, -1i32)
    } else if k == 1 {
        (1i32, -1i32)
    } else if k == 2 {
        (1i32, 0i32)
    } else if k == 3 {
        (1i32, 1i32)
    } else if k == 4 {
        (0i32, 1i32)
    } else if k == 5 {
        (-1i32, 1i32)
    } else if k == 6 {
        (-1i32, 0i32)
    } else {
        (-1i32, -1i32)
    }
}

/// The `k`th tile of the helix.
pub open spec fn helix_tile(center: (i32, i32), k: int) -> (i32, i32) {
    ((center.0 + helix_offset(k).0) as i32, (center.1 + helix_offset(k).1) as i32)
}

/// The eight tiles around the shaft, clockwise from north.
pub fn inner_ring(center: (i32, i32)) -> (tiles: [(i32, i32); 8])
    requires
        room_around(center, 1),
    ensures
        forall|k: int| 0 <= k < 8 ==> #[trigger] tiles@[k] == helix_tile(center, k),
{
    let (x, y) = center;
    [
        (x, y - 1),
        (x + 1, y - 1),
        (x + 1, y),
        (x + 1, y + 1),
        (x, y + 1),
        (x - 1, y + 1),
        (x - 1, y),
        (x - 1, y - 1),
    ]
}

/// The tiles of the parapet and the gateway.
pub open spec fn parapet(center: (i32, i32)) -> Seq<(i32, i32)> {
    around(center, ring(2, Walk::Rows))
}

/// The tiles two steps from the shaft, row by row.
pub fn outer_ring(center: (i32, i32)) -> (tiles: Vec<(i32, i32)>)
    requires
        room_around(center, 2),
    ensures
        tiles@ == parapet(center),
{
    let offsets = ring_offsets(2, Walk::Rows);
    let ghost all = around(center, offsets@);
    let mut tiles: Vec<(i32, i32)> = Vec::new();
    let mut i: usize = 0;
    while i < offsets.len()
        invariant
            i <= offsets.len(),
            room_around(center, 2),
            offsets@ == ring(2, Walk::Rows),
            all == around(center, offsets@),
            tiles@ == all.take(i as int),
        decreases offsets.len() - i,
    {
        let o = offsets[i];
        proof {
            ring_holds(2, Walk::Rows, o);
            assert(offsets@.contains(o)) by {
                assert(offsets@[i as int] == o);
            }
        }
        tiles.push((center.0 + o.0, center.1 + o.1));
        i += 1;
        assert(tiles@ =~= all.take(i as int));
    }
    assert(all.take(i as int) =~= all);
    tiles
}

/// The tile of the parapet that stays open.
pub open spec fn gateway(center: (i32, i32)) -> (i32, i32) {
    (center.0, (center.1 - 2) as i32)
}

/// The tile by which the pit is entered: north of the helix's first step.
pub fn gateway_tile(center: (i32, i32)) -> (t: (i32, i32))
    requires
        room_around(center, 2),
    ensures
        t == gateway(center),
{
    (center.0, center.1 - 2)
}

/// What is dug: the shaft to its bottom, then each step of the helix one level lower.
pub open spec fn targets(spec: WellSpec, center: (i32, i32)) -> Seq<((i32, i32), i8)> {
    Seq::new(
        (1 + spec.depth) as nat,
        |k: int|
            if k == 0 {
                (center, spec.bottom_z)
            } else {
                (helix_tile(center, k - 1), (spec.surf_z - k) as i8)
            },
    )
}

/// The tiles that are dug, each with the level it is dug to.
pub fn excavation_targets(spec: &WellSpec, center: (i32, i32)) -> (list: Vec<((i32, i32), i8)>)
    requires
        0 <= spec.depth <= MAX_HAND_DUG_WELL_DEPTH_Z,
        room_around(center, 1),
    ensures
        list@ == targets(*spec, center),
{
    let tiles = inner_ring(center);
    let mut list: Vec<((i32, i32), i8)> = Vec::new();
    list.push((center, spec.bottom_z));
    let mut k: i32 = 1;
    while k <= spec.depth
        invariant
            1 <= k <= spec.depth + 1,
            0 <= spec.depth <= MAX_HAND_DUG_WELL_DEPTH_Z,
            forall|k: int| 0 <= k < 8 ==> #[trigger] tiles@[k] == helix_tile(center, k),
            list@ =~= targets(*spec, center).take(k as int),
        decreases spec.depth + 1 - k,
    {
        let i: usize = (k - 1) as usize;
        assert(tiles@[k - 1] == helix_tile(center, k - 1));
        let t: (i32, i32) = tiles[i];
        let level: i8 = (spec.surf_z as i32 - k) as i8;
        list.push((t, level));
        k += 1;
    }
    assert(targets(*spec, center).take(k as int) =~= targets(*spec, center));
    list
}

/// The helix can be walked: each step lies beside the one before and one level lower, the first
/// beside the gateway and one below the surface. The helix closes around the shaft.
pub proof fn helix_is_walkable(center: (i32, i32), spec: WellSpec, k: int)
    requires
        room_around(center, 2),
        0 <= spec.depth <= MAX_HAND_DUG_WELL_DEPTH_Z,
        spec.surf_z - spec.depth >= i8::MIN,
    ensures
        0 <= k < 8 ==> tile_distance(helix_tile(center, k), helix_tile(center, (k + 1) % 8)) == 1
            && tile_distance(helix_tile(center, k), center) == 1,
        1 <= k < spec.depth ==> targets(spec, center)[k + 1].1 == targets(spec, center)[k].1 - 1,
        spec.depth >= 1 ==> targets(spec, center)[1].1 == spec.surf_z - 1,
        tile_distance(gateway(center), helix_tile(center, 0)) == 1,
{
}

/// No tile is dug twice, and none of the parapet is dug.
pub proof fn digs_are_apart(center: (i32, i32), spec: WellSpec)
    requires
        room_around(center, 2),
        0 <= spec.depth <= MAX_HAND_DUG_WELL_DEPTH_Z,
    ensures
        forall|i: int, j: int|
            0 <= i < j < targets(spec, center).len() ==> (#[trigger] targets(spec, center)[i]).0
                != (#[trigger] targets(spec, center)[j]).0,
        forall|i: int|
            0 <= i < targets(spec, center).len() ==> !parapet(center).contains(
                (#[trigger] targets(spec, center)[i]).0,
            ),
{
    let offsets = ring(2, Walk::Rows);
    assert forall|i: int| 0 <= i < targets(spec, center).len() implies !parapet(center).contains(
        (#[trigger] targets(spec, center)[i]).0,
    ) by {
        let t = targets(spec, center)[i].0;
        if parapet(center).contains(t) {
            let k = choose|k: int| 0 <= k < parapet(center).len() && parapet(center)[k] == t;
            assert(offsets.contains(offsets[k]));
            ring_holds(2, Walk::Rows, offsets[k]);
        }
    }
}

/// The parapet holds exactly the tiles at distance two, the gateway among them.
pub proof fn parapet_surrounds_the_pit(center: (i32, i32), t: (i32, i32))
    requires
        room_around(center, 2),
    ensures
        parapet(center).contains(t) <==> tile_distance(t, center) == 2,
        parapet(center).contains(gateway(center)),
{
    let offsets = ring(2, Walk::Rows);
    parapet_holds(center, t);
    parapet_holds(center, gateway(center));
}

proof fn parapet_holds(center: (i32, i32), t: (i32, i32))
    requires
        room_around(center, 2),
    ensures
        parapet(center).contains(t) <==> tile_distance(t, center) == 2,
{
    let offsets = ring(2, Walk::Rows);
    let p = parapet(center);
    if tile_distance(t, center) == 2 {
        let o = ((t.0 - center.0) as i32, (t.1 - center.1) as i32);
        ring_holds(2, Walk::Rows, o);
        let k = choose|k: int| 0 <= k < offsets.len() && offsets[k] == o;
        assert(p[k] == t);
    }
    if p.contains(t) {
        let k = choose|k: int| 0 <= k < p.len() && p[k] == t;
        assert(offsets.contains(offsets[k]));
        ring_holds(2, Walk::Rows, offsets[k]);
    }
}

/// How far a well has come.
#[derive(Clone, Copy, Debug, PartialEq, Eq, Structural)]
pub enum WellPhase {
    /// The shaft and the helix are being dug.
    Excavating,
    /// The parapet is being built.
    Lining,
    /// Everything stands; the well is opened next.
    Capping,
}

/// A well that is being built.
#[derive(Debug)]
pub struct WellSite {
    pub faction_id: u32,
    pub center: (i32, i32),
    pub surf_z: i8,
    pub bottom_z: i8,
    pub depth: i32,
    pub phase: WellPhase,
    /// Who asked for it.
    pub author: Option<Entity>,
    /// The tiles of the parapet that were planned.
    pub lining_tiles: Vec<(i32, i32)>,
    pub walls_spawned: bool,
}

impl WellSite {
    pub fn new(
        faction_id: u32,
        center: (i32, i32),
        spec: WellSpec,
        author: Option<Entity>,
    ) -> (s: WellSite)
        ensures
            s.faction_id == faction_id,
            s.center == center,
            s.dig() == spec,
            s.phase == WellPhase::Excavating,
            s.author == author,
            s.lining_tiles@.len() == 0,
            !s.walls_spawned,
    {
        WellSite {
            faction_id,
            center,
            surf_z: spec.surf_z,
            bottom_z: spec.bottom_z,
            depth: spec.depth,
            phase: WellPhase::Excavating,
            author,
            lining_tiles: Vec::new(),
            walls_spawned: false,
        }
    }

    /// What is to be dug.
    pub open spec fn dig(self) -> WellSpec {
        WellSpec { surf_z: self.surf_z, bottom_z: self.bottom_z, depth: self.depth }
    }

    /// The helix has a tile for each level, and the pit has room around it.
    pub open spec fn wf(self) -> bool {
        &&& 0 <= self.depth <= MAX_HAND_DUG_WELL_DEPTH_Z
        &&& room_around(self.center, 2)
    }

    pub fn spec(&self) -> (s: WellSpec)
        ensures
            s == self.dig(),
    {
        WellSpec { surf_z: self.surf_z, bottom_z: self.bottom_z, depth: self.depth }
    }
}

/// The site at each centre.
pub struct WellSiteMap(pub ahash::AHashMap<(i32, i32), Entity>);

impl WellSiteMap {
    pub open spec fn at(self) -> Map<(i32, i32), Entity> {
        entities_at(self.0)
    }

    pub fn new() -> (m: WellSiteMap)
        ensures
            m.at() == Map::<(i32, i32), Entity>::empty(),
    {
        WellSiteMap(no_entities())
    }

    /// The site at a centre.
    pub fn get(&self, center: (i32, i32)) -> (r: Option<Entity>)
        ensures
            r == (if self.at().dom().contains(center) {
                Some(self.at()[center])
            } else {
                None
            }),
    {
        entity_at(&self.0, center)
    }

    /// Enters a site.
    pub fn insert(&mut self, center: (i32, i32), site: Entity)
        ensures
            final(self).at() == old(self).at().insert(center, site),
    {
        put_entity(&mut self.0, center, site);
    }
}

/// The tiles of a new site where digging starts: those where nobody digs yet.
pub open spec fn digs_to_start(
    spec: WellSpec,
    center: (i32, i32),
    digging: Map<(i32, i32), Entity>,
) -> Seq<((i32, i32), i8)> {
    let t = targets(spec, center);
    collect(t.len() as int, |i: int| !digging.dom().contains(t[i].0), |i: int| t[i])
}

/// Enters a new site and returns where digging starts, and how deep.
pub fn spawn_well_site(
    sites: &mut WellSiteMap,
    digging: &ahash::AHashMap<(i32, i32), Entity>,
    center: (i32, i32),
    spec: &WellSpec,
    site: Entity,
) -> (digs: Vec<((i32, i32), i8)>)
    requires
        0 <= spec.depth <= MAX_HAND_DUG_WELL_DEPTH_Z,
        room_around(center, 1),
    ensures
        digs@ == digs_to_start(*spec, center, entities_at(*digging)),
        final(sites).at() == old(sites).at().insert(center, site),
{
    sites.insert(center, site);
    let list = excavation_targets(spec, center);
    let ghost at = entities_at(*digging);
    let ghost t = targets(*spec, center);
    let ghost p = |i: int| !at.dom().contains(t[i].0);
    let ghost mk = |i: int| t[i];
    let mut digs: Vec<((i32, i32), i8)> = Vec::new();
    let mut i: usize = 0;
    while i < list.len()
        invariant
            i <= list.len(),
            at == entities_at(*digging),
            list@ == t,
            p == (|i: int| !at.dom().contains(t[i].0)),
            mk == (|i: int| t[i]),
            digs@ == collect(i as int, p, mk),
        decreases list.len() - i,
    {
        if entity_at(digging, list[i].0).is_none() {
            digs.push(list[i]);
        }
        i += 1;
    }
    digs
}

/// What becomes of a plan for a well.
#[derive(Clone, Copy, Debug, PartialEq, Eq, Structural)]
pub enum WellConversion {
    /// The plan is dropped.
    Discard,
    /// The plan waits for the ground to be known.
    Retry,
    /// The plan becomes a site.
    Start(WellSpec),
}

/// What becomes of a plan for a well: it is dropped where a site is or the water lies too deep.
pub fn convert_well_blueprint(
    sites: &WellSiteMap,
    center: (i32, i32),
    result: WellResult,
) -> (c: WellConversion)
    ensures
        c == (if sites.at().dom().contains(center) {
            WellConversion::Discard
        } else {
            match result {
                WellResult::Unresolvable => WellConversion::Retry,
                WellResult::TooDeep => WellConversion::Discard,
                WellResult::Diggable(spec) => WellConversion::Start(spec),
            }
        }),
{
    if sites.get(center).is_some() {
        return WellConversion::Discard;
    }
    match result {
        WellResult::Unresolvable => WellConversion::Retry,
        WellResult::TooDeep => WellConversion::Discard,
        WellResult::Diggable(spec) => WellConversion::Start(spec),
    }
}

/// Takes a plan off the map of plans, unless its tile belongs to another plan by now.
pub fn release_blueprint(
    plans: &mut ahash::AHashMap<(i32, i32), Entity>,
    center: (i32, i32),
    plan: Entity,
)
    ensures
        entities_at(*final(plans)) == (if entities_at(*old(plans)).dom().contains(center)
            && entities_at(*old(plans))[center] == plan {
            entities_at(*old(plans)).remove(center)
        } else {
            entities_at(*old(plans))
        }),
{
    match entity_at(plans, center) {
        Some(e) => {
            if e == plan {
                drop_entity(plans, center);
            }
        },
        None => {},
    }
}

/// The techniques by which the parapet is built: its author's, else its faction's, else none.
pub fn lining_techs(author: Option<Vec<TechId>>, faction: Option<Vec<TechId>>) -> (techs: Vec<
    TechId,
>)
    ensures
        techs@ == (match author {
            Some(a) => a@,
            None => match faction {
                Some(f) => f@,
                None => Seq::empty(),
            },
        }),
{
    match author {
        Some(a) => a,
        None => match faction {
            Some(f) => f,
            None => Vec::new(),
        },
    }
}

/// What a site asks for this tick.
#[derive(Debug)]
pub struct WellProgress {
    /// Walls to be planned.
    pub new_walls: Vec<(i32, i32)>,
    /// Water breaks into the shaft.
    pub charge_water: bool,
    /// The well opens and the site is gone.
    pub finished: bool,
}

/// The walls of the parapet that are planned: all but the gateway and where something is planned
/// already.
pub open spec fn walls_to_plan(center: (i32, i32), plans: Map<(i32, i32), Entity>) -> Seq<
    (i32, i32),
> {
    let p = parapet(center);
    collect(
        p.len() as int,
        |i: int| p[i] != gateway(center) && !plans.dom().contains(p[i]),
        |i: int| p[i],
    )
}

/// Nobody digs any more.
pub open spec fn dug_out(
    spec: WellSpec,
    center: (i32, i32),
    digging: Map<(i32, i32), Entity>,
) -> bool {
    forall|i: int|
        0 <= i < targets(spec, center).len() ==> !digging.dom().contains(
            (#[trigger] targets(spec, center)[i]).0,
        )
}

/// None of a list of tiles is planned.
pub open spec fn all_built(tiles: Seq<(i32, i32)>, plans: Map<(i32, i32), Entity>) -> bool {
    forall|i: int| 0 <= i < tiles.len() ==> !plans.dom().contains(#[trigger] tiles[i])
}

/// The next phase of a site.
pub open spec fn next_phase(
    site: WellSite,
    digging: Map<(i32, i32), Entity>,
    plans: Map<(i32, i32), Entity>,
) -> WellPhase {
    match site.phase {
        WellPhase::Excavating => if dug_out(site.dig(), site.center, digging) {
            WellPhase::Lining
        } else {
            WellPhase::Excavating
        },
        WellPhase::Lining => if all_built(site.lining_tiles@, plans) {
            WellPhase::Capping
        } else {
            WellPhase::Lining
        },
        WellPhase::Capping => WellPhase::Capping,
    }
}

fn plan_walls(center: (i32, i32), plans: &ahash::AHashMap<(i32, i32), Entity>) -> (walls: Vec<
    (i32, i32),
>)
    requires
        room_around(center, 2),
    ensures
        walls@ == walls_to_plan(center, entities_at(*plans)),
{
    let tiles = outer_ring(center);
    let gate: (i32, i32) = gateway_tile(center);
    let ghost at = entities_at(*plans);
    let ghost p = parapet(center);
    let ghost want = |i: int| p[i] != gateway(center) && !at.dom().contains(p[i]);
    let ghost mk = |i: int| p[i];
    let mut walls: Vec<(i32, i32)> = Vec::new();
    let mut i: usize = 0;
    while i < tiles.len()
        invariant
            i <= tiles.len(),
            tiles@ == p,
            gate == gateway(center),
            at == entities_at(*plans),
            want == (|i: int| p[i] != gateway(center) && !at.dom().contains(p[i])),
            mk == (|i: int| p[i]),
            walls@ == collect(i as int, want, mk),
        decreases tiles.len() - i,
    {
        let t: (i32, i32) = tiles[i];
        if !(t.0 == gate.0 && t.1 == gate.1) && entity_at(plans, t).is_none() {
            walls.push(t);
        }
        i += 1;
    }
    walls
}

/// One step of a site: digging, then the parapet, then the opening. The parapet is planned at
/// once; water comes when the digging is done.
pub fn well_site_progression(
    site: &mut WellSite,
    digging: &ahash::AHashMap<(i32, i32), Entity>,
    plans: &ahash::AHashMap<(i32, i32), Entity>,
) -> (r: WellProgress)
    requires
        old(site).wf(),
    ensures
        ({
            let before = *old(site);
            let dig = entities_at(*digging);
            let plan = entities_at(*plans);
            let lines = before.phase == WellPhase::Excavating && !before.walls_spawned;
            &&& final(site).wf()
            &&& final(site).faction_id == before.faction_id
            &&& final(site).center == before.center
            &&& final(site).dig() == before.dig()
            &&& final(site).author == before.author
            &&& final(site).phase == next_phase(before, dig, plan)
            &&& final(site).walls_spawned == (before.walls_spawned || lines)
            &&& final(site).lining_tiles@ == if lines {
                walls_to_plan(before.center, plan)
            } else {
                before.lining_tiles@
            }
            &&& r.new_walls@ == if lines {
                walls_to_plan(before.center, plan)
            } else {
                Seq::empty()
            }
            &&& r.charge_water == (before.phase == WellPhase::Excavating && dug_out(
                before.dig(),
                before.center,
                dig,
            ))
            &&& r.finished == (before.phase == WellPhase::Capping)
        }),
{
    let mut new_walls: Vec<(i32, i32)> = Vec::new();
    match site.phase {
        WellPhase::Excavating => {
            if !site.walls_spawned {
                new_walls = plan_walls(site.center, plans);
                site.lining_tiles = plan_walls(site.center, plans);
                site.walls_spawned = true;
            }
            let spec = site.spec();
            let list = excavation_targets(&spec, site.center);
            let mut i: usize = 0;
            let mut done: bool = true;
            while i < list.len()
                invariant
                    i <= list.len(),
                    list@ == targets(spec, site.center),
                    done == forall|j: int|
                        0 <= j < i ==> !entities_at(*digging).dom().contains(
                            (#[trigger] list@[j]).0,
                        ),
                decreases list.len() - i,
            {
                if entity_at(digging, list[i].0).is_some() {
                    assert(entities_at(*digging).dom().contains(list@[i as int].0));
                    done = false;
                }
                i += 1;
            }
            if done {
                site.phase = WellPhase::Lining;
            }
            WellProgress { new_walls, charge_water: done, finished: false }
        },
        WellPhase::Lining => {
            let mut i: usize = 0;
            let mut done: bool = true;
            while i < site.lining_tiles.len()
                invariant
                    i <= site.lining_tiles.len(),
                    *site == *old(site),
                    done == forall|j: int|
                        0 <= j < i ==> !entities_at(*plans).dom().contains(
                            #[trigger] site.lining_tiles@[j],
                        ),
                decreases site.lining_tiles.len() - i,
            {
                if entity_at(plans, site.lining_tiles[i]).is_some() {
                    assert(entities_at(*plans).dom().contains(site.lining_tiles@[i as int]));
                    done = false;
                }
                i += 1;
            }
            if done {
                site.phase = WellPhase::Capping;
            }
            WellProgress { new_walls, charge_water: false, finished: false }
        },
        WellPhase::Capping => WellProgress { new_walls, charge_water: false, finished: true },
    }
}

/// The well of a finished site takes its place.
pub fn open_well(
    sites: &mut WellSiteMap,
    wells: &mut ahash::AHashMap<(i32, i32), Entity>,
    center: (i32, i32),
    well: Entity,
)
    ensures
        entities_at(*final(wells)) == entities_at(*old(wells)).insert(center, well),
        final(sites).at() == old(sites).at().remove(center),
{
    put_entity(wells, center, well);
    drop_entity(&mut sites.0, center);
}

/// How far along a phase is.
pub open spec fn phase_rank(p: WellPhase) -> int {
    match p {
        WellPhase::Excavating => 0,
        WellPhase::Lining => 1,
        WellPhase::Capping => 2,
    }
}

/// A site never falls back, never skips a phase, and moves on as soon as its work is done.
pub proof fn wells_move_forward(
    site: WellSite,
    digging: Map<(i32, i32), Entity>,
    plans: Map<(i32, i32), Entity>,
)
    ensures
        phase_rank(site.phase) <= phase_rank(next_phase(site, digging, plans)) <= phase_rank(
            site.phase,
        ) + 1,
        site.phase == WellPhase::Excavating && dug_out(site.dig(), site.center, digging)
            ==> next_phase(site, digging, plans) == WellPhase::Lining,
        site.phase == WellPhase::Lining && all_built(site.lining_tiles@, plans) ==> next_phase(
            site,
            digging,
            plans,
        ) == WellPhase::Capping,
{
}

/// A well is dug a level below the water, two levels deep at least; where that is more than eight
/// levels it is too deep.
pub proof fn wells_are_two_to_eight_deep(surf_z: int, table: int)
    requires
        -100 <= surf_z <= 100,
    ensures
        surf_z - table >= 8 <==> well_for(surf_z, table) is TooDeep,
        surf_z - table < 8 ==> well_for(surf_z, table) is Diggable,
        well_for(surf_z, table) matches WellResult::Diggable(s) ==> {
            &&& s.surf_z == surf_z
            &&& s.depth == s.surf_z - s.bottom_z
            &&& surf_z - table >= 1 ==> s.bottom_z == table - 1
            &&& surf_z - table < 1 ==> s.depth == 2
        },
{
}

/// The steps lead down round the shaft one way: the first lies straight inside the gateway, two
/// tiles below the centre, and each next one further round.
pub proof fn steps_go_round_one_way(center: (i32, i32), k: int)
    requires
        room_around(center, 2),
        0 <= k < 8,
    ensures
        gateway(center).0 == center.0 && gateway(center).1 == center.1 - 2,
        helix_tile(center, 0).0 == center.0 && helix_tile(center, 0).1 == center.1 - 1,
        ({
            let a = helix_offset(k);
            let b = helix_offset((k + 1) % 8);
            a.0 * b.1 - a.1 * b.0 > 0
        }),
{
}

/// What is dug: the shaft at the centre down to the bottom, and one step for each level, the last
/// at the bottom too.
pub proof fn shafts_and_steps_reach_the_bottom(center: (i32, i32), spec: WellSpec)
    requires
        1 <= spec.depth <= 8,
        spec.depth == spec.surf_z - spec.bottom_z,
        room_around(center, 2),
    ensures
        targets(spec, center).len() == 1 + spec.depth,
        targets(spec, center)[0] == (center, spec.bottom_z),
        targets(spec, center)[1].1 == spec.surf_z - 1,
        targets(spec, center)[spec.depth as int].1 == spec.bottom_z,
        forall|i: int|
            1 <= i < targets(spec, center).len() ==> {
                let t = (#[trigger] targets(spec, center)[i]).0;
                t != center && -1 <= t.0 - center.0 <= 1 && -1 <= t.1 - center.1 <= 1
            },
{
}

/// The parapet is planned on every tile two away from the centre but the gateway, unless something
/// is planned there already.
pub proof fn parapets_leave_the_gateway(
    center: (i32, i32),
    plans: Map<(i32, i32), Entity>,
    t: (i32, i32),
)
    requires
        room_around(center, 2),
    ensures
        walls_to_plan(center, plans).contains(t) <==> {
            &&& -2 <= t.0 - center.0 <= 2 && -2 <= t.1 - center.1 <= 2
            &&& t.0 - center.0 == 2 || t.0 - center.0 == -2 || t.1 - center.1 == 2 || t.1
                - center.1 == -2
            &&& !(t.0 == center.0 && t.1 == center.1 - 2)
            &&& !plans.dom().contains(t)
        },
{
    let all = parapet(center);
    let p = |i: int| all[i] != gateway(center) && !plans.dom().contains(all[i]);
    let mk = |i: int| all[i];
    collect_contains(all.len() as int, p, mk, t);
    parapet_surrounds_the_pit(center, t);
    if all.contains(t) {
        let i = choose|i: int| 0 <= i < all.len() && all[i] == t;
        assert(mk(i) == t);
    }
    if walls_to_plan(center, plans).contains(t) {
        let i = choose|i: int| 0 <= i < all.len() && p(i) && #[trigger] mk(i) == t;
        assert(all.contains(all[i]));
    }
}

/// Digging starts at every place that is to be dug and where nobody digs yet, and nowhere else.
pub proof fn digs_start_where_nobody_digs(
    spec: WellSpec,
    center: (i32, i32),
    digging: Map<(i32, i32), Entity>,
    d: ((i32, i32), i8),
)
    ensures
        digs_to_start(spec, center, digging).contains(d) <==> targets(spec, center).contains(d)
            && !digging.dom().contains(d.0),
{
    let t = targets(spec, center);
    let p = |i: int| !digging.dom().contains(t[i].0);
    let mk = |i: int| t[i];
    collect_contains(t.len() as int, p, mk, d);
    if t.contains(d) {
        let i = choose|i: int| 0 <= i < t.len() && t[i] == d;
        assert(mk(i) == d);
    }
    if digs_to_start(spec, center, digging).contains(d) {
        let i = choose|i: int| 0 <= i < t.len() && p(i) && #[trigger] mk(i) == d;
        assert(t.contains(t[i]));
    }
}

/// A site is lined only once nobody digs at any of its places, and is capped only once nothing is
/// planned on any of the parapet's tiles; while one is left, it stays in its phase.
pub proof fn wells_wait_for_the_last_hand(
    site: WellSite,
    digging: Map<(i32, i32), Entity>,
    plans: Map<(i32, i32), Entity>,
    i: int,
)
    ensures
        site.phase == WellPhase::Excavating && 0 <= i < targets(site.dig(), site.center).len()
            && digging.dom().contains(targets(site.dig(), site.center)[i].0) ==> next_phase(
            site,
            digging,
            plans,
        ) == WellPhase::Excavating,
        site.phase == WellPhase::Lining && 0 <= i < site.lining_tiles@.len()
            && plans.dom().contains(site.lining_tiles@[i]) ==> next_phase(site, digging, plans)
            == WellPhase::Lining,
        site.phase == WellPhase::Excavating && digging.dom().is_empty() ==> next_phase(
            site,
            digging,
            plans,
        ) == WellPhase::Lining,
        site.phase == WellPhase::Lining && plans.dom().is_empty() ==> next_phase(
            site,
            digging,
            plans,
        ) == WellPhase::Capping,
{
}

} // verus!
