use civgame::parts::Entity;
use civgame::terrain::{TerrainWindow, TileInfo, TileKind};
use civgame::vision::{
    base_vision_radius_for_era, attach_base_vision_caches_system, compute_vision_set, effective_vision_radius,
    era_radius_for_faction, invalidate_vision_cache, lookout_drifted, lookout_step, rebuild_vision,
    scout_pause, source_of, vision_candidates, vision_plan, ActiveLookout, CachedVisionSet, Era, LookoutStep,
    VisionSource, AUTONOMOUS_LOOKOUT_TICKS, LOOKOUT_VIEW_RADIUS, STANDARD_VIEW_RADIUS,
};

fn watch(tile: (i32, i32), radius: u32, expires_tick: Option<u64>) -> ActiveLookout {
    ActiveLookout { anchor_tile: tile, anchor_z: 0, radius, expires_tick }
}

fn flat(side: usize) -> TerrainWindow {
    let mut tiles = Vec::new();
    for _ in 0..side * side {
        tiles.push(TileInfo {
            kind: TileKind::Grass,
            surface_z: 3,
            walkable: true,
            clearance: 8,
            open: vec![3, 4],
        });
    }
    TerrainWindow { min: (0, 0), width: side, height: side, tiles, z_min: -16, z_max: 15 }
}

#[test]
fn era_radii_match_plan() {
    assert_eq!(base_vision_radius_for_era(Era::Paleolithic), 16);
    assert_eq!(base_vision_radius_for_era(Era::Mesolithic), 20);
    assert_eq!(base_vision_radius_for_era(Era::Neolithic), 25);
    assert_eq!(base_vision_radius_for_era(Era::Chalcolithic), 30);
    assert_eq!(base_vision_radius_for_era(Era::BronzeAge), 40);
}

#[test]
fn effective_radius_uses_lookout_when_present() {
    assert_eq!(effective_vision_radius(None), STANDARD_VIEW_RADIUS);
    let l = watch((0, 0), LOOKOUT_VIEW_RADIUS, None);
    assert_eq!(effective_vision_radius(Some(&l)), LOOKOUT_VIEW_RADIUS);
}

#[test]
fn compute_vision_set_covers_flat_radius() {
    let mut out: ahash::AHashSet<(i32, i32)> = ahash::AHashSet::default();
    let clear = vec![true; vision_candidates((10, 10), 5).len()];
    compute_vision_set(&mut out, (10, 10), 5, &clear);
    assert!(out.contains(&(10, 10)));
    assert!(out.contains(&(15, 10)));
    assert!(out.contains(&(10, 15)));
    // Outside the radius: never visible.
    assert!(!out.contains(&(20, 10)));
    // Within the square but outside the circle.
    assert!(!out.contains(&(14, 14)));
    assert!(out.contains(&(13, 14)));
}

#[test]
fn the_near_ring_needs_no_line_of_sight() {
    let mut out: ahash::AHashSet<(i32, i32)> = ahash::AHashSet::default();
    out.insert((99, 99));
    let candidates = vision_candidates((10, 10), 5);
    assert!(candidates.iter().all(|&(x, y)| (x - 10).pow(2) + (y - 10).pow(2) <= 25));
    compute_vision_set(&mut out, (10, 10), 5, &vec![false; candidates.len()]);
    assert_eq!(out.len(), 9);
    assert!(out.contains(&(11, 11)));
    assert!(!out.contains(&(99, 99)), "the set starts over");
    let mut only: ahash::AHashSet<(i32, i32)> = ahash::AHashSet::default();
    let clear: Vec<bool> = candidates.iter().map(|t| *t == (12, 10)).collect();
    compute_vision_set(&mut only, (10, 10), 5, &clear);
    assert_eq!(only.len(), 10);
    assert!(only.contains(&(12, 10)));
}

#[test]
fn factions_look_as_far_as_their_era() {
    let eras = vec![(1, Era::Neolithic), (2, Era::BronzeAge)];
    assert_eq!(era_radius_for_faction(&eras, 2), 40);
    assert_eq!(era_radius_for_faction(&eras, 9), 16);
}

#[test]
fn fresh_caches_are_kept_until_something_changes() {
    let ground = flat(64);
    let eras: Vec<(u32, Era)> = Vec::new();
    let source = VisionSource::Lookout(watch((20, 20), 4, None));
    let mut cache = CachedVisionSet::new(1);
    let (origin, radius) = vision_plan(&cache, &source, &eras, &ground).unwrap();
    assert_eq!((origin.0, origin.1, radius), (20, 20, 4));
    let clear = vec![true; vision_candidates((20, 20), 4).len()];
    rebuild_vision(&mut cache, origin, radius, &clear);
    assert!(!cache.dirty);
    assert!(cache.sees((24, 20)));
    assert!(!cache.sees((25, 20)));
    assert!(vision_plan(&cache, &source, &eras, &ground).is_none());
    // A change far away leaves it fresh, a change in view does not.
    invalidate_vision_cache(&mut cache, &source, &eras, &vec![(60, 60)]);
    assert!(!cache.dirty);
    invalidate_vision_cache(&mut cache, &source, &eras, &vec![(22, 20)]);
    assert!(cache.dirty);
    // So does a source that moved.
    rebuild_vision(&mut cache, origin, radius, &clear);
    let moved = VisionSource::Lookout(watch((21, 20), 4, None));
    invalidate_vision_cache(&mut cache, &moved, &eras, &Vec::new());
    assert!(cache.dirty);
}

#[test]
fn bases_look_from_the_ground() {
    let ground = flat(64);
    let eras = vec![(7, Era::Mesolithic)];
    let cache = CachedVisionSet::new(7);
    let base = VisionSource::Base((30, 31), 7);
    assert_eq!(vision_plan(&cache, &base, &eras, &ground), Some(((30, 31, 3), 20)));
}

#[test]
fn watches_begin_at_the_post_and_end_in_time() {
    let post = (5, 5);
    assert!(matches!(lookout_step((4, 5, 0), post, 0, Some(50), false, 10), LookoutStep::Walk));
    match lookout_step((5, 5, 0), post, 0, Some(50), false, 10) {
        LookoutStep::Begin(l) => {
            assert_eq!(l.anchor_tile, post);
            assert_eq!(l.radius, LOOKOUT_VIEW_RADIUS);
            assert_eq!(l.expires_tick, Some(50));
        }
        other => panic!("expected a watch, got {other:?}"),
    }
    assert!(matches!(lookout_step((5, 5, 0), post, 0, Some(50), true, 49), LookoutStep::Hold));
    assert!(matches!(lookout_step((5, 5, 0), post, 0, Some(50), true, 50), LookoutStep::Finish));
    assert!(matches!(lookout_step((5, 5, 0), post, 0, None, true, 999_999), LookoutStep::Hold));
}

#[test]
fn hunters_pause_to_look_about() {
    assert_eq!(scout_pause(true, true, true, true, 100), Some(100 + AUTONOMOUS_LOOKOUT_TICKS));
    assert_eq!(scout_pause(false, true, true, true, 100), None);
    assert_eq!(scout_pause(true, true, true, false, 100), None);
}

#[test]
fn watchers_who_leave_stop_watching() {
    let l = watch((3, 3), 50, None);
    assert!(!lookout_drifted((3, 3, 0), &l));
    assert!(lookout_drifted((3, 4, 0), &l));
    assert!(lookout_drifted((3, 3, 1), &l));
}

#[test]
fn only_own_bases_are_watched() {
    let bases = vec![(Entity(1), 3), (Entity(2), 4), (Entity(3), 3)];
    assert_eq!(attach_base_vision_caches_system(&bases, 3), vec![Entity(1), Entity(3)]);
}

#[test]
fn lookouts_come_before_settlements_and_settlements_before_camps() {
    let post = watch((5, 6), 2, None);
    let town = Some(((1, 2), 7));
    let camp = Some(((3, 4), 8));
    assert!(matches!(source_of(town, camp, Some(post)), VisionSource::Lookout(l) if l.anchor_tile == (5, 6)));
    assert!(matches!(source_of(town, camp, None), VisionSource::Base((1, 2), 7)));
    assert!(matches!(source_of(None, camp, None), VisionSource::Base((3, 4), 8)));
    assert!(matches!(source_of(None, None, None), VisionSource::Unattached));
}
