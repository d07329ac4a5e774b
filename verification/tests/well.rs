use civgame::parts::Entity;
use civgame::terrain::{TerrainWindow, TileInfo, TileKind};
use civgame::well::{
    convert_well_blueprint, excavation_targets, gateway_tile, inner_ring, lining_techs, open_well,
    outer_ring, release_blueprint, spawn_well_site, well_site_progression, well_spec_at,
    well_spec_from, WellConversion, WellPhase, WellResult, WellSite, WellSiteMap, WellSpec,
    MAX_HAND_DUG_WELL_DEPTH_Z, MIN_WELL_DEPTH_Z, WELL_SUMP_Z,
};

fn tile_map() -> ahash::AHashMap<(i32, i32), Entity> {
    ahash::AHashMap::default()
}

#[test]
fn depth_derivation_clamps_and_rejects() {
    // Table 3 Z below the surface: needed = 3 + sump 1 = 4.
    match well_spec_from(10, 7) {
        WellResult::Diggable(s) => {
            assert_eq!(s.depth, 4);
            assert_eq!(s.bottom_z, 6);
            assert_eq!(s.surf_z, 10);
        }
        other => panic!("expected a diggable well, got {other:?}"),
    }
    // Very wet: table at the surface clamps up to MIN.
    match well_spec_from(10, 10) {
        WellResult::Diggable(s) => assert_eq!(s.depth, MIN_WELL_DEPTH_Z),
        other => panic!("expected a diggable well, got {other:?}"),
    }
    // Arid: table far below.
    assert_eq!(well_spec_from(10, -20), WellResult::TooDeep);
    // Exactly at the cap is buildable.
    assert!(matches!(
        well_spec_from(10, 10 - MAX_HAND_DUG_WELL_DEPTH_Z + WELL_SUMP_Z),
        WellResult::Diggable(_)
    ));
}

#[test]
fn inner_ring_is_a_walkable_chebyshev_loop() {
    let ring = inner_ring((0, 0));
    for k in 0..8 {
        let a = ring[k];
        let b = ring[(k + 1) % 8];
        let cheb = (a.0 - b.0).abs().max((a.1 - b.1).abs());
        assert_eq!(cheb, 1, "ring tiles {k} and {} must be adjacent", k + 1);
    }
}

#[test]
fn outer_ring_has_16_tiles_and_a_gateway() {
    let outer = outer_ring((0, 0));
    assert_eq!(outer.len(), 16);
    assert!(outer.contains(&gateway_tile((0, 0))));
}

#[test]
fn well_site_progresses_excavate_lining_capping() {
    let center = (0, 0);
    let spec = WellSpec { surf_z: 5, bottom_z: 2, depth: 3 };
    let mut site = WellSite::new(1, center, spec, None);
    let mut sites = WellSiteMap::new();
    sites.insert(center, Entity(9));
    let digging = tile_map();
    let mut plans = tile_map();
    let mut wells = tile_map();

    // No dig sites are registered: the excavation is done.
    let r = well_site_progression(&mut site, &digging, &plans);
    assert!(r.charge_water, "shaft water column charged on excavation completion");
    assert!(!r.new_walls.is_empty());
    assert!(!site.lining_tiles.is_empty(), "lining walls spawned");
    assert_eq!(site.phase, WellPhase::Lining);
    for (i, t) in r.new_walls.iter().enumerate() {
        plans.insert(*t, Entity(100 + i as u64));
    }
    // Walls still planned: it waits.
    let r = well_site_progression(&mut site, &digging, &plans);
    assert!(!r.finished);
    assert_eq!(site.phase, WellPhase::Lining);
    // The walls stand.
    plans.clear();
    let r = well_site_progression(&mut site, &digging, &plans);
    assert!(!r.finished);
    assert_eq!(site.phase, WellPhase::Capping);
    let r = well_site_progression(&mut site, &digging, &plans);
    assert!(r.finished);
    open_well(&mut sites, &mut wells, center, Entity(55));
    assert!(wells.contains_key(&center), "finished Well registered after capping");
    assert_eq!(sites.get(center), None);
}

#[test]
fn excavation_targets_descend_the_helix() {
    let spec = WellSpec { surf_z: 10, bottom_z: 4, depth: 6 };
    let targets = excavation_targets(&spec, (0, 0));
    // centre + 6 ring tiles
    assert_eq!(targets.len(), 7);
    assert_eq!(targets[0], ((0, 0), 4));
    for k in 1..=6i32 {
        assert_eq!(targets[k as usize].1, (10 - k) as i8);
    }
}

#[test]
fn shafts_wait_for_their_diggers() {
    let mut site =
        WellSite::new(1, (0, 0), WellSpec { surf_z: 5, bottom_z: 2, depth: 3 }, Some(Entity(4)));
    let mut digging = tile_map();
    digging.insert((0, 0), Entity(7));
    let r = well_site_progression(&mut site, &digging, &tile_map());
    assert!(!r.charge_water && !r.finished);
    assert_eq!(r.new_walls.len(), 15, "the walls are planned while the shaft is dug");
    assert_eq!(site.phase, WellPhase::Excavating);
}

#[test]
fn sites_start_where_nobody_digs_yet() {
    let mut sites = WellSiteMap::new();
    let mut digging = tile_map();
    let spec = WellSpec { surf_z: 5, bottom_z: 2, depth: 3 };
    let first = inner_ring((0, 0))[0];
    digging.insert(first, Entity(1));
    let digs = spawn_well_site(&mut sites, &digging, (0, 0), &spec, Entity(2));
    assert_eq!(sites.get((0, 0)), Some(Entity(2)));
    assert_eq!(digs.len(), 3);
    assert!(digs.iter().all(|(t, _)| *t != first));
}

#[test]
fn plans_become_sites_once() {
    let spec = WellSpec { surf_z: 5, bottom_z: 2, depth: 3 };
    let mut sites = WellSiteMap::new();
    assert_eq!(
        convert_well_blueprint(&sites, (1, 1), WellResult::Diggable(spec)),
        WellConversion::Start(spec)
    );
    assert_eq!(
        convert_well_blueprint(&sites, (1, 1), WellResult::Unresolvable),
        WellConversion::Retry
    );
    assert_eq!(
        convert_well_blueprint(&sites, (1, 1), WellResult::TooDeep),
        WellConversion::Discard
    );
    sites.insert((1, 1), Entity(3));
    assert_eq!(
        convert_well_blueprint(&sites, (1, 1), WellResult::Diggable(spec)),
        WellConversion::Discard
    );
}

#[test]
fn only_the_own_plan_is_released() {
    let mut plans = tile_map();
    plans.insert((2, 2), Entity(5));
    release_blueprint(&mut plans, (2, 2), Entity(6));
    assert!(plans.contains_key(&(2, 2)));
    release_blueprint(&mut plans, (2, 2), Entity(5));
    assert!(!plans.contains_key(&(2, 2)));
}

#[test]
fn the_author_knows_how_to_line() {
    assert_eq!(lining_techs(Some(vec![3]), Some(vec![4])), vec![3]);
    assert_eq!(lining_techs(None, Some(vec![4])), vec![4]);
    assert_eq!(lining_techs(None, None), Vec::<u16>::new());
}

#[test]
fn unknown_ground_gives_no_depth() {
    let ground = TerrainWindow {
        min: (0, 0),
        width: 1,
        height: 1,
        tiles: vec![TileInfo {
            kind: TileKind::Grass,
            surface_z: 10,
            walkable: true,
            clearance: 3,
            open: vec![10],
        }],
        z_min: -16,
        z_max: 15,
    };
    assert_eq!(well_spec_at(&ground, (0, 0), None), WellResult::Unresolvable);
    assert_eq!(well_spec_at(&ground, (5, 5), Some(7)), WellResult::Unresolvable);
    assert!(matches!(well_spec_at(&ground, (0, 0), Some(7)), WellResult::Diggable(_)));
}

#[test]
fn shafts_go_as_deep_as_the_water_asks() {
    for surf in -16..16 {
        for table in -30..20 {
            let needed = surf - table + WELL_SUMP_Z;
            match well_spec_from(surf, table) {
                WellResult::Diggable(s) => {
                    assert!(needed <= MAX_HAND_DUG_WELL_DEPTH_Z);
                    assert_eq!(s.depth, needed.max(MIN_WELL_DEPTH_Z));
                    assert_eq!(s.surf_z as i32, surf);
                    assert_eq!(s.depth, s.surf_z as i32 - s.bottom_z as i32);
                    assert!((s.bottom_z as i32) < table);
                }
                other => {
                    assert_eq!(other, WellResult::TooDeep);
                    assert!(needed > MAX_HAND_DUG_WELL_DEPTH_Z);
                }
            }
        }
    }
    // Even low ground over high water gets a little shaft.
    assert_eq!(
        well_spec_from(-15, -15),
        WellResult::Diggable(WellSpec { surf_z: -15, bottom_z: -17, depth: 2 })
    );
    // Levels that an `i8` cannot hold are cut.
    assert_eq!(
        well_spec_from(200, 199),
        WellResult::Diggable(WellSpec { surf_z: 127, bottom_z: 127, depth: 2 })
    );
    assert_eq!(
        well_spec_from(-127, -127),
        WellResult::Diggable(WellSpec { surf_z: -127, bottom_z: -128, depth: 2 })
    );
}
