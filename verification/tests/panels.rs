use civgame::activity_log::{
    activity_log_ingest_system, activity_log_panel_system, entry_focus, log_pressed, ActivityEntryKind,
    ActivityLog, ActivityLogEvent, EntryNow, LogAction, ResultLink, Spot, Verb, MAX_ENTRIES,
};
use civgame::debug_panel::{debug_action, DebugAction, DebugPanelState, TechMask};
use civgame::diplomacy_panel::{
    diplomacy_panel_system, fairness_color_label, known_factions, treaty_summary, DiplomacyAction,
    DiplomacyPanelState, DiplomacySheet, FactionEntry, FairnessLabel, Offer, ProposalView,
    RelationView, TreatyKind, TreatySet,
};
use civgame::economy_panel::{
    economy_panel_system, CatalogLine, EconomicMode, EconomySheet, Listing, MarketView, PriceLine,
};
use civgame::hover::{hover_info_system, Amount, Deposit, Found, Ground, Hand, Site, SiteTask, TileSheet};
use civgame::hud::{
    apply_draft_toggle_system, hud_system, DraftOrder, HudAction, HudFaction, HudSheet, SelectedUnit, Stored,
    Tradesman,
};
use civgame::job_board::{
    build_player_posting, count_claims, job_board_panel_system, progress_label, source_label, BudgetLine,
    BudgetSheet, GoodClass, JobAction, JobBoardPanelState, JobKind, JobKindNames, JobPosting,
    JobProgress, JobSheet, JobSource, POSTING_LIFETIME,
};
use civgame::lobby::{
    all_ready, apply_seed, auto_join_lobby_on_enter, host_address, is_remote_client, lobby_system,
    lobby_pressed, local_client_id, reroll, reseed, send_leave, send_select_start, send_set_ready,
    EconomyPreset, GameStartOptions, GameState, LanHost, LobbyAction, LobbyCommand, LobbyEffect,
    LobbyJoin, LobbyMessage, LobbySheet, LobbySlot, LobbyUiState, NetMode,
    StartSettlementMaturity,
};
use civgame::main_menu::{main_menu_boot_route_system, main_menu_system, menu_pressed, MainMenuState, MenuAction};
use civgame::migration_panel::{
    migration_command, migration_panel_system, CampState, CandidateLine, MigrationAction,
    MigrationIntent, MigrationPhase, MigrationSheet, PackedMigrationAutonomy, SCOUT_RANGE,
};
use civgame::page::{Page, Tone, Widget};
use civgame::parts::Entity;
use civgame::vision::Era;
use civgame::wild_herd::Season;

fn texts<A>(p: &Page<A>) -> Vec<&str> {
    p.rows.iter().map(|r| r.text.as_str()).collect()
}

fn says<A>(p: &Page<A>, text: &str) -> bool {
    texts(p).contains(&text)
}

fn event(tick: u64, faction_id: u32, kind: ActivityEntryKind) -> ActivityLogEvent {
    ActivityLogEvent {
        tick,
        actor: Entity(1),
        faction_id,
        kind,
        actor_spot: Some(Spot { x: 1, y: 2 }),
        result_spot: None,
        tile_spot: Spot { x: 7, y: 8 },
    }
}

#[test]
fn the_log_keeps_the_newest() {
    let mut log = ActivityLog::new();
    let mut events = Vec::new();
    for i in 0..20 {
        events.push(event(i, 1, ActivityEntryKind::Crafted { name: format!("pot {i}") }));
    }
    events.push(event(50, 2, ActivityEntryKind::Crafted { name: "theirs".to_string() }));
    events.push(event(
        60,
        1,
        ActivityEntryKind::RegionSettled {
            megachunk: (3, -4),
            region_name: "Vale".to_string(),
        },
    ));
    activity_log_ingest_system(&mut log, &events, 1);
    assert_eq!(log.entries.len(), MAX_ENTRIES);
    assert!(log.entries.iter().all(|e| e.thing_label != "theirs"));
    let ticks: Vec<u64> = log.entries.iter().map(|e| e.tick).collect();
    assert!(ticks.contains(&60) && ticks.contains(&19) && !ticks.contains(&0));
    let settled = log.entries.iter().find(|e| e.tick == 60).unwrap();
    assert_eq!(settled.verb, Verb::Settled);
    assert_eq!(settled.thing_label, format!("Vale (mega-chunk {:?})", (3, -4)));
}

#[test]
fn log_entries_lead_to_people_and_things() {
    let mut log = ActivityLog::new();
    let built = ActivityEntryKind::Constructed { site: "Hut".to_string(), result: Entity(9) };
    let found = ActivityEntryKind::TechDiscovered {
        tech_name: "Wheel".to_string(),
        era_name: "Bronze Age".to_string(),
    };
    activity_log_ingest_system(&mut log, &vec![event(1, 1, built), event(2, 1, found)], 1);
    let at = log.entries.iter().position(|e| e.verb == Verb::Built).unwrap();
    assert!(matches!(log.entries[at].result, ResultLink::Built { entity: Entity(9), .. }));
    let label = &log.entries.iter().find(|e| e.verb == Verb::Discovered).unwrap().thing_label;
    assert_eq!(label, "Wheel (Bronze Age)");
    let now = || EntryNow {
        actor_name: Some("Ada".to_string()),
        actor_spot: Some(Spot { x: 4, y: 4 }),
        result_spot: Some(Spot { x: 5, y: 5 }),
    };
    let page = activity_log_panel_system(&log, &vec![now(), now()], Entity(0)).unwrap();
    assert!(says(&page, "Ada"));
    let f = entry_focus(&log.entries[at], &now(), false);
    assert_eq!(f.select, Some(Entity(1)));
    assert_eq!(f.look_at, Some(Spot { x: 4, y: 4 }));
    let f = log_pressed(&mut log, &vec![now(), now()], LogAction::Result(at));
    assert_eq!(f.look_at, Some(Spot { x: 5, y: 5 }));
    log_pressed(&mut log, &vec![now(), now()], LogAction::Clear);
    assert!(log.entries.is_empty());
    assert!(activity_log_panel_system(&log, &Vec::new(), Entity(0)).is_none());
}

#[test]
fn techs_are_locked_and_unlocked() {
    let mut t = TechMask(0);
    t.unlock(5);
    t.unlock(63);
    assert!(t.has(5) && t.has(63) && !t.has(4));
    t.lock(5);
    assert!(!t.has(5) && t.has(63));
    t.unlock_all(10);
    assert!((0..10).all(|i| t.has(i)));
    t.lock_all();
    assert_eq!(t, TechMask(0));
    let mut s = DebugPanelState::new();
    debug_action(DebugAction::Unlock(3), &mut t, &mut s, 20);
    assert!(t.has(3));
    debug_action(DebugAction::PickGood(2), &mut t, &mut s, 20);
    assert_eq!(s.give_good_idx, 2);
    debug_action(DebugAction::LockAll, &mut t, &mut s, 20);
    assert_eq!(t, TechMask(0));
}

fn treaties(war: bool, alliance: bool, trade_pact: bool, non_aggression: bool) -> TreatySet {
    TreatySet { war, alliance, trade_pact, non_aggression }
}

#[test]
fn treaties_are_summed_up() {
    assert_eq!(treaty_summary(treaties(false, false, false, false)), "—");
    assert_eq!(treaty_summary(treaties(true, false, false, false)), "War");
    assert_eq!(treaty_summary(treaties(false, true, true, true)), "Ally+Trade+NAP");
    assert!(treaties(false, true, false, false).has(TreatyKind::Alliance));
    let (label, tone) = fairness_color_label(FairnessLabel::Exploitative);
    assert_eq!(label, "Bad Deal");
    assert_eq!(tone, Tone::Rgb(220, 80, 80));
}

fn diplomacy() -> DiplomacySheet {
    let entry = |id: u32, root: u32, has_parent: bool, met: bool| FactionEntry {
        id,
        has_parent,
        root,
        met,
    };
    DiplomacySheet {
        own: 1,
        solo: 0,
        own_root: 1,
        own_has_parent: false,
        treasury: "12".to_string(),
        factions: vec![
            entry(7, 7, false, true),
            entry(1, 1, false, true),
            entry(3, 3, false, true),
            entry(4, 1, true, true),
            entry(5, 5, false, false),
            entry(0, 0, false, true),
        ],
        relations: vec![RelationView {
            faction: 3,
            attitude: "Wary".to_string(),
            trust: -2,
            fear: 4,
            grievance: 0,
            familiarity: 9,
            treaties: treaties(true, false, false, false),
            last_contact_tick: 5,
            incidents: Vec::new(),
        }],
        inbox: vec![11],
        proposals: vec![ProposalView {
            id: 11,
            from: 3,
            text: "Peace?".to_string(),
            fairness: FairnessLabel::Fair,
        }],
    }
}

#[test]
fn known_factions_stand_in_order() {
    assert_eq!(known_factions(&diplomacy()), vec![3, 7]);
}

#[test]
fn war_leaves_only_peace() {
    let s = diplomacy();
    assert!(diplomacy_panel_system(false, true, &s, None).is_none());
    let page = diplomacy_panel_system(true, true, &s, Some(3)).unwrap();
    let offers: Vec<DiplomacyAction> = page.rows.iter().filter_map(|r| r.action).collect();
    assert!(offers.contains(&DiplomacyAction::Propose { target: 3, offer: Offer::Peace }));
    assert!(!offers.contains(&DiplomacyAction::Propose { target: 3, offer: Offer::Alliance }));
    assert!(!offers.contains(&DiplomacyAction::DeclareWar { target: 3 }));
    assert!(offers.contains(&DiplomacyAction::Accept(11)));
    assert!(offers.contains(&DiplomacyAction::Reject(11)));
    let page = diplomacy_panel_system(true, true, &s, Some(7)).unwrap();
    let offers: Vec<DiplomacyAction> = page.rows.iter().filter_map(|r| r.action).collect();
    assert!(!offers.contains(&DiplomacyAction::Propose { target: 7, offer: Offer::Peace }));
    let mut state = DiplomacyPanelState { open: true, focused_faction: None };
    state.pressed(DiplomacyAction::Focus(7));
    assert_eq!(state.focused_faction, Some(7));
    state.pressed(DiplomacyAction::Close);
    assert!(!state.open);
}

#[test]
fn markets_show_prices_and_stock() {
    let market = |price: &str| MarketView {
        prices: vec![PriceLine { name: "Wood".to_string(), price: price.to_string() }],
        listings: vec![Listing {
            name: "Axe".to_string(),
            stock: 2,
            price: "9.0".to_string(),
        }],
    };
    let mut s = EconomySheet {
        mode: EconomicMode::Market,
        mode_name: "Market".to_string(),
        local: None,
        global: market("1.50"),
        catalog: vec![CatalogLine { id: 0, name: "Grain".to_string() }],
        stockpile: vec!["40".to_string()],
        quotas: vec![3],
    };
    let (title, page) = economy_panel_system(&s);
    assert!(!title.is_empty());
    assert!(says(&page, "Mode: Market"));
    assert!(says(&page, "Market Prices (Commodities):"));
    assert!(says(&page, "  Axe x2: $9.0"));
    assert!(!says(&page, "Command Stockpiles:"));
    s.mode = EconomicMode::Command;
    s.mode_name = "Command".to_string();
    let (_, page) = economy_panel_system(&s);
    assert!(says(&page, "Command Stockpiles:"));
    assert!(!says(&page, "Market Prices (Commodities):"));
}

fn tile() -> TileSheet {
    TileSheet {
        tile: (2, 3),
        ground: Ground { z: 1, kind: "Grass".to_string(), fertility: 9, building: false },
        plot: None,
        things: Vec::new(),
        structure: None,
        site: None,
        hands: Vec::new(),
        auto_build: true,
        craft: None,
    }
}

#[test]
fn tiles_tell_what_lies_on_them() {
    let mut t = tile();
    let bare = hover_info_system(&t, -16).rows.len();
    t.things.push(Found::Goods(Amount { name: "Wood".to_string(), qty: 5 }));
    let page = hover_info_system(&t, -16);
    assert!(page.rows.len() > bare);
    assert!(texts(&page).iter().any(|s| s.contains("Wood") && s.contains('5')));
}

#[test]
fn sites_count_their_hands() {
    let mut t = tile();
    t.site = Some(Site {
        entity: Entity(8),
        recipe: "Hut".to_string(),
        kind: "Bed".to_string(),
        faction: 1,
        owner: None,
        target_z: 0,
        progress: 3,
        work_ticks: 10,
        satisfied: false,
        deposits: vec![Deposit { name: "Wood".to_string(), deposited: 1, needed: 4 }],
    });
    t.hands.push(Hand {
        faction: 1,
        target: Some(Entity(8)),
        task: SiteTask::Build,
        tile: (2, 3),
        dormant: false,
        idle: false,
        in_hands: vec![2],
        in_pack: vec![0],
    });
    let page = hover_info_system(&t, -16);
    assert!(texts(&page).iter().any(|s| s.contains("Wood") && s.contains("1/4")));
    assert!(says(&page, "Progress: 3 / 10"));
    assert!(says(&page, "Satisfied: no"));
}

fn hud_sheet() -> HudSheet {
    HudSheet {
        population: 42,
        speed: Some(1),
        mode: "Mixed".to_string(),
        auto_build: false,
        tech_open: false,
        debug_open: false,
        selected: vec![false, true],
        people: vec![
            Tradesman { hunter: true, faction: 1 },
            Tradesman { hunter: false, faction: 1 },
            Tradesman { hunter: true, faction: 2 },
        ],
        faction_id: 1,
        faction: Some(HudFaction {
            food: "10".to_string(),
            members: 2,
            goods: vec![
                Stored { name: "Wood".to_string(), qty: 3 },
                Stored { name: "Clay".to_string(), qty: 4 },
            ],
            order: None,
            hunting_unlocked: true,
        }),
        season: Season::Spring,
        season_name: "Spring".to_string(),
        day: 2,
        tick: 99,
        view_z: i32::MAX,
    }
}

#[test]
fn the_bar_shows_the_realm() {
    let page = hud_system(&hud_sheet());
    assert!(says(&page, "Population: 42"));
    let speeds = page.rows.iter().filter(|r| matches!(r.action, Some(HudAction::Speed(_)))).count();
    assert_eq!(speeds, 4);
    assert!(says(&page, "Your Faction #1:  food: 10  |  members: 2  |  Clay: 4  |  Wood: 3"));
}

#[test]
fn selected_people_are_drafted_together() {
    let unit = |e: u64, faction: Option<u32>, drafted: bool| SelectedUnit {
        entity: Entity(e),
        faction,
        drafted,
    };
    let mixed = vec![unit(1, Some(1), false), unit(2, Some(1), true), unit(3, Some(2), false)];
    match apply_draft_toggle_system(true, false, false, &mixed, 1) {
        DraftOrder::Draft(list) => assert!(list.contains(&Entity(1)) && !list.contains(&Entity(3))),
        other => panic!("expected a draft, got {other:?}"),
    }
    let all = vec![unit(1, Some(1), true), unit(2, Some(1), true)];
    match apply_draft_toggle_system(false, true, false, &all, 1) {
        DraftOrder::Release(list) => assert_eq!(list, vec![Entity(1), Entity(2)]),
        other => panic!("expected a release, got {other:?}"),
    }
    assert!(matches!(apply_draft_toggle_system(false, true, true, &all, 1), DraftOrder::Unchanged));
    assert!(matches!(apply_draft_toggle_system(false, false, false, &all, 1), DraftOrder::Unchanged));
}

fn posting(kind: JobKind, progress: JobProgress, claimants: u32) -> JobPosting {
    JobPosting {
        id: 5,
        faction_id: 1,
        kind,
        progress,
        claimants,
        priority: 1,
        source: JobSource::Chief,
        posted_tick: 0,
        expiry_tick: None,
    }
}

#[test]
fn progress_is_put_in_words() {
    assert_eq!(progress_label(&JobProgress::Calories { deposited: 3, target: 9 }), "Calories 3/9");
    assert_eq!(
        progress_label(&JobProgress::Stockpile {
            class: GoodClass::Wood,
            good: "Wood".to_string(),
            deposited: 1,
            target: 2,
        }),
        "Stockpile Wood 1/2"
    );
    assert_eq!(
        progress_label(&JobProgress::Haul { good: "Clay".to_string(), delivered: 1, target: 2 }),
        "Haul Clay 1/2"
    );
    assert_eq!(
        progress_label(&JobProgress::Crafting { crafted: 1, target: 2, recipe: 7 }),
        "Recipe #7 1/2"
    );
    assert_eq!(progress_label(&JobProgress::Building), "Build in progress");
    assert_eq!(source_label(JobSource::Chief), "Chief");
    assert_eq!(source_label(JobSource::Player), "Player");
}

#[test]
fn players_post_jobs() {
    let p = build_player_posting(JobKind::Farm, 20, 6, 1, 100, 8).unwrap();
    assert_eq!(p.expiry_tick, Some(100 + POSTING_LIFETIME));
    assert_eq!(p.source, JobSource::Player);
    assert_eq!(p.priority, 8);
    match p.progress {
        JobProgress::Planting { planted, target, area } => {
            assert_eq!((planted, target), (0, 20));
            assert_eq!(area.min, (-6, -6));
            assert_eq!(area.max, (6, 6));
        }
        other => panic!("expected planting, got {other:?}"),
    }
    assert!(build_player_posting(JobKind::Build, 20, 6, 1, 100, 8).is_none());
    assert!(build_player_posting(JobKind::Haul, 20, 6, 1, 100, 8).is_none());
}

#[test]
fn claims_are_shared_out() {
    let list = vec![
        posting(JobKind::Stockpile, JobProgress::Calories { deposited: 0, target: 9 }, 2),
        posting(JobKind::Build, JobProgress::Building, 3),
        posting(
            JobKind::Stockpile,
            JobProgress::Stockpile {
                class: GoodClass::Wood,
                good: "Wood".to_string(),
                deposited: 0,
                target: 5,
            },
            4,
        ),
    ];
    let sum: u32 = (0..7).map(|b| count_claims(&list, b)).sum();
    assert_eq!(sum, 9);
    let name = |s: &str| s.to_string();
    let sheet = JobSheet {
        faction: 1,
        budget: Some(BudgetSheet {
            parts: (0..7).map(|i| BudgetLine { share: format!("{i}"), cap: i }).collect(),
            free: "0".to_string(),
        }),
        projects: Vec::new(),
        events: Vec::new(),
        fractions: vec![name("0.1"), name("0.2"), name("0.3")],
        postings: list,
        names: JobKindNames {
            stockpile: name("Stockpile"),
            farm: name("Farm"),
            craft: name("Craft"),
            build: name("Build"),
            haul: name("Haul"),
        },
    };
    let page = job_board_panel_system(&sheet, JobBoardPanelState::new());
    assert!(texts(&page).iter().any(|s| s.contains("Calories 0/9")));
    assert!(page.rows.iter().any(|r| matches!(r.action, Some(JobAction::Post))));
}

fn slot(client_id: u64, ready: bool) -> LobbySlot {
    LobbySlot {
        slot_id: client_id as u32,
        client_id,
        player_name: format!("P{client_id}"),
        is_local: client_id == 1,
        megachunk: Some((1, 2)),
        ready,
    }
}

fn lobby_sheet(mode: NetMode) -> LobbySheet {
    LobbySheet {
        mode,
        host_id: 1,
        options: GameStartOptions {
            era: Era::Neolithic,
            economy: EconomyPreset::Mixed,
            maturity: StartSettlementMaturity::Founder,
        },
        era_names: ["A", "B", "C", "D", "E"].iter().map(|s| s.to_string()).collect(),
        world_seed: 77,
        slots: vec![slot(1, true), slot(2, false)],
        lan: Some(vec![LanHost {
            game_name: "Game".to_string(),
            ip: "10.0.0.2".to_string(),
            port: 5000,
            players: 1,
            max_players: 4,
        }]),
    }
}

fn lobby_ui() -> LobbyUiState {
    LobbyUiState {
        manual_join_addr: String::new(),
        seed_text: "77".to_string(),
        local_megachunk_text: "3,4".to_string(),
        remote_slots: Vec::new(),
        local_megachunk: None,
        local_ready: false,
    }
}

#[test]
fn lobby_messages_take_the_right_way() {
    assert!(is_remote_client(NetMode::Client));
    assert!(!is_remote_client(NetMode::ListenServer));
    assert!(matches!(
        send_select_start(NetMode::Client, true, 9, (3, 4)),
        Some(LobbyMessage::Wire(LobbyCommand::SelectStart((3, 4))))
    ));
    assert!(matches!(
        send_set_ready(NetMode::ListenServer, false, 9, true),
        Some(LobbyMessage::Here { client_id: 9, command: LobbyCommand::SetReady(true) })
    ));
    assert!(send_leave(NetMode::Client, false, 9).is_none());
    assert_eq!(local_client_id(NetMode::Client, 55, 1), 55);
    assert_eq!(local_client_id(NetMode::ListenServer, 55, 1), 1);
    match auto_join_lobby_on_enter(NetMode::Client, true, &Some("Ada".to_string()), 3, 1) {
        Some(LobbyJoin::Wire { protocol_version, player_name }) => {
            assert_eq!(protocol_version, 3);
            assert_eq!(player_name, "Ada");
        }
        other => panic!("expected to join over the wire, got {other:?}"),
    }
}

#[test]
fn lobbies_are_set_up() {
    let mut s = lobby_sheet(NetMode::ListenServer);
    let mut ui = lobby_ui();
    assert!(!all_ready(&s.slots));
    assert!(all_ready(&vec![slot(1, true)]));
    assert_eq!(host_address(&s.lan.as_ref().unwrap()[0]), "10.0.0.2:5000");
    let page = lobby_system(&s, &mut ui);
    assert!(page.rows.iter().any(|r| r.action == Some(LobbyAction::Back)));
    lobby_pressed(
        LobbyAction::PickEra(Era::BronzeAge),
        &mut s,
        &mut ui,
        1,
        true,
        None,
    );
    assert_eq!(s.options.era, Era::BronzeAge);
    ui.seed_text = "123".to_string();
    apply_seed(&mut s, &ui);
    assert_eq!(s.world_seed, 123);
    ui.seed_text = "abc".to_string();
    apply_seed(&mut s, &ui);
    assert_eq!(s.world_seed, 123, "a text that is no number changes nothing");
    reseed(&mut s, &mut ui, 9);
    assert_eq!((s.world_seed, ui.seed_text.as_str()), (9, "9"));
    let mut seen = Vec::new();
    for _ in 0..8 {
        reroll(&mut s, &mut ui);
        assert_eq!(ui.seed_text, format!("{}", s.world_seed));
        seen.push(s.world_seed);
    }
    assert!(seen.iter().any(|n| *n != seen[0]), "seeds differ");
    assert!(matches!(
        lobby_pressed(LobbyAction::Back, &mut s, &mut ui, 1, true, None),
        LobbyEffect::Leave(GameState::MainMenu)
    ));
    let e = lobby_pressed(LobbyAction::SetStart, &mut s, &mut ui, 1, true, None);
    assert!(matches!(
        e,
        LobbyEffect::Send(LobbyMessage::Here {
            client_id: 1,
            command: LobbyCommand::SelectStart((3, 4))
        })
    ));
}

#[test]
fn menus_lead_on() {
    let s = MainMenuState::new(None, Some("ada".to_string()));
    assert_eq!(s.player_name, "ada");
    assert_eq!(MainMenuState::new(Some("eve".to_string()), Some("ada".to_string())).player_name, "eve");
    assert_eq!(MainMenuState::new(None, None).player_name, "Player");
    let page = main_menu_system(&s);
    assert!(says(&page, "CivGame"));
    assert!(says(&page, "Name:"));
    let single = menu_pressed(&s, MenuAction::Singleplayer).unwrap();
    assert_eq!(single.next, GameState::SpawnSelect);
    assert!(menu_pressed(&s, MenuAction::EditName).is_none());
    assert_eq!(main_menu_boot_route_system(NetMode::Local), None);
    assert!(main_menu_boot_route_system(NetMode::Client).is_some());
}

fn migration() -> MigrationSheet {
    MigrationSheet {
        mobile: true,
        camp: CampState::Pitched,
        phase: MigrationPhase::Idle,
        intent: MigrationIntent::FollowWater,
        intent_names: ["Free", "Water", "Herds", "Winter", "Summer", "Danger"]
            .iter()
            .map(|s| s.to_string())
            .collect(),
        autonomy: PackedMigrationAutonomy::Hold,
        hold_name: "Hold".to_string(),
        forage_name: "Forage".to_string(),
        candidates: vec![CandidateLine {
            validated: true,
            anchor: (5, 6),
            score: "0.75".to_string(),
            reasons: vec!["Water".to_string(), "Herds".to_string()],
        }],
    }
}

#[test]
fn camps_plan_their_way() {
    assert!(migration_panel_system(false, Some(&migration())).is_none());
    let page = migration_panel_system(true, Some(&migration())).unwrap();
    assert!(says(&page, "Intent: Water"));
    let scouts: Vec<u8> = page
        .rows
        .iter()
        .filter_map(|r| match r.action {
            Some(MigrationAction::SendScout { direction, range }) => {
                assert_eq!(range, SCOUT_RANGE);
                Some(direction)
            }
            _ => None,
        })
        .collect();
    assert_eq!(scouts.len(), 8);
    assert!((0..8).all(|d| scouts.contains(&d)));
    let scout = MigrationAction::SendScout { direction: 2, range: SCOUT_RANGE };
    assert_eq!(migration_command(scout, Some(Entity(4))), Some((Entity(4), scout)));
    assert_eq!(migration_command(scout, None), None);
    assert_eq!(migration_command(MigrationAction::Close, Some(Entity(4))), None);
}

#[test]
fn pages_hold_rows() {
    let mut p: Page<u8> = Page::new();
    p.note("a");
    p.offer(Widget::SmallButton, "go", 7);
    p.place(Widget::Rule);
    assert_eq!(p.rows.len(), 3);
    assert_eq!(p.rows[1].action, Some(7));
    assert_eq!(texts(&p), vec!["a", "go", ""]);
}
