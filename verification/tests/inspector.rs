use civgame::inspect_action::{
    inspector_action_system, Carrier, HandStack, InspectorStep, KnowledgeOrder, StepOutcome,
};
use civgame::inspect_items::{slot_display_name, EquipmentSlot, Item};
use civgame::inspect_knowledge::list_of;
use civgame::inspect_person::{
    show_health, show_scores, show_skills, InspectorActionKind, Limb, Score, Scores, SkillLine,
    Wholeness,
};
use civgame::inspect_social::{
    paid_within_day, show_relations, show_reproduction, PregnancyLine, Relation, ReproductionSheet,
};
use civgame::inspect_task::{FailReason, FollowStatus, PathFollow};
use civgame::inspect_vehicle::{inspect_vehicle, push_pair, VehicleSheet};
use civgame::inspector::{inspector_panel_system, Inspection, Measures, Selection};
use civgame::catalog::VehicleData;
use civgame::inventory::VehicleInventory;
use civgame::page::Page;
use civgame::parts::{Entity, ResourceId, VehicleDesignId, VehiclePurpose, VehicleState};
use civgame::vehicle::{Vehicle, VehicleCrew, VehicleDraft};

const WHO: Entity = Entity(7);

fn item(handle: u64) -> Item {
    Item { resource_id: ResourceId(3), tech_payload: None, handle }
}

fn texts<A>(p: &Page<A>) -> Vec<&str> {
    p.rows.iter().map(|r| r.text.as_str()).collect()
}

#[test]
fn hands_drop_what_they_hold() {
    let two = HandStack { item: item(1), qty: 4, two_handed: true };
    let mut c = Carrier { left: Some(two), right: Some(two) };
    assert_eq!(c.drop_left(), Some((item(1), 4)));
    assert_eq!(c, Carrier { left: None, right: None }, "a long thing leaves both hands");
    let one = HandStack { item: item(2), qty: 1, two_handed: false };
    let mut c = Carrier { left: Some(one), right: Some(one) };
    assert_eq!(c.drop_right(), Some((item(2), 1)));
    assert!(c.left.is_some() && c.right.is_none());
    assert_eq!(c.drop_right(), None);
}

#[test]
fn clothes_change_step_by_step() {
    let a = InspectorActionKind::EquipItem {
        target: WHO,
        item: item(1),
        from_hands: false,
        slot: EquipmentSlot::HeadArmor,
    };
    assert_eq!(
        inspector_action_system(a, StepOutcome::Start, 1),
        InspectorStep::TakeFromPack { target: WHO, item: item(1), qty: 1 }
    );
    assert_eq!(inspector_action_system(a, StepOutcome::Taken(0), 1), InspectorStep::Finish);
    assert_eq!(
        inspector_action_system(a, StepOutcome::Taken(1), 1),
        InspectorStep::Wear { target: WHO, slot: EquipmentSlot::HeadArmor, item: item(1) }
    );
    assert_eq!(inspector_action_system(a, StepOutcome::CameOff(None), 1), InspectorStep::Finish);
    assert_eq!(
        inspector_action_system(a, StepOutcome::CameOff(Some(item(2))), 1),
        InspectorStep::Stow { target: WHO, item: item(2), qty: 1 }
    );
    assert_eq!(
        inspector_action_system(a, StepOutcome::NotStowed(item(2), 1), 1),
        InspectorStep::Hold { target: WHO, item: item(2), qty: 1 }
    );
    assert_eq!(
        inspector_action_system(a, StepOutcome::NotHeld(item(2), 1), 1),
        InspectorStep::Leave { target: WHO, item: item(2), qty: 1 }
    );
}

#[test]
fn orders_on_knowledge_are_sent() {
    let a = InspectorActionKind::EncodeTablet { tech: 4 };
    assert_eq!(
        inspector_action_system(a, StepOutcome::Start, 9),
        InspectorStep::Send { to: None, order: KnowledgeOrder::EncodeTablet { tech: 4, faction: 9 } }
    );
    let a = InspectorActionKind::HoldLecture { lecturer: WHO, tech: 4 };
    assert_eq!(
        inspector_action_system(a, StepOutcome::Start, 9),
        InspectorStep::Send { to: Some(WHO), order: KnowledgeOrder::HoldLecture { tech: 4 } }
    );
    let a = InspectorActionKind::ReleaseJob { job: 3 };
    assert_eq!(inspector_action_system(a, StepOutcome::Start, 9), InspectorStep::ReleaseJob { job: 3 });
}

#[test]
fn names_and_lists() {
    assert_eq!(slot_display_name(EquipmentSlot::MainHand), "Main Hand");
    assert_eq!(list_of(&vec!["a".to_string(), "b".to_string()]), "a, b");
    let mut s = String::new();
    push_pair(&mut s, (3, -4));
    assert_eq!(s, format!("{:?}", (3, -4)));
}

#[test]
fn health_is_shown_by_points_or_limbs() {
    let mut p: Page<InspectorActionKind> = Page::new();
    show_health(&mut p, &Wholeness::Points { current: 7, max: 9 });
    assert!(texts(&p).contains(&"7/9"));
    assert!(texts(&p).contains(&format!("{:8}", "Health").as_str()));
    let mut p: Page<InspectorActionKind> = Page::new();
    let limbs = vec![Limb { name: "Head".to_string(), current: 3, max: 5 }];
    show_health(&mut p, &Wholeness::Limbs { fraction: "0.6".to_string(), limbs });
    assert!(texts(&p).contains(&"3/5"));
    assert!(texts(&p).contains(&format!("{:10}", "Head").as_str()));
}

#[test]
fn scores_show_their_modifiers() {
    let six = |score: u8, modifier: i32| Score { score, modifier };
    let mut p: Page<InspectorActionKind> = Page::new();
    show_scores(
        &mut p,
        Some(Scores {
            strength: six(16, 3),
            dexterity: six(10, 0),
            constitution: six(8, -1),
            intelligence: six(10, 0),
            wisdom: six(10, 0),
            charisma: six(10, 0),
        }),
    );
    assert!(texts(&p).iter().any(|s| s.contains("16") && s.contains("+3")));
    assert!(texts(&p).iter().any(|s| s.contains("8") && s.contains("-1")));
    let mut p: Page<InspectorActionKind> = Page::new();
    show_skills(
        &mut p,
        &vec![SkillLine { name: "Farming".to_string(), current: 12, peak: None }],
        100,
    );
    assert!(texts(&p).iter().any(|s| s.contains("Farming")));
}

#[test]
fn the_dearest_come_first() {
    let relation = |name: &str, affinity: i8| Relation { name: Some(name.to_string()), affinity };
    let mut p: Page<InspectorActionKind> = Page::new();
    show_relations(&mut p, &vec![relation("Bo", -20), relation("Cy", 80), relation("Di", 5)]);
    let at = |name: &str| texts(&p).iter().position(|s| s.contains(name)).unwrap();
    assert!(at("Cy") < at("Di") && at("Di") < at("Bo"));
}

#[test]
fn pay_of_the_last_day_counts() {
    assert!(paid_within_day(900, 1_000, 100));
    assert!(paid_within_day(901, 1_000, 100));
    assert!(!paid_within_day(899, 1_000, 100));
}

#[test]
fn pregnancies_are_shown() {
    let mut p: Page<InspectorActionKind> = Page::new();
    show_reproduction(
        &mut p,
        &ReproductionSheet {
            female: true,
            pregnancy: Some(PregnancyLine {
                ticks_remaining: 40,
                seasons: "1.5".to_string(),
                father: Some("Abe".to_string()),
            }),
            co_sleep: None,
            cooldown: None,
        },
        100,
    );
    assert!(texts(&p).iter().any(|s| s.contains("Abe")));
}

#[test]
fn replanning_forgets_the_route() {
    let mut f = PathFollow {
        status: FollowStatus::Failed(FailReason::NoRoute),
        last_fail_subreason: Some("x".to_string()),
        goal: (1, 2, 0),
        chunk_route: vec![(1, 1)],
        route_cursor: 1,
        segment_path: vec![(1, 2, 0)],
        segment_cursor: 1,
        stuck_ticks: 9,
        last_replan_tick: 3,
        request_id: 4,
        planning_generation: 2,
        recent_tiles: Vec::new(),
        fail_count_unreachable_conn: 0,
        fail_count_unreachable_astar: 0,
        fail_count_budget: 0,
        fail_count_no_route_router: 0,
        fail_count_no_route_continuity: 0,
        last_astar_dump: None,
    };
    f.force_replan();
    assert!(f.segment_path.is_empty());
    assert_eq!(f.goal, (1, 2, 0));
}

#[test]
fn selected_vehicles_are_described() {
    let data = VehicleData {
        materials: Vec::new(),
        parts: Vec::new(),
        variants: Vec::new(),
        modules: Vec::new(),
        wood: ResourceId(1),
    };
    let vehicle = Vehicle {
        owner_faction: 1,
        design_id: VehicleDesignId(0),
        purpose: VehiclePurpose::Cargo,
        heading: 0,
        state: VehicleState::Parked,
        anchor_tile: (4, 5),
        z: 0,
        hauler: None,
    };
    let mut inventory = VehicleInventory::new();
    inventory.add(ResourceId(1), 12);
    let names = vec!["Wood".to_string()];
    let crew = VehicleCrew { driver: None, passengers: Vec::new(), gunners: Vec::new() };
    let draft = VehicleDraft { hitched: Vec::new(), required_animals: 0 };
    let sheet = || VehicleSheet {
        vehicle: &vehicle,
        design: None,
        data: &data,
        stats: None,
        inventory: &inventory,
        cargo_names: &names,
        crew: &crew,
        draft: &draft,
        route: None,
        fire_order: None,
        siege_order: None,
        health: None,
        now: 0,
    };
    let page = inspect_vehicle(&sheet());
    assert!(texts(&page).contains(&"Cargo: 12 units"));
    assert!(texts(&page).contains(&"Driver: none (parked)"));
    assert!(texts(&page).contains(&"Route: idle"));
    let m = Measures {
        now: 0,
        ticks_per_day: 3_600,
        skill_mastery: 100,
        method_memory: 600,
        pregnancy_ticks: 100,
    };
    assert!(matches!(inspector_panel_system(&Selection::Vehicle(sheet()), m), Inspection::Vehicle(_)));
    assert!(matches!(inspector_panel_system(&Selection::Neither, m), Inspection::Nothing));
}
