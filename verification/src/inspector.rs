//! The inspector: the page for whatever is selected.

use vstd::prelude::*;
use crate::inspect_items::{
    belongings_rows, equipment_rows, show_belongings, show_equipment, Belongings, Outfit,
};
use crate::inspect_knowledge::{knowledge_rows, show_knowledge, Knowledge, Library};
use crate::inspect_person::{
    health_rows, identity_rows, need_rows, score_rows, show_health, show_identity, show_needs,
    show_scores, show_skills, skills_part, Identity, InspectorActionKind, NeedGauges, PersonRows,
    Scores, SkillLine, Wholeness,
};
use crate::inspect_social::{
    acquaintance_rows, reproduction_rows, show_relations, show_reproduction, wage_labor_section,
    wage_part, Relation, ReproductionSheet, WageSheet,
};
use crate::inspect_task::{
    path_rows, show_path, show_task, task_rows, PathFailure, PathFollow, TaskSheet,
};
use crate::inspect_vehicle::{inspect_vehicle, vehicle_rows, VehicleSheet};
use crate::page::{Page, Shown};
use crate::parts::Entity;

verus! {

/// The game's measures of time and skill.
#[derive(Clone, Copy, Debug, PartialEq, Eq, Structural)]
pub struct Measures {
    pub now: u64,
    pub ticks_per_day: u32,
    pub skill_mastery: u32,
    pub method_memory: u64,
    pub pregnancy_ticks: u32,
}

/// What the page for a person is made from.
#[derive(Debug)]
pub struct PersonSheet<'a> {
    pub who: Entity,
    pub identity: &'a Identity,
    pub health: &'a Wholeness,
    pub needs: &'a NeedGauges,
    pub skills: &'a Vec<SkillLine>,
    pub scores: Option<Scores>,
    pub wages: &'a WageSheet,
    pub knowledge: Option<&'a Knowledge>,
    pub library: Library<'a>,
    pub belongings: &'a Belongings,
    pub outfit: Option<&'a Outfit>,
    pub task: &'a TaskSheet,
    pub path: Option<&'a PathFollow>,
    pub at: (i32, i32, i8),
    pub replanning: bool,
    pub failures: &'a Vec<PathFailure>,
    pub reproduction: &'a ReproductionSheet,
    pub relations: Option<&'a Vec<Relation>>,
}

/// The page for a person.
pub open spec fn person_rows(s: PersonSheet, m: Measures) -> PersonRows {
    let p = identity_rows(
        Seq::<Shown<InspectorActionKind>>::empty(),
        *s.identity,
        m.now,
        m.ticks_per_day,
    );
    let p = health_rows(p, *s.health);
    let p = need_rows(p, *s.needs);
    let p = skills_part(p, s.skills@, m.skill_mastery);
    let p = score_rows(p, s.scores);
    let p = wage_part(p, *s.wages, m.now, m.ticks_per_day);
    let p = knowledge_rows(p, s.who, s.knowledge, s.library);
    let p = belongings_rows(p, s.who, *s.belongings);
    let p = equipment_rows(p, s.who, s.outfit, *s.belongings);
    let p = task_rows(p, *s.task, m.now, m.method_memory);
    let p = path_rows(p, s.who, s.path, s.at, s.replanning, s.failures@);
    let p = reproduction_rows(p, *s.reproduction, m.pregnancy_ticks);
    match s.relations {
        Some(list) => acquaintance_rows(p, list@),
        None => p,
    }
}

/// The inspector's page for a person.
pub fn inspect_person(s: &PersonSheet, m: Measures) -> (page: Page<InspectorActionKind>)
    requires
        m.ticks_per_day > 0,
        s.knowledge matches Some(k) ==> k.techs@.len() <= u16::MAX,
    ensures
        page.shown() == person_rows(*s, m),
{
    let mut page: Page<InspectorActionKind> = Page::new();
    show_identity(&mut page, s.identity, m.now, m.ticks_per_day);
    show_health(&mut page, s.health);
    show_needs(&mut page, s.needs);
    show_skills(&mut page, s.skills, m.skill_mastery);
    show_scores(&mut page, s.scores);
    wage_labor_section(&mut page, s.wages, m.now, m.ticks_per_day);
    show_knowledge(&mut page, s.who, s.knowledge, &s.library);
    show_belongings(&mut page, s.who, s.belongings);
    show_equipment(&mut page, s.who, s.outfit, s.belongings);
    show_task(&mut page, s.task, m.now, m.method_memory);
    show_path(&mut page, s.who, s.path, s.at, s.replanning, s.failures);
    show_reproduction(&mut page, s.reproduction, m.pregnancy_ticks);
    match s.relations {
        Some(list) => show_relations(&mut page, list),
        None => {},
    }
    page
}

/// What is selected.
pub enum Selection<'a> {
    Vehicle(VehicleSheet<'a>),
    Person(PersonSheet<'a>),
    Neither,
}

/// What the inspector shows.
#[derive(Debug)]
pub enum Inspection {
    Vehicle(Page<()>),
    Person(Page<InspectorActionKind>),
    Nothing,
}

/// The inspector: a page for a vehicle, a page for a person, and nothing otherwise.
pub fn inspector_panel_system(s: &Selection, m: Measures) -> (r: Inspection)
    requires
        m.ticks_per_day > 0,
        s matches Selection::Vehicle(v) ==> v.cargo_names@.len() == v.inventory.items@.len()
            && crate::inventory::total(v.inventory.items@) <= u32::MAX,
        s matches Selection::Person(p) ==> (p.knowledge matches Some(k) ==> k.techs@.len()
            <= u16::MAX),
    ensures
        match *s {
            Selection::Vehicle(v) => r matches Inspection::Vehicle(page) && page.shown()
                == vehicle_rows(v),
            Selection::Person(p) => r matches Inspection::Person(page) && page.shown()
                == person_rows(p, m),
            Selection::Neither => r is Nothing,
        },
{
    match s {
        Selection::Vehicle(v) => Inspection::Vehicle(inspect_vehicle(v)),
        Selection::Person(p) => Inspection::Person(inspect_person(p, m)),
        Selection::Neither => Inspection::Nothing,
    }
}

} // verus!
