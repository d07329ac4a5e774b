//! The panel on the jobs of the player's faction, and the form for posting one.

use vstd::prelude::*;
use vstd::string::*;
use crate::page::{line, mark, styled, Fill, Page, Shown, Style, Tone, Widget};
use crate::seqs::sum;
use crate::text::{digits, padded, Text};

verus! {

/// A kind of job.
#[derive(Clone, Copy, Debug, PartialEq, Eq, Structural)]
pub enum JobKind {
    Stockpile,
    Farm,
    Craft,
    Build,
    Haul,
}

/// The names of the kinds of job.
#[derive(Debug)]
pub struct JobKindNames {
    pub stockpile: String,
    pub farm: String,
    pub craft: String,
    pub build: String,
    pub haul: String,
}

impl JobKindNames {
    pub open spec fn name(self, k: JobKind) -> Seq<char> {
        match k {
            JobKind::Stockpile => self.stockpile@,
            JobKind::Farm => self.farm@,
            JobKind::Craft => self.craft@,
            JobKind::Build => self.build@,
            JobKind::Haul => self.haul@,
        }
    }

    pub fn name_of(&self, k: JobKind) -> (s: &str)
        ensures
            s@ == self.name(k),
    {
        match k {
            JobKind::Stockpile => self.stockpile.as_str(),
            JobKind::Farm => self.farm.as_str(),
            JobKind::Craft => self.craft.as_str(),
            JobKind::Build => self.build.as_str(),
            JobKind::Haul => self.haul.as_str(),
        }
    }
}

/// A good, as far as the budget tells goods apart.
#[derive(Clone, Copy, Debug, PartialEq, Eq, Structural)]
pub enum GoodClass {
    Wood,
    Stone,
    Other,
}

/// Who posted a job.
#[derive(Clone, Copy, Debug, PartialEq, Eq, Structural)]
pub enum JobSource {
    Chief,
    Player,
}

/// A rectangle of tiles.
#[derive(Clone, Copy, Debug)]
pub struct TileAabb {
    pub min: (i16, i16),
    pub max: (i16, i16),
}

/// How far a job has got.
#[derive(Debug)]
pub enum JobProgress {
    Calories { deposited: u32, target: u32 },
    Stockpile { class: GoodClass, good: String, deposited: u32, target: u32 },
    Haul { good: String, delivered: u32, target: u32 },
    Planting { planted: u32, target: u32, area: TileAabb },
    Crafting { crafted: u32, target: u32, recipe: u32 },
    Building,
}

/// A job on the board.
#[derive(Debug)]
pub struct JobPosting {
    pub id: u32,
    pub faction_id: u32,
    pub kind: JobKind,
    pub progress: JobProgress,
    pub claimants: u32,
    pub priority: u8,
    pub source: JobSource,
    pub posted_tick: u32,
    pub expiry_tick: Option<u32>,
}

/// The ticks after which a player's posting expires.
pub const POSTING_LIFETIME: u32 = 600;

pub open spec fn source_name(s: JobSource) -> Seq<char> {
    match s {
        JobSource::Chief => "Chief"@,
        JobSource::Player => "Player"@,
    }
}

pub fn source_label(s: JobSource) -> (t: &'static str)
    ensures
        t@ == source_name(s),
{
    match s {
        JobSource::Chief => "Chief",
        JobSource::Player => "Player",
    }
}

/// So much out of so much.
pub open spec fn out_of(s: Seq<char>, n: u32, m: u32) -> Seq<char> {
    s + " "@ + digits(n as nat) + "/"@ + digits(m as nat)
}

pub open spec fn progress_text(p: JobProgress) -> Seq<char> {
    match p {
        JobProgress::Calories { deposited, target } => out_of("Calories"@, deposited, target),
        JobProgress::Stockpile { good, deposited, target, .. } => out_of(
            "Stockpile "@ + good@,
            deposited,
            target,
        ),
        JobProgress::Haul { good, delivered, target } => out_of(
            "Haul "@ + good@,
            delivered,
            target,
        ),
        JobProgress::Planting { planted, target, .. } => out_of(
            "Tiles planted"@,
            planted,
            target,
        ),
        JobProgress::Crafting { crafted, target, recipe } => out_of(
            "Recipe #"@ + digits(recipe as nat),
            crafted,
            target,
        ),
        JobProgress::Building => "Build in progress"@,
    }
}

fn amount_of(t: Text, n: u32, m: u32) -> (s: String)
    ensures
        s@ == out_of(t@, n, m),
{
    t.with(" ").number(n as u64).with("/").number(m as u64).done()
}

/// How far a job has got, in words.
pub fn progress_label(p: &JobProgress) -> (s: String)
    ensures
        s@ == progress_text(*p),
{
    match p {
        JobProgress::Calories { deposited, target } => amount_of(
            Text::of("Calories"),
            *deposited,
            *target,
        ),
        JobProgress::Stockpile { good, deposited, target, .. } => amount_of(
            Text::of("Stockpile ").with(good.as_str()),
            *deposited,
            *target,
        ),
        JobProgress::Haul { good, delivered, target } => amount_of(
            Text::of("Haul ").with(good.as_str()),
            *delivered,
            *target,
        ),
        JobProgress::Planting { planted, target, .. } => amount_of(
            Text::of("Tiles planted"),
            *planted,
            *target,
        ),
        JobProgress::Crafting { crafted, target, recipe } => amount_of(
            Text::of("Recipe #").number(*recipe as u64),
            *crafted,
            *target,
        ),
        JobProgress::Building => "Build in progress".to_owned(),
    }
}

/// A job that a player may post without naming a site.
pub open spec fn postable(k: JobKind) -> bool {
    k is Stockpile || k is Farm || k is Craft
}

/// The progress with which a posting starts.
pub open spec fn fresh_progress(k: JobKind, target: u32, radius: i16) -> JobProgress {
    match k {
        JobKind::Farm => JobProgress::Planting {
            planted: 0,
            target,
            area: TileAabb {
                min: ((-radius) as i16, (-radius) as i16),
                max: (radius, radius),
            },
        },
        JobKind::Craft => JobProgress::Crafting { crafted: 0, target, recipe: 0 },
        _ => JobProgress::Calories { deposited: 0, target },
    }
}

/// The job that a player posts: nobody works on it yet, and it expires after a while. Building
/// and hauling need a site and cannot be posted so.
pub fn build_player_posting(
    kind: JobKind,
    target: u32,
    radius: i16,
    faction_id: u32,
    posted_tick: u32,
    priority: u8,
) -> (r: Option<JobPosting>)
    requires
        radius > i16::MIN,
        posted_tick <= u32::MAX - POSTING_LIFETIME,
    ensures
        match r {
            Some(p) => {
                &&& postable(kind)
                &&& p.id == 0
                &&& p.faction_id == faction_id
                &&& p.kind == kind
                &&& p.progress == fresh_progress(kind, target, radius)
                &&& p.claimants == 0
                &&& p.priority == priority
                &&& p.source == JobSource::Player
                &&& p.posted_tick == posted_tick
                &&& p.expiry_tick == Some((posted_tick + POSTING_LIFETIME) as u32)
            },
            None => !postable(kind),
        },
{
    let progress = match kind {
        JobKind::Stockpile => JobProgress::Calories { deposited: 0, target },
        JobKind::Farm => JobProgress::Planting {
            planted: 0,
            target,
            area: TileAabb { min: (-radius, -radius), max: (radius, radius) },
        },
        JobKind::Craft => JobProgress::Crafting { crafted: 0, target, recipe: 0 },
        JobKind::Build => {
            return None;
        },
        JobKind::Haul => {
            return None;
        },
    };
    Some(
        JobPosting {
            id: 0,
            faction_id,
            kind,
            progress,
            claimants: 0,
            priority,
            source: JobSource::Player,
            posted_tick,
            expiry_tick: Some(posted_tick + POSTING_LIFETIME),
        },
    )
}

/// The part of the budget to which a job counts: stockpiled food, wood and stone, then hauling,
/// farming, building and crafting.
pub open spec fn bucket(p: JobPosting) -> int {
    match p.kind {
        JobKind::Stockpile => match p.progress {
            JobProgress::Stockpile { class, .. } => match class {
                GoodClass::Wood => 1,
                GoodClass::Stone => 2,
                GoodClass::Other => 0,
            },
            _ => 0,
        },
        JobKind::Haul => 3,
        JobKind::Farm => 4,
        JobKind::Build => 5,
        JobKind::Craft => 6,
    }
}

/// The workers of posting `i`, if it counts to a part of the budget.
pub open spec fn share_of(list: Seq<JobPosting>, b: int) -> spec_fn(int) -> int {
    |i: int|
        if bucket(list[i]) == b {
            list[i].claimants as int
        } else {
            0
        }
}

/// How many work on the jobs of a part of the budget.
pub open spec fn claimed(list: Seq<JobPosting>, b: int) -> int {
    sum(list.len() as int, share_of(list, b))
}

fn posting_bucket(p: &JobPosting) -> (b: usize)
    ensures
        b == bucket(*p),
{
    match p.kind {
        JobKind::Stockpile => match &p.progress {
            JobProgress::Stockpile { class, .. } => match class {
                GoodClass::Wood => 1,
                GoodClass::Stone => 2,
                GoodClass::Other => 0,
            },
            _ => 0,
        },
        JobKind::Haul => 3,
        JobKind::Farm => 4,
        JobKind::Build => 5,
        JobKind::Craft => 6,
    }
}

proof fn claims_grow(f: spec_fn(int) -> int, a: int, b: int)
    requires
        0 <= a <= b,
        forall|i: int| 0 <= i < b ==> #[trigger] f(i) >= 0,
    ensures
        0 <= sum(a, f) <= sum(b, f),
    decreases b,
{
    if b > 0 {
        claims_grow(f, if a < b {
            a
        } else {
            b - 1
        }, b - 1);
        assert(f(b - 1) >= 0);
    }
}

/// How many work on the jobs of a part of the budget.
pub fn count_claims(list: &Vec<JobPosting>, b: usize) -> (n: u32)
    requires
        claimed(list@, b as int) <= u32::MAX,
    ensures
        n == claimed(list@, b as int),
{
    let ghost f = share_of(list@, b as int);
    let mut n: u32 = 0;
    let mut i: usize = 0;
    while i < list.len()
        invariant
            i <= list.len(),
            f == share_of(list@, b as int),
            sum(list@.len() as int, f) <= u32::MAX,
            n == sum(i as int, f),
        decreases list.len() - i,
    {
        proof {
            claims_grow(f, i as int + 1, list@.len() as int);
        }
        if posting_bucket(&list[i]) == b {
            n = n + list[i].claimants;
        }
        i += 1;
    }
    n
}

/// A part of the budget: the share of the people, as it is to be read, and how many that is.
#[derive(Debug)]
pub struct BudgetLine {
    pub share: String,
    pub cap: u32,
}

/// The budget of a faction, in the order of its parts, and the share that is free.
#[derive(Debug)]
pub struct BudgetSheet {
    pub parts: Vec<BudgetLine>,
    pub free: String,
}

/// What a project is at.
#[derive(Clone, Copy, Debug, PartialEq, Eq, Structural)]
pub enum ProjectPhase {
    GatherMaterials,
    Build,
}

/// A project, by the name of its site.
#[derive(Debug)]
pub struct ProjectLine {
    pub blueprint: String,
    pub phase: ProjectPhase,
}

/// A project that was given up because a good could not be had.
#[derive(Debug)]
pub struct ProjectEvent {
    pub faction_id: u32,
    pub tick: u64,
    pub good: String,
}

/// How many events are shown.
pub const EVENTS_SHOWN: usize = 8;

/// What the panel remembers.
#[derive(Clone, Copy, Debug, PartialEq, Eq, Structural)]
pub struct JobBoardPanelState {
    pub open: bool,
    pub draft_kind: JobKind,
    pub draft_target: u32,
    pub draft_radius: i16,
}

impl JobBoardPanelState {
    pub fn new() -> (s: JobBoardPanelState)
        ensures
            s == (JobBoardPanelState {
                open: true,
                draft_kind: JobKind::Stockpile,
                draft_target: 200,
                draft_radius: 5,
            }),
    {
        JobBoardPanelState {
            open: true,
            draft_kind: JobKind::Stockpile,
            draft_target: 200,
            draft_radius: 5,
        }
    }
}

/// What the panel asks for.
#[derive(Clone, Copy, Debug, PartialEq, Eq, Structural)]
pub enum JobAction {
    PickKind(JobKind),
    SetTarget,
    SetRadius,
    Post,
    Cancel(u32),
}

/// The rows of the panel.
pub type JobRows = Seq<Shown<JobAction>>;

/// What the panel is made from.
#[derive(Debug)]
pub struct JobSheet {
    pub faction: u32,
    /// The budget, where the faction is on record.
    pub budget: Option<BudgetSheet>,
    pub projects: Vec<ProjectLine>,
    /// What happened to projects, oldest first.
    pub events: Vec<ProjectEvent>,
    pub postings: Vec<JobPosting>,
    /// The progress of each posting, as a fraction to be read.
    pub fractions: Vec<String>,
    pub names: JobKindNames,
}

pub open spec fn bucket_name(b: int) -> Seq<char> {
    if b == 0 {
        "Stockpile Food"@
    } else if b == 1 {
        "Stockpile Wood"@
    } else if b == 2 {
        "Stockpile Stone"@
    } else if b == 3 {
        "Haul"@
    } else if b == 4 {
        "Farm"@
    } else if b == 5 {
        "Build"@
    } else {
        "Craft"@
    }
}

/// The rows on the first `n` parts of the budget.
pub open spec fn budget_rows(
    p: JobRows,
    b: BudgetSheet,
    list: Seq<JobPosting>,
    n: int,
) -> JobRows
    decreases n,
{
    if n <= 0 {
        p
    } else {
        let l = b.parts@[n - 1];
        budget_rows(p, b, list, n - 1).push(mark(Widget::Begin)).push(
            line(padded(bucket_name(n - 1), 14)),
        ).push((Widget::Meter(Fill::Neutral), l.share@, None)).push(
            line(digits(claimed(list, n - 1) as nat) + "/"@ + digits(l.cap as nat)),
        ).push(mark(Widget::End))
    }
}

/// The rows on the first `n` projects.
pub open spec fn project_rows(p: JobRows, list: Seq<ProjectLine>, n: int) -> JobRows
    decreases n,
{
    if n <= 0 {
        p
    } else {
        let l = list[n - 1];
        project_rows(p, list, n - 1).push(
            line(
                "#"@ + l.blueprint@ + (match l.phase {
                    ProjectPhase::GatherMaterials => " — Gather"@,
                    ProjectPhase::Build => " — Build"@,
                }),
            ),
        )
    }
}

/// The places of the latest events of a faction, the last one first, at most as many as are
/// shown, looking back over the last `n` events.
pub open spec fn latest_events(events: Seq<ProjectEvent>, faction: u32, n: int) -> Seq<usize>
    decreases n,
{
    if n <= 0 {
        Seq::empty()
    } else {
        let before = latest_events(events, faction, n - 1);
        let k = events.len() - n;
        if before.len() < EVENTS_SHOWN && events[k].faction_id == faction {
            before.push(k as usize)
        } else {
            before
        }
    }
}

/// The rows on the first `n` of some events.
pub open spec fn event_rows(
    p: JobRows,
    events: Seq<ProjectEvent>,
    places: Seq<usize>,
    n: int,
) -> JobRows
    decreases n,
{
    if n <= 0 {
        p
    } else {
        let e = events[places[n - 1] as int];
        event_rows(p, events, places, n - 1).push(
            line(
                "t"@ + digits(e.tick as nat) + " cancelled — stalled gathering "@ + e.good@,
            ),
        )
    }
}

/// The part on the faction: its budget, its projects, and what happened to them.
pub open spec fn workforce_rows(p: JobRows, s: JobSheet, b: BudgetSheet) -> JobRows {
    let p = budget_rows(
        p.push((Widget::Section(Tone::Plain, false), "Workforce Budget"@, None)),
        b,
        s.postings@,
        7,
    ).push(mark(Widget::Begin)).push(line(padded("Free"@, 14))).push(
        (Widget::Meter(Fill::Neutral), b.free@, None),
    ).push(mark(Widget::End)).push(mark(Widget::EndSection));
    let p = if s.projects@.len() > 0 {
        project_rows(
            p.push(
                (
                    Widget::Section(Tone::Plain, false),
                    "Projects ("@ + digits(s.projects@.len()) + ")"@,
                    None,
                ),
            ),
            s.projects@,
            s.projects@.len() as int,
        ).push(mark(Widget::EndSection))
    } else {
        p
    };
    let places = latest_events(s.events@, s.faction, s.events@.len() as int);
    let p = if places.len() > 0 {
        event_rows(
            p.push((Widget::Section(Tone::Plain, false), "Recent project events"@, None)),
            s.events@,
            places,
            places.len() as int,
        ).push(mark(Widget::EndSection))
    } else {
        p
    };
    p.push(mark(Widget::Rule))
}

/// A choice of a kind of job.
pub open spec fn kind_choice(
    names: JobKindNames,
    st: JobBoardPanelState,
    k: JobKind,
) -> Shown<JobAction> {
    (Widget::Choice(st.draft_kind == k), names.name(k), Some(JobAction::PickKind(k)))
}

/// The form. The radius matters to farms only.
pub open spec fn form_rows(p: JobRows, names: JobKindNames, st: JobBoardPanelState) -> JobRows {
    let p = p.push((Widget::Section(Tone::Plain, false), "Post Job"@, None)).push(
        (Widget::Pick, names.name(st.draft_kind), None),
    ).push(kind_choice(names, st, JobKind::Stockpile)).push(
        kind_choice(names, st, JobKind::Farm),
    ).push(kind_choice(names, st, JobKind::Craft)).push(mark(Widget::End)).push(
        mark(Widget::Begin),
    ).push(line("Target"@)).push(
        (
            Widget::Drag(1, 5000),
            digits(st.draft_target as nat),
            Some(JobAction::SetTarget),
        ),
    ).push(mark(Widget::End));
    let p = if st.draft_kind == JobKind::Farm {
        p.push(mark(Widget::Begin)).push(line("Radius"@)).push(
            (
                Widget::Drag(1, 20),
                crate::text::numeral(st.draft_radius as int),
                Some(JobAction::SetRadius),
            ),
        ).push(mark(Widget::End))
    } else {
        p
    };
    p.push((Widget::Button(Tone::Plain), "Post"@, Some(JobAction::Post))).push(
        mark(Widget::EndSection),
    ).push(mark(Widget::Rule))
}

/// The rows on the first `n` postings.
pub open spec fn posting_rows(p: JobRows, s: JobSheet, n: int) -> JobRows
    decreases n,
{
    if n <= 0 {
        p
    } else {
        let j = s.postings@[n - 1];
        posting_rows(p, s, n - 1).push(mark(Widget::Begin)).push(
            styled(Tone::Plain, Style::Strong, s.names.name(j.kind)),
        ).push(line("["@ + source_name(j.source) + "]"@)).push(
            line("p"@ + digits(j.priority as nat)),
        ).push(mark(Widget::End)).push(line(progress_text(j.progress))).push(
            (Widget::Meter(Fill::Neutral), s.fractions@[n - 1]@, None),
        ).push(mark(Widget::Begin)).push(line("Workers: "@ + digits(j.claimants as nat))).push(
            (Widget::Button(Tone::Plain), "Cancel"@, Some(JobAction::Cancel(j.id))),
        ).push(mark(Widget::End))
    }
}

/// The panel.
pub open spec fn job_rows(s: JobSheet, st: JobBoardPanelState) -> JobRows {
    let p = Seq::<Shown<JobAction>>::empty();
    let p = match s.budget {
        Some(b) => workforce_rows(p, s, b),
        None => p,
    };
    let p = form_rows(p, s.names, st);
    if s.postings@.len() == 0 {
        p.push(line("No active postings."@))
    } else {
        posting_rows(p, s, s.postings@.len() as int)
    }
}

fn bucket_label(b: usize) -> (s: &'static str)
    ensures
        s@ == bucket_name(b as int),
{
    match b {
        0 => "Stockpile Food",
        1 => "Stockpile Wood",
        2 => "Stockpile Stone",
        3 => "Haul",
        4 => "Farm",
        5 => "Build",
        _ => "Craft",
    }
}

/// The claims of every part of the budget fit in a number.
pub open spec fn claims_fit(list: Seq<JobPosting>) -> bool {
    forall|b: int| 0 <= b < 7 ==> #[trigger] claimed(list, b) <= u32::MAX
}

fn show_budget(page: &mut Page<JobAction>, b: &BudgetSheet, list: &Vec<JobPosting>)
    requires
        b.parts@.len() == 7,
        claims_fit(list@),
    ensures
        final(page).shown() == budget_rows(old(page).shown(), *b, list@, 7),
{
    let ghost start = page.shown();
    let mut i: usize = 0;
    while i < 7
        invariant
            i <= 7,
            b.parts@.len() == 7,
            claims_fit(list@),
            page.shown() == budget_rows(start, *b, list@, i as int),
        decreases 7 - i,
    {
        assert(claimed(list@, i as int) <= u32::MAX);
        let n: u32 = count_claims(list, i);
        page.place(Widget::Begin);
        page.say(Text::blank().pad(bucket_label(i), 14).done());
        page.put(Widget::Meter(Fill::Neutral), b.parts[i].share.as_str().to_owned(), None);
        page.say(
            Text::blank().number(n as u64).with("/").number(b.parts[i].cap as u64).done(),
        );
        page.place(Widget::End);
        i += 1;
    }
}

fn show_projects(page: &mut Page<JobAction>, list: &Vec<ProjectLine>)
    ensures
        final(page).shown() == project_rows(old(page).shown(), list@, list@.len() as int),
{
    let ghost start = page.shown();
    let mut i: usize = 0;
    while i < list.len()
        invariant
            i <= list.len(),
            page.shown() == project_rows(start, list@, i as int),
        decreases list.len() - i,
    {
        let l = &list[i];
        let t = Text::of("#").with(l.blueprint.as_str());
        let t = match l.phase {
            ProjectPhase::GatherMaterials => t.with(" — Gather"),
            ProjectPhase::Build => t.with(" — Build"),
        };
        page.say(t.done());
        i += 1;
    }
}

fn recent_events(events: &Vec<ProjectEvent>, faction: u32) -> (places: Vec<usize>)
    ensures
        places@ == latest_events(events@, faction, events@.len() as int),
        forall|i: int| 0 <= i < places@.len() ==> #[trigger] places@[i] < events@.len(),
{
    let mut places: Vec<usize> = Vec::new();
    let mut i: usize = 0;
    while i < events.len()
        invariant
            i <= events.len(),
            places@ == latest_events(events@, faction, i as int),
            forall|j: int| 0 <= j < places@.len() ==> #[trigger] places@[j] < events@.len(),
        decreases events.len() - i,
    {
        let k: usize = events.len() - 1 - i;
        if places.len() < EVENTS_SHOWN && events[k].faction_id == faction {
            places.push(k);
        }
        i += 1;
    }
    places
}

fn show_workforce(page: &mut Page<JobAction>, s: &JobSheet, b: &BudgetSheet)
    requires
        b.parts@.len() == 7,
        claims_fit(s.postings@),
    ensures
        final(page).shown() == workforce_rows(old(page).shown(), *s, *b),
{
    page.section(Tone::Plain, false, "Workforce Budget");
    show_budget(page, b, &s.postings);
    page.place(Widget::Begin);
    page.say(Text::blank().pad("Free", 14).done());
    page.put(Widget::Meter(Fill::Neutral), b.free.as_str().to_owned(), None);
    page.place(Widget::End);
    page.place(Widget::EndSection);
    if s.projects.len() > 0 {
        page.put(
            Widget::Section(Tone::Plain, false),
            Text::of("Projects (").number(s.projects.len() as u64).with(")").done(),
            None,
        );
        show_projects(page, &s.projects);
        page.place(Widget::EndSection);
    }
    let places = recent_events(&s.events, s.faction);
    if places.len() > 0 {
        page.section(Tone::Plain, false, "Recent project events");
        let ghost start = page.shown();
        let mut i: usize = 0;
        while i < places.len()
            invariant
                i <= places.len(),
                forall|j: int| 0 <= j < places@.len() ==> #[trigger] places@[j] < s.events@.len(),
                page.shown() == event_rows(start, s.events@, places@, i as int),
            decreases places.len() - i,
        {
            let e = &s.events[places[i]];
            page.say(
                Text::of("t").number(e.tick).with(" cancelled — stalled gathering ").with(
                    e.good.as_str(),
                ).done(),
            );
            i += 1;
        }
        page.place(Widget::EndSection);
    }
    page.place(Widget::Rule);
}

fn show_kind(page: &mut Page<JobAction>, names: &JobKindNames, st: JobBoardPanelState, k: JobKind)
    ensures
        final(page).shown() == old(page).shown().push(kind_choice(*names, st, k)),
{
    page.offer(Widget::Choice(st.draft_kind == k), names.name_of(k), JobAction::PickKind(k));
}

fn show_form(page: &mut Page<JobAction>, names: &JobKindNames, st: JobBoardPanelState)
    ensures
        final(page).shown() == form_rows(old(page).shown(), *names, st),
{
    page.section(Tone::Plain, false, "Post Job");
    page.put(Widget::Pick, names.name_of(st.draft_kind).to_owned(), None);
    show_kind(page, names, st, JobKind::Stockpile);
    show_kind(page, names, st, JobKind::Farm);
    show_kind(page, names, st, JobKind::Craft);
    page.place(Widget::End);
    page.place(Widget::Begin);
    page.note("Target");
    page.put(
        Widget::Drag(1, 5000),
        Text::blank().number(st.draft_target as u64).done(),
        Some(JobAction::SetTarget),
    );
    page.place(Widget::End);
    if st.draft_kind == JobKind::Farm {
        page.place(Widget::Begin);
        page.note("Radius");
        page.put(
            Widget::Drag(1, 20),
            Text::blank().signed(st.draft_radius as i64).done(),
            Some(JobAction::SetRadius),
        );
        page.place(Widget::End);
    }
    page.offer(Widget::Button(Tone::Plain), "Post", JobAction::Post);
    page.place(Widget::EndSection);
    page.place(Widget::Rule);
}

fn show_postings(page: &mut Page<JobAction>, s: &JobSheet)
    requires
        s.fractions@.len() == s.postings@.len(),
    ensures
        final(page).shown() == posting_rows(old(page).shown(), *s, s.postings@.len() as int),
{
    let ghost start = page.shown();
    let mut i: usize = 0;
    while i < s.postings.len()
        invariant
            i <= s.postings.len(),
            s.fractions@.len() == s.postings@.len(),
            page.shown() == posting_rows(start, *s, i as int),
        decreases s.postings.len() - i,
    {
        let j = &s.postings[i];
        page.place(Widget::Begin);
        page.note_in(Tone::Plain, Style::Strong, s.names.name_of(j.kind));
        page.say(Text::of("[").with(source_label(j.source)).with("]").done());
        page.say(Text::of("p").number(j.priority as u64).done());
        page.place(Widget::End);
        page.say(progress_label(&j.progress));
        page.put(Widget::Meter(Fill::Neutral), s.fractions[i].as_str().to_owned(), None);
        page.place(Widget::Begin);
        page.say(Text::of("Workers: ").number(j.claimants as u64).done());
        page.offer(Widget::Button(Tone::Plain), "Cancel", JobAction::Cancel(j.id));
        page.place(Widget::End);
        i += 1;
    }
}

/// The panel.
pub fn job_board_panel_system(s: &JobSheet, st: JobBoardPanelState) -> (page: Page<JobAction>)
    requires
        s.budget matches Some(b) ==> b.parts@.len() == 7,
        claims_fit(s.postings@),
        s.fractions@.len() == s.postings@.len(),
    ensures
        page.shown() == job_rows(*s, st),
{
    let mut page: Page<JobAction> = Page::new();
    match &s.budget {
        Some(b) => show_workforce(&mut page, s, b),
        None => {},
    }
    show_form(&mut page, &s.names, st);
    if s.postings.len() == 0 {
        page.note("No active postings.");
    } else {
        show_postings(&mut page, s);
    }
    page
}

/// Every worker on a posting counts to exactly one part of the budget.
pub proof fn claims_are_shared_out(list: Seq<JobPosting>)
    ensures
        claimed(list, 0) + claimed(list, 1) + claimed(list, 2) + claimed(list, 3) + claimed(list, 4)
            + claimed(list, 5) + claimed(list, 6) == sum(
            list.len() as int,
            |i: int| list[i].claimants as int,
        ),
{
    claims_share(list, list.len() as int);
}

proof fn claims_share(list: Seq<JobPosting>, n: int)
    ensures
        sum(n, share_of(list, 0)) + sum(n, share_of(list, 1)) + sum(n, share_of(list, 2)) + sum(
            n,
            share_of(list, 3),
        ) + sum(n, share_of(list, 4)) + sum(n, share_of(list, 5)) + sum(n, share_of(list, 6))
            == sum(n, |i: int| list[i].claimants as int),
    decreases n,
{
    if n > 0 {
        claims_share(list, n - 1);
    }
}

/// Postings fall into seven lots: wood and stone each have their own, all other stockpiling is
/// food; hauling, farming, building and crafting follow.
pub proof fn postings_fall_into_lots(p: JobPosting)
    ensures
        0 <= bucket(p) < 7,
        p.kind == JobKind::Haul <==> bucket(p) == 3,
        p.kind == JobKind::Farm <==> bucket(p) == 4,
        p.kind == JobKind::Build <==> bucket(p) == 5,
        p.kind == JobKind::Craft <==> bucket(p) == 6,
        p.kind == JobKind::Stockpile && (p.progress matches JobProgress::Stockpile {
            class,
            ..
        } && class == GoodClass::Wood) <==> bucket(p) == 1,
        p.kind == JobKind::Stockpile && (p.progress matches JobProgress::Stockpile {
            class,
            ..
        } && class == GoodClass::Stone) <==> bucket(p) == 2,
{
}

/// Each further posting adds its workers to its own lot and to no other.
pub proof fn claims_count_in_their_lot(list: Seq<JobPosting>, p: JobPosting, b: int)
    ensures
        claimed(Seq::empty(), b) == 0,
        bucket(p) == b ==> claimed(list.push(p), b) == claimed(list, b) + p.claimants,
        bucket(p) != b ==> claimed(list.push(p), b) == claimed(list, b),
{
    let n = list.len() as int;
    let f = share_of(list, b);
    let g = share_of(list.push(p), b);
    assert forall|i: int| 0 <= i < n implies #[trigger] f(i) == g(i) by {
        assert(list.push(p)[i] == list[i]);
    }
    crate::seqs::sum_agrees(n, f, g);
    assert(list.push(p)[n] == p);
}

/// A new job starts from nothing and goes for its target: a farm over the square of its radius
/// around the centre, a craft by the first recipe, a stockpile in calories. Building and hauling
/// are not posted by hand.
pub proof fn new_jobs_start_from_nothing(k: JobKind, target: u32, radius: i16)
    requires
        radius > i16::MIN,
    ensures
        postable(k) <==> k != JobKind::Build && k != JobKind::Haul,
        k == JobKind::Farm ==> (fresh_progress(k, target, radius) matches JobProgress::Planting {
            planted,
            target: t,
            area,
        } && planted == 0 && t == target && area.min.0 == -radius && area.min.1 == -radius
            && area.max.0 == radius && area.max.1 == radius),
        k == JobKind::Craft ==> (fresh_progress(k, target, radius) matches JobProgress::Crafting {
            crafted,
            target: t,
            recipe,
        } && crafted == 0 && t == target && recipe == 0),
        k == JobKind::Stockpile ==> (fresh_progress(k, target, radius) matches
            JobProgress::Calories { deposited, target: t } && deposited == 0 && t == target),
{
}

/// The events shown are those of the faction, the latest first, eight at most; a shorter list
/// leaves none of them out.
pub proof fn the_latest_events_are_shown(
    events: Seq<ProjectEvent>,
    faction: u32,
    n: int,
    k: int,
)
    requires
        0 <= n <= events.len(),
        events.len() <= usize::MAX,
        events.len() - n <= k < events.len(),
    ensures
        ({
            let places = latest_events(events, faction, n);
            &&& places.len() <= 8
            &&& forall|i: int|
                0 <= i < places.len() ==> events.len() - n <= (#[trigger] places[i])
                    < events.len() && events[places[i] as int].faction_id == faction
            &&& forall|i: int, j: int|
                0 <= i < j < places.len() ==> (#[trigger] places[i]) > (#[trigger] places[j])
            &&& events[k].faction_id == faction ==> places.len() == 8 || places.contains(
                k as usize,
            )
        }),
    decreases n,
{
    if n > 0 {
        let before = latest_events(events, faction, n - 1);
        let places = latest_events(events, faction, n);
        let last = events.len() - n;
        if n > 1 {
            let j = if k > last {
                k
            } else {
                events.len() - 1
            };
            the_latest_events_are_shown(events, faction, n - 1, j);
        }
        if k == last {
            if before.len() < 8 && events[k].faction_id == faction {
                assert(places[before.len() as int] == k as usize);
            }
        } else if before.contains(k as usize) {
            let i = choose|i: int| 0 <= i < before.len() && before[i] == k as usize;
            assert(places[i] == k as usize);
        }
    }
}

/// A posting is due six hundred ticks after it was made.
pub proof fn postings_last_six_hundred_ticks(posted_tick: int)
    ensures
        posted_tick + POSTING_LIFETIME - posted_tick == 600,
{
}

} // verus!
