//! The parts of the inspector's page on what a person does and where they are going.

use vstd::prelude::*;
use vstd::string::*;
use crate::geometry::{max, min};
use crate::inspect_person::{InspectorActionKind, PersonRows};
use crate::page::{line, mark, styled, Page, Style, Tone, Widget};
use crate::parts::Entity;
use crate::sorting::{descending, falling_key, order_by_keys, order_of, ordering_is_stable, Key};
use crate::text::{digits, numeral, Text};

verus! {

/// How an attempt ended.
#[derive(Clone, Copy, Debug, PartialEq, Eq, Structural)]
pub enum MethodOutcome {
    Success,
    FailedRouting,
    FailedTarget,
    Interrupted,
    Abandoned,
}

/// An attempt at a goal.
#[derive(Debug)]
pub struct Attempt {
    pub method: String,
    pub outcome: MethodOutcome,
    pub tick: u64,
}

/// An order that a player gave.
#[derive(Debug)]
pub struct Commanded {
    pub command: String,
    pub status: String,
    pub command_id: u64,
    pub issued_tick: u64,
}

/// A choice of goods.
#[derive(Debug)]
pub enum GoodFilter {
    AnyEntertainment,
    Specific(String),
}

/// A kind of work.
#[derive(Debug)]
pub enum Work {
    /// The plant on the tile (by its kind, where it is known), and whether the tile is stone.
    Gather { plant: Option<Option<String>>, stone: bool },
    Planter,
    Raid,
    Scavenge,
    WithdrawMaterial(Option<(String, u32)>),
    Butcher,
    WorkOnCraftOrder,
    WithdrawGood(Option<GoodFilter>),
    PlayPlant,
    PlayThrow,
    Other,
}

/// What a person is doing.
#[derive(Debug)]
pub enum Doing {
    Idle,
    Routing,
    Seeking,
    Sleeping,
    Attacking,
    Working(Work),
}

/// What a person is about.
#[derive(Debug)]
pub struct TaskSheet {
    pub task: String,
    pub commanded: Option<Commanded>,
    pub method: Option<String>,
    /// The current task is to do nothing.
    pub idle: bool,
    /// No task is assigned.
    pub unemployed: bool,
    pub ticks_idle: u32,
    pub last_goal_eval_tick: u64,
    /// The attempts on record, oldest memory first.
    pub history: Option<Vec<Attempt>>,
    pub doing: Doing,
    pub work_progress: u8,
    pub target: (i32, i32),
    pub destination: (i32, i32),
    /// The goods that the current task is to fetch.
    pub withdrawing: Option<(String, u32)>,
    /// The kind of the body that is being carried.
    pub corpse: Option<String>,
}

/// How many ticks ago something was.
pub open spec fn age(now: u64, tick: u64) -> int {
    max(now - tick, 0)
}

/// The place of the latest attempt among the first `n`; the last one of equals.
pub open spec fn latest(h: Seq<Attempt>, n: int) -> Option<int>
    decreases n,
{
    if n <= 0 {
        None
    } else {
        match latest(h, n - 1) {
            Some(k) => if h[k].tick <= h[n - 1].tick {
                Some(n - 1)
            } else {
                Some(k)
            },
            None => Some(0),
        }
    }
}

pub open spec fn outcome_name(o: MethodOutcome) -> Seq<char> {
    match o {
        MethodOutcome::Success => "Success"@,
        MethodOutcome::FailedRouting => "FailedRouting"@,
        MethodOutcome::FailedTarget => "FailedTarget"@,
        MethodOutcome::Interrupted => "Interrupted"@,
        MethodOutcome::Abandoned => "Abandoned"@,
    }
}

pub open spec fn outcome_tone(o: MethodOutcome) -> Tone {
    match o {
        MethodOutcome::Success => Tone::Rgb(140, 200, 140),
        MethodOutcome::FailedRouting => Tone::Rgb(220, 110, 110),
        MethodOutcome::FailedTarget => Tone::Rgb(220, 110, 110),
        MethodOutcome::Interrupted => Tone::Gray(160),
        MethodOutcome::Abandoned => Tone::Rgb(200, 150, 90),
    }
}

/// The text on the latest attempt, where it is not yet forgotten.
pub open spec fn attempt_text(h: Option<Vec<Attempt>>, now: u64, ttl: u64) -> Seq<char> {
    let none = "last attempt: none (no method dispatched in last 30s)"@;
    match h {
        Some(h) => match latest(h@, h@.len() as int) {
            Some(k) => {
                let a = h@[k];
                if age(now, a.tick) <= ttl {
                    "last attempt: "@ + a.method@ + " → "@ + outcome_name(a.outcome) + " ("@
                        + digits(age(now, a.tick) as nat) + "t ago)"@
                } else {
                    none
                }
            },
            None => none,
        },
        None => none,
    }
}

/// The places of the attempts among the first `n` that are not yet forgotten.
pub open spec fn live(h: Seq<Attempt>, now: u64, ttl: u64, n: int) -> Seq<usize>
    decreases n,
{
    if n <= 0 {
        Seq::empty()
    } else if age(now, h[n - 1].tick) <= ttl {
        live(h, now, ttl, n - 1).push((n - 1) as usize)
    } else {
        live(h, now, ttl, n - 1)
    }
}

/// The keys that put the newest attempts first.
pub open spec fn newest_first(h: Seq<Attempt>, places: Seq<usize>) -> Seq<Key> {
    Seq::new(places.len(), |i: int| falling_key(h[places[i] as int].tick))
}

/// The rows on the first `n` attempts of an order.
pub open spec fn attempt_rows(
    p: PersonRows,
    h: Seq<Attempt>,
    places: Seq<usize>,
    order: Seq<usize>,
    now: u64,
    n: int,
) -> PersonRows
    decreases n,
{
    if n <= 0 {
        p
    } else {
        let a = h[places[order[n - 1] as int] as int];
        attempt_rows(p, h, places, order, now, n - 1).push(
            styled(
                outcome_tone(a.outcome),
                Style::Normal,
                a.method@ + "  "@ + outcome_name(a.outcome) + "  ("@ + digits(
                    age(now, a.tick) as nat,
                ) + "t ago)"@,
            ),
        )
    }
}

/// The rows on what was attempted lately.
pub open spec fn history_rows(p: PersonRows, h: Seq<Attempt>, now: u64, ttl: u64) -> PersonRows {
    let places = live(h, now, ttl, h.len() as int);
    if places.len() > 0 {
        attempt_rows(
            p.push((Widget::Section(Tone::Plain, false), "HTN history"@, None)),
            h,
            places,
            order_of(newest_first(h, places)),
            now,
            places.len() as int,
        ).push(mark(Widget::EndSection))
    } else {
        p
    }
}

/// Progress out of `whole`, in percent.
pub open spec fn percent(progress: u8, whole: int) -> Seq<char> {
    " ("@ + digits(((progress as int * 100) / whole) as nat) + "%)"@
}

/// What is being worked on.
pub open spec fn work_text(w: Work, progress: u8) -> Seq<char> {
    match w {
        Work::Gather { plant, stone } => (match plant {
            Some(Some(kind)) => "Harvesting "@ + kind@,
            Some(None) => "Working"@,
            None => if stone {
                "Mining Stone"@
            } else {
                "Working"@
            },
        }) + percent(progress, 30),
        Work::Planter => "Planting Seeds"@ + percent(progress, 40),
        Work::Raid => "Stealing Goods"@,
        Work::Scavenge => "Picking up item"@,
        Work::WithdrawMaterial(m) => match m {
            Some((name, qty)) => "Withdrawing "@ + name@ + " × "@ + digits(qty as nat),
            None => "Withdrawing"@,
        },
        Work::Butcher => "Butchering"@ + percent(progress, 60),
        Work::WorkOnCraftOrder => "Crafting (step: "@ + digits(progress as nat) + ")"@,
        Work::WithdrawGood(f) => "Withdrawing "@ + (match f {
            Some(GoodFilter::AnyEntertainment) => "entertainment good"@,
            Some(GoodFilter::Specific(name)) => name@,
            None => "good"@,
        }),
        Work::PlayPlant => "Play-Planting"@ + percent(progress, 40),
        Work::PlayThrow => "Play-Throwing"@ + percent(progress, 30),
        Work::Other => "Working"@,
    }
}

/// What a person is doing, in words.
pub open spec fn doing_text(d: Doing, progress: u8) -> Seq<char> {
    match d {
        Doing::Idle => "Idling"@,
        Doing::Routing => "Traveling (Long Range)"@,
        Doing::Seeking => "Walking to Target"@,
        Doing::Sleeping => "Sleeping"@,
        Doing::Attacking => "In Combat"@,
        Doing::Working(w) => work_text(w, progress),
    }
}

/// The part of the page on what a person does.
pub open spec fn task_rows(p: PersonRows, t: TaskSheet, now: u64, ttl: u64) -> PersonRows {
    let p = p.push((Widget::Section(Tone::Plain, true), "Task & State"@, None)).push(
        line("Task: "@ + t.task@),
    );
    let p = match t.commanded {
        Some(c) => p.push(
            styled(
                Tone::Rgb(110, 200, 240),
                Style::Normal,
                "Commanded: "@ + c.command@ + " → "@ + c.status@ + "  (#"@ + digits(
                    c.command_id as nat,
                ) + " @ tick "@ + digits(c.issued_tick as nat) + ")"@,
            ),
        ),
        None => p,
    };
    let p = p.push(
        line(
            "Method: "@ + (match t.method {
                Some(m) => m@,
                None => if t.idle {
                    "(none — see HTN history)"@
                } else {
                    "(direct dispatch — no HTN method)"@
                },
            }),
        ),
    );
    let p = if t.unemployed && t.idle {
        p.push(
            styled(
                Tone::Rgb(220, 140, 120),
                Style::Normal,
                "Idle: ticks_idle="@ + digits(t.ticks_idle as nat) + "  •  last_goal_eval="@
                    + digits(t.last_goal_eval_tick as nat) + "  •  "@ + attempt_text(
                    t.history,
                    now,
                    ttl,
                ),
            ),
        )
    } else {
        p
    };
    let p = match t.history {
        Some(h) => history_rows(p, h@, now, ttl),
        None => p,
    };
    let p = p.push(line("State: "@ + doing_text(t.doing, t.work_progress))).push(
        line("Target: "@ + numeral(t.target.0 as int) + ", "@ + numeral(t.target.1 as int)),
    );
    let p = match t.withdrawing {
        Some((name, qty)) => p.push(
            line(
                "Withdraw intent: "@ + name@ + " × "@ + digits(qty as nat) + " from ("@ + numeral(
                    t.destination.0 as int,
                ) + ", "@ + numeral(t.destination.1 as int) + ")"@,
            ),
        ),
        None => p,
    };
    let p = match t.corpse {
        Some(kind) => p.push(
            styled(
                Tone::Rgb(180, 120, 80),
                Style::Normal,
                "Carrying: "@ + kind@ + " Corpse"@,
            ),
        ),
        None => p,
    };
    let p = match t.commanded {
        Some(c) => p.push(
            styled(
                Tone::Rgb(255, 220, 100),
                Style::Normal,
                "Order: "@ + c.command@ + " (#"@ + digits(c.command_id as nat) + " — "@ + c.status@
                    + ")"@,
            ),
        ),
        None => p.push(styled(Tone::Gray(120), Style::Normal, "Order: —"@)),
    };
    p.push(mark(Widget::EndSection))
}

fn outcome_label(o: MethodOutcome) -> (s: &'static str)
    ensures
        s@ == outcome_name(o),
{
    match o {
        MethodOutcome::Success => "Success",
        MethodOutcome::FailedRouting => "FailedRouting",
        MethodOutcome::FailedTarget => "FailedTarget",
        MethodOutcome::Interrupted => "Interrupted",
        MethodOutcome::Abandoned => "Abandoned",
    }
}

fn outcome_color(o: MethodOutcome) -> (t: Tone)
    ensures
        t == outcome_tone(o),
{
    match o {
        MethodOutcome::Success => Tone::Rgb(140, 200, 140),
        MethodOutcome::FailedRouting => Tone::Rgb(220, 110, 110),
        MethodOutcome::FailedTarget => Tone::Rgb(220, 110, 110),
        MethodOutcome::Interrupted => Tone::Gray(160),
        MethodOutcome::Abandoned => Tone::Rgb(200, 150, 90),
    }
}

fn latest_attempt(h: &Vec<Attempt>) -> (r: Option<usize>)
    ensures
        match r {
            Some(k) => k < h@.len() && latest(h@, h@.len() as int) == Some(k as int),
            None => latest(h@, h@.len() as int) is None,
        },
{
    let mut best: Option<usize> = None;
    let mut i: usize = 0;
    while i < h.len()
        invariant
            i <= h.len(),
            best is None ==> i == 0,
            match best {
                Some(k) => k < i && latest(h@, i as int) == Some(k as int),
                None => latest(h@, i as int) is None,
            },
        decreases h.len() - i,
    {
        match best {
            Some(k) => {
                if h[k].tick <= h[i].tick {
                    best = Some(i);
                }
            },
            None => {
                best = Some(0);
            },
        }
        i += 1;
    }
    best
}

fn attempt_line(h: &Option<Vec<Attempt>>, now: u64, ttl: u64) -> (s: String)
    ensures
        s@ == attempt_text(*h, now, ttl),
{
    match h {
        Some(h) => match latest_attempt(h) {
            Some(k) => {
                let a = &h[k];
                let old_age: u64 = now.saturating_sub(a.tick);
                if old_age <= ttl {
                    return Text::of("last attempt: ").with(a.method.as_str()).with(" → ").with(
                        outcome_label(a.outcome),
                    ).with(" (").number(old_age).with("t ago)").done();
                }
            },
            None => {},
        },
        None => {},
    }
    "last attempt: none (no method dispatched in last 30s)".to_owned()
}

fn show_history(page: &mut Page<InspectorActionKind>, h: &Vec<Attempt>, now: u64, ttl: u64)
    ensures
        final(page).shown() == history_rows(old(page).shown(), h@, now, ttl),
{
    let mut places: Vec<usize> = Vec::new();
    let mut keys: Vec<Key> = Vec::new();
    let mut i: usize = 0;
    while i < h.len()
        invariant
            i <= h.len(),
            places@ == live(h@, now, ttl, i as int),
            forall|j: int| 0 <= j < places@.len() ==> #[trigger] places@[j] < i,
            keys@ == newest_first(h@, places@),
        decreases h.len() - i,
    {
        if now.saturating_sub(h[i].tick) <= ttl {
            places.push(i);
            keys.push(descending(h[i].tick));
            assert(keys@ =~= newest_first(h@, places@));
        }
        i += 1;
    }
    if places.len() > 0 {
        page.section(Tone::Plain, false, "HTN history");
        let order = order_by_keys(&keys);
        let n: usize = keys.len();
        proof {
            ordering_is_stable(keys@);
        }
        let ghost start = page.shown();
        let mut i: usize = 0;
        while i < places.len()
            invariant
                i <= places.len(),
                order@.len() == places@.len(),
                order@ == order_of(newest_first(h@, places@)),
                forall|j: int| 0 <= j < order@.len() ==> #[trigger] order@[j] < places@.len(),
                forall|j: int| 0 <= j < places@.len() ==> #[trigger] places@[j] < h@.len(),
                page.shown() == attempt_rows(start, h@, places@, order@, now, i as int),
            decreases places.len() - i,
        {
            let a = &h[places[order[i]]];
            page.say_in(
                outcome_color(a.outcome),
                Style::Normal,
                Text::of(a.method.as_str()).with("  ").with(outcome_label(a.outcome)).with(
                    "  (",
                ).number(now.saturating_sub(a.tick)).with("t ago)").done(),
            );
            i += 1;
        }
        page.place(Widget::EndSection);
    }
}

fn percent_done(t: Text, progress: u8, whole: u64) -> (s: String)
    requires
        whole > 0,
    ensures
        s@ == t@ + percent(progress, whole as int),
{
    let s = t.with(" (").number((progress as u64 * 100) / whole).with("%)").done();
    assert(s@ =~= t@ + percent(progress, whole as int));
    s
}

fn work_line(w: &Work, progress: u8) -> (s: String)
    ensures
        s@ == work_text(*w, progress),
{
    match w {
        Work::Gather { plant, stone } => {
            let t = match plant {
                Some(Some(kind)) => Text::of("Harvesting ").with(kind.as_str()),
                Some(None) => Text::of("Working"),
                None => {
                    if *stone {
                        Text::of("Mining Stone")
                    } else {
                        Text::of("Working")
                    }
                },
            };
            percent_done(t, progress, 30)
        },
        Work::Planter => percent_done(Text::of("Planting Seeds"), progress, 40),
        Work::Raid => "Stealing Goods".to_owned(),
        Work::Scavenge => "Picking up item".to_owned(),
        Work::WithdrawMaterial(m) => match m {
            Some((name, qty)) => Text::of("Withdrawing ").with(name.as_str()).with(" × ").number(
                *qty as u64,
            ).done(),
            None => "Withdrawing".to_owned(),
        },
        Work::Butcher => percent_done(Text::of("Butchering"), progress, 60),
        Work::WorkOnCraftOrder => Text::of("Crafting (step: ").number(progress as u64).with(
            ")",
        ).done(),
        Work::WithdrawGood(f) => {
            let t = Text::of("Withdrawing ");
            match f {
                Some(GoodFilter::AnyEntertainment) => t.with("entertainment good").done(),
                Some(GoodFilter::Specific(name)) => t.with(name.as_str()).done(),
                None => t.with("good").done(),
            }
        },
        Work::PlayPlant => percent_done(Text::of("Play-Planting"), progress, 40),
        Work::PlayThrow => percent_done(Text::of("Play-Throwing"), progress, 30),
        Work::Other => "Working".to_owned(),
    }
}

fn doing_line(d: &Doing, progress: u8) -> (s: String)
    ensures
        s@ == doing_text(*d, progress),
{
    match d {
        Doing::Idle => "Idling".to_owned(),
        Doing::Routing => "Traveling (Long Range)".to_owned(),
        Doing::Seeking => "Walking to Target".to_owned(),
        Doing::Sleeping => "Sleeping".to_owned(),
        Doing::Attacking => "In Combat".to_owned(),
        Doing::Working(w) => work_line(w, progress),
    }
}

/// Shows what a person does, at tick `now`; attempts older than `ttl` ticks are forgotten.
pub fn show_task(page: &mut Page<InspectorActionKind>, t: &TaskSheet, now: u64, ttl: u64)
    ensures
        final(page).shown() == task_rows(old(page).shown(), *t, now, ttl),
{
    page.section(Tone::Plain, true, "Task & State");
    page.say(Text::of("Task: ").with(t.task.as_str()).done());
    match &t.commanded {
        Some(c) => page.say_in(
            Tone::Rgb(110, 200, 240),
            Style::Normal,
            Text::of("Commanded: ").with(c.command.as_str()).with(" → ").with(
                c.status.as_str(),
            ).with("  (#").number(c.command_id).with(" @ tick ").number(c.issued_tick).with(
                ")",
            ).done(),
        ),
        None => {},
    }
    let m = Text::of("Method: ");
    let m = match &t.method {
        Some(name) => m.with(name.as_str()),
        None => {
            if t.idle {
                m.with("(none — see HTN history)")
            } else {
                m.with("(direct dispatch — no HTN method)")
            }
        },
    };
    page.say(m.done());
    if t.unemployed && t.idle {
        let attempt = attempt_line(&t.history, now, ttl);
        page.say_in(
            Tone::Rgb(220, 140, 120),
            Style::Normal,
            Text::of("Idle: ticks_idle=").number(t.ticks_idle as u64).with(
                "  •  last_goal_eval=",
            ).number(t.last_goal_eval_tick).with("  •  ").with(attempt.as_str()).done(),
        );
    }
    match &t.history {
        Some(h) => show_history(page, h, now, ttl),
        None => {},
    }
    let doing = doing_line(&t.doing, t.work_progress);
    page.say(Text::of("State: ").with(doing.as_str()).done());
    page.say(
        Text::of("Target: ").signed(t.target.0 as i64).with(", ").signed(t.target.1 as i64).done(),
    );
    match &t.withdrawing {
        Some((name, qty)) => page.say(
            Text::of("Withdraw intent: ").with(name.as_str()).with(" × ").number(*qty as u64).with(
                " from (",
            ).signed(t.destination.0 as i64).with(", ").signed(t.destination.1 as i64).with(
                ")",
            ).done(),
        ),
        None => {},
    }
    match &t.corpse {
        Some(kind) => page.say_in(
            Tone::Rgb(180, 120, 80),
            Style::Normal,
            Text::of("Carrying: ").with(kind.as_str()).with(" Corpse").done(),
        ),
        None => {},
    }
    match &t.commanded {
        Some(c) => page.say_in(
            Tone::Rgb(255, 220, 100),
            Style::Normal,
            Text::of("Order: ").with(c.command.as_str()).with(" (#").number(c.command_id).with(
                " — ",
            ).with(c.status.as_str()).with(")").done(),
        ),
        None => page.note_in(Tone::Gray(120), Style::Normal, "Order: —"),
    }
    page.place(Widget::EndSection);
}

/// Why no way was found.
#[derive(Clone, Copy, Debug, PartialEq, Eq, Structural)]
pub enum FailReason {
    Unreachable,
    BudgetExhausted,
    NoRoute,
}

/// How it stands with following a way.
#[derive(Clone, Copy, Debug, PartialEq, Eq, Structural)]
pub enum FollowStatus {
    Idle,
    Pending,
    Following,
    Failed(FailReason),
}

/// The way that a person follows.
#[derive(Debug)]
pub struct PathFollow {
    pub status: FollowStatus,
    pub last_fail_subreason: Option<String>,
    pub goal: (i32, i32, i8),
    pub chunk_route: Vec<(i32, i32)>,
    pub route_cursor: u8,
    pub segment_path: Vec<(i32, i32, i8)>,
    pub segment_cursor: u16,
    pub stuck_ticks: u32,
    pub last_replan_tick: u64,
    pub request_id: u64,
    pub planning_generation: u32,
    /// The last few tiles. A tile at the lowest coordinates stands for none.
    pub recent_tiles: Vec<(i32, i32, i8)>,
    pub fail_count_unreachable_conn: u32,
    pub fail_count_unreachable_astar: u32,
    pub fail_count_budget: u32,
    pub fail_count_no_route_router: u32,
    pub fail_count_no_route_continuity: u32,
    pub last_astar_dump: Option<String>,
}

/// A way that was not found.
#[derive(Debug)]
pub struct PathFailure {
    pub tick: u64,
    pub goal: (i32, i32, i8),
    pub subreason: String,
}

/// How many tiles are remembered.
pub const RECENT_TILES: usize = 4;

/// How many chunks of a route are shown.
pub const ROUTE_PREVIEW: usize = 6;

/// How many failures are shown.
pub const FAILURES_SHOWN: usize = 8;

/// The tile that stands for none.
pub open spec fn no_tile() -> (i32, i32, i8) {
    (i32::MIN, i32::MIN, 0i8)
}

impl PathFollow {
    /// Forgets the way, so that a new one is planned. The goal and the record of failures stay.
    pub fn force_replan(&mut self)
        ensures
            final(self).status == FollowStatus::Idle,
            final(self).chunk_route@.len() == 0,
            final(self).route_cursor == 0,
            final(self).segment_path@.len() == 0,
            final(self).segment_cursor == 0,
            final(self).stuck_ticks == 0,
            final(self).recent_tiles@ == Seq::new(RECENT_TILES as nat, |i: int| no_tile()),
            final(self).last_fail_subreason == old(self).last_fail_subreason,
            final(self).goal == old(self).goal,
            final(self).last_replan_tick == old(self).last_replan_tick,
            final(self).request_id == old(self).request_id,
            final(self).planning_generation == old(self).planning_generation,
            final(self).fail_count_unreachable_conn == old(self).fail_count_unreachable_conn,
            final(self).fail_count_unreachable_astar == old(self).fail_count_unreachable_astar,
            final(self).fail_count_budget == old(self).fail_count_budget,
            final(self).fail_count_no_route_router == old(self).fail_count_no_route_router,
            final(self).fail_count_no_route_continuity == old(self).fail_count_no_route_continuity,
            final(self).last_astar_dump == old(self).last_astar_dump,
    {
        self.status = FollowStatus::Idle;
        self.chunk_route = Vec::new();
        self.route_cursor = 0;
        self.segment_path = Vec::new();
        self.segment_cursor = 0;
        self.stuck_ticks = 0;
        let none: (i32, i32, i8) = (i32::MIN, i32::MIN, 0);
        let mut tiles: Vec<(i32, i32, i8)> = Vec::new();
        tiles.push(none);
        tiles.push(none);
        tiles.push(none);
        tiles.push(none);
        assert(tiles@ =~= Seq::new(RECENT_TILES as nat, |i: int| no_tile()));
        self.recent_tiles = tiles;
    }
}

/// The status in words.
pub open spec fn status_text(f: PathFollow) -> Seq<char> {
    match f.status {
        FollowStatus::Idle => "Idle"@,
        FollowStatus::Pending => "Pending"@,
        FollowStatus::Following => "Following"@,
        FollowStatus::Failed(reason) => match f.last_fail_subreason {
            Some(sub) => "Failed: "@ + sub@,
            None => match reason {
                FailReason::Unreachable => "Failed: Unreachable"@,
                FailReason::BudgetExhausted => "Failed: BudgetExhausted"@,
                FailReason::NoRoute => "Failed: NoRoute"@,
            },
        },
    }
}

pub open spec fn status_tone(s: FollowStatus) -> Tone {
    match s {
        FollowStatus::Idle => Tone::Gray(160),
        FollowStatus::Pending => Tone::Rgb(255, 255, 0),
        FollowStatus::Following => Tone::Rgb(120, 220, 120),
        FollowStatus::Failed(_) => Tone::Rgb(240, 100, 100),
    }
}

/// The first `n` chunks of a route, with arrows between them.
pub open spec fn route_text(route: Seq<(i32, i32)>, n: int) -> Seq<char>
    decreases n,
{
    if n <= 0 {
        Seq::empty()
    } else {
        let c = route[n - 1];
        (if n > 1 {
            route_text(route, n - 1) + " → "@
        } else {
            Seq::empty()
        }) + "("@ + numeral(c.0 as int) + ","@ + numeral(c.1 as int) + ")"@
    }
}

/// The known ones of the first `n` tiles, with blanks between them.
pub open spec fn tiles_text(tiles: Seq<(i32, i32, i8)>, n: int) -> Seq<char>
    decreases n,
{
    if n <= 0 {
        Seq::empty()
    } else {
        let t = tiles[n - 1];
        let before = tiles_text(tiles, n - 1);
        if t.0 == i32::MIN && t.1 == i32::MIN {
            before
        } else {
            (if before.len() > 0 {
                before + " "@
            } else {
                before
            }) + "("@ + numeral(t.0 as int) + ","@ + numeral(t.1 as int) + ","@ + numeral(
                t.2 as int,
            ) + ")"@
        }
    }
}

/// The rows on the first `n` failures.
pub open spec fn failure_rows(p: PersonRows, list: Seq<PathFailure>, n: int) -> PersonRows
    decreases n,
{
    if n <= 0 {
        p
    } else {
        let r = list[n - 1];
        failure_rows(p, list, n - 1).push(
            styled(
                Tone::Gray(160),
                Style::Fine,
                "tick "@ + digits(r.tick as nat) + "  goal ("@ + numeral(r.goal.0 as int) + ","@
                    + numeral(r.goal.1 as int) + ","@ + numeral(r.goal.2 as int) + ")  "@
                    + r.subreason@,
            ),
        )
    }
}

/// Some way was not found.
pub open spec fn ever_failed(f: PathFollow) -> bool {
    f.fail_count_unreachable_conn + f.fail_count_unreachable_astar + f.fail_count_budget
        + f.fail_count_no_route_router + f.fail_count_no_route_continuity > 0
}

/// The rows on a way that is followed.
pub open spec fn follow_rows(
    p: PersonRows,
    who: Entity,
    f: PathFollow,
    at: (i32, i32, i8),
    pending: bool,
    failures: Seq<PathFailure>,
) -> PersonRows {
    let chunks = f.chunk_route@;
    let steps = f.segment_path@.len();
    let p = p.push(
        styled(status_tone(f.status), Style::Normal, "Status: "@ + status_text(f)),
    ).push(
        line(
            "Goal: ("@ + numeral(f.goal.0 as int) + ", "@ + numeral(f.goal.1 as int) + ", "@
                + numeral(f.goal.2 as int) + ")"@,
        ),
    ).push(
        line(
            "At:   ("@ + numeral(at.0 as int) + ", "@ + numeral(at.1 as int) + ", "@ + numeral(
                at.2 as int,
            ) + ")"@,
        ),
    ).push(
        line(
            "Chunk route: "@ + digits(min(f.route_cursor as int, chunks.len() as int % 256) as nat)
                + "/"@ + digits(chunks.len()),
        ),
    );
    let p = if chunks.len() > 0 {
        let shown = route_text(chunks, min(chunks.len() as int, ROUTE_PREVIEW as int));
        p.push(
            styled(
                Tone::Gray(160),
                Style::Fine,
                "  "@ + shown + (if chunks.len() > ROUTE_PREVIEW {
                    " …"@
                } else {
                    ""@
                }),
            ),
        )
    } else {
        p
    };
    let p = p.push(
        line(
            "Segment: "@ + digits(min(f.segment_cursor as int, steps as int % 65536) as nat) + "/"@
                + digits(steps),
        ),
    ).push(
        line(
            "stuck_ticks: "@ + digits(f.stuck_ticks as nat) + "  •  last_replan: "@ + digits(
                f.last_replan_tick as nat,
            ),
        ),
    ).push(
        styled(
            Tone::Gray(160),
            Style::Fine,
            "request_id: "@ + digits(f.request_id as nat) + "  •  planning_gen: "@ + digits(
                f.planning_generation as nat,
            ) + "  •  pending: "@ + (if pending {
                "true"@
            } else {
                "false"@
            }),
        ),
    ).push(
        styled(
            Tone::Gray(160),
            Style::Fine,
            "Recent tiles: "@ + tiles_text(f.recent_tiles@, f.recent_tiles@.len() as int),
        ),
    ).push(
        styled(
            if ever_failed(f) {
                Tone::Rgb(240, 160, 100)
            } else {
                Tone::Gray(160)
            },
            Style::Fine,
            "Failures: conn "@ + digits(f.fail_count_unreachable_conn as nat) + "  astar "@
                + digits(f.fail_count_unreachable_astar as nat) + "  budget "@ + digits(
                f.fail_count_budget as nat,
            ) + "  router "@ + digits(f.fail_count_no_route_router as nat) + "  cont "@ + digits(
                f.fail_count_no_route_continuity as nat,
            ),
        ),
    );
    let p = match f.last_astar_dump {
        Some(dump) => p.push(
            (Widget::Section(Tone::Plain, true), "Last A* Unreachable dump"@, None),
        ).push(styled(Tone::Plain, Style::Mono, dump@)).push(mark(Widget::EndSection)),
        None => p,
    };
    let n = min(failures.len() as int, FAILURES_SHOWN as int);
    let p = if n > 0 {
        failure_rows(
            p.push(
                (
                    Widget::Section(Tone::Plain, false),
                    "Failure history ("@ + digits(n as nat) + ")"@,
                    None,
                ),
            ),
            failures,
            n,
        ).push(mark(Widget::EndSection))
    } else {
        p
    };
    p.push(mark(Widget::Begin)).push(
        (
            Widget::Button(Tone::Plain),
            "Force replan"@,
            Some(InspectorActionKind::Replan { target: who }),
        ),
    ).push(mark(Widget::End))
}

/// The part of the page on where a person is going.
pub open spec fn path_rows(
    p: PersonRows,
    who: Entity,
    f: Option<&PathFollow>,
    at: (i32, i32, i8),
    pending: bool,
    failures: Seq<PathFailure>,
) -> PersonRows {
    let p = p.push((Widget::Section(Tone::Rgb(180, 180, 240), true), "Pathing"@, None));
    let p = match f {
        Some(f) => follow_rows(p, who, *f, at, pending, failures),
        None => p.push(styled(Tone::Gray(160), Style::Italic, "No PathFollow component"@)),
    };
    p.push(mark(Widget::EndSection))
}

fn status_line(f: &PathFollow) -> (s: String)
    ensures
        s@ == status_text(*f),
{
    match f.status {
        FollowStatus::Idle => "Idle".to_owned(),
        FollowStatus::Pending => "Pending".to_owned(),
        FollowStatus::Following => "Following".to_owned(),
        FollowStatus::Failed(reason) => match &f.last_fail_subreason {
            Some(sub) => Text::of("Failed: ").with(sub.as_str()).done(),
            None => match reason {
                FailReason::Unreachable => "Failed: Unreachable".to_owned(),
                FailReason::BudgetExhausted => "Failed: BudgetExhausted".to_owned(),
                FailReason::NoRoute => "Failed: NoRoute".to_owned(),
            },
        },
    }
}

fn status_color(s: FollowStatus) -> (t: Tone)
    ensures
        t == status_tone(s),
{
    match s {
        FollowStatus::Idle => Tone::Gray(160),
        FollowStatus::Pending => Tone::Rgb(255, 255, 0),
        FollowStatus::Following => Tone::Rgb(120, 220, 120),
        FollowStatus::Failed(_) => Tone::Rgb(240, 100, 100),
    }
}

fn route_line(route: &Vec<(i32, i32)>, n: usize) -> (s: String)
    requires
        n <= route@.len(),
    ensures
        s@ == route_text(route@, n as int),
{
    let mut t = Text::blank();
    let mut i: usize = 0;
    while i < n
        invariant
            i <= n <= route@.len(),
            t@ == route_text(route@, i as int),
        decreases n - i,
    {
        if i > 0 {
            t = t.with(" → ");
        }
        let c = route[i];
        t = t.with("(").signed(c.0 as i64).with(",").signed(c.1 as i64).with(")");
        i += 1;
    }
    t.done()
}

fn tiles_line(tiles: &Vec<(i32, i32, i8)>) -> (s: String)
    ensures
        s@ == tiles_text(tiles@, tiles@.len() as int),
{
    let mut t = Text::blank();
    let mut some = false;
    let mut i: usize = 0;
    proof {
        reveal_strlit("(");
    }
    while i < tiles.len()
        invariant
            i <= tiles.len(),
            "("@.len() == 1,
            some == (t@.len() > 0),
            t@ == tiles_text(tiles@, i as int),
        decreases tiles.len() - i,
    {
        let c = tiles[i];
        if !(c.0 == i32::MIN && c.1 == i32::MIN) {
            if some {
                t = t.with(" ");
            }
            t = t.with("(").signed(c.0 as i64).with(",").signed(c.1 as i64).with(",").signed(
                c.2 as i64,
            ).with(")");
            some = true;
        }
        i += 1;
    }
    t.done()
}

fn show_failures(page: &mut Page<InspectorActionKind>, list: &Vec<PathFailure>, n: usize)
    requires
        n <= list@.len(),
    ensures
        final(page).shown() == failure_rows(old(page).shown(), list@, n as int),
{
    let ghost start = page.shown();
    let mut i: usize = 0;
    while i < n
        invariant
            i <= n <= list@.len(),
            page.shown() == failure_rows(start, list@, i as int),
        decreases n - i,
    {
        let r = &list[i];
        page.say_in(
            Tone::Gray(160),
            Style::Fine,
            Text::of("tick ").number(r.tick).with("  goal (").signed(r.goal.0 as i64).with(
                ",",
            ).signed(r.goal.1 as i64).with(",").signed(r.goal.2 as i64).with(")  ").with(
                r.subreason.as_str(),
            ).done(),
        );
        i += 1;
    }
}

fn show_way(page: &mut Page<InspectorActionKind>, f: &PathFollow, at: (i32, i32, i8))
    ensures
        ({
            let chunks = f.chunk_route@;
            let p = old(page).shown().push(
                styled(status_tone(f.status), Style::Normal, "Status: "@ + status_text(*f)),
            ).push(
                line(
                    "Goal: ("@ + numeral(f.goal.0 as int) + ", "@ + numeral(f.goal.1 as int)
                        + ", "@ + numeral(f.goal.2 as int) + ")"@,
                ),
            ).push(
                line(
                    "At:   ("@ + numeral(at.0 as int) + ", "@ + numeral(at.1 as int) + ", "@
                        + numeral(at.2 as int) + ")"@,
                ),
            ).push(
                line(
                    "Chunk route: "@ + digits(
                        min(f.route_cursor as int, chunks.len() as int % 256) as nat,
                    ) + "/"@ + digits(chunks.len()),
                ),
            );
            final(page).shown() == (if chunks.len() > 0 {
                p.push(
                    styled(
                        Tone::Gray(160),
                        Style::Fine,
                        "  "@ + route_text(chunks, min(chunks.len() as int, ROUTE_PREVIEW as int))
                            + (if chunks.len() > ROUTE_PREVIEW {
                            " …"@
                        } else {
                            ""@
                        }),
                    ),
                )
            } else {
                p
            })
        }),
{
    let status = status_line(f);
    page.say_in(
        status_color(f.status),
        Style::Normal,
        Text::of("Status: ").with(status.as_str()).done(),
    );
    page.say(
        Text::of("Goal: (").signed(f.goal.0 as i64).with(", ").signed(f.goal.1 as i64).with(
            ", ",
        ).signed(f.goal.2 as i64).with(")").done(),
    );
    page.say(
        Text::of("At:   (").signed(at.0 as i64).with(", ").signed(at.1 as i64).with(", ").signed(
            at.2 as i64,
        ).with(")").done(),
    );
    let n: usize = f.chunk_route.len();
    let wrapped: u64 = (n % 256) as u64;
    let cursor: u64 = if (f.route_cursor as u64) < wrapped {
        f.route_cursor as u64
    } else {
        wrapped
    };
    page.say(Text::of("Chunk route: ").number(cursor).with("/").number(n as u64).done());
    if n > 0 {
        let m: usize = if n < ROUTE_PREVIEW {
            n
        } else {
            ROUTE_PREVIEW
        };
        let route = route_line(&f.chunk_route, m);
        let suffix = if n > ROUTE_PREVIEW {
            " …"
        } else {
            ""
        };
        page.say_in(
            Tone::Gray(160),
            Style::Fine,
            Text::of("  ").with(route.as_str()).with(suffix).done(),
        );
    }
}

/// Shows where a person is going: the way, the tile where they stand, whether a new way is asked
/// for, and the ways that were not found.
pub fn show_path(
    page: &mut Page<InspectorActionKind>,
    who: Entity,
    f: Option<&PathFollow>,
    at: (i32, i32, i8),
    pending: bool,
    failures: &Vec<PathFailure>,
)
    ensures
        final(page).shown() == path_rows(old(page).shown(), who, f, at, pending, failures@),
{
    page.section(Tone::Rgb(180, 180, 240), true, "Pathing");
    match f {
        Some(f) => {
            show_way(page, f, at);
            let steps: usize = f.segment_path.len();
            let wrapped: u64 = (steps % 65536) as u64;
            let cursor: u64 = if (f.segment_cursor as u64) < wrapped {
                f.segment_cursor as u64
            } else {
                wrapped
            };
            page.say(Text::of("Segment: ").number(cursor).with("/").number(steps as u64).done());
            page.say(
                Text::of("stuck_ticks: ").number(f.stuck_ticks as u64).with(
                    "  •  last_replan: ",
                ).number(f.last_replan_tick).done(),
            );
            let flag = if pending {
                "true"
            } else {
                "false"
            };
            page.say_in(
                Tone::Gray(160),
                Style::Fine,
                Text::of("request_id: ").number(f.request_id).with("  •  planning_gen: ").number(
                    f.planning_generation as u64,
                ).with("  •  pending: ").with(flag).done(),
            );
            let tiles = tiles_line(&f.recent_tiles);
            page.say_in(
                Tone::Gray(160),
                Style::Fine,
                Text::of("Recent tiles: ").with(tiles.as_str()).done(),
            );
            let failed = f.fail_count_unreachable_conn > 0 || f.fail_count_unreachable_astar > 0
                || f.fail_count_budget > 0 || f.fail_count_no_route_router > 0
                || f.fail_count_no_route_continuity > 0;
            let tone = if failed {
                Tone::Rgb(240, 160, 100)
            } else {
                Tone::Gray(160)
            };
            page.say_in(
                tone,
                Style::Fine,
                Text::of("Failures: conn ").number(f.fail_count_unreachable_conn as u64).with(
                    "  astar ",
                ).number(f.fail_count_unreachable_astar as u64).with("  budget ").number(
                    f.fail_count_budget as u64,
                ).with("  router ").number(f.fail_count_no_route_router as u64).with(
                    "  cont ",
                ).number(f.fail_count_no_route_continuity as u64).done(),
            );
            match &f.last_astar_dump {
                Some(dump) => {
                    page.section(Tone::Plain, true, "Last A* Unreachable dump");
                    page.note_in(Tone::Plain, Style::Mono, dump.as_str());
                    page.place(Widget::EndSection);
                },
                None => {},
            }
            let n: usize = if failures.len() < FAILURES_SHOWN {
                failures.len()
            } else {
                FAILURES_SHOWN
            };
            if n > 0 {
                page.put(
                    Widget::Section(Tone::Plain, false),
                    Text::of("Failure history (").number(n as u64).with(")").done(),
                    None,
                );
                show_failures(page, failures, n);
                page.place(Widget::EndSection);
            }
            page.place(Widget::Begin);
            page.offer(
                Widget::Button(Tone::Plain),
                "Force replan",
                InspectorActionKind::Replan { target: who },
            );
            page.place(Widget::End);
        },
        None => page.note_in(Tone::Gray(160), Style::Italic, "No PathFollow component"),
    }
    page.place(Widget::EndSection);
}

/// The latest attempt is none earlier than any other, and after it comes none as late.
pub proof fn the_latest_attempt_is_the_latest(h: Seq<Attempt>, n: int, i: int)
    requires
        0 <= i < n <= h.len(),
    ensures
        latest(h, n) matches Some(k) && 0 <= k < n && h[i].tick <= h[k].tick && (i > k ==> h[i].tick
            < h[k].tick),
    decreases n,
{
    if n > 1 {
        let j = if i < n - 1 {
            i
        } else {
            0
        };
        the_latest_attempt_is_the_latest(h, n - 1, j);
        let k = latest(h, n - 1)->0;
        if i < n - 1 && i != k {
            assert(h[i].tick <= h[k].tick);
        }
    } else {
        assert(latest(h, 0) is None);
    }
}

/// An attempt is remembered until its time is over, counted from when it was made.
pub proof fn attempts_are_forgotten_in_time(
    h: Seq<Attempt>,
    now: u64,
    ttl: u64,
    n: int,
    i: int,
)
    requires
        0 <= i < n <= h.len(),
        h.len() <= usize::MAX,
    ensures
        live(h, now, ttl, n).contains(i as usize) <==> now - h[i].tick <= ttl,
    decreases n,
{
    let before = live(h, now, ttl, n - 1);
    let after = live(h, now, ttl, n);
    if i < n - 1 {
        attempts_are_forgotten_in_time(h, now, ttl, n - 1, i);
        if before.contains(i as usize) {
            let k = choose|k: int| 0 <= k < before.len() && before[k] == i as usize;
            assert(after[k] == i as usize);
        }
        if after.contains(i as usize) {
            let k = choose|k: int| 0 <= k < after.len() && after[k] == i as usize;
            if k < before.len() {
                assert(before[k] == i as usize);
            }
        }
    } else {
        live_places_are_below(h, now, ttl, n - 1);
        if after.contains(i as usize) && before.contains(i as usize) {
            let k = choose|k: int| 0 <= k < before.len() && before[k] == i as usize;
            assert(before[k] < n - 1);
        }
        if age(now, h[i].tick) <= ttl {
            assert(after[before.len() as int] == i as usize);
        }
    }
}

proof fn live_places_are_below(h: Seq<Attempt>, now: u64, ttl: u64, n: int)
    requires
        n <= h.len() <= usize::MAX,
    ensures
        forall|k: int|
            0 <= k < live(h, now, ttl, n).len() ==> (#[trigger] live(h, now, ttl, n)[k]) < n,
    decreases n,
{
    if n > 0 {
        live_places_are_below(h, now, ttl, n - 1);
        let before = live(h, now, ttl, n - 1);
        let after = live(h, now, ttl, n);
        assert forall|k: int| 0 <= k < after.len() implies (#[trigger] after[k]) < n by {
            if k < before.len() {
                assert(after[k] == before[k]);
            }
        }
    }
}

/// Work is shown in percent of what it takes: thirty for gathering and throwing, forty for
/// planting, sixty for butchering.
pub proof fn work_is_shown_in_percent(progress: u8)
    ensures
        work_text(Work::Planter, progress) == "Planting Seeds"@ + (" ("@ + digits(
            (progress as int * 100 / 40) as nat,
        ) + "%)"@),
        work_text(Work::Butcher, progress) == "Butchering"@ + (" ("@ + digits(
            (progress as int * 100 / 60) as nat,
        ) + "%)"@),
        work_text(Work::Gather { plant: None, stone: true }, progress) == "Mining Stone"@ + (" ("@
            + digits((progress as int * 100 / 30) as nat) + "%)"@),
        work_text(Work::PlayThrow, progress) == "Play-Throwing"@ + (" ("@ + digits(
            (progress as int * 100 / 30) as nat,
        ) + "%)"@),
{
}

/// A way is previewed by its first six stretches, and the first eight failures are listed.
pub proof fn previews_are_short(n: int)
    ensures
        n <= 6 ==> min(n, ROUTE_PREVIEW as int) == n,
        n >= 6 ==> min(n, ROUTE_PREVIEW as int) == 6,
        n <= 8 ==> min(n, FAILURES_SHOWN as int) == n,
        n >= 8 ==> min(n, FAILURES_SHOWN as int) == 8,
        RECENT_TILES == 4,
{
}

} // verus!
