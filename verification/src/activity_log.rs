//! The log of what the player's people did.

use std::collections::VecDeque;
use vstd::prelude::*;
use vstd::string::*;
use crate::inspect_vehicle::{pair_text, push_pair};
use crate::page::{mark, styled, Page, Shown, Style, Tone, Widget};
use crate::parts::Entity;
use crate::seqs::{collect, collect_contains};
use crate::text::{digits, Text};

verus! {

/// How many entries are kept.
pub const MAX_ENTRIES: usize = 16;

pub const TICKS_PER_DAY: u64 = 3600;

pub const DAYS_PER_SEASON: u64 = 5;

/// A position: the bits of its two coordinates.
#[derive(Clone, Copy, Debug, PartialEq, Eq, Structural)]
pub struct Spot {
    pub x: u32,
    pub y: u32,
}

/// What was done.
#[derive(Debug)]
pub enum ActivityEntryKind {
    Constructed { site: String, result: Entity },
    Crafted { name: String },
    TechDiscovered { tech_name: String, era_name: String },
    RegionSettled { megachunk: (i32, i32), region_name: String },
}

/// Somebody did something.
#[derive(Debug)]
pub struct ActivityLogEvent {
    pub tick: u64,
    pub actor: Entity,
    pub faction_id: u32,
    pub kind: ActivityEntryKind,
    /// Where the actor is.
    pub actor_spot: Option<Spot>,
    /// Where the result is, and where its tile is.
    pub result_spot: Option<Spot>,
    pub tile_spot: Spot,
}

/// What an entry leads to.
#[derive(Clone, Copy, Debug, PartialEq, Eq, Structural)]
pub enum ResultLink {
    Built { entity: Entity, snapshot: Spot },
    HeldByActor,
    NoTarget,
}

/// What an entry says.
#[derive(Clone, Copy, Debug, PartialEq, Eq, Structural)]
pub enum Verb {
    Settled,
    Built,
    Crafted,
    Discovered,
}

/// An entry of the log.
#[derive(Debug)]
pub struct ActivityLogEntry {
    pub tick: u64,
    pub actor: Entity,
    pub actor_snapshot: Option<Spot>,
    pub verb: Verb,
    pub thing_label: String,
    pub result: ResultLink,
}

/// An entry as mathematics sees it.
pub struct LogLine {
    pub tick: u64,
    pub actor: Entity,
    pub actor_snapshot: Option<Spot>,
    pub verb: Verb,
    pub thing_label: Seq<char>,
    pub result: ResultLink,
}

impl ActivityLogEntry {
    pub open spec fn view(&self) -> LogLine {
        LogLine {
            tick: self.tick,
            actor: self.actor,
            actor_snapshot: self.actor_snapshot,
            verb: self.verb,
            thing_label: self.thing_label@,
            result: self.result,
        }
    }
}

/// The log, oldest entry first.
#[derive(Debug)]
pub struct ActivityLog {
    pub entries: VecDeque<ActivityLogEntry>,
}

impl ActivityLog {
    pub open spec fn view(&self) -> Seq<LogLine> {
        Seq::new(self.entries@.len(), |i: int| self.entries@[i]@)
    }

    pub fn new() -> (log: ActivityLog)
        ensures
            log@ == Seq::<LogLine>::empty(),
    {
        let log = ActivityLog { entries: VecDeque::new() };
        assert(log@ =~= Seq::<LogLine>::empty());
        log
    }
}

/// The verb of an event.
pub open spec fn verb_of(k: ActivityEntryKind) -> Verb {
    match k {
        ActivityEntryKind::Constructed { .. } => Verb::Built,
        ActivityEntryKind::Crafted { .. } => Verb::Crafted,
        ActivityEntryKind::TechDiscovered { .. } => Verb::Discovered,
        ActivityEntryKind::RegionSettled { .. } => Verb::Settled,
    }
}

/// What an event is about.
pub open spec fn label_of(k: ActivityEntryKind) -> Seq<char> {
    match k {
        ActivityEntryKind::Constructed { site, .. } => site@,
        ActivityEntryKind::Crafted { name } => name@,
        ActivityEntryKind::TechDiscovered { tech_name, era_name } => tech_name@ + " ("@ + era_name@
            + ")"@,
        ActivityEntryKind::RegionSettled { megachunk, region_name } => region_name@
            + " (mega-chunk "@ + pair_text(megachunk) + ")"@,
    }
}

/// What an event leads to.
pub open spec fn link_of(e: ActivityLogEvent) -> ResultLink {
    match e.kind {
        ActivityEntryKind::Constructed { result, .. } => ResultLink::Built {
            entity: result,
            snapshot: match e.result_spot {
                Some(s) => s,
                None => e.tile_spot,
            },
        },
        ActivityEntryKind::Crafted { .. } => ResultLink::HeldByActor,
        _ => ResultLink::NoTarget,
    }
}

/// The entry for an event.
pub open spec fn entry_of(e: ActivityLogEvent) -> LogLine {
    LogLine {
        tick: e.tick,
        actor: e.actor,
        actor_snapshot: e.actor_spot,
        verb: verb_of(e.kind),
        thing_label: label_of(e.kind),
        result: link_of(e),
    }
}

/// The entries for the events of a faction.
pub open spec fn own_entries(events: Seq<ActivityLogEvent>, faction: u32) -> Seq<LogLine> {
    collect(
        events.len() as int,
        |i: int| events[i].faction_id == faction,
        |i: int| entry_of(events[i]),
    )
}

/// The newest entries, as many as are kept.
pub open spec fn newest(log: Seq<LogLine>) -> Seq<LogLine> {
    if log.len() > MAX_ENTRIES {
        log.skip(log.len() - MAX_ENTRIES)
    } else {
        log
    }
}

/// The log after new entries. It is cut to size when something is added.
pub open spec fn log_after(log: Seq<LogLine>, added: Seq<LogLine>) -> Seq<LogLine> {
    if added.len() == 0 {
        log
    } else {
        newest(log + added)
    }
}

fn event_label(k: &ActivityEntryKind) -> (s: String)
    ensures
        s@ == label_of(*k),
{
    match k {
        ActivityEntryKind::Constructed { site, .. } => site.as_str().to_owned(),
        ActivityEntryKind::Crafted { name } => name.as_str().to_owned(),
        ActivityEntryKind::TechDiscovered { tech_name, era_name } => Text::of(
            tech_name.as_str(),
        ).with(" (").with(era_name.as_str()).with(")").done(),
        ActivityEntryKind::RegionSettled { megachunk, region_name } => {
            let mut s = Text::of(region_name.as_str()).with(" (mega-chunk ").done();
            push_pair(&mut s, *megachunk);
            s.append(")");
            s
        },
    }
}

fn event_entry(e: &ActivityLogEvent) -> (r: ActivityLogEntry)
    ensures
        r@ == entry_of(*e),
{
    let verb = match &e.kind {
        ActivityEntryKind::Constructed { .. } => Verb::Built,
        ActivityEntryKind::Crafted { .. } => Verb::Crafted,
        ActivityEntryKind::TechDiscovered { .. } => Verb::Discovered,
        ActivityEntryKind::RegionSettled { .. } => Verb::Settled,
    };
    let result = match &e.kind {
        ActivityEntryKind::Constructed { result, .. } => ResultLink::Built {
            entity: *result,
            snapshot: match e.result_spot {
                Some(s) => s,
                None => e.tile_spot,
            },
        },
        ActivityEntryKind::Crafted { .. } => ResultLink::HeldByActor,
        _ => ResultLink::NoTarget,
    };
    ActivityLogEntry {
        tick: e.tick,
        actor: e.actor,
        actor_snapshot: e.actor_spot,
        verb,
        thing_label: event_label(&e.kind),
        result,
    }
}

impl ActivityLog {
    /// Adds an entry and drops the oldest ones beyond what is kept.
    fn record(&mut self, e: ActivityLogEntry)
        ensures
            final(self)@ == newest(old(self)@.push(e@)),
    {
        let ghost whole = old(self)@.push(e@);
        self.entries.push_back(e);
        assert(self@ =~= whole);
        assert(whole.skip(0) =~= whole);
        let ghost mut gone: int = 0;
        while self.entries.len() > MAX_ENTRIES
            invariant
                0 <= gone <= whole.len(),
                self@ == whole.skip(gone),
                gone > 0 ==> whole.len() - gone >= MAX_ENTRIES,
            decreases self.entries.len(),
        {
            let ghost before = self@;
            let ghost list = self.entries@;
            let _ = self.entries.pop_front();
            assert(self.entries@ =~= list.skip(1));
            proof {
                gone = gone + 1;
            }
            assert(self@ =~= before.skip(1));
            assert(before.skip(1) =~= whole.skip(gone));
        }
        assert(self@.len() == whole.len() - gone);
    }
}

/// Takes the events of a faction into the log.
pub fn activity_log_ingest_system(log: &mut ActivityLog, events: &Vec<ActivityLogEvent>, faction: u32)
    ensures
        final(log)@ == log_after(old(log)@, own_entries(events@, faction)),
{
    let ghost p = |i: int| events@[i].faction_id == faction;
    let ghost mk = |i: int| entry_of(events@[i]);
    let ghost start = log@;
    let mut i: usize = 0;
    while i < events.len()
        invariant
            i <= events.len(),
            p == (|i: int| events@[i].faction_id == faction),
            mk == (|i: int| entry_of(events@[i])),
            start == old(log)@,
            log@ == log_after(start, collect(i as int, p, mk)),
        decreases events.len() - i,
    {
        if events[i].faction_id == faction {
            let ghost added = collect(i as int, p, mk);
            let e = event_entry(&events[i]);
            log.record(e);
            proof {
                recording_adds_up(start, added, e@);
            }
        }
        i += 1;
    }
}

proof fn recording_adds_up(log: Seq<LogLine>, added: Seq<LogLine>, e: LogLine)
    ensures
        newest(log_after(log, added).push(e)) == log_after(log, added.push(e)),
{
    if added.len() == 0 {
        assert(log + added.push(e) =~= log.push(e));
    } else {
        assert(log + added.push(e) =~= (log + added).push(e));
        assert(newest(newest(log + added).push(e)) =~= newest((log + added).push(e)));
    }
}

/// The log never holds more than it keeps, and the last thing done is always its last entry.
pub proof fn log_keeps_the_newest(log: Seq<LogLine>, added: Seq<LogLine>)
    requires
        log.len() <= MAX_ENTRIES,
    ensures
        log_after(log, added).len() <= MAX_ENTRIES,
        log_after(log, added).len() == MAX_ENTRIES || log_after(log, added) == log + added,
        added.len() > 0 ==> log_after(log, added).last() == added.last(),
        forall|i: int|
            0 <= i < log_after(log, added).len() ==> #[trigger] log_after(log, added)[i] == (log
                + added)[i + log.len() + added.len() - log_after(log, added).len()],
{
    if added.len() == 0 {
        assert(log + added =~= log);
    }
}

/// The season of a day, in short.
pub open spec fn season_abbr(total_days: int) -> Seq<char> {
    let k = (total_days / 5) % 4;
    if k == 0 {
        "Spr"@
    } else if k == 1 {
        "Sum"@
    } else if k == 2 {
        "Aut"@
    } else {
        "Win"@
    }
}

/// The date of a tick: the season and the day in it, counted from one.
pub open spec fn date_text(tick: u64) -> Seq<char> {
    let total_days = tick as int / 3600;
    season_abbr(total_days) + " D"@ + digits((total_days % 5 + 1) as nat)
}

pub fn tick_to_game_date(tick: u64) -> (s: String)
    ensures
        s@ == date_text(tick),
{
    let total_days: u64 = tick / TICKS_PER_DAY;
    let day: u64 = total_days % DAYS_PER_SEASON + 1;
    let season: u64 = (total_days / DAYS_PER_SEASON) % 4;
    let t = match season {
        0 => Text::of("Spr"),
        1 => Text::of("Sum"),
        2 => Text::of("Aut"),
        _ => Text::of("Win"),
    };
    t.with(" D").number(day).done()
}

/// What the panel asks for.
#[derive(Clone, Copy, Debug, PartialEq, Eq, Structural)]
pub enum LogAction {
    Clear,
    /// The actor of an entry.
    Actor(usize),
    /// The result of an entry.
    Result(usize),
}

/// The rows of the panel.
pub type LogRows = Seq<Shown<LogAction>>;

/// What is known now of what an entry speaks of.
#[derive(Debug)]
pub struct EntryNow {
    /// The actor's name, while they live.
    pub actor_name: Option<String>,
    pub actor_spot: Option<Spot>,
    pub result_spot: Option<Spot>,
}

pub open spec fn verb_text(v: Verb) -> Seq<char> {
    match v {
        Verb::Settled => "settled"@,
        Verb::Built => "built"@,
        Verb::Crafted => "crafted"@,
        Verb::Discovered => "discovered"@,
    }
}

/// What an entry is about still exists.
pub open spec fn leads_on(r: ResultLink, n: EntryNow) -> bool {
    match r {
        ResultLink::Built { .. } => n.result_spot is Some,
        ResultLink::HeldByActor => n.actor_name is Some,
        ResultLink::NoTarget => false,
    }
}

/// The rows on entry `i`. A discovery has no actor.
pub open spec fn entry_rows(
    p: LogRows,
    e: LogLine,
    n: EntryNow,
    nobody: Entity,
    i: usize,
) -> LogRows {
    let p = p.push(mark(Widget::Begin));
    let p = if e.actor == nobody {
        p.push(styled(Tone::Rgb(255, 210, 80), Style::Normal, "★"@))
    } else {
        p.push(
            (
                Widget::Link(n.actor_name is Some),
                match n.actor_name {
                    Some(s) => s@,
                    None => "(gone)"@,
                },
                Some(LogAction::Actor(i)),
            ),
        )
    };
    let p = p.push(styled(Tone::Rgb(180, 180, 180), Style::Normal, verb_text(e.verb)));
    let p = match e.result {
        ResultLink::NoTarget => p.push(
            styled(Tone::Rgb(200, 230, 200), Style::Normal, e.thing_label),
        ),
        _ => p.push(
            (
                Widget::Link(leads_on(e.result, n)),
                e.thing_label,
                Some(LogAction::Result(i)),
            ),
        ),
    };
    p.push(styled(Tone::Rgb(140, 140, 140), Style::Small, date_text(e.tick))).push(
        mark(Widget::End),
    )
}

/// The rows on the first `n` entries.
pub open spec fn entries_rows(
    p: LogRows,
    log: Seq<LogLine>,
    now: Seq<EntryNow>,
    nobody: Entity,
    n: int,
) -> LogRows
    decreases n,
{
    if n <= 0 {
        p
    } else {
        entry_rows(
            entries_rows(p, log, now, nobody, n - 1),
            log[n - 1],
            now[n - 1],
            nobody,
            (n - 1) as usize,
        )
    }
}

/// The panel.
pub open spec fn log_rows(log: Seq<LogLine>, now: Seq<EntryNow>, nobody: Entity) -> LogRows {
    entries_rows(
        Seq::<Shown<LogAction>>::empty().push(mark(Widget::Begin)).push(
            styled(Tone::Rgb(220, 220, 220), Style::Strong, "Activity"@),
        ).push((Widget::SmallButton, "Clear"@, Some(LogAction::Clear))).push(
            mark(Widget::End),
        ).push(mark(Widget::Rule)),
        log,
        now,
        nobody,
        log.len() as int,
    )
}

fn show_entry(
    page: &mut Page<LogAction>,
    e: &ActivityLogEntry,
    n: &EntryNow,
    nobody: Entity,
    i: usize,
)
    ensures
        final(page).shown() == entry_rows(old(page).shown(), e@, *n, nobody, i),
{
    page.place(Widget::Begin);
    if e.actor == nobody {
        page.note_in(Tone::Rgb(255, 210, 80), Style::Normal, "★");
    } else {
        match &n.actor_name {
            Some(s) => page.offer(Widget::Link(true), s.as_str(), LogAction::Actor(i)),
            None => page.offer(Widget::Link(false), "(gone)", LogAction::Actor(i)),
        }
    }
    let verb = match e.verb {
        Verb::Settled => "settled",
        Verb::Built => "built",
        Verb::Crafted => "crafted",
        Verb::Discovered => "discovered",
    };
    page.note_in(Tone::Rgb(180, 180, 180), Style::Normal, verb);
    let alive = match e.result {
        ResultLink::Built { .. } => n.result_spot.is_some(),
        ResultLink::HeldByActor => n.actor_name.is_some(),
        ResultLink::NoTarget => false,
    };
    match e.result {
        ResultLink::NoTarget => page.note_in(
            Tone::Rgb(200, 230, 200),
            Style::Normal,
            e.thing_label.as_str(),
        ),
        _ => page.offer(Widget::Link(alive), e.thing_label.as_str(), LogAction::Result(i)),
    }
    page.say_in(Tone::Rgb(140, 140, 140), Style::Small, tick_to_game_date(e.tick));
    page.place(Widget::End);
}

/// The panel, unless the log is empty. `nobody` stands for the actor of a discovery.
pub fn activity_log_panel_system(log: &ActivityLog, now: &Vec<EntryNow>, nobody: Entity) -> (r: Option<
    Page<LogAction>,
>)
    requires
        now@.len() == log@.len(),
    ensures
        match r {
            Some(page) => log@.len() > 0 && page.shown() == log_rows(log@, now@, nobody),
            None => log@.len() == 0,
        },
{
    if log.entries.len() == 0 {
        return None;
    }
    let mut page: Page<LogAction> = Page::new();
    page.place(Widget::Begin);
    page.note_in(Tone::Rgb(220, 220, 220), Style::Strong, "Activity");
    page.offer(Widget::SmallButton, "Clear", LogAction::Clear);
    page.place(Widget::End);
    page.place(Widget::Rule);
    let ghost start = page.shown();
    let mut i: usize = 0;
    while i < log.entries.len()
        invariant
            i <= log.entries@.len(),
            now@.len() == log@.len(),
            page.shown() == entries_rows(start, log@, now@, nobody, i as int),
        decreases log.entries@.len() - i,
    {
        show_entry(&mut page, &log.entries[i], &now[i], nobody, i);
        i += 1;
    }
    Some(page)
}

/// What a press leads to: an entity to select and a position to look at.
#[derive(Clone, Copy, Debug, PartialEq, Eq, Structural)]
pub struct LogFocus {
    pub select: Option<Entity>,
    pub look_at: Option<Spot>,
}

/// The position now, else the one on record.
pub open spec fn spot_or(now: Option<Spot>, then: Option<Spot>) -> Option<Spot> {
    match now {
        Some(s) => Some(s),
        None => then,
    }
}

/// Where a press on an entry leads: to its actor or to its result, while they exist.
pub open spec fn focus_of(e: LogLine, n: EntryNow, on_result: bool) -> LogFocus {
    let nowhere = LogFocus { select: None, look_at: None };
    let to_actor = LogFocus {
        select: Some(e.actor),
        look_at: spot_or(n.actor_spot, e.actor_snapshot),
    };
    if !on_result {
        if n.actor_name is Some {
            to_actor
        } else {
            nowhere
        }
    } else {
        match e.result {
            ResultLink::Built { entity, snapshot } => if n.result_spot is Some {
                LogFocus { select: Some(entity), look_at: spot_or(n.result_spot, Some(snapshot)) }
            } else {
                nowhere
            },
            ResultLink::HeldByActor => if n.actor_name is Some {
                to_actor
            } else {
                nowhere
            },
            ResultLink::NoTarget => nowhere,
        }
    }
}

/// Where a press on an entry leads.
pub fn entry_focus(e: &ActivityLogEntry, n: &EntryNow, on_result: bool) -> (f: LogFocus)
    ensures
        f == focus_of(e@, *n, on_result),
{
    let nowhere = LogFocus { select: None, look_at: None };
    let to_actor = LogFocus {
        select: Some(e.actor),
        look_at: match n.actor_spot {
            Some(s) => Some(s),
            None => e.actor_snapshot,
        },
    };
    if !on_result {
        if n.actor_name.is_some() {
            return to_actor;
        } else {
            return nowhere;
        }
    }
    match e.result {
        ResultLink::Built { entity, .. } => match n.result_spot {
            Some(s) => LogFocus { select: Some(entity), look_at: Some(s) },
            None => nowhere,
        },
        ResultLink::HeldByActor => {
            if n.actor_name.is_some() {
                to_actor
            } else {
                nowhere
            }
        },
        ResultLink::NoTarget => nowhere,
    }
}

/// Does what was asked for: the log is emptied, or the entry's focus is returned.
pub fn log_pressed(log: &mut ActivityLog, now: &Vec<EntryNow>, a: LogAction) -> (f: LogFocus)
    requires
        now@.len() == old(log)@.len(),
        a matches LogAction::Actor(i) ==> i < old(log)@.len(),
        a matches LogAction::Result(i) ==> i < old(log)@.len(),
    ensures
        match a {
            LogAction::Clear => final(log)@.len() == 0 && f.select is None && f.look_at is None,
            LogAction::Actor(i) => final(log)@ == old(log)@ && f == focus_of(
                old(log)@[i as int],
                now@[i as int],
                false,
            ),
            LogAction::Result(i) => final(log)@ == old(log)@ && f == focus_of(
                old(log)@[i as int],
                now@[i as int],
                true,
            ),
        },
{
    match a {
        LogAction::Clear => {
            log.entries.clear();
            LogFocus { select: None, look_at: None }
        },
        LogAction::Actor(i) => entry_focus(&log.entries[i], &now[i], false),
        LogAction::Result(i) => entry_focus(&log.entries[i], &now[i], true),
    }
}

/// Only what one's own faction did is logged, all of it, as it happened.
pub proof fn own_deeds_are_logged(events: Seq<ActivityLogEvent>, faction: u32, k: int, l: LogLine)
    ensures
        0 <= k < events.len() && events[k].faction_id == faction ==> own_entries(
            events,
            faction,
        ).contains(entry_of(events[k])),
        own_entries(events, faction).contains(l) ==> exists|i: int|
            0 <= i < events.len() && (#[trigger] events[i]).faction_id == faction && l == entry_of(
                events[i],
            ),
{
    let p = |i: int| events[i].faction_id == faction;
    let mk = |i: int| entry_of(events[i]);
    let n = events.len() as int;
    if 0 <= k < n {
        collect_contains(n, p, mk, entry_of(events[k]));
        assert(mk(k) == entry_of(events[k]));
        if events[k].faction_id == faction {
            assert(p(k));
        }
    }
    collect_contains(n, p, mk, l);
    if own_entries(events, faction).contains(l) {
        let i = choose|i: int| 0 <= i < n && p(i) && #[trigger] mk(i) == l;
        assert(events[i].faction_id == faction);
    }
}

/// An entry says who did what and when: what was built is named by its site and leads to the
/// building, where it stands or where it was put up; what was crafted is with whoever made it;
/// discoveries and settlements lead nowhere.
pub proof fn entries_tell_the_deed(e: ActivityLogEvent)
    ensures
        ({
            let l = entry_of(e);
            &&& l.tick == e.tick && l.actor == e.actor && l.actor_snapshot == e.actor_spot
            &&& e.kind matches ActivityEntryKind::Constructed { site, result } ==> {
                &&& l.verb == Verb::Built && l.thing_label == site@
                &&& l.result matches ResultLink::Built { entity, snapshot } && entity == result
                    && (e.result_spot is None ==> snapshot == e.tile_spot) && (e.result_spot
                    matches Some(s) ==> snapshot == s)
            }
            &&& e.kind matches ActivityEntryKind::Crafted { name } ==> l.verb == Verb::Crafted
                && l.thing_label == name@ && l.result is HeldByActor
            &&& e.kind is TechDiscovered ==> l.verb == Verb::Discovered && l.result is NoTarget
            &&& e.kind is RegionSettled ==> l.verb == Verb::Settled && l.result is NoTarget
        }),
{
}

/// Twenty days make a year of four seasons of five days; the day of the season is counted from one.
pub proof fn dates_go_round(year: int, season: int, day: int, rest: int, tick: u64)
    requires
        0 <= year,
        0 <= season < 4,
        0 <= day < 5,
        0 <= rest < 3600,
        tick == 3600 * (20 * year + 5 * season + day) + rest,
    ensures
        season == 0 ==> date_text(tick) == "Spr"@ + " D"@ + digits((day + 1) as nat),
        season == 1 ==> date_text(tick) == "Sum"@ + " D"@ + digits((day + 1) as nat),
        season == 2 ==> date_text(tick) == "Aut"@ + " D"@ + digits((day + 1) as nat),
        season == 3 ==> date_text(tick) == "Win"@ + " D"@ + digits((day + 1) as nat),
{
    let d = 20 * year + 5 * season + day;
    assert(tick as int / 3600 == d);
    assert(d / 5 == 4 * year + season);
    assert(d % 5 == day);
    assert((d / 5) % 4 == season);
}

/// A link is live exactly when following it leads somewhere: to the actor while they live, to a
/// building while it stands; then the camera goes where that is now, or else was last.
pub proof fn live_links_lead_somewhere(e: LogLine, n: EntryNow)
    ensures
        leads_on(e.result, n) <==> focus_of(e, n, true).select is Some,
        n.actor_name is Some <==> focus_of(e, n, false).select is Some,
        focus_of(e, n, false).select matches Some(x) ==> x == e.actor,
        n.actor_name is Some && n.actor_spot is Some ==> focus_of(e, n, false).look_at
            == n.actor_spot,
        n.actor_name is Some && n.actor_spot is None ==> focus_of(e, n, false).look_at
            == e.actor_snapshot,
        e.result matches ResultLink::Built { entity, .. } ==> (focus_of(e, n, true).select matches
            Some(x) ==> x == entity) && (n.result_spot is Some ==> focus_of(e, n, true).look_at
            == n.result_spot),
        e.result is HeldByActor ==> focus_of(e, n, true) == focus_of(e, n, false),
{
}

/// Every entry is shown on a line of its own that ends with its date and says its verb; the lines
/// before it stay.
pub proof fn entries_are_shown_line_by_line(
    p: LogRows,
    e: LogLine,
    n: EntryNow,
    nobody: Entity,
    i: usize,
)
    ensures
        ({
            let q = entry_rows(p, e, n, nobody, i);
            let k = p.len() as int;
            &&& q.len() == p.len() + 6
            &&& q.take(k) =~= p
            &&& q[k + 2].1 == verb_text(e.verb)
            &&& q[k + 3].1 == e.thing_label
            &&& q[k + 4].1 == date_text(e.tick)
            &&& e.actor != nobody ==> q[k + 1].1 == (match n.actor_name {
                Some(s) => s@,
                None => "(gone)"@,
            }) && q[k + 1].2 == Some(LogAction::Actor(i))
            &&& !(e.result is NoTarget) ==> q[k + 3].2 == Some(LogAction::Result(i))
        }),
{
}

/// Adding to the log keeps its last sixteen entries and drops only older ones.
pub proof fn the_last_sixteen_are_kept(log: Seq<LogLine>, added: Seq<LogLine>, i: int)
    requires
        log.len() <= 16,
        added.len() > 0,
    ensures
        log.len() + added.len() <= 16 ==> log_after(log, added) == log + added,
        log.len() + added.len() > 16 ==> log_after(log, added).len() == 16 && (0 <= i < 16
            ==> log_after(log, added)[i] == (log + added)[log.len() + added.len() - 16 + i]),
{
}

} // verus!
