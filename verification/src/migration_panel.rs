//! The panel for wandering factions: how the camp stands, where it may go, and who looks ahead.

use vstd::prelude::*;
use vstd::string::*;
use crate::page::{line, mark, styled, Page, Shown, Style, Tone, Widget};
use crate::parts::Entity;
use crate::text::{digits, numeral, Text};

verus! {

/// Whether the camp stands.
#[derive(Clone, Copy, Debug, PartialEq, Eq, Structural)]
pub enum CampState {
    Pitched,
    Packed { since_tick: u64 },
}

/// How far a migration has got.
#[derive(Clone, Copy, Debug)]
pub enum MigrationPhase {
    Idle,
    Surveying,
    PendingCommit((i32, i32)),
    PackingCamp((i32, i32)),
    Traveling { caravan: (i32, i32), target: (i32, i32) },
    PitchingCamp((i32, i32)),
}

/// What a migration is after.
#[derive(Clone, Copy, Debug, PartialEq, Eq, Structural)]
pub enum MigrationIntent {
    FreeRoute,
    FollowWater,
    FollowHerds,
    SeekWinterShelter,
    SeekSummerPasture,
    AvoidDanger,
}

/// What workers do of themselves while the camp is packed.
#[derive(Clone, Copy, Debug, PartialEq, Eq, Structural)]
pub enum PackedMigrationAutonomy {
    Hold,
    Forage,
}

/// How far scouts go.
pub const SCOUT_RANGE: u32 = 60;

/// What the panel asks for. Commands go to the chief.
#[derive(Clone, Copy, Debug, PartialEq, Eq, Structural)]
pub enum MigrationAction {
    Close,
    SetPackedAutonomy(PackedMigrationAutonomy),
    SetMigrationIntent(MigrationIntent),
    /// A direction out of eight, clockwise from the north.
    SendScout { direction: u8, range: u32 },
}

/// The page of the panel.
pub type MigrationRows = Seq<Shown<MigrationAction>>;

/// A place where the camp could stand.
#[derive(Debug)]
pub struct CandidateLine {
    pub validated: bool,
    pub anchor: (i32, i32),
    /// The score, as it is to be read.
    pub score: String,
    pub reasons: Vec<String>,
}

/// What the panel is made from.
#[derive(Debug)]
pub struct MigrationSheet {
    pub mobile: bool,
    pub camp: CampState,
    pub phase: MigrationPhase,
    pub intent: MigrationIntent,
    /// The names of the six intents, in their order.
    pub intent_names: Vec<String>,
    pub autonomy: PackedMigrationAutonomy,
    pub hold_name: String,
    pub forage_name: String,
    pub candidates: Vec<CandidateLine>,
}

/// A pair in brackets behind a word.
pub open spec fn toward(word: Seq<char>, t: (i32, i32)) -> Seq<char> {
    word + " → ("@ + numeral(t.0 as int) + ", "@ + numeral(t.1 as int) + ")"@
}

pub open spec fn camp_text(c: CampState) -> Seq<char> {
    match c {
        CampState::Pitched => "Camp: Pitched"@,
        CampState::Packed { since_tick } => "Camp: Packed since tick "@ + digits(
            since_tick as nat,
        ),
    }
}

pub open spec fn phase_text(f: MigrationPhase) -> Seq<char> {
    match f {
        MigrationPhase::Idle => "Phase: Idle"@,
        MigrationPhase::Surveying => "Phase: Surveying (AI)"@,
        MigrationPhase::PendingCommit(t) => toward("Phase: Pending"@, t),
        MigrationPhase::PackingCamp(t) => toward("Phase: Packing"@, t),
        MigrationPhase::Traveling { caravan, target } => toward(
            "Phase: Traveling ("@ + numeral(caravan.0 as int) + ", "@ + numeral(caravan.1 as int)
                + ")"@,
            target,
        ),
        MigrationPhase::PitchingCamp(t) => toward("Phase: Pitching"@, t),
    }
}

pub open spec fn intent_at(k: int) -> MigrationIntent {
    if k == 0 {
        MigrationIntent::FreeRoute
    } else if k == 1 {
        MigrationIntent::FollowWater
    } else if k == 2 {
        MigrationIntent::FollowHerds
    } else if k == 3 {
        MigrationIntent::SeekWinterShelter
    } else if k == 4 {
        MigrationIntent::SeekSummerPasture
    } else {
        MigrationIntent::AvoidDanger
    }
}

/// The place of an intent among the six.
pub open spec fn intent_place(i: MigrationIntent) -> int {
    match i {
        MigrationIntent::FreeRoute => 0,
        MigrationIntent::FollowWater => 1,
        MigrationIntent::FollowHerds => 2,
        MigrationIntent::SeekWinterShelter => 3,
        MigrationIntent::SeekSummerPasture => 4,
        MigrationIntent::AvoidDanger => 5,
    }
}

/// A button that stands out while it is the one in force.
pub open spec fn choice_button(
    active: bool,
    name: Seq<char>,
    a: MigrationAction,
) -> Shown<MigrationAction> {
    (
        Widget::Button(
            if active {
                Tone::Rgb(60, 120, 200)
            } else {
                Tone::Plain
            },
        ),
        name,
        Some(a),
    )
}

/// The buttons for the first `n` intents.
pub open spec fn intent_rows(
    p: MigrationRows,
    names: Seq<String>,
    now: MigrationIntent,
    n: int,
) -> MigrationRows
    decreases n,
{
    if n <= 0 {
        p
    } else {
        intent_rows(p, names, now, n - 1).push(
            choice_button(
                intent_at(n - 1) == now,
                names[n - 1]@,
                MigrationAction::SetMigrationIntent(intent_at(n - 1)),
            ),
        )
    }
}

/// A button that sends a scout.
pub open spec fn scout_button(name: Seq<char>, direction: u8) -> Shown<MigrationAction> {
    (
        Widget::Button(Tone::Plain),
        name,
        Some(MigrationAction::SendScout { direction, range: SCOUT_RANGE }),
    )
}

/// The buttons for scouts in the eight directions.
pub open spec fn scout_rows(p: MigrationRows) -> MigrationRows {
    p.push(mark(Widget::Begin)).push(scout_button("N"@, 0)).push(scout_button("NE"@, 1)).push(
        scout_button("E"@, 2),
    ).push(scout_button("SE"@, 3)).push(mark(Widget::End)).push(mark(Widget::Begin)).push(
        scout_button("S"@, 4),
    ).push(scout_button("SW"@, 5)).push(scout_button("W"@, 6)).push(scout_button("NW"@, 7)).push(
        mark(Widget::End),
    )
}

/// The first `n` texts with dots between them.
pub open spec fn dotted(texts: Seq<String>, n: int) -> Seq<char>
    decreases n,
{
    if n <= 0 {
        Seq::empty()
    } else if n == 1 {
        texts[0]@
    } else {
        dotted(texts, n - 1) + " · "@ + texts[n - 1]@
    }
}

/// The rows on the first `n` places for a camp.
pub open spec fn candidate_rows(
    p: MigrationRows,
    list: Seq<CandidateLine>,
    n: int,
) -> MigrationRows
    decreases n,
{
    if n <= 0 {
        p
    } else {
        let c = list[n - 1];
        let q = candidate_rows(p, list, n - 1).push(
            line(
                (if c.validated {
                    "✓"@
                } else {
                    " "@
                }) + " #"@ + digits((n - 1) as nat) + " ("@ + numeral(c.anchor.0 as int) + ", "@
                    + numeral(c.anchor.1 as int) + ")  score "@ + c.score@,
            ),
        );
        if c.reasons@.len() > 0 {
            q.push(
                styled(
                    Tone::Gray(180),
                    Style::Small,
                    "    "@ + dotted(c.reasons@, c.reasons@.len() as int),
                ),
            )
        } else {
            q
        }
    }
}

/// The part on what workers do while the camp is packed.
pub open spec fn autonomy_rows(p: MigrationRows, s: MigrationSheet) -> MigrationRows {
    if s.camp is Packed {
        p.push(mark(Widget::Rule)).push(styled(Tone::Plain, Style::Strong, "Autonomy"@)).push(
            styled(
                Tone::Gray(160),
                Style::Small,
                "Hold: workers wait for direct orders. Forage: food/sleep/social/scout autonomy."@,
            ),
        ).push(mark(Widget::Begin)).push(
            choice_button(
                s.autonomy == PackedMigrationAutonomy::Hold,
                s.hold_name@,
                MigrationAction::SetPackedAutonomy(PackedMigrationAutonomy::Hold),
            ),
        ).push(
            choice_button(
                s.autonomy == PackedMigrationAutonomy::Forage,
                s.forage_name@,
                MigrationAction::SetPackedAutonomy(PackedMigrationAutonomy::Forage),
            ),
        ).push(mark(Widget::End))
    } else {
        p
    }
}

/// The panel.
pub open spec fn migration_rows(s: MigrationSheet) -> MigrationRows {
    let p = Seq::<Shown<MigrationAction>>::empty().push(
        (Widget::Button(Tone::Plain), "Close"@, Some(MigrationAction::Close)),
    ).push(mark(Widget::Rule)).push(styled(Tone::Plain, Style::Strong, "Status"@)).push(
        line(camp_text(s.camp)),
    ).push(line(phase_text(s.phase))).push(
        line("Intent: "@ + s.intent_names@[intent_place(s.intent)]@),
    ).push(
        styled(
            Tone::Gray(160),
            Style::Small,
            "Tip: Pack Camp on the HUD to enter mobile mode. While Packed, workers wait for explicit orders (Hold) unless you flip Autonomy to Forage. Right-click any tile → Pitch Camp Here to settle."@,
        ),
    );
    let p = autonomy_rows(p, s).push(mark(Widget::Rule)).push(
        styled(Tone::Plain, Style::Strong, "Intent"@),
    ).push(
        styled(
            Tone::Gray(160),
            Style::Small,
            "Biases AI autopilot scoring; cosmetic for free-form play."@,
        ),
    );
    let p = intent_rows(p, s.intent_names@, s.intent, 6).push(mark(Widget::Rule)).push(
        styled(Tone::Plain, Style::Strong, "Send Scouts"@),
    ).push(
        styled(
            Tone::Gray(160),
            Style::Small,
            "Scouts walk out and report candidate camp sites."@,
        ),
    );
    let p = scout_rows(p).push(mark(Widget::Rule)).push(
        styled(Tone::Plain, Style::Strong, "Candidate Sites"@),
    );
    if s.candidates@.len() == 0 {
        p.push(
            styled(
                Tone::Gray(160),
                Style::Normal,
                "(none — send scouts to discover good spots)"@,
            ),
        )
    } else {
        candidate_rows(p, s.candidates@, s.candidates@.len() as int)
    }
}

fn toward_text(t: Text, p: (i32, i32)) -> (s: String)
    ensures
        s@ == toward(t@, p),
{
    t.with(" → (").signed(p.0 as i64).with(", ").signed(p.1 as i64).with(")").done()
}

fn phase_line(f: MigrationPhase) -> (s: String)
    ensures
        s@ == phase_text(f),
{
    match f {
        MigrationPhase::Idle => "Phase: Idle".to_owned(),
        MigrationPhase::Surveying => "Phase: Surveying (AI)".to_owned(),
        MigrationPhase::PendingCommit(t) => toward_text(Text::of("Phase: Pending"), t),
        MigrationPhase::PackingCamp(t) => toward_text(Text::of("Phase: Packing"), t),
        MigrationPhase::Traveling { caravan, target } => toward_text(
            Text::of("Phase: Traveling (").signed(caravan.0 as i64).with(", ").signed(
                caravan.1 as i64,
            ).with(")"),
            target,
        ),
        MigrationPhase::PitchingCamp(t) => toward_text(Text::of("Phase: Pitching"), t),
    }
}

fn show_choice(page: &mut Page<MigrationAction>, active: bool, name: &String, a: MigrationAction)
    ensures
        final(page).shown() == old(page).shown().push(choice_button(active, name@, a)),
{
    let tone = if active {
        Tone::Rgb(60, 120, 200)
    } else {
        Tone::Plain
    };
    page.offer(Widget::Button(tone), name.as_str(), a);
}

fn show_scout(page: &mut Page<MigrationAction>, name: &str, direction: u8)
    ensures
        final(page).shown() == old(page).shown().push(scout_button(name@, direction)),
{
    page.offer(
        Widget::Button(Tone::Plain),
        name,
        MigrationAction::SendScout { direction, range: SCOUT_RANGE },
    );
}

fn show_scouts(page: &mut Page<MigrationAction>)
    ensures
        final(page).shown() == scout_rows(old(page).shown()),
{
    page.place(Widget::Begin);
    show_scout(page, "N", 0);
    show_scout(page, "NE", 1);
    show_scout(page, "E", 2);
    show_scout(page, "SE", 3);
    page.place(Widget::End);
    page.place(Widget::Begin);
    show_scout(page, "S", 4);
    show_scout(page, "SW", 5);
    show_scout(page, "W", 6);
    show_scout(page, "NW", 7);
    page.place(Widget::End);
}

fn dot_list(texts: &Vec<String>) -> (s: String)
    ensures
        s@ == dotted(texts@, texts@.len() as int),
{
    let mut t = Text::blank();
    let mut i: usize = 0;
    while i < texts.len()
        invariant
            i <= texts.len(),
            t@ == dotted(texts@, i as int),
        decreases texts.len() - i,
    {
        if i > 0 {
            t = t.with(" · ");
        }
        t = t.with(texts[i].as_str());
        i += 1;
        assert(t@ =~= dotted(texts@, i as int));
    }
    t.done()
}

fn show_candidates(page: &mut Page<MigrationAction>, list: &Vec<CandidateLine>)
    ensures
        final(page).shown() == candidate_rows(old(page).shown(), list@, list@.len() as int),
{
    let ghost start = page.shown();
    let mut i: usize = 0;
    while i < list.len()
        invariant
            i <= list.len(),
            page.shown() == candidate_rows(start, list@, i as int),
        decreases list.len() - i,
    {
        let c = &list[i];
        let tick = if c.validated {
            "✓"
        } else {
            " "
        };
        page.say(
            Text::of(tick).with(" #").number(i as u64).with(" (").signed(c.anchor.0 as i64).with(
                ", ",
            ).signed(c.anchor.1 as i64).with(")  score ").with(c.score.as_str()).done(),
        );
        if c.reasons.len() > 0 {
            let reasons = dot_list(&c.reasons);
            page.say_in(
                Tone::Gray(180),
                Style::Small,
                Text::of("    ").with(reasons.as_str()).done(),
            );
        }
        i += 1;
    }
}

fn show_autonomy(page: &mut Page<MigrationAction>, s: &MigrationSheet)
    ensures
        final(page).shown() == autonomy_rows(old(page).shown(), *s),
{
    match s.camp {
        CampState::Packed { .. } => {
            page.place(Widget::Rule);
            page.note_in(Tone::Plain, Style::Strong, "Autonomy");
            page.note_in(
                Tone::Gray(160),
                Style::Small,
                "Hold: workers wait for direct orders. Forage: food/sleep/social/scout autonomy.",
            );
            page.place(Widget::Begin);
            show_choice(
                page,
                s.autonomy == PackedMigrationAutonomy::Hold,
                &s.hold_name,
                MigrationAction::SetPackedAutonomy(PackedMigrationAutonomy::Hold),
            );
            show_choice(
                page,
                s.autonomy == PackedMigrationAutonomy::Forage,
                &s.forage_name,
                MigrationAction::SetPackedAutonomy(PackedMigrationAutonomy::Forage),
            );
            page.place(Widget::End);
        },
        CampState::Pitched => {},
    }
}

fn place_of_intent(i: MigrationIntent) -> (k: usize)
    ensures
        k == intent_place(i),
{
    match i {
        MigrationIntent::FreeRoute => 0,
        MigrationIntent::FollowWater => 1,
        MigrationIntent::FollowHerds => 2,
        MigrationIntent::SeekWinterShelter => 3,
        MigrationIntent::SeekSummerPasture => 4,
        MigrationIntent::AvoidDanger => 5,
    }
}

fn intent_number(k: usize) -> (i: MigrationIntent)
    ensures
        i == intent_at(k as int),
{
    match k {
        0 => MigrationIntent::FreeRoute,
        1 => MigrationIntent::FollowWater,
        2 => MigrationIntent::FollowHerds,
        3 => MigrationIntent::SeekWinterShelter,
        4 => MigrationIntent::SeekSummerPasture,
        _ => MigrationIntent::AvoidDanger,
    }
}

/// The panel, while it is open and the player's faction, given where it is on record, wanders.
pub fn migration_panel_system(open: bool, sheet: Option<&MigrationSheet>) -> (r: Option<
    Page<MigrationAction>,
>)
    requires
        sheet matches Some(s) ==> s.intent_names@.len() == 6,
    ensures
        match (r, sheet) {
            (Some(page), Some(s)) => open && s.mobile && page.shown() == migration_rows(*s),
            (Some(_), None) => false,
            (None, Some(s)) => !open || !s.mobile,
            (None, None) => true,
        },
{
    let s = match sheet {
        Some(s) => s,
        None => {
            return None;
        },
    };
    if !open || !s.mobile {
        return None;
    }
    let mut page: Page<MigrationAction> = Page::new();
    page.offer(Widget::Button(Tone::Plain), "Close", MigrationAction::Close);
    page.place(Widget::Rule);
    page.note_in(Tone::Plain, Style::Strong, "Status");
    let camp = match s.camp {
        CampState::Pitched => "Camp: Pitched".to_owned(),
        CampState::Packed { since_tick } => Text::of("Camp: Packed since tick ").number(
            since_tick,
        ).done(),
    };
    page.say(camp);
    page.say(phase_line(s.phase));
    let k: usize = place_of_intent(s.intent);
    page.say(Text::of("Intent: ").with(s.intent_names[k].as_str()).done());
    page.note_in(
        Tone::Gray(160),
        Style::Small,
        "Tip: Pack Camp on the HUD to enter mobile mode. While Packed, workers wait for explicit orders (Hold) unless you flip Autonomy to Forage. Right-click any tile → Pitch Camp Here to settle.",
    );
    show_autonomy(&mut page, s);
    page.place(Widget::Rule);
    page.note_in(Tone::Plain, Style::Strong, "Intent");
    page.note_in(
        Tone::Gray(160),
        Style::Small,
        "Biases AI autopilot scoring; cosmetic for free-form play.",
    );
    let ghost start = page.shown();
    let mut i: usize = 0;
    while i < 6
        invariant
            i <= 6,
            s.intent_names@.len() == 6,
            page.shown() == intent_rows(start, s.intent_names@, s.intent, i as int),
        decreases 6 - i,
    {
        let intent = intent_number(i);
        show_choice(
            &mut page,
            intent == s.intent,
            &s.intent_names[i],
            MigrationAction::SetMigrationIntent(intent),
        );
        i += 1;
    }
    page.place(Widget::Rule);
    page.note_in(Tone::Plain, Style::Strong, "Send Scouts");
    page.note_in(
        Tone::Gray(160),
        Style::Small,
        "Scouts walk out and report candidate camp sites.",
    );
    show_scouts(&mut page);
    page.place(Widget::Rule);
    page.note_in(Tone::Plain, Style::Strong, "Candidate Sites");
    if s.candidates.len() == 0 {
        page.note_in(
            Tone::Gray(160),
            Style::Normal,
            "(none — send scouts to discover good spots)",
        );
    } else {
        show_candidates(&mut page, &s.candidates);
    }
    Some(page)
}

/// A command to the chief, where there is a chief and the action is a command.
pub fn migration_command(a: MigrationAction, chief: Option<Entity>) -> (r: Option<
    (Entity, MigrationAction),
>)
    ensures
        r == (match chief {
            Some(c) => if a == MigrationAction::Close {
                None
            } else {
                Some((c, a))
            },
            None => None,
        }),
{
    match chief {
        Some(c) => match a {
            MigrationAction::Close => None,
            _ => Some((c, a)),
        },
        None => None,
    }
}

/// The six intents have six places, and each place its intent.
pub proof fn intents_have_their_places(i: MigrationIntent, k: int)
    ensures
        0 <= intent_place(i) < 6,
        intent_at(intent_place(i)) == i,
        0 <= k < 6 ==> intent_place(intent_at(k)) == k,
        intent_place(MigrationIntent::FreeRoute) == 0,
        intent_place(MigrationIntent::FollowWater) == 1,
        intent_place(MigrationIntent::FollowHerds) == 2,
        intent_place(MigrationIntent::SeekWinterShelter) == 3,
{
}

/// A scout is sent sixty tiles in the direction of the button, by the name on it.
pub proof fn scouts_go_where_they_are_sent(name: Seq<char>, direction: u8)
    ensures
        scout_button(name, direction).1 == name,
        scout_button(name, direction).2 == Some(
            MigrationAction::SendScout { direction, range: 60 },
        ),
{
}

} // verus!
