//! The inspector's page for a person: who they are, how they fare, what they can do.

use vstd::prelude::*;
use vstd::string::*;
use crate::geometry::max;
use crate::page::{hint, line, mark, styled, Fill, Page, Shown, Style, Tone, Widget};
use crate::parts::{Entity, TechId};
use crate::inspect_items::EquipmentSlot;
use crate::inspect_items::Item;
use crate::seqs::{find, find_is_first, find_is_none};
use crate::text::{digits, numeral, padded, signed_numeral, Text};

verus! {

/// What the inspector asks for when something on its page is pressed.
#[derive(Clone, Copy, Debug, PartialEq, Eq, Structural)]
pub enum InspectorActionKind {
    DropInventoryItem { target: Entity, item: Item, qty: u32 },
    DropInvItemOne { target: Entity, item: Item },
    DropLeftHand { target: Entity },
    DropRightHand { target: Entity },
    EquipItem { target: Entity, item: Item, from_hands: bool, slot: EquipmentSlot },
    UnequipSlot { target: Entity, slot: EquipmentSlot },
    HoldLecture { lecturer: Entity, tech: TechId },
    ReadItem { reader: Entity, tech: TechId },
    EncodeTablet { tech: TechId },
    /// Gives up a claimed job.
    ReleaseJob { job: u32 },
    /// Forgets the present route and plans anew.
    Replan { target: Entity },
}

/// The page of a person.
pub type PersonRows = Seq<Shown<InspectorActionKind>>;

/// An apprentice's progress.
#[derive(Debug)]
pub struct Training {
    pub ticks: u32,
    pub target_ticks: u32,
    /// The part done, in percent, as it is to be read.
    pub percent: String,
}

/// A wound.
#[derive(Clone, Copy, Debug, PartialEq, Eq, Structural)]
pub struct Injury {
    pub severity: u8,
    pub applied_tick: u64,
    pub last_damage_tick: u64,
}

/// A job that somebody works on.
#[derive(Debug)]
pub struct Claim {
    pub kind: String,
    pub job_id: u32,
    pub fail_count: u8,
}

/// A job on the board of a faction.
#[derive(Debug)]
pub struct PostingLine {
    pub id: u32,
    pub source: String,
    /// The progress in percent, as it is to be read.
    pub percent: String,
}

/// The origin of a faction.
#[derive(Debug)]
pub struct Lineage {
    pub root: String,
    pub generation: u32,
    pub founder: String,
    pub style: String,
}

/// Where a person belongs.
#[derive(Debug)]
pub enum Belonging {
    Solo { bond_timer: u32 },
    Member {
        faction: u32,
        food: String,
        under_raid: bool,
        raiding: Option<u32>,
        yours: bool,
        lineage: Option<Lineage>,
    },
}

/// Who a person is.
#[derive(Debug)]
pub struct Identity {
    pub mood_name: String,
    pub mood: i32,
    pub sex: String,
    pub personality: String,
    pub profession: String,
    pub apprentice: bool,
    pub training: Option<Training>,
    pub mentoring: Option<Entity>,
    pub master: Option<Entity>,
    pub goal: String,
    pub reason: Option<String>,
    pub injury: Option<Injury>,
    pub claim: Option<Claim>,
    /// The jobs on the board of the faction whose job is claimed.
    pub postings: Vec<PostingLine>,
    pub belonging: Belonging,
}

/// The text, or a dash where there is none.
pub open spec fn or_dash(t: Option<String>) -> Seq<char> {
    match t {
        Some(s) => s@,
        None => "—"@,
    }
}

/// The rows on the profession, side by side.
pub open spec fn profession_rows(p: PersonRows, i: Identity, day: u32) -> PersonRows {
    let p = p.push(mark(Widget::Begin)).push(line("Profession: "@ + i.profession@));
    let p = if i.apprentice {
        match i.training {
            Some(t) => p.push(mark(Widget::Rule)).push(
                styled(
                    Tone::Rgb(180, 200, 255),
                    Style::Small,
                    "apprentice "@ + digits((t.ticks / day) as nat) + "/"@ + digits(
                        (t.target_ticks / day) as nat,
                    ) + " d ("@ + t.percent@ + "%)"@,
                ),
            ),
            None => p,
        }
    } else {
        match i.mentoring {
            Some(e) => p.push(mark(Widget::Rule)).push(
                styled(
                    Tone::Rgb(180, 220, 180),
                    Style::Small,
                    "mentoring #"@ + digits(e.place()),
                ),
            ),
            None => p,
        }
    };
    p.push(mark(Widget::End))
}

/// The row on a wound: how bad it is, how recent, how old.
pub open spec fn injury_row(j: Injury, now: u64, day: u32) -> Shown<InspectorActionKind> {
    let recency = if max(now - j.last_damage_tick, 0) < day / 2 {
        "fresh"@
    } else {
        "stable"@
    };
    styled(
        Tone::Severity(j.severity),
        Style::Normal,
        "Injured: severity "@ + digits(j.severity as nat) + " ("@ + recency + ", "@ + digits(
            (max(now - j.applied_tick, 0) / day as int) as nat,
        ) + " d since onset)"@,
    )
}

/// A posting has a certain number.
pub open spec fn has_number(id: u32) -> spec_fn(PostingLine) -> bool {
    |p: PostingLine| p.id == id
}

/// The rows on a claimed job.
pub open spec fn claim_rows(p: PersonRows, c: Claim, postings: Seq<PostingLine>) -> PersonRows {
    let p = p.push(mark(Widget::Begin)).push(
        line("Job: "@ + c.kind@ + " (#"@ + digits(c.job_id as nat) + ")"@),
    ).push(
        (
            Widget::Button(Tone::Plain),
            "Release"@,
            Some(InspectorActionKind::ReleaseJob { job: c.job_id }),
        ),
    ).push(mark(Widget::End));
    match find(postings, has_number(c.job_id)) {
        Some(post) => {
            let p = p.push(mark(Widget::Begin)).push(line("Source: "@ + post.source@)).push(
                hint("Reason/Source of this job posting"@),
            ).push(mark(Widget::Rule)).push(line("Progress: "@ + post.percent@ + "%"@));
            let p = if c.fail_count > 0 {
                p.push(mark(Widget::Rule)).push(
                    styled(
                        Tone::Rgb(255, 100, 100),
                        Style::Normal,
                        "Struggles: "@ + digits(c.fail_count as nat) + "/3"@,
                    ),
                ).push(hint("Number of times worker got stuck or timed out"@))
            } else {
                p
            };
            p.push(mark(Widget::End))
        },
        None => p,
    }
}

/// What is added to a faction's name: whom it fights, and whether it is the player's.
pub open spec fn raid_text(under_raid: bool, raiding: Option<u32>, yours: bool) -> Seq<char> {
    let s = if under_raid {
        " [UNDER RAID]"@
    } else {
        match raiding {
            Some(t) => " [RAIDING #"@ + digits(t as nat) + "]"@,
            None => ""@,
        }
    };
    if yours {
        s + " [YOU]"@
    } else {
        s
    }
}

/// The rows on where a person belongs.
pub open spec fn belonging_rows(p: PersonRows, b: Belonging) -> PersonRows {
    match b {
        Belonging::Solo { bond_timer } => {
            let p = p.push(line("Faction: Solo"@));
            if bond_timer > 0 {
                p.push(line("Bonding: "@ + digits(bond_timer as nat) + "/180"@))
            } else {
                p.push(styled(Tone::Gray(140), Style::Normal, "Bonding: —"@))
            }
        },
        Belonging::Member { faction, food, under_raid, raiding, yours, lineage } => {
            let (a, b) = match lineage {
                Some(l) => (
                    "Lineage: "@ + l.root@ + " (gen "@ + digits(l.generation as nat) + ")"@,
                    "Founder: "@ + l.founder@ + " • Style: "@ + l.style@,
                ),
                None => ("Lineage: —"@, "Founder: —"@),
            };
            p.push(
                line(
                    "Faction: #"@ + digits(faction as nat) + " (food: "@ + food@ + ")"@ + raid_text(
                        under_raid,
                        raiding,
                        yours,
                    ),
                ),
            ).push(styled(Tone::Gray(180), Style::Fine, a)).push(
                styled(Tone::Gray(180), Style::Fine, b),
            )
        },
    }
}

/// The part of the page on who a person is.
pub open spec fn identity_rows(p: PersonRows, i: Identity, now: u64, day: u32) -> PersonRows {
    let p = p.push((Widget::Section(Tone::Plain, true), "Identity"@, None)).push(
        mark(Widget::Begin),
    ).push(line("Mood: "@ + i.mood_name@ + " ("@ + numeral(i.mood as int) + ")"@)).push(
        mark(Widget::Rule),
    ).push(line(i.sex@)).push(mark(Widget::End)).push(line("Personality: "@ + i.personality@));
    let p = profession_rows(p, i, day);
    let p = match i.master {
        Some(e) => p.push(
            styled(Tone::Gray(170), Style::Small, "  Master: #"@ + digits(e.place())),
        ),
        None => p,
    };
    let p = p.push(mark(Widget::Begin)).push(line("Goal: "@ + i.goal@)).push(
        styled(Tone::Gray(160), Style::Small, " ("@ + or_dash(i.reason) + ")"@),
    ).push(mark(Widget::End));
    let p = match i.injury {
        Some(j) => p.push(injury_row(j, now, day)),
        None => p,
    };
    let p = match i.claim {
        Some(c) => claim_rows(p, c, i.postings@),
        None => p,
    };
    belonging_rows(p, i.belonging).push(mark(Widget::EndSection))
}

fn show_profession(page: &mut Page<InspectorActionKind>, i: &Identity, day: u32)
    requires
        day > 0,
    ensures
        final(page).shown() == profession_rows(old(page).shown(), *i, day),
{
    page.place(Widget::Begin);
    page.say(Text::of("Profession: ").with(i.profession.as_str()).done());
    if i.apprentice {
        match &i.training {
            Some(t) => {
                page.place(Widget::Rule);
                page.say_in(
                    Tone::Rgb(180, 200, 255),
                    Style::Small,
                    Text::of("apprentice ").number((t.ticks / day) as u64).with("/").number(
                        (t.target_ticks / day) as u64,
                    ).with(" d (").with(t.percent.as_str()).with("%)").done(),
                );
            },
            None => {},
        }
    } else {
        match i.mentoring {
            Some(e) => {
                page.place(Widget::Rule);
                page.say_in(
                    Tone::Rgb(180, 220, 180),
                    Style::Small,
                    Text::of("mentoring #").number(e.index()).done(),
                );
            },
            None => {},
        }
    }
    page.place(Widget::End);
}

fn show_injury(page: &mut Page<InspectorActionKind>, j: Injury, now: u64, day: u32)
    requires
        day > 0,
    ensures
        final(page).shown() == old(page).shown().push(injury_row(j, now, day)),
{
    let since: u64 = now.saturating_sub(j.last_damage_tick);
    let days: u64 = now.saturating_sub(j.applied_tick) / (day as u64);
    let t = Text::of("Injured: severity ").number(j.severity as u64).with(" (");
    let t = if since < (day / 2) as u64 {
        t.with("fresh")
    } else {
        t.with("stable")
    };
    page.say_in(
        Tone::Severity(j.severity),
        Style::Normal,
        t.with(", ").number(days).with(" d since onset)").done(),
    );
}

fn posting_of<'a>(postings: &'a Vec<PostingLine>, id: u32) -> (r: Option<&'a PostingLine>)
    ensures
        match r {
            Some(p) => find(postings@, has_number(id)) == Some(*p),
            None => find(postings@, has_number(id)) is None,
        },
{
    let ghost p = has_number(id);
    let mut i: usize = 0;
    while i < postings.len()
        invariant
            i <= postings.len(),
            p == has_number(id),
            forall|j: int| 0 <= j < i ==> !p(#[trigger] postings@[j]),
        decreases postings.len() - i,
    {
        if postings[i].id == id {
            proof {
                find_is_first(postings@, p, i as int);
            }
            return Some(&postings[i]);
        }
        i += 1;
    }
    proof {
        find_is_none(postings@, p);
    }
    None
}

fn show_claim(page: &mut Page<InspectorActionKind>, c: &Claim, postings: &Vec<PostingLine>)
    ensures
        final(page).shown() == claim_rows(old(page).shown(), *c, postings@),
{
    page.place(Widget::Begin);
    page.say(
        Text::of("Job: ").with(c.kind.as_str()).with(" (#").number(c.job_id as u64).with(")").done(),
    );
    page.offer(
        Widget::Button(Tone::Plain),
        "Release",
        InspectorActionKind::ReleaseJob { job: c.job_id },
    );
    page.place(Widget::End);
    match posting_of(postings, c.job_id) {
        Some(post) => {
            page.place(Widget::Begin);
            page.say(Text::of("Source: ").with(post.source.as_str()).done());
            page.explain("Reason/Source of this job posting");
            page.place(Widget::Rule);
            page.say(Text::of("Progress: ").with(post.percent.as_str()).with("%").done());
            if c.fail_count > 0 {
                page.place(Widget::Rule);
                page.say_in(
                    Tone::Rgb(255, 100, 100),
                    Style::Normal,
                    Text::of("Struggles: ").number(c.fail_count as u64).with("/3").done(),
                );
                page.explain("Number of times worker got stuck or timed out");
            }
            page.place(Widget::End);
        },
        None => {},
    }
}

fn show_belonging(page: &mut Page<InspectorActionKind>, b: &Belonging)
    ensures
        final(page).shown() == belonging_rows(old(page).shown(), *b),
{
    match b {
        Belonging::Solo { bond_timer } => {
            page.note("Faction: Solo");
            if *bond_timer > 0 {
                page.say(Text::of("Bonding: ").number(*bond_timer as u64).with("/180").done());
            } else {
                page.note_in(Tone::Gray(140), Style::Normal, "Bonding: —");
            }
        },
        Belonging::Member { faction, food, under_raid, raiding, yours, lineage } => {
            let s = if *under_raid {
                Text::of(" [UNDER RAID]")
            } else {
                match raiding {
                    Some(t) => Text::of(" [RAIDING #").number(*t as u64).with("]"),
                    None => Text::of(""),
                }
            };
            let s = if *yours {
                s.with(" [YOU]")
            } else {
                s
            };
            let raid = s.done();
            page.say(
                Text::of("Faction: #").number(*faction as u64).with(" (food: ").with(
                    food.as_str(),
                ).with(")").with(raid.as_str()).done(),
            );
            match lineage {
                Some(l) => {
                    page.say_in(
                        Tone::Gray(180),
                        Style::Fine,
                        Text::of("Lineage: ").with(l.root.as_str()).with(" (gen ").number(
                            l.generation as u64,
                        ).with(")").done(),
                    );
                    page.say_in(
                        Tone::Gray(180),
                        Style::Fine,
                        Text::of("Founder: ").with(l.founder.as_str()).with(" • Style: ").with(
                            l.style.as_str(),
                        ).done(),
                    );
                },
                None => {
                    page.note_in(Tone::Gray(180), Style::Fine, "Lineage: —");
                    page.note_in(Tone::Gray(180), Style::Fine, "Founder: —");
                },
            }
        },
    }
}

/// Shows who a person is, at tick `now` with `day` ticks to a day.
pub fn show_identity(page: &mut Page<InspectorActionKind>, i: &Identity, now: u64, day: u32)
    requires
        day > 0,
    ensures
        final(page).shown() == identity_rows(old(page).shown(), *i, now, day),
{
    page.section(Tone::Plain, true, "Identity");
    page.place(Widget::Begin);
    page.say(
        Text::of("Mood: ").with(i.mood_name.as_str()).with(" (").signed(i.mood as i64).with(
            ")",
        ).done(),
    );
    page.place(Widget::Rule);
    page.note(i.sex.as_str());
    page.place(Widget::End);
    page.say(Text::of("Personality: ").with(i.personality.as_str()).done());
    show_profession(page, i, day);
    match i.master {
        Some(e) => page.say_in(
            Tone::Gray(170),
            Style::Small,
            Text::of("  Master: #").number(e.index()).done(),
        ),
        None => {},
    }
    page.place(Widget::Begin);
    page.say(Text::of("Goal: ").with(i.goal.as_str()).done());
    let t = Text::of(" (");
    let t = match &i.reason {
        Some(r) => t.with(r.as_str()),
        None => t.with("—"),
    };
    page.say_in(Tone::Gray(160), Style::Small, t.with(")").done());
    page.place(Widget::End);
    match i.injury {
        Some(j) => show_injury(page, j, now, day),
        None => {},
    }
    match &i.claim {
        Some(c) => show_claim(page, c, &i.postings),
        None => {},
    }
    show_belonging(page, &i.belonging);
    page.place(Widget::EndSection);
}

/// A limb and how whole it is.
#[derive(Debug)]
pub struct Limb {
    pub name: String,
    pub current: u8,
    pub max: u8,
}

/// How whole a person is.
#[derive(Debug)]
pub enum Wholeness {
    Unknown,
    Points { current: u32, max: u32 },
    /// The fraction as it is to be read, and each limb.
    Limbs { fraction: String, limbs: Vec<Limb> },
}

/// The rows on the first `n` limbs.
pub open spec fn limb_rows(p: PersonRows, limbs: Seq<Limb>, n: int) -> PersonRows
    decreases n,
{
    if n <= 0 {
        p
    } else {
        let l = limbs[n - 1];
        limb_rows(p, limbs, n - 1).push(mark(Widget::Begin)).push(
            line(padded(l.name@, 10)),
        ).push(
            mark(Widget::Bar(Fill::GreenWhenFull, l.current as u32, l.max as u32)),
        ).push(line(digits(l.current as nat) + "/"@ + digits(l.max as nat))).push(
            mark(Widget::End),
        )
    }
}

/// The part of the page on health.
pub open spec fn health_rows(p: PersonRows, w: Wholeness) -> PersonRows {
    let p = p.push((Widget::Section(Tone::Plain, true), "Health"@, None));
    let p = match w {
        Wholeness::Unknown => p,
        Wholeness::Points { current, max } => p.push(mark(Widget::Begin)).push(
            line(padded("Health"@, 8)),
        ).push(mark(Widget::Bar(Fill::GreenWhenFull, current, max))).push(
            line(digits(current as nat) + "/"@ + digits(max as nat)),
        ).push(mark(Widget::End)),
        Wholeness::Limbs { fraction, limbs } => limb_rows(
            p.push(mark(Widget::Begin)).push(line(padded("Body Health"@, 8))).push(
                (Widget::Meter(Fill::GreenWhenFull), fraction@, None),
            ).push(mark(Widget::End)).push((Widget::Section(Tone::Plain, false), "Limbs"@, None)),
            limbs@,
            limbs@.len() as int,
        ).push(mark(Widget::EndSection)),
    };
    p.push(mark(Widget::EndSection))
}

/// Shows how whole a person is.
pub fn show_health(page: &mut Page<InspectorActionKind>, w: &Wholeness)
    ensures
        final(page).shown() == health_rows(old(page).shown(), *w),
{
    page.section(Tone::Plain, true, "Health");
    match w {
        Wholeness::Unknown => {},
        Wholeness::Points { current, max } => {
            page.place(Widget::Begin);
            page.say(Text::blank().pad("Health", 8).done());
            page.place(Widget::Bar(Fill::GreenWhenFull, *current, *max));
            page.say(Text::blank().number(*current as u64).with("/").number(*max as u64).done());
            page.place(Widget::End);
        },
        Wholeness::Limbs { fraction, limbs } => {
            page.place(Widget::Begin);
            page.say(Text::blank().pad("Body Health", 8).done());
            page.put(Widget::Meter(Fill::GreenWhenFull), fraction.as_str().to_owned(), None);
            page.place(Widget::End);
            page.section(Tone::Plain, false, "Limbs");
            let ghost start = page.shown();
            let mut i: usize = 0;
            while i < limbs.len()
                invariant
                    i <= limbs.len(),
                    page.shown() == limb_rows(start, limbs@, i as int),
                decreases limbs.len() - i,
            {
                let l = &limbs[i];
                page.place(Widget::Begin);
                page.say(Text::blank().pad(l.name.as_str(), 10).done());
                page.place(Widget::Bar(Fill::GreenWhenFull, l.current as u32, l.max as u32));
                page.say(Text::blank().number(l.current as u64).with("/").number(l.max as u64).done());
                page.place(Widget::End);
                i += 1;
            }
            page.place(Widget::EndSection);
        },
    }
    page.place(Widget::EndSection);
}

/// A value as it is to be read, and the fraction of the whole that it is.
#[derive(Debug)]
pub struct Gauge {
    pub value: String,
    pub fraction: String,
}

/// What a person lacks: the fuller the bar, the worse, but for willpower.
#[derive(Debug)]
pub struct NeedGauges {
    pub hunger: Gauge,
    pub thirst: Gauge,
    pub sleep: Gauge,
    pub shelter: Gauge,
    pub safety: Gauge,
    pub social: Gauge,
    pub reproduction: Gauge,
    pub willpower: Gauge,
    pub energy: Option<Energy>,
}

/// What is left of a person's strength.
#[derive(Debug)]
pub struct Energy {
    pub exhausted: bool,
    pub tired: bool,
    pub current: String,
    pub max: String,
}

/// A gauge with its name before it and its value behind it.
pub open spec fn gauge_rows(p: PersonRows, name: Seq<char>, fill: Fill, g: Gauge) -> PersonRows {
    p.push(mark(Widget::Begin)).push(line(padded(name, 8))).push(
        (Widget::Meter(fill), g.fraction@, None),
    ).push(line(g.value@)).push(mark(Widget::End))
}

/// The row on strength.
pub open spec fn energy_text(e: Energy) -> Seq<char> {
    (if e.exhausted {
        "Energy (EXHAUSTED)"@
    } else if e.tired {
        "Energy (tired)"@
    } else {
        "Energy"@
    }) + ": "@ + e.current@ + " / "@ + e.max@
}

/// The part of the page on needs.
pub open spec fn need_rows(p: PersonRows, n: NeedGauges) -> PersonRows {
    let p = p.push((Widget::Section(Tone::Plain, true), "Needs"@, None));
    let p = gauge_rows(p, "Hunger"@, Fill::RedWhenFull, n.hunger);
    let p = gauge_rows(p, "Thirst"@, Fill::RedWhenFull, n.thirst);
    let p = gauge_rows(p, "Sleep"@, Fill::RedWhenFull, n.sleep);
    let p = gauge_rows(p, "Shelter"@, Fill::RedWhenFull, n.shelter);
    let p = gauge_rows(p, "Safety"@, Fill::RedWhenFull, n.safety);
    let p = gauge_rows(p, "Social"@, Fill::RedWhenFull, n.social);
    let p = gauge_rows(p, "Repro"@, Fill::RedWhenFull, n.reproduction);
    let p = gauge_rows(p, "Willpower"@, Fill::GreenWhenFull, n.willpower);
    let p = match n.energy {
        Some(e) => p.push(line(energy_text(e))),
        None => p,
    };
    p.push(mark(Widget::EndSection))
}

fn show_gauge(page: &mut Page<InspectorActionKind>, name: &str, fill: Fill, g: &Gauge)
    ensures
        final(page).shown() == gauge_rows(old(page).shown(), name@, fill, *g),
{
    page.place(Widget::Begin);
    page.say(Text::blank().pad(name, 8).done());
    page.put(Widget::Meter(fill), g.fraction.as_str().to_owned(), None);
    page.note(g.value.as_str());
    page.place(Widget::End);
}

/// Shows what a person lacks.
pub fn show_needs(page: &mut Page<InspectorActionKind>, n: &NeedGauges)
    ensures
        final(page).shown() == need_rows(old(page).shown(), *n),
{
    page.section(Tone::Plain, true, "Needs");
    show_gauge(page, "Hunger", Fill::RedWhenFull, &n.hunger);
    show_gauge(page, "Thirst", Fill::RedWhenFull, &n.thirst);
    show_gauge(page, "Sleep", Fill::RedWhenFull, &n.sleep);
    show_gauge(page, "Shelter", Fill::RedWhenFull, &n.shelter);
    show_gauge(page, "Safety", Fill::RedWhenFull, &n.safety);
    show_gauge(page, "Social", Fill::RedWhenFull, &n.social);
    show_gauge(page, "Repro", Fill::RedWhenFull, &n.reproduction);
    show_gauge(page, "Willpower", Fill::GreenWhenFull, &n.willpower);
    match &n.energy {
        Some(e) => {
            let t = if e.exhausted {
                Text::of("Energy (EXHAUSTED)")
            } else if e.tired {
                Text::of("Energy (tired)")
            } else {
                Text::of("Energy")
            };
            page.say(
                t.with(": ").with(e.current.as_str()).with(" / ").with(e.max.as_str()).done(),
            );
        },
        None => {},
    }
    page.place(Widget::EndSection);
}

/// A skill. The best that was ever reached, and what is kept of it, may be on record.
#[derive(Debug)]
pub struct SkillLine {
    pub name: String,
    pub current: u32,
    pub peak: Option<(u32, u32)>,
}

/// The best and the least of a skill; both are what it is now where nothing is on record.
pub open spec fn skill_range(s: SkillLine) -> (u32, u32) {
    match s.peak {
        Some(r) => r,
        None => (s.current, s.current),
    }
}

/// The row on a skill, in colour where it was mastered.
pub open spec fn skill_row(s: SkillLine, mastery: u32) -> Shown<InspectorActionKind> {
    let (peak, floor) = skill_range(s);
    styled(
        if peak >= mastery {
            Tone::Rgb(180, 220, 180)
        } else {
            Tone::Plain
        },
        Style::Normal,
        "  "@ + s.name@ + ": "@ + digits(s.current as nat) + " / peak "@ + digits(peak as nat)
            + " (floor "@ + digits(floor as nat) + ")"@,
    )
}

/// The rows on the first `n` skills.
pub open spec fn skill_rows(p: PersonRows, list: Seq<SkillLine>, mastery: u32, n: int) -> PersonRows
    decreases n,
{
    if n <= 0 {
        p
    } else {
        skill_rows(p, list, mastery, n - 1).push(skill_row(list[n - 1], mastery))
    }
}

/// The part of the page on skills.
pub open spec fn skills_part(p: PersonRows, list: Seq<SkillLine>, mastery: u32) -> PersonRows {
    skill_rows(
        p.push((Widget::Section(Tone::Plain, false), "Skills"@, None)),
        list,
        mastery,
        list.len() as int,
    ).push(mark(Widget::EndSection))
}

/// Shows the skills; at `mastery` a skill counts as mastered.
pub fn show_skills(page: &mut Page<InspectorActionKind>, list: &Vec<SkillLine>, mastery: u32)
    ensures
        final(page).shown() == skills_part(old(page).shown(), list@, mastery),
{
    page.section(Tone::Plain, false, "Skills");
    let ghost start = page.shown();
    let mut i: usize = 0;
    while i < list.len()
        invariant
            i <= list.len(),
            page.shown() == skill_rows(start, list@, mastery, i as int),
        decreases list.len() - i,
    {
        let s = &list[i];
        let (peak, floor): (u32, u32) = match s.peak {
            Some(r) => r,
            None => (s.current, s.current),
        };
        let tone = if peak >= mastery {
            Tone::Rgb(180, 220, 180)
        } else {
            Tone::Plain
        };
        page.say_in(
            tone,
            Style::Normal,
            Text::of("  ").with(s.name.as_str()).with(": ").number(s.current as u64).with(
                " / peak ",
            ).number(peak as u64).with(" (floor ").number(floor as u64).with(")").done(),
        );
        i += 1;
    }
    page.place(Widget::EndSection);
}

/// A score and what it adds to a throw.
#[derive(Clone, Copy, Debug, PartialEq, Eq, Structural)]
pub struct Score {
    pub score: u8,
    pub modifier: i32,
}

/// The six scores of a person.
#[derive(Clone, Copy, Debug, PartialEq, Eq, Structural)]
pub struct Scores {
    pub strength: Score,
    pub dexterity: Score,
    pub constitution: Score,
    pub intelligence: Score,
    pub wisdom: Score,
    pub charisma: Score,
}

/// The row on a score.
pub open spec fn score_row(name: Seq<char>, s: Score) -> Shown<InspectorActionKind> {
    line("  "@ + name + ": "@ + digits(s.score as nat) + " ("@ + signed_numeral(s.modifier as int) + ")"@)
}

/// The part of the page on scores.
pub open spec fn score_rows(p: PersonRows, scores: Option<Scores>) -> PersonRows {
    let p = p.push((Widget::Section(Tone::Plain, false), "Stats"@, None));
    let p = match scores {
        Some(s) => p.push(score_row("STR"@, s.strength)).push(score_row("DEX"@, s.dexterity)).push(
            score_row("CON"@, s.constitution),
        ).push(score_row("INT"@, s.intelligence)).push(score_row("WIS"@, s.wisdom)).push(
            score_row("CHA"@, s.charisma),
        ),
        None => p.push(line("  (no stats)"@)),
    };
    p.push(mark(Widget::EndSection))
}

fn show_score(page: &mut Page<InspectorActionKind>, name: &str, s: Score)
    ensures
        final(page).shown() == old(page).shown().push(score_row(name@, s)),
{
    page.say(
        Text::of("  ").with(name).with(": ").number(s.score as u64).with(" (").plus(
            s.modifier as i64,
        ).with(")").done(),
    );
}

/// Shows the scores of a person.
pub fn show_scores(page: &mut Page<InspectorActionKind>, scores: Option<Scores>)
    ensures
        final(page).shown() == score_rows(old(page).shown(), scores),
{
    page.section(Tone::Plain, false, "Stats");
    match scores {
        Some(s) => {
            show_score(page, "STR", s.strength);
            show_score(page, "DEX", s.dexterity);
            show_score(page, "CON", s.constitution);
            show_score(page, "INT", s.intelligence);
            show_score(page, "WIS", s.wisdom);
            show_score(page, "CHA", s.charisma);
        },
        None => page.note("  (no stats)"),
    }
    page.place(Widget::EndSection);
}

/// A skill whose best was never noted is at its best and its least now; a skill once mastered keeps
/// its colour.
pub proof fn skills_are_at_their_best_now(s: SkillLine, mastery: u32)
    ensures
        s.peak is None ==> skill_range(s) == (s.current, s.current),
        s.peak matches Some(r) ==> skill_range(s) == r,
        s.peak is None && s.current >= mastery ==> skill_row(s, mastery).0 == styled::<
            InspectorActionKind,
        >(Tone::Rgb(180, 220, 180), Style::Normal, Seq::empty()).0,
        s.peak is None && s.current < mastery ==> skill_row(s, mastery).0 == styled::<
            InspectorActionKind,
        >(Tone::Plain, Style::Normal, Seq::empty()).0,
{
}

/// Who is exhausted is said to be, whether tired or not; who is tired is said to be only then.
pub proof fn exhaustion_outranks_tiredness(e: Energy)
    ensures
        e.exhausted ==> energy_text(e) == "Energy (EXHAUSTED)"@ + ": "@ + e.current@ + " / "@
            + e.max@,
        !e.exhausted && e.tired ==> energy_text(e) == "Energy (tired)"@ + ": "@ + e.current@
            + " / "@ + e.max@,
        !e.exhausted && !e.tired ==> energy_text(e) == "Energy"@ + ": "@ + e.current@ + " / "@
            + e.max@,
{
}

/// A wound is fresh for half a day after it was last hurt; its age is counted in whole days since
/// it was struck.
pub proof fn wounds_are_fresh_for_half_a_day(j: Injury, now: u64, day: u32)
    requires
        day > 0,
        now >= j.applied_tick,
        now >= j.last_damage_tick,
    ensures
        ({
            let text = injury_row(j, now, day).1;
            let days = (now - j.applied_tick) / day as int;
            let said = |word: Seq<char>|
                "Injured: severity "@ + digits(j.severity as nat) + " ("@ + word + ", "@ + digits(
                    days as nat,
                ) + " d since onset)"@;
            &&& now - j.last_damage_tick < day / 2 ==> text == said("fresh"@)
            &&& now - j.last_damage_tick >= day / 2 ==> text == said("stable"@)
        }),
{
}

/// A posting is looked up by its own number: what is found has it, and nothing is found only where
/// no posting has it.
pub proof fn postings_are_found_by_number(postings: Seq<PostingLine>, id: u32, k: int)
    requires
        0 <= k < postings.len(),
    ensures
        find(postings, has_number(id)) matches Some(p) ==> p.id == id,
        postings[k].id == id ==> find(postings, has_number(id)) is Some,
        postings[k].id == id && (forall|j: int| 0 <= j < k ==> (#[trigger] postings[j]).id != id)
            ==> find(postings, has_number(id)) == Some(postings[k]),
{
    let p = has_number(id);
    find_is_none(postings, p);
    if postings[k].id == id && (forall|j: int| 0 <= j < k ==> (#[trigger] postings[j]).id != id) {
        find_is_first(postings, p, k);
    }
}

} // verus!
