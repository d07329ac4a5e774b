//! The panel for looking behind the game and changing it.

use vstd::prelude::*;
use vstd::string::*;
use crate::geometry::max;
use crate::page::{hint, line, mark, styled, Page, Shown, Style, Tone, Widget};
use crate::parts::TechId;
use crate::text::{digits, hex_digits, numeral, Text};
use crate::vision::Era;

verus! {

/// The technologies that a faction knows, one bit each.
#[derive(Clone, Copy, Debug, PartialEq, Eq, Structural)]
pub struct TechMask(pub u64);

impl TechMask {
    pub open spec fn knows(self, id: TechId) -> bool {
        self.0 & (1u64 << id) != 0
    }

    pub fn has(self, id: TechId) -> (b: bool)
        requires
            id < 64,
        ensures
            b == self.knows(id),
    {
        self.0 & (1u64 << id) != 0
    }

    /// Learns a technology; the others stay as they were.
    pub fn unlock(&mut self, id: TechId)
        requires
            id < 64,
        ensures
            forall|k: TechId| k < 64 ==> #[trigger] final(self).knows(k) == (k == id || old(self).knows(k)),
    {
        let ghost m = self.0;
        self.0 = self.0 | (1u64 << id);
        let ghost n = self.0;
        assert forall|k: TechId| k < 64 implies #[trigger] self.knows(k) == (k == id || old(self).knows(k)) by {
            assert((n & (1u64 << k) != 0) == (k == id || (m & (1u64 << k) != 0))) by (bit_vector)
                requires
                    n == m | (1u64 << id),
                    k < 64,
                    id < 64,
            ;
        }
    }

    /// Forgets a technology; the others stay as they were.
    pub fn lock(&mut self, id: TechId)
        requires
            id < 64,
        ensures
            forall|k: TechId| k < 64 ==> #[trigger] final(self).knows(k) == (k != id && old(self).knows(k)),
    {
        let ghost m = self.0;
        self.0 = self.0 & !(1u64 << id);
        let ghost n = self.0;
        assert forall|k: TechId| k < 64 implies #[trigger] self.knows(k) == (k != id && old(self).knows(k)) by {
            assert((n & (1u64 << k) != 0) == (k != id && (m & (1u64 << k) != 0))) by (bit_vector)
                requires
                    n == m & !(1u64 << id),
                    k < 64,
                    id < 64,
            ;
        }
    }

    /// Learns the first `n` technologies.
    pub fn unlock_all(&mut self, n: TechId)
        requires
            n <= 64,
        ensures
            forall|k: TechId| k < 64 ==> #[trigger] final(self).knows(k) == (k < n || old(self).knows(k)),
    {
        let mut i: TechId = 0;
        while i < n
            invariant
                i <= n <= 64,
                forall|k: TechId| k < 64 ==> #[trigger] self.knows(k) == (k < i || old(self).knows(k)),
            decreases n - i,
        {
            self.unlock(i);
            i += 1;
        }
    }

    /// Forgets everything.
    pub fn lock_all(&mut self)
        ensures
            forall|k: TechId| k < 64 ==> !#[trigger] final(self).knows(k),
    {
        self.0 = 0;
        assert forall|k: TechId| k < 64 implies !#[trigger] self.knows(k) by {
            assert(0u64 & (1u64 << k) == 0) by (bit_vector);
        }
    }
}

/// A need that can be set.
#[derive(Clone, Copy, Debug, PartialEq, Eq, Structural)]
pub enum NeedKind {
    Hunger,
    Sleep,
    Shelter,
    Safety,
    Social,
    Reproduction,
}

/// Something that can be shown or not, done or not.
#[derive(Clone, Copy, Debug, PartialEq, Eq, Structural)]
pub enum DebugFlag {
    SelectedPath,
    FlowFields,
    ChunkGraph,
    RecentFailures,
    Components,
    SelectedFailures,
    VerboseLogs,
    WorkerPaused,
    ZoneOverlay,
    AllFactions,
}

/// What the panel asks for.
#[derive(Clone, Copy, Debug, PartialEq, Eq, Structural)]
pub enum DebugAction {
    UnlockAll,
    LockAll,
    Lock(TechId),
    Unlock(TechId),
    FillNeeds,
    DrainNeeds,
    SetNeed(NeedKind),
    SetSkill(usize),
    PickGood(usize),
    SetQty,
    Give,
    SetCurrency,
    GiveCurrency,
    Toggle(DebugFlag),
    ClearFailures,
}

/// The page of the panel.
pub type DebugRows = Seq<Shown<DebugAction>>;

/// What the panel remembers.
#[derive(Debug)]
pub struct DebugPanelState {
    pub open: bool,
    pub give_good_idx: usize,
    pub give_qty: u32,
    /// The amount of currency, as it is to be read.
    pub give_currency: String,
}

impl DebugPanelState {
    pub fn new() -> (s: DebugPanelState)
        ensures
            !s.open,
            s.give_good_idx == 0,
            s.give_qty == 10,
            s.give_currency@ == "100"@,
    {
        DebugPanelState {
            open: false,
            give_good_idx: 0,
            give_qty: 10,
            give_currency: "100".to_owned(),
        }
    }
}

/// Counts of how the game decides.
#[derive(Debug)]
pub struct DecisionCounts {
    pub interrupts: u64,
    pub last_interrupt: u64,
    pub goal_evaluations: u64,
    pub scorer_evaluations: u64,
    pub average_queue: String,
    pub lod_full: u64,
    pub lod_aggregate: u64,
    pub lod_dormant: u64,
    pub cohorts: u64,
    pub opportunities: u64,
}

/// A technology of the tree.
#[derive(Debug)]
pub struct TreeTech {
    pub id: TechId,
    pub name: String,
    pub era: Era,
}

/// A faction, as far as the panel shows it.
#[derive(Debug)]
pub struct FactionDebug {
    pub techs: TechMask,
    pub members: u32,
    pub mobile: bool,
    pub home_tile: (i32, i32),
    pub lifestyle: String,
    pub last_migration_tick: u64,
    pub pending_migration: Option<(i32, i32)>,
    pub recent_camps: u64,
    pub collapse_streak: u32,
    pub under_raid: bool,
    pub raid_target: Option<u32>,
    /// How often each kind of activity was done.
    pub activities: Vec<u32>,
    pub style: String,
    pub seed: u32,
    pub density: u8,
    pub defensive: u8,
    pub ceremonial: u8,
    pub mercantile: u8,
    pub martial: u8,
    pub founder: String,
    pub root: String,
    pub generation: u32,
}

/// The selected person, as far as the panel can change them.
#[derive(Debug)]
pub enum AgentDebug {
    Unselected,
    NoData,
    Agent {
        hunger: String,
        sleep: String,
        shelter: String,
        safety: String,
        social: String,
        reproduction: String,
        skills: Vec<u32>,
        currency: String,
    },
}

/// The rows on decisions.
pub open spec fn decision_rows(p: DebugRows, d: DecisionCounts, now: u64) -> DebugRows {
    let last = if d.interrupts == 0 {
        "never"@
    } else {
        digits(max(now - d.last_interrupt, 0) as nat) + " ticks ago (tick "@ + digits(
            d.last_interrupt as nat,
        ) + ")"@
    };
    p.push(
        styled(
            Tone::Gray(150),
            Style::Small,
            "Opportunistic interrupts: "@ + digits(d.interrupts as nat) + " total · last "@ + last,
        ),
    ).push(
        styled(
            Tone::Gray(150),
            Style::Small,
            "Decisions: "@ + digits(d.goal_evaluations as nat) + " goal evals · "@ + digits(
                d.scorer_evaluations as nat,
            ) + " scorer evals · avg queue "@ + d.average_queue@,
        ),
    ).push(
        styled(
            Tone::Gray(150),
            Style::Small,
            "LOD: "@ + digits(d.lod_full as nat) + " full · "@ + digits(d.lod_aggregate as nat)
                + " aggregate · "@ + digits(d.lod_dormant as nat) + " dormant · "@ + digits(
                d.cohorts as nat,
            ) + " cohorts · "@ + digits(d.opportunities as nat) + " opportunities"@,
        ),
    ).push(mark(Widget::Rule))
}

/// The row that says that there is no faction.
pub open spec fn no_faction() -> Shown<DebugAction> {
    styled(Tone::Gray(160), Style::Normal, "No faction yet."@)
}

/// The ages in their order.
pub open spec fn era_at(k: int) -> Era {
    if k == 0 {
        Era::Paleolithic
    } else if k == 1 {
        Era::Mesolithic
    } else if k == 2 {
        Era::Neolithic
    } else if k == 3 {
        Era::Chalcolithic
    } else {
        Era::BronzeAge
    }
}

/// The rows on a technology.
pub open spec fn tech_rows(p: DebugRows, t: TreeTech, known: bool) -> DebugRows {
    let tone = if known {
        Tone::Rgb(80, 210, 100)
    } else {
        Tone::Gray(130)
    };
    p.push(mark(Widget::Begin)).push(
        styled(
            tone,
            Style::Points(13),
            if known {
                "✓"@
            } else {
                "○"@
            },
        ),
    ).push(styled(tone, Style::Points(13), t.name@)).push(
        if known {
            (Widget::SmallButton, "Lock"@, Some(DebugAction::Lock(t.id)))
        } else {
            (Widget::SmallButton, "Unlock"@, Some(DebugAction::Unlock(t.id)))
        },
    ).push(mark(Widget::End))
}

/// The rows on the technologies of an age among the first `n`.
pub open spec fn era_rows(
    p: DebugRows,
    tree: Seq<TreeTech>,
    era: Era,
    techs: TechMask,
    n: int,
) -> DebugRows
    decreases n,
{
    if n <= 0 {
        p
    } else {
        let q = era_rows(p, tree, era, techs, n - 1);
        if tree[n - 1].era == era {
            tech_rows(q, tree[n - 1], techs.knows(tree[n - 1].id))
        } else {
            q
        }
    }
}

/// The rows on the first `k` ages.
pub open spec fn ages_rows(
    p: DebugRows,
    tree: Seq<TreeTech>,
    names: Seq<String>,
    techs: TechMask,
    k: int,
) -> DebugRows
    decreases k,
{
    if k <= 0 {
        p
    } else {
        era_rows(
            ages_rows(p, tree, names, techs, k - 1).push(
                (
                    Widget::Section(Tone::Rgb(200, 180, 120), false),
                    names[k - 1]@,
                    None,
                ),
            ),
            tree,
            era_at(k - 1),
            techs,
            tree.len() as int,
        ).push(mark(Widget::EndSection))
    }
}

/// The part on technology.
pub open spec fn technology_rows(
    p: DebugRows,
    fid: u32,
    f: Option<&FactionDebug>,
    tree: Seq<TreeTech>,
    names: Seq<String>,
) -> DebugRows {
    let p = p.push((Widget::Section(Tone::Rgb(200, 160, 255), true), "Technology"@, None));
    let p = if fid == 0 {
        p.push(no_faction())
    } else {
        match f {
            Some(f) => ages_rows(
                p.push(mark(Widget::Begin)).push(
                    (Widget::Button(Tone::Plain), "Unlock All"@, Some(DebugAction::UnlockAll)),
                ).push(
                    (Widget::Button(Tone::Plain), "Lock All"@, Some(DebugAction::LockAll)),
                ).push(mark(Widget::End)),
                tree,
                names,
                f.techs,
                5,
            ),
            None => p,
        }
    };
    p.push(mark(Widget::EndSection))
}

/// A need that can be slid.
pub open spec fn need_slider(
    p: DebugRows,
    name: Seq<char>,
    value: Seq<char>,
    need: NeedKind,
) -> DebugRows {
    p.push(mark(Widget::Begin)).push(line(name)).push(
        (Widget::Slider(0, 255), value, Some(DebugAction::SetNeed(need))),
    ).push(mark(Widget::End))
}

/// The name of a skill.
pub open spec fn skill_name(i: int) -> Seq<char> {
    if i == 0 {
        "Farming"@
    } else if i == 1 {
        "Mining"@
    } else if i == 2 {
        "Building"@
    } else if i == 3 {
        "Trading"@
    } else if i == 4 {
        "Combat"@
    } else if i == 5 {
        "Crafting"@
    } else if i == 6 {
        "Social"@
    } else {
        "Medicine"@
    }
}

/// How many skills there are.
pub const SKILL_COUNT: usize = 8;

/// The rows on the first `n` skills.
pub open spec fn skill_sliders(p: DebugRows, skills: Seq<u32>, n: int) -> DebugRows
    decreases n,
{
    if n <= 0 {
        p
    } else {
        skill_sliders(p, skills, n - 1).push(mark(Widget::Begin)).push(line(skill_name(n - 1))).push(
            (
                Widget::Slider(0, 10000),
                digits(skills[n - 1] as nat),
                Some(DebugAction::SetSkill((n - 1) as usize)),
            ),
        ).push(mark(Widget::End))
    }
}

/// The choices among the first `n` goods.
pub open spec fn good_rows(p: DebugRows, goods: Seq<String>, picked: usize, n: int) -> DebugRows
    decreases n,
{
    if n <= 0 {
        p
    } else {
        good_rows(p, goods, picked, n - 1).push(
            (
                Widget::Choice(picked == n - 1),
                goods[n - 1]@,
                Some(DebugAction::PickGood((n - 1) as usize)),
            ),
        )
    }
}

/// The good that is picked: the first one where the choice no longer exists.
pub open spec fn picked_good(idx: usize, goods: Seq<String>) -> usize {
    if idx >= goods.len() {
        0
    } else {
        idx
    }
}

/// The part on the selected person.
pub open spec fn agent_rows(
    p: DebugRows,
    a: AgentDebug,
    goods: Seq<String>,
    s: DebugPanelState,
) -> DebugRows {
    let p = p.push((Widget::Section(Tone::Rgb(100, 200, 255), true), "Selected Agent"@, None));
    let p = match a {
        AgentDebug::Unselected => p.push(
            styled(Tone::Gray(160), Style::Normal, "No agent selected."@),
        ),
        AgentDebug::NoData => p.push(
            styled(Tone::Gray(160), Style::Normal, "Selected entity has no agent data."@),
        ),
        AgentDebug::Agent {
            hunger,
            sleep,
            shelter,
            safety,
            social,
            reproduction,
            skills,
            currency,
        } => {
            let p = p.push(styled(Tone::Plain, Style::Strong, "Needs"@)).push(
                mark(Widget::Begin),
            ).push((Widget::Button(Tone::Plain), "Fill All"@, Some(DebugAction::FillNeeds))).push(
                hint("Set all to 0 (fully satisfied)"@),
            ).push(
                (Widget::Button(Tone::Plain), "Drain All"@, Some(DebugAction::DrainNeeds)),
            ).push(hint("Set all to 255 (critical)"@)).push(mark(Widget::End));
            let p = need_slider(p, "Hunger"@, hunger@, NeedKind::Hunger);
            let p = need_slider(p, "Sleep"@, sleep@, NeedKind::Sleep);
            let p = need_slider(p, "Shelter"@, shelter@, NeedKind::Shelter);
            let p = need_slider(p, "Safety"@, safety@, NeedKind::Safety);
            let p = need_slider(p, "Social"@, social@, NeedKind::Social);
            let p = need_slider(p, "Repro"@, reproduction@, NeedKind::Reproduction);
            let p = skill_sliders(
                p.push(styled(Tone::Plain, Style::Strong, "Skills (XP)"@)),
                skills@,
                SKILL_COUNT as int,
            );
            let picked = picked_good(s.give_good_idx, goods);
            let p = p.push(styled(Tone::Plain, Style::Strong, "Give Item"@)).push(
                mark(Widget::Begin),
            ).push((Widget::Pick, goods[picked as int]@, None));
            let p = good_rows(p, goods, picked, goods.len() as int).push(mark(Widget::End)).push(
                (Widget::Drag(1, 9999), "×"@ + digits(s.give_qty as nat), Some(DebugAction::SetQty)),
            ).push((Widget::Button(Tone::Plain), "Give"@, Some(DebugAction::Give))).push(
                mark(Widget::End),
            );
            p.push(styled(Tone::Plain, Style::Strong, "Currency"@)).push(mark(Widget::Begin)).push(
                (
                    Widget::Drag(1, 99999),
                    "$"@ + s.give_currency@,
                    Some(DebugAction::SetCurrency),
                ),
            ).push(
                (
                    Widget::Button(Tone::Plain),
                    "Give Currency"@,
                    Some(DebugAction::GiveCurrency),
                ),
            ).push(
                styled(Tone::Gray(160), Style::Fine, "(have: $"@ + currency@ + ")"@),
            ).push(mark(Widget::End))
        },
    };
    p.push(mark(Widget::EndSection))
}

/// How many kinds of activity there are.
pub const ACTIVITY_COUNT: usize = 13;

/// The name of a kind of activity.
pub open spec fn activity_name(i: int) -> Seq<char> {
    if i == 0 {
        "Foraging"@
    } else if i == 1 {
        "Farming"@
    } else if i == 2 {
        "Wood Gathering"@
    } else if i == 3 {
        "Stone Mining"@
    } else if i == 4 {
        "Coal Mining"@
    } else if i == 5 {
        "Iron Mining"@
    } else if i == 6 {
        "Combat"@
    } else if i == 7 {
        "Socializing"@
    } else if i == 8 {
        "Trading"@
    } else if i == 9 {
        "Copper Mining"@
    } else if i == 10 {
        "Tin Mining"@
    } else if i == 11 {
        "Gold Mining"@
    } else {
        "Silver Mining"@
    }
}

/// The rows on the first `n` kinds of activity.
pub open spec fn activity_rows(p: DebugRows, counts: Seq<u32>, n: int) -> DebugRows
    decreases n,
{
    if n <= 0 {
        p
    } else {
        let c = counts[n - 1];
        activity_rows(p, counts, n - 1).push(mark(Widget::Begin)).push(
            line(activity_name(n - 1)),
        ).push(
            styled(
                if c > 0 {
                    Tone::Rgb(100, 220, 100)
                } else {
                    Tone::Gray(120)
                },
                Style::Normal,
                digits(c as nat),
            ),
        ).push(mark(Widget::End))
    }
}

/// The rows on how a faction lives: a wandering one on its migrations, a settled one on its
/// decline.
pub open spec fn lifestyle_rows(p: DebugRows, f: FactionDebug) -> DebugRows {
    if f.mobile {
        let p = if f.last_migration_tick > 0 {
            p.push(line("Last migration: tick "@ + digits(f.last_migration_tick as nat)))
        } else {
            p
        };
        let p = match f.pending_migration {
            Some(t) => p.push(
                styled(
                    Tone::Rgb(255, 200, 80),
                    Style::Normal,
                    "⇒ Migrating to ("@ + numeral(t.0 as int) + ", "@ + numeral(t.1 as int)
                        + ")"@,
                ),
            ),
            None => p,
        };
        if f.recent_camps > 0 {
            p.push(line("Recent camps: "@ + digits(f.recent_camps as nat)))
        } else {
            p
        }
    } else if f.collapse_streak > 0 {
        p.push(
            styled(
                Tone::Rgb(255, 150, 50),
                Style::Normal,
                "⚠ Collapse streak: "@ + digits(f.collapse_streak as nat) + " ticks"@,
            ),
        )
    } else {
        p
    }
}

/// The part on the state of a faction.
pub open spec fn status_rows(p: DebugRows, fid: u32, f: Option<&FactionDebug>) -> DebugRows {
    let p = p.push((Widget::Section(Tone::Rgb(255, 200, 80), true), "Faction Status"@, None));
    let p = if fid == 0 {
        p.push(no_faction())
    } else {
        match f {
            Some(f) => {
                let p = p.push(line("Members: "@ + digits(f.members as nat))).push(
                    line(
                        (if f.mobile {
                            "Camp tile"@
                        } else {
                            "Home tile"@
                        }) + ": ("@ + numeral(f.home_tile.0 as int) + ", "@ + numeral(
                            f.home_tile.1 as int,
                        ) + ")"@,
                    ),
                ).push(line("Lifestyle: "@ + f.lifestyle@));
                let p = lifestyle_rows(p, *f);
                let p = if f.under_raid {
                    p.push(styled(Tone::Rgb(255, 0, 0), Style::Normal, "⚠ Under Raid!"@))
                } else {
                    p
                };
                let p = match f.raid_target {
                    Some(t) => p.push(
                        styled(
                            Tone::Rgb(255, 150, 50),
                            Style::Normal,
                            "Raiding faction #"@ + digits(t as nat),
                        ),
                    ),
                    None => p,
                };
                activity_rows(
                    p.push(
                        styled(
                            Tone::Gray(180),
                            Style::Points(12),
                            "Activity Log (tech discovery progress):"@,
                        ),
                    ),
                    f.activities@,
                    ACTIVITY_COUNT as int,
                )
            },
            None => p,
        }
    };
    p.push(mark(Widget::EndSection))
}

/// The row on a trait of a culture, out of 255 and in percent.
pub open spec fn trait_rows(p: DebugRows, name: Seq<char>, value: u8) -> DebugRows {
    p.push(mark(Widget::Begin)).push(line(name)).push(
        styled(
            if value >= 180 {
                Tone::Rgb(255, 140, 80)
            } else if value >= 120 {
                Tone::Rgb(220, 200, 100)
            } else {
                Tone::Gray(140)
            },
            Style::Normal,
            digits(value as nat) + " ("@ + digits((value as nat * 100) / 255) + "%)"@,
        ),
    ).push(mark(Widget::End))
}

/// The parts on culture and lineage.
pub open spec fn culture_rows(p: DebugRows, f: Option<&FactionDebug>) -> DebugRows {
    let p = p.push((Widget::Section(Tone::Rgb(255, 140, 200), true), "Culture"@, None));
    let p = match f {
        Some(f) => {
            let p = p.push(
                styled(Tone::Rgb(255, 220, 180), Style::Strong, "Style: "@ + f.style@),
            ).push(
                styled(
                    Tone::Gray(140),
                    Style::Fine,
                    "Seed: 0x"@ + hex_digits(f.seed as nat, 8),
                ),
            );
            let p = trait_rows(p, "Density"@, f.density);
            let p = trait_rows(p, "Defensive"@, f.defensive);
            let p = trait_rows(p, "Ceremonial"@, f.ceremonial);
            let p = trait_rows(p, "Mercantile"@, f.mercantile);
            trait_rows(p, "Martial"@, f.martial)
        },
        None => p.push(no_faction()),
    };
    let p = p.push(mark(Widget::EndSection)).push(
        (Widget::Section(Tone::Rgb(180, 220, 255), false), "Lineage"@, None),
    );
    let p = match f {
        Some(f) => p.push(line("Founder: "@ + f.founder@)).push(line("Root: "@ + f.root@)).push(
            line("Generation: "@ + digits(f.generation as nat)),
        ),
        None => p,
    };
    p.push(mark(Widget::EndSection))
}

fn show_decisions(page: &mut Page<DebugAction>, d: &DecisionCounts, now: u64)
    ensures
        final(page).shown() == decision_rows(old(page).shown(), *d, now),
{
    let last = if d.interrupts == 0 {
        "never".to_owned()
    } else {
        Text::blank().number(now.saturating_sub(d.last_interrupt)).with(
            " ticks ago (tick ",
        ).number(d.last_interrupt).with(")").done()
    };
    assert(d.interrupts > 0 ==> last@ =~= digits(max(now - d.last_interrupt, 0) as nat)
        + " ticks ago (tick "@ + digits(d.last_interrupt as nat) + ")"@);
    page.say_in(
        Tone::Gray(150),
        Style::Small,
        Text::of("Opportunistic interrupts: ").number(d.interrupts).with(" total · last ").with(
            last.as_str(),
        ).done(),
    );
    page.say_in(
        Tone::Gray(150),
        Style::Small,
        Text::of("Decisions: ").number(d.goal_evaluations).with(" goal evals · ").number(
            d.scorer_evaluations,
        ).with(" scorer evals · avg queue ").with(d.average_queue.as_str()).done(),
    );
    page.say_in(
        Tone::Gray(150),
        Style::Small,
        Text::of("LOD: ").number(d.lod_full).with(" full · ").number(d.lod_aggregate).with(
            " aggregate · ",
        ).number(d.lod_dormant).with(" dormant · ").number(d.cohorts).with(" cohorts · ").number(
            d.opportunities,
        ).with(" opportunities").done(),
    );
    page.place(Widget::Rule);
}

fn show_tech(page: &mut Page<DebugAction>, t: &TreeTech, known: bool)
    ensures
        final(page).shown() == tech_rows(old(page).shown(), *t, known),
{
    let (tone, icon) = if known {
        (Tone::Rgb(80, 210, 100), "✓")
    } else {
        (Tone::Gray(130), "○")
    };
    page.place(Widget::Begin);
    page.note_in(tone, Style::Points(13), icon);
    page.note_in(tone, Style::Points(13), t.name.as_str());
    if known {
        page.offer(Widget::SmallButton, "Lock", DebugAction::Lock(t.id));
    } else {
        page.offer(Widget::SmallButton, "Unlock", DebugAction::Unlock(t.id));
    }
    page.place(Widget::End);
}

/// The tree holds only technologies that a mask can hold.
pub open spec fn tree_fits(tree: Seq<TreeTech>) -> bool {
    forall|i: int| 0 <= i < tree.len() ==> (#[trigger] tree[i]).id < 64
}

fn show_era(page: &mut Page<DebugAction>, tree: &Vec<TreeTech>, era: Era, techs: TechMask)
    requires
        tree_fits(tree@),
    ensures
        final(page).shown() == era_rows(
            old(page).shown(),
            tree@,
            era,
            techs,
            tree@.len() as int,
        ),
{
    let ghost start = page.shown();
    let mut i: usize = 0;
    while i < tree.len()
        invariant
            i <= tree.len(),
            tree_fits(tree@),
            page.shown() == era_rows(start, tree@, era, techs, i as int),
        decreases tree.len() - i,
    {
        if tree[i].era == era {
            show_tech(page, &tree[i], techs.has(tree[i].id));
        }
        i += 1;
    }
}

fn show_technology(
    page: &mut Page<DebugAction>,
    fid: u32,
    f: Option<&FactionDebug>,
    tree: &Vec<TreeTech>,
    names: &Vec<String>,
)
    requires
        tree_fits(tree@),
        names@.len() == 5,
    ensures
        final(page).shown() == technology_rows(old(page).shown(), fid, f, tree@, names@),
{
    page.section(Tone::Rgb(200, 160, 255), true, "Technology");
    if fid == 0 {
        page.note_in(Tone::Gray(160), Style::Normal, "No faction yet.");
    } else {
        match f {
            Some(f) => {
                page.place(Widget::Begin);
                page.offer(Widget::Button(Tone::Plain), "Unlock All", DebugAction::UnlockAll);
                page.offer(Widget::Button(Tone::Plain), "Lock All", DebugAction::LockAll);
                page.place(Widget::End);
                let ghost start = page.shown();
                let mut k: usize = 0;
                while k < 5
                    invariant
                        k <= 5,
                        tree_fits(tree@),
                        names@.len() == 5,
                        page.shown() == ages_rows(start, tree@, names@, f.techs, k as int),
                    decreases 5 - k,
                {
                    let era = match k {
                        0 => Era::Paleolithic,
                        1 => Era::Mesolithic,
                        2 => Era::Neolithic,
                        3 => Era::Chalcolithic,
                        _ => Era::BronzeAge,
                    };
                    page.section(Tone::Rgb(200, 180, 120), false, names[k].as_str());
                    show_era(page, tree, era, f.techs);
                    page.place(Widget::EndSection);
                    k += 1;
                }
            },
            None => {},
        }
    }
    page.place(Widget::EndSection);
}

fn show_need(page: &mut Page<DebugAction>, name: &str, value: &String, need: NeedKind)
    ensures
        final(page).shown() == need_slider(old(page).shown(), name@, value@, need),
{
    page.place(Widget::Begin);
    page.note(name);
    page.offer(Widget::Slider(0, 255), value.as_str(), DebugAction::SetNeed(need));
    page.place(Widget::End);
}

fn skill_label(i: usize) -> (s: &'static str)
    ensures
        s@ == skill_name(i as int),
{
    match i {
        0 => "Farming",
        1 => "Mining",
        2 => "Building",
        3 => "Trading",
        4 => "Combat",
        5 => "Crafting",
        6 => "Social",
        _ => "Medicine",
    }
}

fn show_skill_sliders(page: &mut Page<DebugAction>, skills: &Vec<u32>)
    requires
        skills@.len() == SKILL_COUNT,
    ensures
        final(page).shown() == skill_sliders(old(page).shown(), skills@, SKILL_COUNT as int),
{
    let ghost start = page.shown();
    let mut i: usize = 0;
    while i < SKILL_COUNT
        invariant
            i <= SKILL_COUNT,
            skills@.len() == SKILL_COUNT,
            page.shown() == skill_sliders(start, skills@, i as int),
        decreases SKILL_COUNT - i,
    {
        page.place(Widget::Begin);
        page.note(skill_label(i));
        page.put(
            Widget::Slider(0, 10000),
            Text::blank().number(skills[i] as u64).done(),
            Some(DebugAction::SetSkill(i)),
        );
        page.place(Widget::End);
        i += 1;
    }
}

fn show_goods(page: &mut Page<DebugAction>, goods: &Vec<String>, picked: usize)
    ensures
        final(page).shown() == good_rows(
            old(page).shown(),
            goods@,
            picked,
            goods@.len() as int,
        ),
{
    let ghost start = page.shown();
    let mut i: usize = 0;
    while i < goods.len()
        invariant
            i <= goods.len(),
            page.shown() == good_rows(start, goods@, picked, i as int),
        decreases goods.len() - i,
    {
        page.offer(Widget::Choice(picked == i), goods[i].as_str(), DebugAction::PickGood(i));
        i += 1;
    }
}

fn show_agent(
    page: &mut Page<DebugAction>,
    a: &AgentDebug,
    goods: &Vec<String>,
    s: &DebugPanelState,
)
    requires
        a matches AgentDebug::Agent { skills, .. } ==> skills@.len() == SKILL_COUNT
            && goods@.len() > 0,
    ensures
        final(page).shown() == agent_rows(old(page).shown(), *a, goods@, *s),
{
    page.section(Tone::Rgb(100, 200, 255), true, "Selected Agent");
    match a {
        AgentDebug::Unselected => page.note_in(
            Tone::Gray(160),
            Style::Normal,
            "No agent selected.",
        ),
        AgentDebug::NoData => page.note_in(
            Tone::Gray(160),
            Style::Normal,
            "Selected entity has no agent data.",
        ),
        AgentDebug::Agent {
            hunger,
            sleep,
            shelter,
            safety,
            social,
            reproduction,
            skills,
            currency,
        } => {
            page.note_in(Tone::Plain, Style::Strong, "Needs");
            page.place(Widget::Begin);
            page.offer(Widget::Button(Tone::Plain), "Fill All", DebugAction::FillNeeds);
            page.explain("Set all to 0 (fully satisfied)");
            page.offer(Widget::Button(Tone::Plain), "Drain All", DebugAction::DrainNeeds);
            page.explain("Set all to 255 (critical)");
            page.place(Widget::End);
            show_need(page, "Hunger", hunger, NeedKind::Hunger);
            show_need(page, "Sleep", sleep, NeedKind::Sleep);
            show_need(page, "Shelter", shelter, NeedKind::Shelter);
            show_need(page, "Safety", safety, NeedKind::Safety);
            show_need(page, "Social", social, NeedKind::Social);
            show_need(page, "Repro", reproduction, NeedKind::Reproduction);
            page.note_in(Tone::Plain, Style::Strong, "Skills (XP)");
            show_skill_sliders(page, skills);
            page.note_in(Tone::Plain, Style::Strong, "Give Item");
            page.place(Widget::Begin);
            let picked: usize = if s.give_good_idx >= goods.len() {
                0
            } else {
                s.give_good_idx
            };
            page.put(Widget::Pick, goods[picked].as_str().to_owned(), None);
            show_goods(page, goods, picked);
            page.place(Widget::End);
            page.put(
                Widget::Drag(1, 9999),
                Text::of("×").number(s.give_qty as u64).done(),
                Some(DebugAction::SetQty),
            );
            page.offer(Widget::Button(Tone::Plain), "Give", DebugAction::Give);
            page.place(Widget::End);
            page.note_in(Tone::Plain, Style::Strong, "Currency");
            page.place(Widget::Begin);
            page.put(
                Widget::Drag(1, 99999),
                Text::of("$").with(s.give_currency.as_str()).done(),
                Some(DebugAction::SetCurrency),
            );
            page.offer(
                Widget::Button(Tone::Plain),
                "Give Currency",
                DebugAction::GiveCurrency,
            );
            page.say_in(
                Tone::Gray(160),
                Style::Fine,
                Text::of("(have: $").with(currency.as_str()).with(")").done(),
            );
            page.place(Widget::End);
        },
    }
    page.place(Widget::EndSection);
}

fn activity_label(i: usize) -> (s: &'static str)
    ensures
        s@ == activity_name(i as int),
{
    match i {
        0 => "Foraging",
        1 => "Farming",
        2 => "Wood Gathering",
        3 => "Stone Mining",
        4 => "Coal Mining",
        5 => "Iron Mining",
        6 => "Combat",
        7 => "Socializing",
        8 => "Trading",
        9 => "Copper Mining",
        10 => "Tin Mining",
        11 => "Gold Mining",
        _ => "Silver Mining",
    }
}

fn show_activities(page: &mut Page<DebugAction>, counts: &Vec<u32>)
    requires
        counts@.len() == ACTIVITY_COUNT,
    ensures
        final(page).shown() == activity_rows(old(page).shown(), counts@, ACTIVITY_COUNT as int),
{
    let ghost start = page.shown();
    let mut i: usize = 0;
    while i < ACTIVITY_COUNT
        invariant
            i <= ACTIVITY_COUNT,
            counts@.len() == ACTIVITY_COUNT,
            page.shown() == activity_rows(start, counts@, i as int),
        decreases ACTIVITY_COUNT - i,
    {
        let c: u32 = counts[i];
        page.place(Widget::Begin);
        page.note(activity_label(i));
        let tone = if c > 0 {
            Tone::Rgb(100, 220, 100)
        } else {
            Tone::Gray(120)
        };
        page.say_in(tone, Style::Normal, Text::blank().number(c as u64).done());
        page.place(Widget::End);
        i += 1;
    }
}

fn show_lifestyle(page: &mut Page<DebugAction>, f: &FactionDebug)
    ensures
        final(page).shown() == lifestyle_rows(old(page).shown(), *f),
{
    if f.mobile {
        if f.last_migration_tick > 0 {
            page.say(Text::of("Last migration: tick ").number(f.last_migration_tick).done());
        }
        match f.pending_migration {
            Some(t) => page.say_in(
                Tone::Rgb(255, 200, 80),
                Style::Normal,
                Text::of("⇒ Migrating to (").signed(t.0 as i64).with(", ").signed(
                    t.1 as i64,
                ).with(")").done(),
            ),
            None => {},
        }
        if f.recent_camps > 0 {
            page.say(Text::of("Recent camps: ").number(f.recent_camps).done());
        }
    } else if f.collapse_streak > 0 {
        page.say_in(
            Tone::Rgb(255, 150, 50),
            Style::Normal,
            Text::of("⚠ Collapse streak: ").number(f.collapse_streak as u64).with(" ticks").done(),
        );
    }
}

fn show_status(page: &mut Page<DebugAction>, fid: u32, f: Option<&FactionDebug>)
    requires
        f matches Some(f) ==> f.activities@.len() == ACTIVITY_COUNT,
    ensures
        final(page).shown() == status_rows(old(page).shown(), fid, f),
{
    page.section(Tone::Rgb(255, 200, 80), true, "Faction Status");
    if fid == 0 {
        page.note_in(Tone::Gray(160), Style::Normal, "No faction yet.");
    } else {
        match f {
            Some(f) => {
                page.say(Text::of("Members: ").number(f.members as u64).done());
                let t = if f.mobile {
                    Text::of("Camp tile")
                } else {
                    Text::of("Home tile")
                };
                page.say(
                    t.with(": (").signed(f.home_tile.0 as i64).with(", ").signed(
                        f.home_tile.1 as i64,
                    ).with(")").done(),
                );
                page.say(Text::of("Lifestyle: ").with(f.lifestyle.as_str()).done());
                show_lifestyle(page, f);
                if f.under_raid {
                    page.note_in(Tone::Rgb(255, 0, 0), Style::Normal, "⚠ Under Raid!");
                }
                match f.raid_target {
                    Some(t) => page.say_in(
                        Tone::Rgb(255, 150, 50),
                        Style::Normal,
                        Text::of("Raiding faction #").number(t as u64).done(),
                    ),
                    None => {},
                }
                page.note_in(
                    Tone::Gray(180),
                    Style::Points(12),
                    "Activity Log (tech discovery progress):",
                );
                show_activities(page, &f.activities);
            },
            None => {},
        }
    }
    page.place(Widget::EndSection);
}

fn show_trait(page: &mut Page<DebugAction>, name: &str, value: u8)
    ensures
        final(page).shown() == trait_rows(old(page).shown(), name@, value),
{
    page.place(Widget::Begin);
    page.note(name);
    let tone = if value >= 180 {
        Tone::Rgb(255, 140, 80)
    } else if value >= 120 {
        Tone::Rgb(220, 200, 100)
    } else {
        Tone::Gray(140)
    };
    page.say_in(
        tone,
        Style::Normal,
        Text::blank().number(value as u64).with(" (").number((value as u64 * 100) / 255).with(
            "%)",
        ).done(),
    );
    page.place(Widget::End);
}

fn show_culture(page: &mut Page<DebugAction>, f: Option<&FactionDebug>)
    ensures
        final(page).shown() == culture_rows(old(page).shown(), f),
{
    page.section(Tone::Rgb(255, 140, 200), true, "Culture");
    match f {
        Some(f) => {
            page.say_in(
                Tone::Rgb(255, 220, 180),
                Style::Strong,
                Text::of("Style: ").with(f.style.as_str()).done(),
            );
            page.say_in(
                Tone::Gray(140),
                Style::Fine,
                Text::of("Seed: 0x").hex(f.seed as u64, 8).done(),
            );
            show_trait(page, "Density", f.density);
            show_trait(page, "Defensive", f.defensive);
            show_trait(page, "Ceremonial", f.ceremonial);
            show_trait(page, "Mercantile", f.mercantile);
            show_trait(page, "Martial", f.martial);
        },
        None => page.note_in(Tone::Gray(160), Style::Normal, "No faction yet."),
    }
    page.place(Widget::EndSection);
    page.section(Tone::Rgb(180, 220, 255), false, "Lineage");
    match f {
        Some(f) => {
            page.say(Text::of("Founder: ").with(f.founder.as_str()).done());
            page.say(Text::of("Root: ").with(f.root.as_str()).done());
            page.say(Text::of("Generation: ").number(f.generation as u64).done());
        },
        None => {},
    }
    page.place(Widget::EndSection);
}

/// What the search for ways is doing.
#[derive(Debug)]
pub struct PathCounts {
    pub show_selected_path: bool,
    pub show_flow_fields: bool,
    pub show_chunk_graph: bool,
    pub show_recent_failures: bool,
    pub show_components: bool,
    pub show_selected_failures: bool,
    pub verbose_logs: bool,
    pub worker_paused: bool,
    pub hotspot_fields: u64,
    pub graph_nodes: u64,
    pub lookups: u64,
    /// The part of the lookups that found something, in percent, as it is to be read.
    pub hit_percent: String,
    pub dispatched: u64,
    pub worker_us: u64,
    pub queue_len: u64,
    pub astar_calls: u64,
    pub astar_iters: u64,
    pub astar_iters_max: u64,
    pub generation: u64,
    pub components: u64,
    pub nodes: u64,
    pub flow_hits: u64,
    pub flow_hits_total: u64,
    pub fastpath_misses: u64,
    pub stale_ids: u64,
    pub missing_follow: u64,
    pub failed_unreachable: u64,
    pub failed_connectivity: u64,
    pub failed_astar: u64,
    pub failed_budget: u64,
    pub failed_no_route: u64,
    pub cooldown_skips: u64,
    pub boundary_rejections: u64,
    pub boundary_rejections_total: u64,
    pub bad_steps: u64,
    pub drift_rejections: u64,
    pub failure_log: u64,
}

/// A box for a flag.
pub open spec fn flag_row(flag: DebugFlag, on: bool, name: Seq<char>) -> Shown<DebugAction> {
    (Widget::Check(on), name, Some(DebugAction::Toggle(flag)))
}

/// A small grey row.
pub open spec fn small_print(text: Seq<char>) -> Shown<DebugAction> {
    styled(Tone::Gray(160), Style::Fine, text)
}

/// The flags of the search for ways.
pub open spec fn path_flag_rows(p: DebugRows, c: PathCounts) -> DebugRows {
    p.push(flag_row(DebugFlag::SelectedPath, c.show_selected_path, "Selected agent path"@)).push(
        flag_row(DebugFlag::FlowFields, c.show_flow_fields, "Hotspot flow fields"@),
    ).push(flag_row(DebugFlag::ChunkGraph, c.show_chunk_graph, "Chunk graph"@)).push(
        flag_row(DebugFlag::RecentFailures, c.show_recent_failures, "Recent failures (red)"@),
    ).push(flag_row(DebugFlag::Components, c.show_components, "Connectivity components"@)).push(
        flag_row(DebugFlag::SelectedFailures, c.show_selected_failures, "Selected agent failures"@),
    ).push(mark(Widget::Rule)).push(
        flag_row(DebugFlag::VerboseLogs, c.verbose_logs, "Verbose pathfinding logs"@),
    ).push(flag_row(DebugFlag::WorkerPaused, c.worker_paused, "Pause worker"@))
}

/// The counts of the search for ways.
pub open spec fn path_count_rows(p: DebugRows, c: PathCounts) -> DebugRows {
    let p = p.push(
        small_print(
            "Hotspot fields: "@ + digits(c.hotspot_fields as nat) + "  •  Graph nodes: "@ + digits(
                c.graph_nodes as nat,
            ),
        ),
    ).push(
        small_print(
            "Hotspot lookups: "@ + digits(c.lookups as nat) + " ("@ + c.hit_percent@ + "% hit)"@,
        ),
    ).push(
        small_print(
            "Worker: "@ + digits(c.dispatched as nat) + " req/tick  •  "@ + digits(
                c.worker_us as nat,
            ) + " µs  •  queue "@ + digits(c.queue_len as nat),
        ),
    ).push(
        small_print(
            "A*: "@ + digits(c.astar_calls as nat) + " calls  •  "@ + digits(c.astar_iters as nat)
                + " iters (max single "@ + digits(c.astar_iters_max as nat) + ")"@,
        ),
    ).push(
        small_print(
            "Connectivity: gen "@ + digits(c.generation as nat) + "  •  "@ + digits(
                c.components as nat,
            ) + " components / "@ + digits(c.nodes as nat) + " nodes"@,
        ),
    );
    p.push(
        small_print(
            "Flow-field hits: "@ + digits(c.flow_hits as nat) + "/tick  •  "@ + digits(
                c.flow_hits_total as nat,
            ) + " total"@,
        ),
    ).push(
        small_print(
            "Fastpath misses: "@ + digits(c.fastpath_misses as nat) + "  •  Stale ids: "@ + digits(
                c.stale_ids as nat,
            ) + "  •  Missing follow: "@ + digits(c.missing_follow as nat),
        ),
    ).push(
        small_print(
            "Failures: unreachable "@ + digits(c.failed_unreachable as nat) + " (conn "@ + digits(
                c.failed_connectivity as nat,
            ) + " / A* "@ + digits(c.failed_astar as nat) + ")  •  budget "@ + digits(
                c.failed_budget as nat,
            ) + "  •  no-route "@ + digits(c.failed_no_route as nat),
        ),
    ).push(
        small_print(
            "Cooldown skips: "@ + digits(c.cooldown_skips as nat) + "  •  Boundary rejects: "@
                + digits(c.boundary_rejections as nat) + "/tick (total "@ + digits(
                c.boundary_rejections_total as nat,
            ) + ")"@,
        ),
    ).push(
        small_print(
            "Step-continuity: planner bad steps "@ + digits(c.bad_steps as nat)
                + "  •  agent z-drift rejects "@ + digits(c.drift_rejections as nat),
        ),
    ).push(small_print("Failure log: "@ + digits(c.failure_log as nat) + " entries"@))
}

/// The part on the search for ways.
pub open spec fn pathing_rows(p: DebugRows, c: PathCounts) -> DebugRows {
    path_count_rows(
        path_flag_rows(
            p.push((Widget::Section(Tone::Rgb(180, 180, 240), false), "Pathing Debug"@, None)),
            c,
        ),
        c,
    ).push(mark(Widget::Begin)).push(
        (
            Widget::Button(Tone::Plain),
            "Clear failure log"@,
            Some(DebugAction::ClearFailures),
        ),
    ).push(mark(Widget::End)).push(mark(Widget::EndSection))
}

/// How fast the game runs. Times are given as they are to be read.
#[derive(Debug)]
pub struct Timing {
    pub speed: String,
    /// The time that a tick may take; none while the game is paused.
    pub budget_ms: Option<String>,
    pub ticks_this_frame: u32,
    pub average_ms: String,
    pub over_budget: bool,
    pub worst_ms: String,
}

/// The part on time.
pub open spec fn timing_rows(p: DebugRows, t: Timing) -> DebugRows {
    p.push((Widget::Section(Tone::Rgb(180, 180, 240), false), "Sim Timing"@, None)).push(
        small_print(
            match t.budget_ms {
                Some(b) => "Speed: "@ + t.speed@ + "  •  budget "@ + b@ + " ms"@,
                None => "Speed: "@ + t.speed@ + "  •  budget "@ + "∞ (paused)"@,
            },
        ),
    ).push(small_print("Fixed ticks/frame: "@ + digits(t.ticks_this_frame as nat))).push(
        styled(
            if t.over_budget {
                Tone::Rgb(220, 80, 80)
            } else {
                Tone::Gray(160)
            },
            Style::Fine,
            "Avg tick: "@ + t.average_ms@ + " ms"@,
        ),
    ).push(small_print("Worst tick (60): "@ + t.worst_ms@ + " ms"@)).push(mark(Widget::EndSection))
}

/// A zone of a settlement's plan.
#[derive(Debug)]
pub struct ZoneLine {
    pub kind: String,
    pub x0: i32,
    pub y0: i32,
    pub w: u32,
    pub h: u32,
    pub filled: u32,
    pub capacity: u32,
}

/// A settlement's plan.
#[derive(Debug)]
pub struct PlanDebug {
    pub show_zones: bool,
    pub all_factions: bool,
    pub planned_at: u64,
    pub zones: Vec<ZoneLine>,
}

/// The rows on the first `n` zones.
pub open spec fn zone_rows(p: DebugRows, zones: Seq<ZoneLine>, n: int) -> DebugRows
    decreases n,
{
    if n <= 0 {
        p
    } else {
        let z = zones[n - 1];
        zone_rows(p, zones, n - 1).push(
            line(
                z.kind@ + ": ("@ + numeral(z.x0 as int) + ","@ + numeral(z.y0 as int) + ") "@
                    + digits(z.w as nat) + "×"@ + digits(z.h as nat) + "  fill "@ + digits(
                    z.filled as nat,
                ) + "/"@ + digits(z.capacity as nat),
            ),
        )
    }
}

/// The part on a settlement's plan.
pub open spec fn plan_rows(p: DebugRows, s: PlanDebug) -> DebugRows {
    let p = p.push((Widget::Section(Tone::Rgb(160, 220, 160), false), "Settlement Plan"@, None)).push(
        mark(Widget::Begin),
    ).push(flag_row(DebugFlag::ZoneOverlay, s.show_zones, "Show zone overlay"@)).push(
        flag_row(DebugFlag::AllFactions, s.all_factions, "All factions"@),
    ).push(mark(Widget::End));
    let p = if s.zones@.len() > 0 {
        zone_rows(
            p.push(
                line(
                    "Planned at tick "@ + digits(s.planned_at as nat) + " • "@ + digits(
                        s.zones@.len(),
                    ) + " zones"@,
                ),
            ),
            s.zones@,
            s.zones@.len() as int,
        )
    } else {
        p.push(small_print("(no plan yet — Phase 2 wires the planner)"@))
    };
    p.push(mark(Widget::EndSection))
}

/// A ritual that was held.
#[derive(Debug)]
pub struct RitualLine {
    pub faction: u32,
    pub season: String,
    pub uses_monument: bool,
    pub focal: (i32, i32),
    pub members: u32,
    pub pulse: u32,
}

/// The rows on the last `n` rituals, the latest first.
pub open spec fn ritual_rows(p: DebugRows, list: Seq<RitualLine>, n: int) -> DebugRows
    decreases n,
{
    if n <= 0 {
        p
    } else {
        let r = list[list.len() - n];
        ritual_rows(p, list, n - 1).push(
            line(
                "F#"@ + digits(r.faction as nat) + " "@ + r.season@ + "  "@ + (
                if r.uses_monument {
                    "Monument"@
                } else {
                    "Shrine"@
                }) + "  ("@ + numeral(r.focal.0 as int) + ","@ + numeral(r.focal.1 as int) + ")  "@
                    + digits(r.members as nat) + "m × "@ + digits(r.pulse as nat) + "p"@,
            ),
        )
    }
}

/// The part on rituals.
pub open spec fn rituals_rows(p: DebugRows, list: Seq<RitualLine>) -> DebugRows {
    let p = p.push((Widget::Section(Tone::Rgb(255, 180, 220), false), "Recent Rituals"@, None));
    let p = if list.len() == 0 {
        p.push(small_print("(none yet — fires on season transition)"@))
    } else {
        ritual_rows(p, list, list.len() as int)
    };
    p.push(mark(Widget::EndSection))
}

/// What the panel is made from.
#[derive(Debug)]
pub struct DebugSheet<'a> {
    pub now: u64,
    pub decisions: &'a DecisionCounts,
    /// The player's faction; zero while there is none.
    pub faction: u32,
    pub info: Option<&'a FactionDebug>,
    pub tree: &'a Vec<TreeTech>,
    /// The names of the five ages.
    pub era_names: &'a Vec<String>,
    pub agent: &'a AgentDebug,
    pub goods: &'a Vec<String>,
    pub paths: &'a PathCounts,
    pub timing: &'a Timing,
    pub plan: &'a PlanDebug,
    pub terraforms: u64,
    pub rituals: &'a Vec<RitualLine>,
}

/// The panel.
pub open spec fn debug_rows(d: DebugSheet, s: DebugPanelState) -> DebugRows {
    let p = decision_rows(Seq::<Shown<DebugAction>>::empty(), *d.decisions, d.now);
    let p = technology_rows(p, d.faction, d.info, d.tree@, d.era_names@);
    let p = agent_rows(p, *d.agent, d.goods@, s);
    let p = status_rows(p, d.faction, d.info);
    let p = culture_rows(p, d.info);
    let p = pathing_rows(p, *d.paths);
    let p = timing_rows(p, *d.timing);
    let p = plan_rows(p, *d.plan);
    let p = p.push(line("Pending terraforms: "@ + digits(d.terraforms as nat)));
    rituals_rows(p, d.rituals@)
}

fn show_path_flags(page: &mut Page<DebugAction>, c: &PathCounts)
    ensures
        final(page).shown() == path_flag_rows(old(page).shown(), *c),
{
    page.offer(
        Widget::Check(c.show_selected_path),
        "Selected agent path",
        DebugAction::Toggle(DebugFlag::SelectedPath),
    );
    page.offer(
        Widget::Check(c.show_flow_fields),
        "Hotspot flow fields",
        DebugAction::Toggle(DebugFlag::FlowFields),
    );
    page.offer(
        Widget::Check(c.show_chunk_graph),
        "Chunk graph",
        DebugAction::Toggle(DebugFlag::ChunkGraph),
    );
    page.offer(
        Widget::Check(c.show_recent_failures),
        "Recent failures (red)",
        DebugAction::Toggle(DebugFlag::RecentFailures),
    );
    page.offer(
        Widget::Check(c.show_components),
        "Connectivity components",
        DebugAction::Toggle(DebugFlag::Components),
    );
    page.offer(
        Widget::Check(c.show_selected_failures),
        "Selected agent failures",
        DebugAction::Toggle(DebugFlag::SelectedFailures),
    );
    page.place(Widget::Rule);
    page.offer(
        Widget::Check(c.verbose_logs),
        "Verbose pathfinding logs",
        DebugAction::Toggle(DebugFlag::VerboseLogs),
    );
    page.offer(
        Widget::Check(c.worker_paused),
        "Pause worker",
        DebugAction::Toggle(DebugFlag::WorkerPaused),
    );
}

fn show_path_counts(page: &mut Page<DebugAction>, c: &PathCounts)
    ensures
        final(page).shown() == path_count_rows(old(page).shown(), *c),
{
    let gray = Tone::Gray(160);
    page.say_in(
        gray,
        Style::Fine,
        Text::of("Hotspot fields: ").number(c.hotspot_fields).with("  •  Graph nodes: ").number(
            c.graph_nodes,
        ).done(),
    );
    page.say_in(
        gray,
        Style::Fine,
        Text::of("Hotspot lookups: ").number(c.lookups).with(" (").with(
            c.hit_percent.as_str(),
        ).with("% hit)").done(),
    );
    page.say_in(
        gray,
        Style::Fine,
        Text::of("Worker: ").number(c.dispatched).with(" req/tick  •  ").number(c.worker_us).with(
            " µs  •  queue ",
        ).number(c.queue_len).done(),
    );
    page.say_in(
        gray,
        Style::Fine,
        Text::of("A*: ").number(c.astar_calls).with(" calls  •  ").number(c.astar_iters).with(
            " iters (max single ",
        ).number(c.astar_iters_max).with(")").done(),
    );
    page.say_in(
        gray,
        Style::Fine,
        Text::of("Connectivity: gen ").number(c.generation).with("  •  ").number(
            c.components,
        ).with(" components / ").number(c.nodes).with(" nodes").done(),
    );
    page.say_in(
        gray,
        Style::Fine,
        Text::of("Flow-field hits: ").number(c.flow_hits).with("/tick  •  ").number(
            c.flow_hits_total,
        ).with(" total").done(),
    );
    page.say_in(
        gray,
        Style::Fine,
        Text::of("Fastpath misses: ").number(c.fastpath_misses).with("  •  Stale ids: ").number(
            c.stale_ids,
        ).with("  •  Missing follow: ").number(c.missing_follow).done(),
    );
    page.say_in(
        gray,
        Style::Fine,
        Text::of("Failures: unreachable ").number(c.failed_unreachable).with(" (conn ").number(
            c.failed_connectivity,
        ).with(" / A* ").number(c.failed_astar).with(")  •  budget ").number(
            c.failed_budget,
        ).with("  •  no-route ").number(c.failed_no_route).done(),
    );
    page.say_in(
        gray,
        Style::Fine,
        Text::of("Cooldown skips: ").number(c.cooldown_skips).with(
            "  •  Boundary rejects: ",
        ).number(c.boundary_rejections).with("/tick (total ").number(
            c.boundary_rejections_total,
        ).with(")").done(),
    );
    page.say_in(
        gray,
        Style::Fine,
        Text::of("Step-continuity: planner bad steps ").number(c.bad_steps).with(
            "  •  agent z-drift rejects ",
        ).number(c.drift_rejections).done(),
    );
    page.say_in(
        gray,
        Style::Fine,
        Text::of("Failure log: ").number(c.failure_log).with(" entries").done(),
    );
}

fn show_pathing(page: &mut Page<DebugAction>, c: &PathCounts)
    ensures
        final(page).shown() == pathing_rows(old(page).shown(), *c),
{
    page.section(Tone::Rgb(180, 180, 240), false, "Pathing Debug");
    show_path_flags(page, c);
    show_path_counts(page, c);
    page.place(Widget::Begin);
    page.offer(Widget::Button(Tone::Plain), "Clear failure log", DebugAction::ClearFailures);
    page.place(Widget::End);
    page.place(Widget::EndSection);
}

fn show_timing(page: &mut Page<DebugAction>, t: &Timing)
    ensures
        final(page).shown() == timing_rows(old(page).shown(), *t),
{
    page.section(Tone::Rgb(180, 180, 240), false, "Sim Timing");
    let s = Text::of("Speed: ").with(t.speed.as_str()).with("  •  budget ");
    let s = match &t.budget_ms {
        Some(b) => s.with(b.as_str()).with(" ms"),
        None => s.with("∞ (paused)"),
    };
    page.say_in(Tone::Gray(160), Style::Fine, s.done());
    page.say_in(
        Tone::Gray(160),
        Style::Fine,
        Text::of("Fixed ticks/frame: ").number(t.ticks_this_frame as u64).done(),
    );
    let tone = if t.over_budget {
        Tone::Rgb(220, 80, 80)
    } else {
        Tone::Gray(160)
    };
    page.say_in(
        tone,
        Style::Fine,
        Text::of("Avg tick: ").with(t.average_ms.as_str()).with(" ms").done(),
    );
    page.say_in(
        Tone::Gray(160),
        Style::Fine,
        Text::of("Worst tick (60): ").with(t.worst_ms.as_str()).with(" ms").done(),
    );
    page.place(Widget::EndSection);
}

fn show_plan(page: &mut Page<DebugAction>, s: &PlanDebug)
    ensures
        final(page).shown() == plan_rows(old(page).shown(), *s),
{
    page.section(Tone::Rgb(160, 220, 160), false, "Settlement Plan");
    page.place(Widget::Begin);
    page.offer(
        Widget::Check(s.show_zones),
        "Show zone overlay",
        DebugAction::Toggle(DebugFlag::ZoneOverlay),
    );
    page.offer(
        Widget::Check(s.all_factions),
        "All factions",
        DebugAction::Toggle(DebugFlag::AllFactions),
    );
    page.place(Widget::End);
    if s.zones.len() > 0 {
        page.say(
            Text::of("Planned at tick ").number(s.planned_at).with(" • ").number(
                s.zones.len() as u64,
            ).with(" zones").done(),
        );
        let ghost start = page.shown();
        let mut i: usize = 0;
        while i < s.zones.len()
            invariant
                i <= s.zones.len(),
                page.shown() == zone_rows(start, s.zones@, i as int),
            decreases s.zones.len() - i,
        {
            let z = &s.zones[i];
            page.say(
                Text::of(z.kind.as_str()).with(": (").signed(z.x0 as i64).with(",").signed(
                    z.y0 as i64,
                ).with(") ").number(z.w as u64).with("×").number(z.h as u64).with(
                    "  fill ",
                ).number(z.filled as u64).with("/").number(z.capacity as u64).done(),
            );
            i += 1;
        }
    } else {
        page.note_in(
            Tone::Gray(160),
            Style::Fine,
            "(no plan yet — Phase 2 wires the planner)",
        );
    }
    page.place(Widget::EndSection);
}

fn show_rituals(page: &mut Page<DebugAction>, list: &Vec<RitualLine>)
    ensures
        final(page).shown() == rituals_rows(old(page).shown(), list@),
{
    page.section(Tone::Rgb(255, 180, 220), false, "Recent Rituals");
    if list.len() == 0 {
        page.note_in(
            Tone::Gray(160),
            Style::Fine,
            "(none yet — fires on season transition)",
        );
    } else {
        let ghost start = page.shown();
        let mut i: usize = 0;
        while i < list.len()
            invariant
                i <= list.len(),
                page.shown() == ritual_rows(start, list@, i as int),
            decreases list.len() - i,
        {
            let r = &list[list.len() - 1 - i];
            let focal = if r.uses_monument {
                "Monument"
            } else {
                "Shrine"
            };
            page.say(
                Text::of("F#").number(r.faction as u64).with(" ").with(r.season.as_str()).with(
                    "  ",
                ).with(focal).with("  (").signed(r.focal.0 as i64).with(",").signed(
                    r.focal.1 as i64,
                ).with(")  ").number(r.members as u64).with("m × ").number(r.pulse as u64).with(
                    "p",
                ).done(),
            );
            i += 1;
        }
    }
    page.place(Widget::EndSection);
}

/// The panel, while it is open. The picked good falls back to the first where it no longer exists.
pub fn debug_panel_system(d: &DebugSheet, s: &mut DebugPanelState) -> (r: Option<Page<DebugAction>>)
    requires
        tree_fits(d.tree@),
        d.era_names@.len() == 5,
        d.info matches Some(f) ==> f.activities@.len() == ACTIVITY_COUNT,
        d.agent matches AgentDebug::Agent { skills, .. } ==> skills@.len() == SKILL_COUNT
            && d.goods@.len() > 0,
    ensures
        match r {
            Some(page) => old(s).open && page.shown() == debug_rows(*d, *old(s)),
            None => !old(s).open,
        },
        final(s).open == old(s).open,
        final(s).give_qty == old(s).give_qty,
        final(s).give_currency == old(s).give_currency,
        final(s).give_good_idx == (if old(s).open && d.agent is Agent {
            picked_good(old(s).give_good_idx, d.goods@)
        } else {
            old(s).give_good_idx
        }),
{
    if !s.open {
        return None;
    }
    let mut page: Page<DebugAction> = Page::new();
    show_decisions(&mut page, d.decisions, d.now);
    show_technology(&mut page, d.faction, d.info, d.tree, d.era_names);
    show_agent(&mut page, d.agent, d.goods, s);
    show_status(&mut page, d.faction, d.info);
    show_culture(&mut page, d.info);
    show_pathing(&mut page, d.paths);
    show_timing(&mut page, d.timing);
    show_plan(&mut page, d.plan);
    page.say(Text::of("Pending terraforms: ").number(d.terraforms).done());
    show_rituals(&mut page, d.rituals);
    match d.agent {
        AgentDebug::Agent { .. } => {
            if s.give_good_idx >= d.goods.len() {
                s.give_good_idx = 0;
            }
        },
        _ => {},
    }
    Some(page)
}

/// What becomes of the technologies and of the panel's choice when something is pressed. The
/// tree has `count` technologies.
pub fn debug_action(
    a: DebugAction,
    techs: &mut TechMask,
    s: &mut DebugPanelState,
    count: TechId,
)
    requires
        count <= 64,
        a matches DebugAction::Lock(id) ==> id < 64,
        a matches DebugAction::Unlock(id) ==> id < 64,
    ensures
        forall|k: TechId|
            k < 64 ==> #[trigger] final(techs).knows(k) == (match a {
                DebugAction::UnlockAll => k < count || old(techs).knows(k),
                DebugAction::LockAll => false,
                DebugAction::Lock(id) => k != id && old(techs).knows(k),
                DebugAction::Unlock(id) => k == id || old(techs).knows(k),
                _ => old(techs).knows(k),
            }),
        final(s).give_good_idx == (match a {
            DebugAction::PickGood(i) => i,
            _ => old(s).give_good_idx,
        }),
        final(s).open == old(s).open,
        final(s).give_qty == old(s).give_qty,
        final(s).give_currency == old(s).give_currency,
{
    match a {
        DebugAction::UnlockAll => techs.unlock_all(count),
        DebugAction::LockAll => techs.lock_all(),
        DebugAction::Lock(id) => techs.lock(id),
        DebugAction::Unlock(id) => techs.unlock(id),
        DebugAction::PickGood(i) => {
            s.give_good_idx = i;
        },
        _ => {},
    }
}

/// What a faction knows can be forgotten, and what it does not know can be learned; a technology is
/// shown under its own age only, by its name.
pub proof fn the_known_can_be_forgotten(
    p: DebugRows,
    tree: Seq<TreeTech>,
    era: Era,
    techs: TechMask,
    n: int,
)
    requires
        0 <= n < tree.len(),
    ensures
        ({
            let before = era_rows(p, tree, era, techs, n);
            let after = era_rows(p, tree, era, techs, n + 1);
            let k = before.len() as int;
            &&& tree[n].era != era ==> after == before
            &&& tree[n].era == era ==> after.len() == k + 5 && after.take(k) =~= before && after[k
                + 2].1 == tree[n].name@
            &&& tree[n].era == era && techs.knows(tree[n].id) ==> after[k + 3].2 == Some(
                DebugAction::Lock(tree[n].id),
            )
            &&& tree[n].era == era && !techs.knows(tree[n].id) ==> after[k + 3].2 == Some(
                DebugAction::Unlock(tree[n].id),
            )
        }),
{
}

/// Each skill has its own slider, which shows what the skill is at and sets that skill.
pub proof fn sliders_set_their_own_skill(p: DebugRows, skills: Seq<u32>, n: int, k: int)
    requires
        0 <= k < n <= 8,
    ensures
        skill_sliders(p, skills, n).len() == p.len() + 4 * n,
        ({
            let row = skill_sliders(p, skills, n)[p.len() + 4 * k + 2];
            row.1 == digits(skills[k] as nat) && row.2 == Some(DebugAction::SetSkill(k as usize))
        }),
        skill_sliders(p, skills, n)[p.len() + 4 * k + 1].1 == skill_name(k),
    decreases n,
{
    assert(skill_sliders(p, skills, 0) == p);
    if k < n - 1 {
        sliders_set_their_own_skill(p, skills, n - 1, k);
    } else if n > 1 {
        sliders_set_their_own_skill(p, skills, n - 1, 0);
    }
}

/// Every good can be picked by its name, and the one that is picked is marked; a pick beyond the
/// list falls back to the first good.
pub proof fn goods_are_picked_by_name(
    p: DebugRows,
    goods: Seq<String>,
    picked: usize,
    n: int,
    k: int,
)
    requires
        0 <= k < n <= goods.len(),
        n <= usize::MAX,
    ensures
        good_rows(p, goods, picked, n).len() == p.len() + n,
        ({
            let row = good_rows(p, goods, picked, n)[p.len() + k];
            &&& row.0 == Widget::Choice(picked == k)
            &&& row.1 == goods[k]@
            &&& row.2 == Some(DebugAction::PickGood(k as usize))
        }),
        picked < goods.len() ==> picked_good(picked, goods) == picked,
        picked >= goods.len() ==> picked_good(picked, goods) == 0,
    decreases n,
{
    assert(good_rows(p, goods, picked, 0) == p);
    if k < n - 1 {
        goods_are_picked_by_name(p, goods, picked, n - 1, k);
    } else if n > 1 {
        goods_are_picked_by_name(p, goods, picked, n - 1, 0);
    }
}

/// A settled faction in no trouble has nothing told of its way of life, one whose settlement fails
/// has how long it has done so; a faction on the move is told where it goes, and never of collapse.
pub proof fn ways_of_life_are_told_apart(p: DebugRows, f: FactionDebug)
    ensures
        !f.mobile && f.collapse_streak == 0 ==> lifestyle_rows(p, f) == p,
        !f.mobile && f.collapse_streak > 0 ==> lifestyle_rows(p, f).len() == p.len() + 1
            && lifestyle_rows(p, f).last().1 == "⚠ Collapse streak: "@ + digits(
            f.collapse_streak as nat,
        ) + " ticks"@,
        f.mobile ==> lifestyle_rows(p, f).len() == p.len() + (if f.last_migration_tick > 0 {
            1int
        } else {
            0
        }) + (if f.pending_migration is Some {
            1int
        } else {
            0
        }) + (if f.recent_camps > 0 {
            1int
        } else {
            0
        }),
        f.mobile && f.recent_camps > 0 ==> lifestyle_rows(p, f).last().1 == "Recent camps: "@
            + digits(f.recent_camps as nat),
        f.mobile && f.recent_camps == 0 && f.last_migration_tick == 0 ==> (f.pending_migration matches Some(
            t,
        ) ==> lifestyle_rows(p, f).last().1 == "⇒ Migrating to ("@ + numeral(t.0 as int) + ", "@
            + numeral(t.1 as int) + ")"@),
{
}

/// A trait stands out from 120 on and glows from 180 on.
pub proof fn strong_traits_stand_out(p: DebugRows, name: Seq<char>, value: u8)
    ensures
        ({
            let q = trait_rows(p, name, value);
            let k = p.len() as int;
            let shown = q[k + 2].0;
            &&& q.len() == k + 4
            &&& q[k + 1].1 == name
            &&& value < 120 ==> shown == Widget::Label(Tone::Gray(140), Style::Normal)
            &&& 120 <= value < 180 ==> shown == Widget::Label(
                Tone::Rgb(220, 200, 100),
                Style::Normal,
            )
            &&& value >= 180 ==> shown == Widget::Label(Tone::Rgb(255, 140, 80), Style::Normal)
        }),
{
}

/// The ages follow each other, none twice.
pub proof fn ages_follow_each_other(i: int, j: int)
    requires
        0 <= i < j < 5,
    ensures
        era_at(i) != era_at(j),
        era_at(0) == Era::Paleolithic,
        era_at(4) == Era::BronzeAge,
{
}

} // verus!
