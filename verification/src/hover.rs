//! What is shown of the tile under the cursor.

use vstd::prelude::*;
use vstd::string::*;
use crate::geometry::{abs, min};
use crate::inspect_vehicle::Rows;
use crate::page::{line, mark, styled, Page, Shown, Style, Tone, Widget};
use crate::parts::Entity;
use crate::seqs::count;
use crate::text::{digits, numeral, Text};

verus! {

/// The top of the ground.
#[derive(Debug)]
pub struct Ground {
    pub z: i32,
    pub kind: String,
    pub fertility: u8,
    pub building: bool,
}

/// On what terms a plot is held.
#[derive(Debug)]
pub enum Tenure {
    StateOwned,
    /// The rent of a month, as it is to be read.
    Leased(String),
    /// The landlord's part in percent, as it is to be read.
    Sharecropping(String),
    Freehold,
}

/// Who holds a plot.
#[derive(Debug)]
pub enum TenureHolder {
    State(u32),
    Household(u32),
}

/// A plot of land.
#[derive(Debug)]
pub struct PlotView {
    pub id: u32,
    pub settlement: u32,
    pub zone: String,
    pub x0: i32,
    pub y0: i32,
    pub w: u32,
    pub h: u32,
    pub tenure: Tenure,
    pub holder: TenureHolder,
    /// The value, as it is to be read; none where it is worth nothing.
    pub value: Option<String>,
    pub frontage: Option<String>,
    pub access: Option<(i32, i32)>,
    pub parent: Option<u32>,
}

/// So much of something.
#[derive(Debug)]
pub struct Amount {
    pub name: String,
    pub qty: u32,
}

/// Something on the tile.
#[derive(Debug)]
pub enum Found {
    Person {
        name: Option<String>,
        sex: String,
        health: String,
        state: String,
        faction: u32,
        mood_name: String,
        mood: i32,
        hunger: String,
        thirst: String,
        sleep: String,
        currency: String,
        inventory: Vec<Amount>,
    },
    Animal {
        wolf: bool,
        deer: bool,
        state: String,
        current: u32,
        max: u32,
        owner: Option<u32>,
        load: Option<Load>,
    },
    Plant { kind: String, stage: String, growth: u32, threshold: u32 },
    Goods(Amount),
    /// Anything else, by the name of its entity.
    Other(String),
}

/// What a pack animal carries.
#[derive(Debug)]
pub struct Load {
    pub weight_g: u32,
    pub capacity_g: u32,
    pub goods: Vec<Amount>,
}

/// A structure, and what becomes of it when its owners move on.
#[derive(Debug)]
pub struct Structure {
    pub label: String,
    pub packed_form: Option<String>,
    /// What tearing down gives back: how much, of what, in percent.
    pub refund: Option<(u32, String, i32)>,
}

/// A material that is needed on a site.
#[derive(Debug)]
pub struct Deposit {
    pub name: String,
    pub deposited: u32,
    pub needed: u32,
}

/// A site where something is to be built.
#[derive(Debug)]
pub struct Site {
    pub entity: Entity,
    pub recipe: String,
    pub kind: String,
    pub faction: u32,
    /// The entity for whom it is built, as it is to be read.
    pub owner: Option<String>,
    pub target_z: i32,
    pub progress: u32,
    pub work_ticks: u32,
    pub satisfied: bool,
    pub deposits: Vec<Deposit>,
}

/// What somebody does on a site.
#[derive(Clone, Copy, Debug, PartialEq, Eq, Structural)]
pub enum SiteTask {
    Build,
    Haul,
    Other,
}

/// Somebody who may help on a site.
#[derive(Debug)]
pub struct Hand {
    pub faction: u32,
    pub target: Option<Entity>,
    pub task: SiteTask,
    pub tile: (i32, i32),
    pub dormant: bool,
    pub idle: bool,
    /// How much of each material of the site is in the hands and in the pack.
    pub in_hands: Vec<u32>,
    pub in_pack: Vec<u32>,
}

/// An order for something to be crafted.
#[derive(Debug)]
pub struct CraftSite {
    pub recipe: Option<String>,
    pub work_ticks: u32,
    pub faction: u32,
    pub workbench: Option<(i32, i32)>,
    pub progress: u32,
    pub satisfied: bool,
    pub deposits: Vec<Deposit>,
}

/// The colour of what is missing.
pub open spec fn alarm() -> Tone {
    Tone::Rgb(255, 128, 128)
}

/// The rows on the ground; ground below `z_min` is not loaded.
pub open spec fn ground_rows(p: Rows, g: Ground, z_min: i32) -> Rows {
    if g.z >= z_min {
        let p = p.push(line("Kind: "@ + g.kind@)).push(line("Z: "@ + numeral(g.z as int))).push(
            line("Fertility: "@ + digits(g.fertility as nat)),
        );
        if g.building {
            p.push(line("Has Building"@))
        } else {
            p
        }
    } else {
        p.push(line("Unloaded Chunk"@))
    }
}

pub open spec fn tenure_text(t: Tenure) -> Seq<char> {
    match t {
        Tenure::StateOwned => "Tenure: State-owned"@,
        Tenure::Leased(rent) => "Tenure: Leased ("@ + rent@ + "/mo)"@,
        Tenure::Sharecropping(part) => "Tenure: Sharecropping ("@ + part@ + "% to landlord)"@,
        Tenure::Freehold => "Tenure: Freehold"@,
    }
}

pub open spec fn holder_text(h: TenureHolder) -> Seq<char> {
    match h {
        TenureHolder::State(f) => "Holder: State (faction "@ + digits(f as nat) + ")"@,
        TenureHolder::Household(f) => "Holder: Household "@ + digits(f as nat),
    }
}

/// The rows on a plot.
pub open spec fn plot_rows(p: Rows, v: PlotView) -> Rows {
    let p = p.push(mark(Widget::Rule)).push(styled(Tone::Plain, Style::Strong, "Plot"@)).push(
        line(
            "ID: "@ + digits(v.id as nat) + "  ·  Settlement: "@ + digits(v.settlement as nat),
        ),
    ).push(line("Zone: "@ + v.zone@)).push(
        line(
            "Rect: ("@ + numeral(v.x0 as int) + ", "@ + numeral(v.y0 as int) + ")  "@ + digits(
                v.w as nat,
            ) + "×"@ + digits(v.h as nat),
        ),
    ).push(line(tenure_text(v.tenure))).push(line(holder_text(v.holder)));
    let p = match v.value {
        Some(s) => p.push(line("Value: "@ + s@)),
        None => p,
    };
    let p = match (v.frontage, v.access) {
        (Some(edge), Some(at)) => p.push(
            line(
                "Frontage: "@ + edge@ + " → ("@ + numeral(at.0 as int) + ", "@ + numeral(
                    at.1 as int,
                ) + ")"@,
            ),
        ),
        _ => p,
    };
    match v.parent {
        Some(n) => p.push(line("Child of plot #"@ + digits(n as nat))),
        None => p,
    }
}

/// The rows on the first `n` amounts. Empty ones are left out if so wished.
pub open spec fn amount_rows(p: Rows, list: Seq<Amount>, skip_empty: bool, n: int) -> Rows
    decreases n,
{
    if n <= 0 {
        p
    } else {
        let q = amount_rows(p, list, skip_empty, n - 1);
        let a = list[n - 1];
        if skip_empty && a.qty == 0 {
            q
        } else {
            q.push(line("  - "@ + a.name@ + " x"@ + digits(a.qty as nat)))
        }
    }
}

/// The rows on an animal.
pub open spec fn animal_rows(
    p: Rows,
    wolf: bool,
    deer: bool,
    state: Seq<char>,
    current: u32,
    max: u32,
    owner: Option<u32>,
    load: Option<Load>,
) -> Rows {
    let p = p.push(
        line(
            (if wolf {
                "Wolf"@
            } else if deer {
                "Deer"@
            } else {
                "Animal"@
            }) + ": "@ + state,
        ),
    ).push(line("Health: "@ + digits(current as nat) + "/"@ + digits(max as nat)));
    let p = match owner {
        Some(f) => p.push(line("Tamed by: faction "@ + digits(f as nat))),
        None => p,
    };
    match load {
        Some(l) => amount_rows(
            p.push(
                line(
                    "Carrying: "@ + digits((l.weight_g / 1000) as nat) + " / "@ + digits(
                        (l.capacity_g / 1000) as nat,
                    ) + " kg"@,
                ),
            ),
            l.goods@,
            false,
            l.goods@.len() as int,
        ),
        None => p,
    }
}

/// The rows on something on the tile.
pub open spec fn found_rows(p: Rows, f: Found) -> Rows {
    match f {
        Found::Person {
            name,
            sex,
            health,
            state,
            faction,
            mood_name,
            mood,
            hunger,
            thirst,
            sleep,
            currency,
            inventory,
        } => amount_rows(
            p.push(
                (
                    Widget::Section(Tone::Plain, false),
                    (match name {
                        Some(n) => n@,
                        None => "Person"@,
                    }) + " ("@ + sex@ + ")"@,
                    None,
                ),
            ).push(line("Health: "@ + health@ + "%"@)).push(line("State: "@ + state@)).push(
                line("Faction: "@ + digits(faction as nat)),
            ).push(line("Mood: "@ + mood_name@ + " ("@ + numeral(mood as int) + ")"@)).push(
                line("Hunger: "@ + hunger@),
            ).push(line("Thirst: "@ + thirst@)).push(line("Sleep: "@ + sleep@)).push(
                line("Currency: "@ + currency@),
            ).push(line("Inventory:"@)),
            inventory@,
            true,
            inventory@.len() as int,
        ).push(mark(Widget::EndSection)),
        Found::Animal { wolf, deer, state, current, max, owner, load } => animal_rows(
            p,
            wolf,
            deer,
            state@,
            current,
            max,
            owner,
            load,
        ),
        Found::Plant { kind, stage, growth, threshold } => if threshold == 0 {
            p.push(line("Plant: "@ + kind@ + " ("@ + stage@ + ")"@))
        } else {
            p.push(
                line(
                    "Plant: "@ + kind@ + " ("@ + stage@ + ")"@ + " — growth "@ + digits(
                        growth as nat,
                    ) + "/"@ + digits(threshold as nat),
                ),
            )
        },
        Found::Goods(a) => p.push(line("Item: "@ + a.name@ + " x"@ + digits(a.qty as nat))),
        Found::Other(name) => p.push(line("Entity: "@ + name@)),
    }
}

/// The rows on the first `n` things on the tile.
pub open spec fn things_rows(p: Rows, list: Seq<Found>, n: int) -> Rows
    decreases n,
{
    if n <= 0 {
        p
    } else {
        found_rows(things_rows(p, list, n - 1), list[n - 1])
    }
}

/// The rows on a structure.
pub open spec fn structure_rows(p: Rows, s: Structure) -> Rows {
    let p = p.push(mark(Widget::Rule)).push(styled(Tone::Plain, Style::Strong, s.label@));
    match s.packed_form {
        Some(name) => p.push(
            styled(Tone::Weak, Style::Small, "Packs as: "@ + name@ + " on migration"@),
        ),
        None => match s.refund {
            Some((qty, name, pct)) => p.push(
                styled(
                    Tone::Weak,
                    Style::Small,
                    "Teardown: drops "@ + digits(qty as nat) + " "@ + name@ + " on migration ("@
                        + numeral(pct as int) + "% refund)"@,
                ),
            ),
            None => p,
        },
    }
}

/// A material is still missing.
pub open spec fn unmet(d: Deposit) -> bool {
    d.deposited < d.needed
}

/// The rows on the first `n` materials; the missing ones stand out.
pub open spec fn deposit_rows(p: Rows, list: Seq<Deposit>, n: int) -> Rows
    decreases n,
{
    if n <= 0 {
        p
    } else {
        let d = list[n - 1];
        deposit_rows(p, list, n - 1).push(
            styled(
                if unmet(d) {
                    alarm()
                } else {
                    Tone::Plain
                },
                Style::Normal,
                "  "@ + d.name@ + ": "@ + digits(d.deposited as nat) + "/"@ + digits(
                    d.needed as nat,
                ),
            ),
        )
    }
}

/// Somebody may help on a site: they are of its faction and it belongs to nobody in person.
pub open spec fn allowed(s: Site, h: Hand) -> bool {
    s.owner is None && h.faction == s.faction
}

/// Somebody is counted on a site. On a personal one everybody is.
pub open spec fn counted(s: Site, h: Hand) -> bool {
    s.owner is Some || h.faction == s.faction
}

/// Somebody is busy on the site with a task.
pub open spec fn busy(s: Site, h: Hand, task: SiteTask) -> bool {
    counted(s, h) && h.target == Some(s.entity) && h.task == task
}

/// How many steps somebody is away from the site.
pub open spec fn steps_away(h: Hand, at: (i32, i32)) -> int {
    abs(h.tile.0 - at.0) + abs(h.tile.1 - at.1)
}

/// How far somebody may be away to count as near.
pub const NEARBY: i64 = 30;

/// Somebody near has nothing to do.
pub open spec fn at_hand(s: Site, h: Hand, at: (i32, i32)) -> bool {
    allowed(s, h) && !h.dormant && h.idle && steps_away(h, at) <= NEARBY
}

/// Somebody carries what is missing in a slot.
pub open spec fn brings(s: Site, h: Hand, slot: int) -> bool {
    &&& allowed(s, h)
    &&& !h.dormant
    &&& unmet(s.deposits@[slot])
    &&& (h.in_hands@[slot] > 0 || h.in_pack@[slot] > 0)
}

/// The least distance of a dormant member among the first `n`.
pub open spec fn nearest_dormant(s: Site, hands: Seq<Hand>, at: (i32, i32), n: int) -> Option<int>
    decreases n,
{
    if n <= 0 {
        None
    } else {
        let best = nearest_dormant(s, hands, at, n - 1);
        let h = hands[n - 1];
        if allowed(s, h) && h.dormant {
            match best {
                Some(d) => Some(min(d, steps_away(h, at))),
                None => Some(steps_away(h, at)),
            }
        } else {
            best
        }
    }
}

/// How many do a task on the site.
pub open spec fn busy_count(s: Site, hands: Seq<Hand>, task: SiteTask) -> nat {
    count(hands.len() as int, |i: int| busy(s, hands[i], task))
}

/// How many near have nothing to do.
pub open spec fn idle_count(s: Site, hands: Seq<Hand>, at: (i32, i32)) -> nat {
    count(hands.len() as int, |i: int| at_hand(s, hands[i], at))
}

/// How many carry what is missing in a slot.
pub open spec fn carrier_count(s: Site, hands: Seq<Hand>, slot: int) -> nat {
    count(hands.len() as int, |i: int| brings(s, hands[i], slot))
}

/// A row that stands out where there is nobody.
pub open spec fn head_count(n: nat, text: Seq<char>) -> Shown<()> {
    styled(
        if n == 0 {
            alarm()
        } else {
            Tone::Plain
        },
        Style::Normal,
        text,
    )
}

/// The rows on who brings what is missing in the first `n` slots.
pub open spec fn carrier_rows(p: Rows, s: Site, hands: Seq<Hand>, n: int) -> Rows
    decreases n,
{
    if n <= 0 {
        p
    } else {
        let q = carrier_rows(p, s, hands, n - 1);
        if unmet(s.deposits@[n - 1]) {
            let c = carrier_count(s, hands, n - 1);
            q.push(
                head_count(c, "  "@ + s.deposits@[n - 1].name@ + " carriers: "@ + digits(c)),
            )
        } else {
            q
        }
    }
}

/// The rows on how a site stands.
pub open spec fn site_rows(p: Rows, s: Site, auto_build: bool) -> Rows {
    let p = p.push(mark(Widget::Rule)).push(
        styled(Tone::Plain, Style::Strong, "Blueprint: "@ + s.recipe@),
    ).push(line("Kind: "@ + s.kind@)).push(line("Faction: "@ + digits(s.faction as nat)));
    let p = match s.owner {
        Some(who) => p.push(line("Personal owner: "@ + who@)),
        None => p,
    };
    let p = p.push(line("Target Z: "@ + numeral(s.target_z as int))).push(
        line("Progress: "@ + digits(s.progress as nat) + " / "@ + digits(s.work_ticks as nat)),
    ).push(
        line(
            if s.satisfied {
                "Satisfied: yes"@
            } else {
                "Satisfied: no"@
            },
        ),
    ).push(
        line(
            if auto_build {
                "AutoBuild: true"@
            } else {
                "AutoBuild: false"@
            },
        ),
    ).push(line("Deposits:"@));
    deposit_rows(p, s.deposits@, s.deposits@.len() as int)
}

/// The rows on who works, who could, and who brings what.
pub open spec fn diagnostic_rows(p: Rows, s: Site, hands: Seq<Hand>, at: (i32, i32)) -> Rows {
    let workers = busy_count(s, hands, SiteTask::Build);
    let haulers = busy_count(s, hands, SiteTask::Haul);
    let idle = idle_count(s, hands, at);
    let p = p.push(mark(Widget::Rule)).push(
        styled(Tone::Plain, Style::Strong, "Diagnostics"@),
    ).push(
        head_count(
            workers + haulers,
            "On-site: "@ + digits(workers) + " worker(s), "@ + digits(haulers) + " hauler(s)"@,
        ),
    ).push(head_count(idle, "Eligible idle nearby (≤30): "@ + digits(idle))).push(
        line("Carriers per unmet slot:"@),
    );
    let p = carrier_rows(p, s, hands, s.deposits@.len() as int);
    match nearest_dormant(s, hands, at, hands.len() as int) {
        Some(d) => p.push(line("Closest dormant member: "@ + numeral(d) + " tiles"@)),
        None => p,
    }
}

/// The rows on an order for something to be crafted.
pub open spec fn craft_rows(p: Rows, c: CraftSite) -> Rows {
    let p = p.push(mark(Widget::Rule)).push(
        styled(
            Tone::Plain,
            Style::Strong,
            match c.recipe {
                Some(name) => "Craft Order: "@ + name@,
                None => "Craft Order: ?"@,
            },
        ),
    ).push(line("Faction: "@ + digits(c.faction as nat)));
    let p = match c.workbench {
        Some(t) => p.push(
            line("Workbench: ("@ + numeral(t.0 as int) + ", "@ + numeral(t.1 as int) + ")"@),
        ),
        None => p.push(line("Stationless (anchored at camp)"@)),
    };
    let work = match c.recipe {
        Some(_) => c.work_ticks,
        None => 0,
    };
    let p = p.push(
        line("Work: "@ + digits(c.progress as nat) + " / "@ + digits(work as nat)),
    ).push(
        line(
            if c.satisfied {
                "Satisfied: yes"@
            } else {
                "Satisfied: no"@
            },
        ),
    ).push(line("Deposits:"@));
    deposit_rows(p, c.deposits@, c.deposits@.len() as int)
}

/// What is known of a tile.
#[derive(Debug)]
pub struct TileSheet {
    pub tile: (i32, i32),
    pub ground: Ground,
    pub plot: Option<PlotView>,
    pub things: Vec<Found>,
    pub structure: Option<Structure>,
    pub site: Option<Site>,
    pub hands: Vec<Hand>,
    pub auto_build: bool,
    pub craft: Option<CraftSite>,
}

/// What is shown of a tile.
pub open spec fn hover_rows(t: TileSheet, z_min: i32) -> Rows {
    let p = Seq::<Shown<()>>::empty().push(
        line("Tile: ("@ + numeral(t.tile.0 as int) + ", "@ + numeral(t.tile.1 as int) + ")"@),
    );
    let p = ground_rows(p, t.ground, z_min);
    let p = match t.plot {
        Some(v) => plot_rows(p, v),
        None => p,
    };
    let p = if t.things@.len() > 0 {
        things_rows(
            p.push(mark(Widget::Rule)).push(line("Entities:"@)),
            t.things@,
            t.things@.len() as int,
        )
    } else {
        p
    };
    let p = match t.structure {
        Some(s) => structure_rows(p, s),
        None => p,
    };
    let p = match t.site {
        Some(s) => diagnostic_rows(site_rows(p, s, t.auto_build), s, t.hands@, t.tile),
        None => p,
    };
    match t.craft {
        Some(c) => craft_rows(p, c),
        None => p,
    }
}

fn show_ground(page: &mut Page<()>, g: &Ground, z_min: i32)
    ensures
        final(page).shown() == ground_rows(old(page).shown(), *g, z_min),
{
    if g.z >= z_min {
        page.say(Text::of("Kind: ").with(g.kind.as_str()).done());
        page.say(Text::of("Z: ").signed(g.z as i64).done());
        page.say(Text::of("Fertility: ").number(g.fertility as u64).done());
        if g.building {
            page.note("Has Building");
        }
    } else {
        page.note("Unloaded Chunk");
    }
}

fn show_plot(page: &mut Page<()>, v: &PlotView)
    ensures
        final(page).shown() == plot_rows(old(page).shown(), *v),
{
    page.place(Widget::Rule);
    page.note_in(Tone::Plain, Style::Strong, "Plot");
    page.say(
        Text::of("ID: ").number(v.id as u64).with("  ·  Settlement: ").number(
            v.settlement as u64,
        ).done(),
    );
    page.say(Text::of("Zone: ").with(v.zone.as_str()).done());
    page.say(
        Text::of("Rect: (").signed(v.x0 as i64).with(", ").signed(v.y0 as i64).with(")  ").number(
            v.w as u64,
        ).with("×").number(v.h as u64).done(),
    );
    let tenure = match &v.tenure {
        Tenure::StateOwned => "Tenure: State-owned".to_owned(),
        Tenure::Leased(rent) => Text::of("Tenure: Leased (").with(rent.as_str()).with(
            "/mo)",
        ).done(),
        Tenure::Sharecropping(part) => Text::of("Tenure: Sharecropping (").with(
            part.as_str(),
        ).with("% to landlord)").done(),
        Tenure::Freehold => "Tenure: Freehold".to_owned(),
    };
    page.say(tenure);
    let holder = match &v.holder {
        TenureHolder::State(f) => Text::of("Holder: State (faction ").number(*f as u64).with(
            ")",
        ).done(),
        TenureHolder::Household(f) => Text::of("Holder: Household ").number(*f as u64).done(),
    };
    page.say(holder);
    match &v.value {
        Some(s) => page.say(Text::of("Value: ").with(s.as_str()).done()),
        None => {},
    }
    match (&v.frontage, v.access) {
        (Some(edge), Some(at)) => page.say(
            Text::of("Frontage: ").with(edge.as_str()).with(" → (").signed(at.0 as i64).with(
                ", ",
            ).signed(at.1 as i64).with(")").done(),
        ),
        _ => {},
    }
    match v.parent {
        Some(n) => page.say(Text::of("Child of plot #").number(n as u64).done()),
        None => {},
    }
}

fn show_amounts(page: &mut Page<()>, list: &Vec<Amount>, skip_empty: bool)
    ensures
        final(page).shown() == amount_rows(
            old(page).shown(),
            list@,
            skip_empty,
            list@.len() as int,
        ),
{
    let ghost start = page.shown();
    let mut i: usize = 0;
    while i < list.len()
        invariant
            i <= list.len(),
            page.shown() == amount_rows(start, list@, skip_empty, i as int),
        decreases list.len() - i,
    {
        let a = &list[i];
        if !(skip_empty && a.qty == 0) {
            page.say(Text::of("  - ").with(a.name.as_str()).with(" x").number(a.qty as u64).done());
        }
        i += 1;
    }
}

fn show_found(page: &mut Page<()>, f: &Found)
    ensures
        final(page).shown() == found_rows(old(page).shown(), *f),
{
    match f {
        Found::Person {
            name,
            sex,
            health,
            state,
            faction,
            mood_name,
            mood,
            hunger,
            thirst,
            sleep,
            currency,
            inventory,
        } => {
            let t = match name {
                Some(n) => Text::of(n.as_str()),
                None => Text::of("Person"),
            };
            page.put(
                Widget::Section(Tone::Plain, false),
                t.with(" (").with(sex.as_str()).with(")").done(),
                None,
            );
            page.say(Text::of("Health: ").with(health.as_str()).with("%").done());
            page.say(Text::of("State: ").with(state.as_str()).done());
            page.say(Text::of("Faction: ").number(*faction as u64).done());
            page.say(
                Text::of("Mood: ").with(mood_name.as_str()).with(" (").signed(*mood as i64).with(
                    ")",
                ).done(),
            );
            page.say(Text::of("Hunger: ").with(hunger.as_str()).done());
            page.say(Text::of("Thirst: ").with(thirst.as_str()).done());
            page.say(Text::of("Sleep: ").with(sleep.as_str()).done());
            page.say(Text::of("Currency: ").with(currency.as_str()).done());
            page.note("Inventory:");
            show_amounts(page, inventory, true);
            page.place(Widget::EndSection);
        },
        Found::Animal { wolf, deer, state, current, max, owner, load } => {
            let t = if *wolf {
                Text::of("Wolf")
            } else if *deer {
                Text::of("Deer")
            } else {
                Text::of("Animal")
            };
            page.say(t.with(": ").with(state.as_str()).done());
            page.say(
                Text::of("Health: ").number(*current as u64).with("/").number(*max as u64).done(),
            );
            match owner {
                Some(f) => page.say(Text::of("Tamed by: faction ").number(*f as u64).done()),
                None => {},
            }
            match load {
                Some(l) => {
                    page.say(
                        Text::of("Carrying: ").number((l.weight_g / 1000) as u64).with(
                            " / ",
                        ).number((l.capacity_g / 1000) as u64).with(" kg").done(),
                    );
                    show_amounts(page, &l.goods, false);
                },
                None => {},
            }
        },
        Found::Plant { kind, stage, growth, threshold } => {
            let t = Text::of("Plant: ").with(kind.as_str()).with(" (").with(stage.as_str()).with(
                ")",
            );
            if *threshold == 0 {
                page.say(t.done());
            } else {
                page.say(
                    t.with(" — growth ").number(*growth as u64).with("/").number(
                        *threshold as u64,
                    ).done(),
                );
            }
        },
        Found::Goods(a) => page.say(
            Text::of("Item: ").with(a.name.as_str()).with(" x").number(a.qty as u64).done(),
        ),
        Found::Other(name) => page.say(Text::of("Entity: ").with(name.as_str()).done()),
    }
}

fn show_structure(page: &mut Page<()>, s: &Structure)
    ensures
        final(page).shown() == structure_rows(old(page).shown(), *s),
{
    page.place(Widget::Rule);
    page.note_in(Tone::Plain, Style::Strong, s.label.as_str());
    match &s.packed_form {
        Some(name) => page.say_in(
            Tone::Weak,
            Style::Small,
            Text::of("Packs as: ").with(name.as_str()).with(" on migration").done(),
        ),
        None => match &s.refund {
            Some((qty, name, pct)) => page.say_in(
                Tone::Weak,
                Style::Small,
                Text::of("Teardown: drops ").number(*qty as u64).with(" ").with(
                    name.as_str(),
                ).with(" on migration (").signed(*pct as i64).with("% refund)").done(),
            ),
            None => {},
        },
    }
}

fn show_deposits(page: &mut Page<()>, list: &Vec<Deposit>)
    ensures
        final(page).shown() == deposit_rows(old(page).shown(), list@, list@.len() as int),
{
    let ghost start = page.shown();
    let mut i: usize = 0;
    while i < list.len()
        invariant
            i <= list.len(),
            page.shown() == deposit_rows(start, list@, i as int),
        decreases list.len() - i,
    {
        let d = &list[i];
        let tone = if d.deposited < d.needed {
            Tone::Rgb(255, 128, 128)
        } else {
            Tone::Plain
        };
        page.say_in(
            tone,
            Style::Normal,
            Text::of("  ").with(d.name.as_str()).with(": ").number(d.deposited as u64).with(
                "/",
            ).number(d.needed as u64).done(),
        );
        i += 1;
    }
}

fn may_help(s: &Site, h: &Hand) -> (r: bool)
    ensures
        r == allowed(*s, *h),
{
    s.owner.is_none() && h.faction == s.faction
}

fn distance(h: &Hand, at: (i32, i32)) -> (d: i64)
    ensures
        d == steps_away(*h, at),
{
    let dx: i64 = h.tile.0 as i64 - at.0 as i64;
    let dy: i64 = h.tile.1 as i64 - at.1 as i64;
    (if dx < 0 {
        -dx
    } else {
        dx
    }) + (if dy < 0 {
        -dy
    } else {
        dy
    })
}

fn count_busy(s: &Site, hands: &Vec<Hand>, task: SiteTask) -> (n: u64)
    ensures
        n == busy_count(*s, hands@, task),
        n <= hands@.len(),
{
    let ghost p = |i: int| busy(*s, hands@[i], task);
    let mut n: u64 = 0;
    let mut i: usize = 0;
    while i < hands.len()
        invariant
            i <= hands.len(),
            n <= i,
            p == (|i: int| busy(*s, hands@[i], task)),
            n == count(i as int, p),
        decreases hands.len() - i,
    {
        let h = &hands[i];
        let on_site = match h.target {
            Some(e) => e == s.entity,
            None => false,
        };
        if (s.owner.is_some() || h.faction == s.faction) && on_site && h.task == task {
            n += 1;
        }
        i += 1;
    }
    n
}

fn count_idle(s: &Site, hands: &Vec<Hand>, at: (i32, i32)) -> (n: u64)
    ensures
        n == idle_count(*s, hands@, at),
{
    let ghost p = |i: int| at_hand(*s, hands@[i], at);
    let mut n: u64 = 0;
    let mut i: usize = 0;
    while i < hands.len()
        invariant
            i <= hands.len(),
            n <= i,
            p == (|i: int| at_hand(*s, hands@[i], at)),
            n == count(i as int, p),
        decreases hands.len() - i,
    {
        let h = &hands[i];
        if may_help(s, h) && !h.dormant && h.idle && distance(h, at) <= NEARBY {
            n += 1;
        }
        i += 1;
    }
    n
}

/// Everybody tells how much they have of each material of the site.
pub open spec fn hands_fit(s: Site, hands: Seq<Hand>) -> bool {
    forall|i: int|
        0 <= i < hands.len() ==> (#[trigger] hands[i]).in_hands@.len() == s.deposits@.len()
            && hands[i].in_pack@.len() == s.deposits@.len()
}

fn count_carriers(s: &Site, hands: &Vec<Hand>, slot: usize) -> (n: u64)
    requires
        slot < s.deposits@.len(),
        hands_fit(*s, hands@),
    ensures
        n == carrier_count(*s, hands@, slot as int),
{
    let ghost p = |i: int| brings(*s, hands@[i], slot as int);
    let mut n: u64 = 0;
    let mut i: usize = 0;
    while i < hands.len()
        invariant
            i <= hands.len(),
            slot < s.deposits@.len(),
            hands_fit(*s, hands@),
            n <= i,
            p == (|i: int| brings(*s, hands@[i], slot as int)),
            n == count(i as int, p),
        decreases hands.len() - i,
    {
        let h = &hands[i];
        if may_help(s, h) && !h.dormant && s.deposits[slot].deposited < s.deposits[slot].needed
            && (h.in_hands[slot] > 0 || h.in_pack[slot] > 0) {
            n += 1;
        }
        i += 1;
    }
    n
}

fn closest_dormant(s: &Site, hands: &Vec<Hand>, at: (i32, i32)) -> (r: Option<i64>)
    ensures
        match r {
            Some(d) => nearest_dormant(*s, hands@, at, hands@.len() as int) == Some(d as int),
            None => nearest_dormant(*s, hands@, at, hands@.len() as int) is None,
        },
{
    let mut best: Option<i64> = None;
    let mut i: usize = 0;
    while i < hands.len()
        invariant
            i <= hands.len(),
            match best {
                Some(d) => nearest_dormant(*s, hands@, at, i as int) == Some(d as int),
                None => nearest_dormant(*s, hands@, at, i as int) is None,
            },
        decreases hands.len() - i,
    {
        let h = &hands[i];
        if may_help(s, h) && h.dormant {
            let d: i64 = distance(h, at);
            match best {
                Some(b) => {
                    if d < b {
                        best = Some(d);
                    }
                },
                None => {
                    best = Some(d);
                },
            }
        }
        i += 1;
    }
    best
}

fn show_site(page: &mut Page<()>, s: &Site, auto_build: bool)
    ensures
        final(page).shown() == site_rows(old(page).shown(), *s, auto_build),
{
    page.place(Widget::Rule);
    page.say_in(
        Tone::Plain,
        Style::Strong,
        Text::of("Blueprint: ").with(s.recipe.as_str()).done(),
    );
    page.say(Text::of("Kind: ").with(s.kind.as_str()).done());
    page.say(Text::of("Faction: ").number(s.faction as u64).done());
    match &s.owner {
        Some(who) => page.say(Text::of("Personal owner: ").with(who.as_str()).done()),
        None => {},
    }
    page.say(Text::of("Target Z: ").signed(s.target_z as i64).done());
    page.say(
        Text::of("Progress: ").number(s.progress as u64).with(" / ").number(
            s.work_ticks as u64,
        ).done(),
    );
    if s.satisfied {
        page.note("Satisfied: yes");
    } else {
        page.note("Satisfied: no");
    }
    if auto_build {
        page.note("AutoBuild: true");
    } else {
        page.note("AutoBuild: false");
    }
    page.note("Deposits:");
    show_deposits(page, &s.deposits);
}

fn show_head_count(page: &mut Page<()>, n: u64, text: String)
    ensures
        final(page).shown() == old(page).shown().push(head_count(n as nat, text@)),
{
    if n == 0 {
        page.say_in(Tone::Rgb(255, 128, 128), Style::Normal, text);
    } else {
        page.say_in(Tone::Plain, Style::Normal, text);
    }
}

fn show_diagnostics(page: &mut Page<()>, s: &Site, hands: &Vec<Hand>, at: (i32, i32))
    requires
        hands_fit(*s, hands@),
    ensures
        final(page).shown() == diagnostic_rows(old(page).shown(), *s, hands@, at),
{
    let workers: u64 = count_busy(s, hands, SiteTask::Build);
    let haulers: u64 = count_busy(s, hands, SiteTask::Haul);
    let idle: u64 = count_idle(s, hands, at);
    page.place(Widget::Rule);
    page.note_in(Tone::Plain, Style::Strong, "Diagnostics");
    let on_site = Text::of("On-site: ").number(workers).with(" worker(s), ").number(haulers).with(
        " hauler(s)",
    ).done();
    if workers == 0 && haulers == 0 {
        page.say_in(Tone::Rgb(255, 128, 128), Style::Normal, on_site);
    } else {
        page.say_in(Tone::Plain, Style::Normal, on_site);
    }
    show_head_count(page, idle, Text::of("Eligible idle nearby (≤30): ").number(idle).done());
    page.note("Carriers per unmet slot:");
    let ghost start = page.shown();
    let mut i: usize = 0;
    while i < s.deposits.len()
        invariant
            i <= s.deposits.len(),
            hands_fit(*s, hands@),
            page.shown() == carrier_rows(start, *s, hands@, i as int),
        decreases s.deposits.len() - i,
    {
        if s.deposits[i].deposited < s.deposits[i].needed {
            let c: u64 = count_carriers(s, hands, i);
            show_head_count(
                page,
                c,
                Text::of("  ").with(s.deposits[i].name.as_str()).with(" carriers: ").number(
                    c,
                ).done(),
            );
        }
        i += 1;
    }
    match closest_dormant(s, hands, at) {
        Some(d) => page.say(
            Text::of("Closest dormant member: ").signed(d).with(" tiles").done(),
        ),
        None => {},
    }
}

fn show_craft(page: &mut Page<()>, c: &CraftSite)
    ensures
        final(page).shown() == craft_rows(old(page).shown(), *c),
{
    page.place(Widget::Rule);
    let mut work: u32 = 0;
    match &c.recipe {
        Some(name) => {
            page.say_in(
                Tone::Plain,
                Style::Strong,
                Text::of("Craft Order: ").with(name.as_str()).done(),
            );
            work = c.work_ticks;
        },
        None => page.note_in(Tone::Plain, Style::Strong, "Craft Order: ?"),
    }
    page.say(Text::of("Faction: ").number(c.faction as u64).done());
    match c.workbench {
        Some(t) => page.say(
            Text::of("Workbench: (").signed(t.0 as i64).with(", ").signed(t.1 as i64).with(
                ")",
            ).done(),
        ),
        None => page.note("Stationless (anchored at camp)"),
    }
    page.say(
        Text::of("Work: ").number(c.progress as u64).with(" / ").number(work as u64).done(),
    );
    if c.satisfied {
        page.note("Satisfied: yes");
    } else {
        page.note("Satisfied: no");
    }
    page.note("Deposits:");
    show_deposits(page, &c.deposits);
}

fn show_things(page: &mut Page<()>, list: &Vec<Found>)
    ensures
        final(page).shown() == things_rows(old(page).shown(), list@, list@.len() as int),
{
    let ghost start = page.shown();
    let mut i: usize = 0;
    while i < list.len()
        invariant
            i <= list.len(),
            page.shown() == things_rows(start, list@, i as int),
        decreases list.len() - i,
    {
        show_found(page, &list[i]);
        i += 1;
    }
}

/// What is shown of the tile under the cursor.
pub fn hover_info_system(t: &TileSheet, z_min: i32) -> (page: Page<()>)
    requires
        t.site matches Some(s) ==> hands_fit(s, t.hands@),
    ensures
        page.shown() == hover_rows(*t, z_min),
{
    let mut page: Page<()> = Page::new();
    page.say(
        Text::of("Tile: (").signed(t.tile.0 as i64).with(", ").signed(t.tile.1 as i64).with(
            ")",
        ).done(),
    );
    show_ground(&mut page, &t.ground, z_min);
    match &t.plot {
        Some(v) => show_plot(&mut page, v),
        None => {},
    }
    if t.things.len() > 0 {
        page.place(Widget::Rule);
        page.note("Entities:");
        show_things(&mut page, &t.things);
    }
    match &t.structure {
        Some(s) => show_structure(&mut page, s),
        None => {},
    }
    match &t.site {
        Some(s) => {
            show_site(&mut page, s, t.auto_build);
            show_diagnostics(&mut page, s, &t.hands, t.tile);
        },
        None => {},
    }
    match &t.craft {
        Some(c) => show_craft(&mut page, c),
        None => {},
    }
    page
}

/// On a personal site nobody is called upon, and nobody counts as bringing anything.
pub proof fn personal_sites_call_nobody(s: Site, hands: Seq<Hand>, at: (i32, i32), slot: int)
    requires
        s.owner is Some,
    ensures
        idle_count(s, hands, at) == 0,
        carrier_count(s, hands, slot) == 0,
        nearest_dormant(s, hands, at, hands.len() as int) is None,
{
    crate::seqs::count_bounds(hands.len() as int, |i: int| at_hand(s, hands[i], at));
    crate::seqs::count_bounds(hands.len() as int, |i: int| brings(s, hands[i], slot));
    nobody_is_near(s, hands, at, hands.len() as int);
}

proof fn nobody_is_near(s: Site, hands: Seq<Hand>, at: (i32, i32), n: int)
    requires
        s.owner is Some,
    ensures
        nearest_dormant(s, hands, at, n) is None,
    decreases n,
{
    if n > 0 {
        nobody_is_near(s, hands, at, n - 1);
    }
}

/// Who counts on a site: busy are those of its faction who have it for their target and do the
/// task; at hand are idle ones of it, awake, within thirty steps, on a site of nobody in person;
/// and a material is brought by those of them who have some of it in hands or pack while it is
/// missing.
pub proof fn hands_count_where_they_help(s: Site, h: Hand, at: (i32, i32), slot: int, task: SiteTask)
    requires
        s.owner is None,
    ensures
        busy(s, h, task) <==> h.faction == s.faction && h.target == Some(s.entity) && h.task
            == task,
        at_hand(s, h, at) ==> h.faction == s.faction && !h.dormant && h.idle,
        at_hand(s, h, at) ==> -30 <= h.tile.0 - at.0 <= 30 && -30 <= h.tile.1 - at.1 <= 30,
        h.faction == s.faction && !h.dormant && h.idle && h.tile.1 == at.1 ==> (at_hand(s, h, at)
            <==> -30 <= h.tile.0 - at.0 <= 30),
        h.faction == s.faction && !h.dormant && h.idle && h.tile.0 == at.0 ==> (at_hand(s, h, at)
            <==> -30 <= h.tile.1 - at.1 <= 30),
        h.tile.0 - at.0 == 16 && h.tile.1 - at.1 == 16 ==> !at_hand(s, h, at),
        brings(s, h, slot) <==> h.faction == s.faction && !h.dormant && s.deposits@[slot].deposited
            < s.deposits@[slot].needed && (h.in_hands@[slot] > 0 || h.in_pack@[slot] > 0),
{
}

/// The nearest sleeper is one of the site's faction who sleeps, and none of them is nearer.
pub proof fn the_nearest_sleeper_is_named(
    s: Site,
    hands: Seq<Hand>,
    at: (i32, i32),
    n: int,
    k: int,
)
    requires
        s.owner is None,
        0 <= k < n <= hands.len(),
    ensures
        hands[k].dormant && hands[k].faction == s.faction ==> (nearest_dormant(s, hands, at, n)
            matches Some(d) && d <= steps_away(hands[k], at)),
        nearest_dormant(s, hands, at, n) matches Some(d) ==> exists|i: int|
            0 <= i < n && (#[trigger] hands[i]).dormant && hands[i].faction == s.faction
                && steps_away(hands[i], at) == d,
    decreases n,
{
    if n > 1 {
        let j = if k < n - 1 {
            k
        } else {
            0
        };
        the_nearest_sleeper_is_named(s, hands, at, n - 1, j);
    }
    assert(nearest_dormant(s, hands, at, 0) is None);
    let h = hands[n - 1];
    assert(h.dormant || !h.dormant);
}

} // verus!
