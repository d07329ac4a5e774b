//! The bar at the top of the screen, and drafting.

use vstd::prelude::*;
use vstd::string::*;
use crate::geometry::min;
use crate::page::{mark, styled, Page, Shown, Style, Tone, Widget};
use crate::parts::Entity;
use crate::seqs::{collect, count, count_bounds};
use crate::sorting::{follows, order_by_keys, order_of, ordering_is_stable, rising, rising_key, Key};
use crate::wild_herd::Season;
use crate::text::{digits, is_before, numeral, text_before, texts_are_ordered, Text};

verus! {

/// What the bar asks for.
#[derive(Clone, Copy, Debug, PartialEq, Eq, Structural)]
pub enum HudAction {
    /// One of the four speeds.
    Speed(usize),
    CycleMode,
    ToggleBuild,
    ToggleTech,
    Draft,
    Muster,
    ToggleDebug,
}

/// The rows of the bar.
pub type HudRows = Seq<Shown<HudAction>>;

/// What a chief has ordered to be hunted.
#[derive(Debug)]
pub enum HuntOrder {
    Hunt { species: String, target_party_size: u32, mustered: u64, deployed: bool },
    Scout,
}

/// A person's trade and faction.
#[derive(Clone, Copy, Debug, PartialEq, Eq, Structural)]
pub struct Tradesman {
    pub hunter: bool,
    pub faction: u32,
}

/// So much of a good in the storage of a faction.
#[derive(Debug)]
pub struct Stored {
    pub name: String,
    pub qty: u32,
}

/// The player's faction.
#[derive(Debug)]
pub struct HudFaction {
    /// The food in store, as it is to be read.
    pub food: String,
    pub members: u32,
    /// The goods in store, in no particular order.
    pub goods: Vec<Stored>,
    pub order: Option<HuntOrder>,
    pub hunting_unlocked: bool,
}

/// What the bar is made from.
#[derive(Debug)]
pub struct HudSheet {
    pub population: u64,
    /// Which of the four speeds is in force.
    pub speed: Option<usize>,
    pub mode: String,
    pub auto_build: bool,
    pub tech_open: bool,
    pub debug_open: bool,
    /// For each selected entity, whether it is drafted.
    pub selected: Vec<bool>,
    pub people: Vec<Tradesman>,
    pub faction_id: u32,
    /// The player's faction, where it is on record.
    pub faction: Option<HudFaction>,
    pub season: Season,
    pub season_name: String,
    pub day: u32,
    pub tick: u64,
    /// The level in view; the greatest number stands for the surface.
    pub view_z: i32,
}

/// The hunters of a faction.
pub open spec fn hunters(people: Seq<Tradesman>, faction: u32) -> nat {
    count(people.len() as int, |i: int| people[i].hunter && people[i].faction == faction)
}

/// Somebody who is selected is drafted.
pub open spec fn any_drafted(selected: Seq<bool>) -> bool {
    exists|i: int| 0 <= i < selected.len() && #[trigger] selected[i]
}

pub open spec fn speed_name(i: int) -> Seq<char> {
    if i == 0 {
        "⏸"@
    } else if i == 1 {
        "1×"@
    } else if i == 2 {
        "2×"@
    } else {
        "5×"@
    }
}

/// The buttons for the first `n` speeds.
pub open spec fn speed_rows(p: HudRows, active: Option<usize>, n: int) -> HudRows
    decreases n,
{
    if n <= 0 {
        p
    } else {
        speed_rows(p, active, n - 1).push(
            (
                Widget::Button(
                    if active == Some((n - 1) as usize) {
                        Tone::Rgb(60, 120, 200)
                    } else {
                        Tone::Plain
                    },
                ),
                speed_name(n - 1),
                Some(HudAction::Speed((n - 1) as usize)),
            ),
        )
    }
}

/// What the hunters are ordered to do.
pub open spec fn order_text(o: Option<HuntOrder>) -> Seq<char> {
    match o {
        Some(HuntOrder::Hunt { species, target_party_size, mustered, deployed }) => (if deployed {
            "Deployed "@
        } else {
            "Hunting "@
        }) + species@ + " "@ + digits(min(mustered as int, target_party_size as int) as nat) + "/"@
            + digits(target_party_size as nat),
        Some(HuntOrder::Scout) => "Scouting"@,
        None => "Idle"@,
    }
}

pub open spec fn hunt_order_of(f: Option<HudFaction>) -> Option<HuntOrder> {
    match f {
        Some(f) => f.order,
        None => None,
    }
}

pub open spec fn may_hunt(f: Option<HudFaction>) -> bool {
    match f {
        Some(f) => f.hunting_unlocked,
        None => false,
    }
}

pub open spec fn season_tone(s: Season) -> Tone {
    match s {
        Season::Spring => Tone::Rgb(100, 220, 100),
        Season::Summer => Tone::Rgb(255, 220, 50),
        Season::Autumn => Tone::Rgb(230, 130, 30),
        Season::Winter => Tone::Rgb(180, 220, 255),
    }
}

/// A button that stands out while a flag is set.
pub open spec fn flag_button(
    on: bool,
    lit: Tone,
    name: Seq<char>,
    a: HudAction,
) -> Shown<HudAction> {
    (
        Widget::Button(
            if on {
                lit
            } else {
                Tone::Gray(60)
            },
        ),
        name,
        Some(a),
    )
}

/// The left half of the bar: people, speed, and what can be switched.
pub open spec fn control_rows(p: HudRows, s: HudSheet) -> HudRows {
    let p = p.push(mark(Widget::Begin)).push(
        styled(
            Tone::Rgb(255, 255, 255),
            Style::Points(16),
            "Population: "@ + digits(s.population as nat),
        ),
    ).push(mark(Widget::Rule)).push(styled(Tone::Rgb(255, 255, 255), Style::Normal, "Speed:"@));
    speed_rows(p, s.speed, 4).push(mark(Widget::Rule)).push(
        (Widget::Button(Tone::Plain), s.mode@, Some(HudAction::CycleMode)),
    ).push(mark(Widget::Rule)).push(
        flag_button(
            s.auto_build,
            Tone::Rgb(60, 180, 80),
            if s.auto_build {
                "Build: ON"@
            } else {
                "Build: OFF"@
            },
            HudAction::ToggleBuild,
        ),
    ).push(mark(Widget::Rule)).push(
        flag_button(s.tech_open, Tone::Rgb(140, 100, 200), "Tech"@, HudAction::ToggleTech),
    ).push(mark(Widget::Rule)).push(
        (
            Widget::Switch(
                if any_drafted(s.selected@) {
                    Tone::Rgb(200, 70, 50)
                } else {
                    Tone::Gray(60)
                },
                s.selected@.len() > 0,
            ),
            if any_drafted(s.selected@) {
                "Undraft (R)"@
            } else {
                "Draft (R)"@
            },
            Some(HudAction::Draft),
        ),
    ).push(mark(Widget::Rule))
}

/// The right half of the bar: hunters, date and level.
pub open spec fn report_rows(p: HudRows, s: HudSheet) -> HudRows {
    let n = hunters(s.people@, s.faction_id);
    let surface = s.view_z == i32::MAX;
    p.push(styled(Tone::Rgb(255, 255, 255), Style::Normal, "Hunters:"@)).push(
        styled(
            if may_hunt(s.faction) {
                Tone::Rgb(255, 255, 255)
            } else {
                Tone::Gray(160)
            },
            Style::Normal,
            digits(n) + " · "@ + order_text(hunt_order_of(s.faction)),
        ),
    ).push(
        (
            Widget::Switch(Tone::Rgb(180, 100, 60), may_hunt(s.faction) && n > 0),
            "Muster"@,
            Some(HudAction::Muster),
        ),
    ).push(mark(Widget::Rule)).push(
        flag_button(s.debug_open, Tone::Rgb(200, 100, 60), "Debug"@, HudAction::ToggleDebug),
    ).push(mark(Widget::Rule)).push(
        styled(
            season_tone(s.season),
            Style::Normal,
            s.season_name@ + " Day "@ + digits(s.day as nat),
        ),
    ).push(mark(Widget::Rule)).push(
        styled(Tone::Gray(160), Style::Normal, "Tick: "@ + digits(s.tick as nat)),
    ).push(mark(Widget::Rule)).push(
        styled(
            if surface {
                Tone::Gray(160)
            } else {
                Tone::Rgb(255, 200, 80)
            },
            Style::Normal,
            if surface {
                "Z: Surface"@
            } else {
                "Z: "@ + numeral(s.view_z as int) + " (PgUp/PgDn)"@
            },
        ),
    ).push(mark(Widget::End))
}

/// How many goods have a name that stands before that of good `i`.
pub open spec fn name_rank(goods: Seq<Stored>, i: int) -> nat {
    count(goods.len() as int, |j: int| text_before(goods[j].name@, goods[i].name@))
}

/// The keys that put goods in the order of their names.
pub open spec fn name_keys(goods: Seq<Stored>) -> Seq<Key> {
    Seq::new(goods.len(), |i: int| rising_key(name_rank(goods, i) as u64))
}

/// The first `n` goods of an order; those of which there is nothing are left out.
pub open spec fn goods_text(goods: Seq<Stored>, order: Seq<usize>, n: int) -> Seq<char>
    decreases n,
{
    if n <= 0 {
        Seq::empty()
    } else {
        let g = goods[order[n - 1] as int];
        let before = goods_text(goods, order, n - 1);
        if g.qty > 0 {
            before + "  |  "@ + g.name@ + ": "@ + digits(g.qty as nat)
        } else {
            before
        }
    }
}

/// The line on the player's faction.
pub open spec fn faction_text(f: HudFaction, id: u32) -> Seq<char> {
    "Your Faction #"@ + digits(id as nat) + ":  food: "@ + f.food@ + "  |  members: "@ + digits(
        f.members as nat,
    ) + goods_text(f.goods@, order_of(name_keys(f.goods@)), f.goods@.len() as int)
}

/// The bar.
pub open spec fn hud_rows(s: HudSheet) -> HudRows {
    let p = report_rows(control_rows(Seq::<Shown<HudAction>>::empty(), s), s);
    match s.faction {
        Some(f) => if s.faction_id != 0 {
            p.push(
                styled(
                    Tone::Rgb(140, 215, 255),
                    Style::Normal,
                    faction_text(f, s.faction_id),
                ),
            )
        } else {
            p
        },
        None => p,
    }
}

fn some_drafted(selected: &Vec<bool>) -> (r: bool)
    ensures
        r == any_drafted(selected@),
{
    let mut i: usize = 0;
    while i < selected.len()
        invariant
            i <= selected.len(),
            forall|j: int| 0 <= j < i ==> !#[trigger] selected@[j],
        decreases selected.len() - i,
    {
        if selected[i] {
            return true;
        }
        i += 1;
    }
    false
}

fn count_hunters(people: &Vec<Tradesman>, faction: u32) -> (n: u64)
    ensures
        n == hunters(people@, faction),
{
    let ghost p = |i: int| people@[i].hunter && people@[i].faction == faction;
    let mut n: u64 = 0;
    let mut i: usize = 0;
    while i < people.len()
        invariant
            i <= people.len(),
            n <= i,
            p == (|i: int| people@[i].hunter && people@[i].faction == faction),
            n == count(i as int, p),
        decreases people.len() - i,
    {
        if people[i].hunter && people[i].faction == faction {
            n += 1;
        }
        i += 1;
    }
    n
}

fn order_line(o: &Option<HuntOrder>) -> (s: String)
    ensures
        s@ == order_text(*o),
{
    match o {
        Some(HuntOrder::Hunt { species, target_party_size, mustered, deployed }) => {
            let t = if *deployed {
                Text::of("Deployed ")
            } else {
                Text::of("Hunting ")
            };
            let size: u64 = *target_party_size as u64;
            let n: u64 = if *mustered < size {
                *mustered
            } else {
                size
            };
            t.with(species.as_str()).with(" ").number(n).with("/").number(size).done()
        },
        Some(HuntOrder::Scout) => "Scouting".to_owned(),
        None => "Idle".to_owned(),
    }
}

fn show_flag(page: &mut Page<HudAction>, on: bool, lit: Tone, name: &str, a: HudAction)
    ensures
        final(page).shown() == old(page).shown().push(flag_button(on, lit, name@, a)),
{
    let tone = if on {
        lit
    } else {
        Tone::Gray(60)
    };
    page.offer(Widget::Button(tone), name, a);
}

fn show_speeds(page: &mut Page<HudAction>, active: Option<usize>)
    ensures
        final(page).shown() == speed_rows(old(page).shown(), active, 4),
{
    let ghost start = page.shown();
    let mut i: usize = 0;
    while i < 4
        invariant
            i <= 4,
            page.shown() == speed_rows(start, active, i as int),
        decreases 4 - i,
    {
        let name = match i {
            0 => "⏸",
            1 => "1×",
            2 => "2×",
            _ => "5×",
        };
        let on = match active {
            Some(k) => k == i,
            None => false,
        };
        let tone = if on {
            Tone::Rgb(60, 120, 200)
        } else {
            Tone::Plain
        };
        page.offer(Widget::Button(tone), name, HudAction::Speed(i));
        i += 1;
    }
}

fn show_controls(page: &mut Page<HudAction>, s: &HudSheet)
    ensures
        final(page).shown() == control_rows(old(page).shown(), *s),
{
    let white = Tone::Rgb(255, 255, 255);
    page.place(Widget::Begin);
    page.say_in(white, Style::Points(16), Text::of("Population: ").number(s.population).done());
    page.place(Widget::Rule);
    page.note_in(white, Style::Normal, "Speed:");
    show_speeds(page, s.speed);
    page.place(Widget::Rule);
    page.offer(Widget::Button(Tone::Plain), s.mode.as_str(), HudAction::CycleMode);
    page.place(Widget::Rule);
    let build = if s.auto_build {
        "Build: ON"
    } else {
        "Build: OFF"
    };
    show_flag(page, s.auto_build, Tone::Rgb(60, 180, 80), build, HudAction::ToggleBuild);
    page.place(Widget::Rule);
    show_flag(page, s.tech_open, Tone::Rgb(140, 100, 200), "Tech", HudAction::ToggleTech);
    page.place(Widget::Rule);
    let drafted = some_drafted(&s.selected);
    let (label, fill) = if drafted {
        ("Undraft (R)", Tone::Rgb(200, 70, 50))
    } else {
        ("Draft (R)", Tone::Gray(60))
    };
    page.offer(Widget::Switch(fill, s.selected.len() > 0), label, HudAction::Draft);
    page.place(Widget::Rule);
}

fn show_report(page: &mut Page<HudAction>, s: &HudSheet)
    ensures
        final(page).shown() == report_rows(old(page).shown(), *s),
{
    let n: u64 = count_hunters(&s.people, s.faction_id);
    let none: Option<HuntOrder> = None;
    let (unlocked, order): (bool, &Option<HuntOrder>) = match &s.faction {
        Some(f) => (f.hunting_unlocked, &f.order),
        None => (false, &none),
    };
    page.note_in(Tone::Rgb(255, 255, 255), Style::Normal, "Hunters:");
    let doing = order_line(order);
    let tone = if unlocked {
        Tone::Rgb(255, 255, 255)
    } else {
        Tone::Gray(160)
    };
    page.say_in(
        tone,
        Style::Normal,
        Text::blank().number(n).with(" · ").with(doing.as_str()).done(),
    );
    page.offer(
        Widget::Switch(Tone::Rgb(180, 100, 60), unlocked && n > 0),
        "Muster",
        HudAction::Muster,
    );
    page.place(Widget::Rule);
    show_flag(page, s.debug_open, Tone::Rgb(200, 100, 60), "Debug", HudAction::ToggleDebug);
    page.place(Widget::Rule);
    let season = match s.season {
        Season::Spring => Tone::Rgb(100, 220, 100),
        Season::Summer => Tone::Rgb(255, 220, 50),
        Season::Autumn => Tone::Rgb(230, 130, 30),
        Season::Winter => Tone::Rgb(180, 220, 255),
    };
    page.say_in(
        season,
        Style::Normal,
        Text::of(s.season_name.as_str()).with(" Day ").number(s.day as u64).done(),
    );
    page.place(Widget::Rule);
    page.say_in(Tone::Gray(160), Style::Normal, Text::of("Tick: ").number(s.tick).done());
    page.place(Widget::Rule);
    if s.view_z == i32::MAX {
        page.note_in(Tone::Gray(160), Style::Normal, "Z: Surface");
    } else {
        page.say_in(
            Tone::Rgb(255, 200, 80),
            Style::Normal,
            Text::of("Z: ").signed(s.view_z as i64).with(" (PgUp/PgDn)").done(),
        );
    }
    page.place(Widget::End);
}

fn rank_of(goods: &Vec<Stored>, i: usize) -> (n: usize)
    requires
        i < goods@.len(),
    ensures
        n == name_rank(goods@, i as int),
        n <= goods@.len(),
{
    let ghost p = |j: int| text_before(goods@[j].name@, goods@[i as int].name@);
    let mut n: usize = 0;
    let mut j: usize = 0;
    while j < goods.len()
        invariant
            j <= goods.len(),
            i < goods@.len(),
            n <= j,
            p == (|j: int| text_before(goods@[j].name@, goods@[i as int].name@)),
            n == count(j as int, p),
        decreases goods.len() - j,
    {
        if is_before(goods[j].name.as_str(), goods[i].name.as_str()) {
            n += 1;
        }
        j += 1;
    }
    n
}

fn goods_line(start: Text, goods: &Vec<Stored>) -> (s: String)
    ensures
        s@ == start@ + goods_text(
            goods@,
            order_of(name_keys(goods@)),
            goods@.len() as int,
        ),
{
    let mut keys: Vec<Key> = Vec::new();
    let mut i: usize = 0;
    while i < goods.len()
        invariant
            i <= goods.len(),
            keys@ == name_keys(goods@).take(i as int),
        decreases goods.len() - i,
    {
        let r: usize = rank_of(goods, i);
        keys.push(rising(r as u64));
        i += 1;
        assert(keys@ =~= name_keys(goods@).take(i as int));
    }
    assert(keys@ =~= name_keys(goods@));
    let order = order_by_keys(&keys);
    proof {
        ordering_is_stable(keys@);
    }
    let ghost before = start@;
    let mut t = start;
    let mut i: usize = 0;
    assert(t@ =~= before + goods_text(goods@, order@, 0));
    while i < goods.len()
        invariant
            i <= goods.len(),
            order@.len() == goods@.len(),
            order@ == order_of(name_keys(goods@)),
            forall|j: int| 0 <= j < order@.len() ==> #[trigger] order@[j] < goods@.len(),
            t@ == before + goods_text(goods@, order@, i as int),
        decreases goods.len() - i,
    {
        let g = &goods[order[i]];
        if g.qty > 0 {
            t = t.with("  |  ").with(g.name.as_str()).with(": ").number(g.qty as u64);
        }
        i += 1;
        assert(t@ =~= before + goods_text(goods@, order@, i as int));
    }
    t.done()
}

/// The bar at the top of the screen.
pub fn hud_system(s: &HudSheet) -> (page: Page<HudAction>)
    ensures
        page.shown() == hud_rows(*s),
{
    let mut page: Page<HudAction> = Page::new();
    show_controls(&mut page, s);
    show_report(&mut page, s);
    match &s.faction {
        Some(f) => {
            if s.faction_id != 0 {
                let t = Text::of("Your Faction #").number(s.faction_id as u64).with(
                    ":  food: ",
                ).with(f.food.as_str()).with("  |  members: ").number(f.members as u64);
                page.say_in(Tone::Rgb(140, 215, 255), Style::Normal, goods_line(t, &f.goods));
            }
        },
        None => {},
    }
    page
}

/// The goods of a faction stand in the order of their names.
pub proof fn goods_stand_by_name(goods: Seq<Stored>, a: int, b: int)
    requires
        goods.len() <= usize::MAX,
        0 <= a < b < goods.len(),
    ensures
        !text_before(
            goods[order_of(name_keys(goods))[b] as int].name@,
            goods[order_of(name_keys(goods))[a] as int].name@,
        ),
{
    let keys = name_keys(goods);
    ordering_is_stable(keys);
    let i = order_of(keys)[a] as int;
    let j = order_of(keys)[b] as int;
    assert(follows(keys, order_of(keys)[a], order_of(keys)[b]));
    let n = goods.len() as int;
    let p = |k: int| text_before(goods[k].name@, goods[i].name@);
    let q = |k: int| text_before(goods[k].name@, goods[j].name@);
    count_bounds(n, p);
    count_bounds(n, q);
    if text_before(goods[j].name@, goods[i].name@) {
        assert forall|k: int| 0 <= k < n && #[trigger] q(k) implies p(k) by {
            texts_are_ordered(goods[k].name@, goods[j].name@, goods[i].name@);
        }
        texts_are_ordered(goods[j].name@, goods[j].name@, goods[i].name@);
        fewer_match(n, q, p, j);
    }
}

proof fn fewer_match(n: int, q: spec_fn(int) -> bool, p: spec_fn(int) -> bool, j: int)
    requires
        forall|k: int| 0 <= k < n && #[trigger] q(k) ==> p(k),
    ensures
        count(n, q) <= count(n, p),
        0 <= j < n && p(j) && !q(j) ==> count(n, q) < count(n, p),
    decreases n,
{
    if n > 0 {
        fewer_match(n - 1, q, p, j);
    }
}

/// A selected entity.
#[derive(Clone, Copy, Debug, PartialEq, Eq, Structural)]
pub struct SelectedUnit {
    pub entity: Entity,
    pub faction: Option<u32>,
    pub drafted: bool,
}

/// What becomes of the selected people.
#[derive(Debug)]
pub enum DraftOrder {
    Unchanged,
    /// These are drafted and drop what they planned.
    Draft(Vec<Entity>),
    /// These are released; they fall idle and lose their targets.
    Release(Vec<Entity>),
}

/// The selected people of a faction.
pub open spec fn own_units(selected: Seq<SelectedUnit>, faction: u32) -> Seq<Entity> {
    collect(
        selected.len() as int,
        |i: int| selected[i].faction == Some(faction),
        |i: int| selected[i].entity,
    )
}

/// Some selected person of a faction is not drafted yet.
pub open spec fn any_free(selected: Seq<SelectedUnit>, faction: u32) -> bool {
    exists|i: int|
        0 <= i < selected.len() && (#[trigger] selected[i]).faction == Some(faction)
            && !selected[i].drafted
}

/// What a press of the button or of the key does to the selected people: while any of the
/// player's people is not drafted, all of them are drafted; otherwise all are released. The key
/// counts only while nobody is typing.
pub fn apply_draft_toggle_system(
    pressed: bool,
    key: bool,
    typing: bool,
    selected: &Vec<SelectedUnit>,
    faction: u32,
) -> (r: DraftOrder)
    ensures
        ({
            let asked = pressed || (key && !typing);
            let own = own_units(selected@, faction);
            match r {
                DraftOrder::Unchanged => !asked || own.len() == 0,
                DraftOrder::Draft(list) => asked && own.len() > 0 && list@ == own && any_free(
                    selected@,
                    faction,
                ),
                DraftOrder::Release(list) => asked && own.len() > 0 && list@ == own && !any_free(
                    selected@,
                    faction,
                ),
            }
        }),
{
    if !(pressed || (key && !typing)) {
        return DraftOrder::Unchanged;
    }
    let ghost p = |i: int| selected@[i].faction == Some(faction);
    let ghost mk = |i: int| selected@[i].entity;
    let mut own: Vec<Entity> = Vec::new();
    let mut free = false;
    let mut i: usize = 0;
    while i < selected.len()
        invariant
            i <= selected.len(),
            p == (|i: int| selected@[i].faction == Some(faction)),
            mk == (|i: int| selected@[i].entity),
            own@ == collect(i as int, p, mk),
            free <==> exists|j: int|
                0 <= j < i && (#[trigger] selected@[j]).faction == Some(faction)
                    && !selected@[j].drafted,
        decreases selected.len() - i,
    {
        let u = selected[i];
        let mine = match u.faction {
            Some(f) => f == faction,
            None => false,
        };
        if mine {
            own.push(u.entity);
            if !u.drafted {
                free = true;
                assert(selected@[i as int].faction == Some(faction));
            }
        }
        i += 1;
    }
    if own.len() == 0 {
        DraftOrder::Unchanged
    } else if free {
        DraftOrder::Draft(own)
    } else {
        DraftOrder::Release(own)
    }
}

/// One more person counts among a faction's hunters exactly when they hunt and belong to it.
pub proof fn hunters_count_for_their_faction(people: Seq<Tradesman>, who: Tradesman, faction: u32)
    ensures
        hunters(Seq::empty(), faction) == 0,
        hunters(people.push(who), faction) == hunters(people, faction) + (if who.hunter
            && who.faction == faction {
            1int
        } else {
            0
        }),
{
    let n = people.len() as int;
    let p = |i: int| people[i].hunter && people[i].faction == faction;
    let q = |i: int| people.push(who)[i].hunter && people.push(who)[i].faction == faction;
    assert forall|i: int| 0 <= i < n implies #[trigger] p(i) == q(i) by {
        assert(people.push(who)[i] == people[i]);
    }
    hunts_agree(n, p, q);
    assert(people.push(who)[n] == who);
}

proof fn hunts_agree(n: int, p: spec_fn(int) -> bool, q: spec_fn(int) -> bool)
    requires
        forall|i: int| 0 <= i < n ==> #[trigger] p(i) == q(i),
    ensures
        count(n, p) == count(n, q),
    decreases n,
{
    if n > 0 {
        hunts_agree(n - 1, p, q);
        assert(p(n - 1) == q(n - 1));
    }
}

/// A party is shown as large as it is, but never larger than it is meant to be.
pub proof fn parties_show_no_more_than_wanted(
    species: String,
    target_party_size: u32,
    mustered: u64,
    deployed: bool,
)
    ensures
        ({
            let t = order_text(
                Some(HuntOrder::Hunt { species, target_party_size, mustered, deployed }),
            );
            let head = if deployed {
                "Deployed "@
            } else {
                "Hunting "@
            };
            &&& mustered <= target_party_size ==> t == head + species@ + " "@ + digits(
                mustered as nat,
            ) + "/"@ + digits(target_party_size as nat)
            &&& mustered > target_party_size ==> t == head + species@ + " "@ + digits(
                target_party_size as nat,
            ) + "/"@ + digits(target_party_size as nat)
        }),
        order_text(Some(HuntOrder::Scout)) == "Scouting"@,
        order_text(None) == "Idle"@,
{
}

/// A faction on record gives its own order and its own leave to hunt; one that is not has neither.
pub proof fn only_factions_on_record_hunt(f: Option<HudFaction>)
    ensures
        f is None ==> hunt_order_of(f) is None && !may_hunt(f),
        f matches Some(g) ==> hunt_order_of(f) == g.order && may_hunt(f) == g.hunting_unlocked,
{
}

/// Only the selected who belong to the faction are drafted or released, each of them.
pub proof fn drafts_are_of_ones_own(
    selected: Seq<SelectedUnit>,
    faction: u32,
    e: Entity,
    k: int,
)
    ensures
        0 <= k < selected.len() && selected[k].faction == Some(faction) ==> own_units(
            selected,
            faction,
        ).contains(selected[k].entity),
        own_units(selected, faction).contains(e) ==> exists|i: int|
            0 <= i < selected.len() && (#[trigger] selected[i]).entity == e && selected[i].faction
                == Some(faction),
        0 <= k < selected.len() && selected[k].faction == Some(faction) && !selected[k].drafted
            ==> any_free(selected, faction),
        (forall|i: int|
            0 <= i < selected.len() && (#[trigger] selected[i]).faction == Some(faction)
                ==> selected[i].drafted) ==> !any_free(selected, faction),
{
    let n = selected.len() as int;
    let p = |i: int| selected[i].faction == Some(faction);
    let mk = |i: int| selected[i].entity;
    if 0 <= k < n && selected[k].faction == Some(faction) {
        crate::seqs::collect_contains(n, p, mk, selected[k].entity);
        assert(p(k) && mk(k) == selected[k].entity);
    }
    crate::seqs::collect_contains(n, p, mk, e);
    if own_units(selected, faction).contains(e) {
        let i = choose|i: int| 0 <= i < n && p(i) && #[trigger] mk(i) == e;
        assert(selected[i].entity == e);
    }
}

} // verus!
