//! The parts of the inspector's page on wages, offspring and friends.

use vstd::prelude::*;
use vstd::string::*;
use crate::geometry::{max, min};
use crate::inspect_person::{or_dash, InspectorActionKind, PersonRows};
use crate::page::{line, mark, styled, Fill, Page, Shown, Style, Tone, Widget};
use crate::seqs::count;
use crate::sorting::{order_by_keys, order_of, ordering_is_stable, Key};
use crate::text::{digits, padded, signed_numeral, Text};

verus! {

/// A payment.
#[derive(Debug)]
pub struct Payout {
    pub tick: u32,
    pub job: String,
    pub resource: Option<String>,
    /// The amount, as it is to be read.
    pub amount: String,
}

/// The payments on record, oldest first, and their sums as they are to be read.
#[derive(Debug)]
pub struct EarningsSheet {
    pub recent: Vec<Payout>,
    /// The sum of the payments of the last day.
    pub day_total: String,
    pub total: String,
}

/// What a person is inclined to.
#[derive(Debug)]
pub struct Disposition {
    pub entrepreneurial: u8,
    pub gregariousness: u8,
    pub curiosity: u8,
    pub martial: u8,
    /// What the inclinations do to the wish for income, as it is to be read.
    pub earn_income: String,
}

/// What a profession would bring a person. The figures are given as they are to be read.
#[derive(Debug)]
pub struct Prospect {
    pub profession: String,
    pub expected: String,
    pub wage: String,
    pub competence: String,
    pub capital: String,
    /// It is the profession that the person has.
    pub own: bool,
    /// It would bring nothing.
    pub worthless: bool,
}

/// What a kind of work pays. A greater rank pays more.
#[derive(Debug)]
pub struct WageRow {
    pub rank: i32,
    pub kind: String,
    pub resource: Option<String>,
    pub per_day: String,
    pub samples: u32,
}

/// What a kind of work is said to pay in some faction. A greater rank pays more.
#[derive(Debug)]
pub struct RumourRow {
    pub rank: i32,
    pub faction: u32,
    pub kind: String,
    pub resource: Option<String>,
    pub per_day: String,
    /// The age of the news in days, as it is to be read.
    pub days_old: String,
}

/// What is known of a person's income. The wages and rumours stand in no particular order.
#[derive(Debug)]
pub struct WageSheet {
    pub earnings: Option<EarningsSheet>,
    pub disposition: Disposition,
    pub solo: bool,
    /// The village to which the person's faction belongs, and whether it is on record.
    pub village: u32,
    pub village_known: bool,
    pub prospects: Vec<Prospect>,
    pub wages: Vec<WageRow>,
    pub rumours: Option<Vec<RumourRow>>,
}

/// How many rows of wages are shown.
pub const WAGE_ROWS: usize = 6;

/// The tick at which the last day began.
pub open spec fn window_start(now: u64, day: u32) -> int {
    max(now as int % 0x1_0000_0000 - day as int, 0)
}

/// A payment was made within the last day.
pub open spec fn within_day(p: Payout, now: u64, day: u32) -> bool {
    p.tick >= window_start(now, day)
}

/// Whether a payment of tick `tick` was made within the last day.
pub fn paid_within_day(tick: u32, now: u64, day: u32) -> (r: bool)
    ensures
        r == (tick >= window_start(now, day)),
{
    let wrapped: u32 = (now % 0x1_0000_0000) as u32;
    tick >= wrapped.saturating_sub(day)
}

/// How many payments were made within the last day.
pub open spec fn paid_lately(list: Seq<Payout>, now: u64, day: u32) -> nat {
    count(list.len() as int, |i: int| within_day(list[i], now, day))
}

/// The rows on payments.
pub open spec fn earnings_rows(
    p: PersonRows,
    e: Option<EarningsSheet>,
    now: u64,
    day: u32,
) -> PersonRows {
    match e {
        Some(e) => {
            let p = p.push(
                line(
                    "Earnings (24h): "@ + e.day_total@ + " ("@ + digits(
                        paid_lately(e.recent@, now, day),
                    ) + " payouts) • ring: "@ + e.total@,
                ),
            );
            if e.recent@.len() > 0 {
                let l = e.recent@.last();
                p.push(
                    styled(
                        Tone::Gray(170),
                        Style::Small,
                        "  last: "@ + l.job@ + " "@ + or_dash(l.resource) + " +"@ + l.amount@
                            + " @"@ + digits(l.tick as nat),
                    ),
                )
            } else {
                p
            }
        },
        None => p.push(styled(Tone::Gray(140), Style::Small, "Earnings: (no ring component)"@)),
    }
}

/// The row on a profession: the own one stands out, a worthless one stands back.
pub open spec fn prospect_row(q: Prospect) -> Shown<InspectorActionKind> {
    styled(
        if q.own {
            Tone::Rgb(200, 220, 120)
        } else if q.worthless {
            Tone::Gray(130)
        } else {
            Tone::Plain
        },
        Style::Small,
        "  "@ + q.profession@ + ": EV "@ + q.expected@ + " (wage "@ + q.wage@ + " × comp "@
            + q.competence@ + " × cap "@ + q.capital@ + ")"@,
    )
}

/// The rows on the first `n` professions.
pub open spec fn prospect_rows(p: PersonRows, list: Seq<Prospect>, n: int) -> PersonRows
    decreases n,
{
    if n <= 0 {
        p
    } else {
        prospect_rows(p, list, n - 1).push(prospect_row(list[n - 1]))
    }
}

/// A key that puts greater ranks first.
pub open spec fn rank_key(rank: i32) -> Key {
    ((-rank) as i64, 0i64)
}

/// The keys that put the best wages first.
pub open spec fn wage_keys(list: Seq<WageRow>) -> Seq<Key> {
    Seq::new(list.len(), |i: int| rank_key(list[i].rank))
}

/// The keys that put the best rumours first.
pub open spec fn rumour_keys(list: Seq<RumourRow>) -> Seq<Key> {
    Seq::new(list.len(), |i: int| rank_key(list[i].rank))
}

/// The rows on the first `n` wages of an order.
pub open spec fn wage_rows(
    p: PersonRows,
    list: Seq<WageRow>,
    order: Seq<usize>,
    n: int,
) -> PersonRows
    decreases n,
{
    if n <= 0 {
        p
    } else {
        let w = list[order[n - 1] as int];
        wage_rows(p, list, order, n - 1).push(
            styled(
                Tone::Plain,
                Style::Small,
                "  "@ + w.kind@ + "/"@ + or_dash(w.resource) + ": "@ + w.per_day@ + "/day (n="@
                    + digits(w.samples as nat) + ")"@,
            ),
        )
    }
}

/// The rows on the first `n` rumours of an order.
pub open spec fn rumour_rows(
    p: PersonRows,
    list: Seq<RumourRow>,
    order: Seq<usize>,
    n: int,
) -> PersonRows
    decreases n,
{
    if n <= 0 {
        p
    } else {
        let w = list[order[n - 1] as int];
        rumour_rows(p, list, order, n - 1).push(
            styled(
                Tone::Plain,
                Style::Small,
                "  #"@ + digits(w.faction as nat) + " "@ + w.kind@ + "/"@ + or_dash(w.resource)
                    + ": "@ + w.per_day@ + "/day ("@ + w.days_old@ + "d old)"@,
            ),
        )
    }
}

/// The rows on what a village pays: the best six, or that nothing was paid yet.
pub open spec fn village_rows(p: PersonRows, w: WageSheet) -> PersonRows {
    if w.wages@.len() > 0 {
        wage_rows(
            p.push(mark(Widget::Rule)).push(
                styled(
                    Tone::Plain,
                    Style::StrongSmall,
                    "Faction #"@ + digits(w.village as nat) + " wage signal"@,
                ),
            ),
            w.wages@,
            order_of(wage_keys(w.wages@)),
            min(w.wages@.len() as int, WAGE_ROWS as int),
        )
    } else if !w.solo {
        p.push(
            styled(Tone::Gray(140), Style::Small, "Faction wage signal: (no payouts yet)"@),
        )
    } else {
        p
    }
}

/// The part of the page on wages, without the frame.
pub open spec fn labor_rows(p: PersonRows, w: WageSheet, now: u64, day: u32) -> PersonRows {
    let d = w.disposition;
    let p = earnings_rows(p, w.earnings, now, day).push(mark(Widget::Rule)).push(
        styled(
            Tone::Gray(170),
            Style::Small,
            "Disposition: ent "@ + digits(d.entrepreneurial as nat) + " • greg "@ + digits(
                d.gregariousness as nat,
            ) + " • cur "@ + digits(d.curiosity as nat) + " • mar "@ + digits(d.martial as nat),
        ),
    );
    let p = if !w.solo && w.village_known {
        prospect_rows(
            p.push(mark(Widget::Rule)).push(
                styled(
                    Tone::Plain,
                    Style::StrongSmall,
                    "Expected wage per day (EarnIncome ×"@ + d.earn_income@ + ")"@,
                ),
            ),
            w.prospects@,
            w.prospects@.len() as int,
        )
    } else {
        p
    };
    let p = if w.village_known {
        village_rows(p, w)
    } else {
        p
    };
    match w.rumours {
        Some(list) => if list@.len() > 0 {
            rumour_rows(
                p.push(mark(Widget::Rule)).push(
                    styled(Tone::Plain, Style::StrongSmall, "Perceived wages (gossip)"@),
                ),
                list@,
                order_of(rumour_keys(list@)),
                min(list@.len() as int, WAGE_ROWS as int),
            )
        } else {
            p
        },
        None => p,
    }
}

/// The part of the page on wages.
pub open spec fn wage_part(p: PersonRows, w: WageSheet, now: u64, day: u32) -> PersonRows {
    labor_rows(
        p.push((Widget::Section(Tone::Plain, false), "Wage & Labor"@, None)),
        w,
        now,
        day,
    ).push(mark(Widget::EndSection))
}

fn dash(t: &Option<String>) -> (s: &str)
    ensures
        s@ == or_dash(*t),
{
    match t {
        Some(s) => s.as_str(),
        None => "—",
    }
}

fn show_earnings(
    page: &mut Page<InspectorActionKind>,
    e: &Option<EarningsSheet>,
    now: u64,
    day: u32,
)
    ensures
        final(page).shown() == earnings_rows(old(page).shown(), *e, now, day),
{
    match e {
        Some(e) => {
            let ghost p = |i: int| within_day(e.recent@[i], now, day);
            let mut n: u64 = 0;
            let mut i: usize = 0;
            while i < e.recent.len()
                invariant
                    i <= e.recent.len(),
                    n <= i,
                    p == (|i: int| within_day(e.recent@[i], now, day)),
                    n == count(i as int, p),
                decreases e.recent.len() - i,
            {
                if paid_within_day(e.recent[i].tick, now, day) {
                    n += 1;
                }
                i += 1;
            }
            page.say(
                Text::of("Earnings (24h): ").with(e.day_total.as_str()).with(" (").number(n).with(
                    " payouts) • ring: ",
                ).with(e.total.as_str()).done(),
            );
            if e.recent.len() > 0 {
                let l = &e.recent[e.recent.len() - 1];
                page.say_in(
                    Tone::Gray(170),
                    Style::Small,
                    Text::of("  last: ").with(l.job.as_str()).with(" ").with(
                        dash(&l.resource),
                    ).with(" +").with(l.amount.as_str()).with(" @").number(l.tick as u64).done(),
                );
            }
        },
        None => page.note_in(Tone::Gray(140), Style::Small, "Earnings: (no ring component)"),
    }
}

fn show_prospects(page: &mut Page<InspectorActionKind>, list: &Vec<Prospect>)
    ensures
        final(page).shown() == prospect_rows(old(page).shown(), list@, list@.len() as int),
{
    let ghost start = page.shown();
    let mut i: usize = 0;
    while i < list.len()
        invariant
            i <= list.len(),
            page.shown() == prospect_rows(start, list@, i as int),
        decreases list.len() - i,
    {
        let q = &list[i];
        let tone = if q.own {
            Tone::Rgb(200, 220, 120)
        } else if q.worthless {
            Tone::Gray(130)
        } else {
            Tone::Plain
        };
        page.say_in(
            tone,
            Style::Small,
            Text::of("  ").with(q.profession.as_str()).with(": EV ").with(
                q.expected.as_str(),
            ).with(" (wage ").with(q.wage.as_str()).with(" × comp ").with(
                q.competence.as_str(),
            ).with(" × cap ").with(q.capital.as_str()).with(")").done(),
        );
        i += 1;
    }
}

fn best_first(rank: i32) -> (k: Key)
    ensures
        k == rank_key(rank),
{
    (-(rank as i64), 0i64)
}

fn show_wages(page: &mut Page<InspectorActionKind>, list: &Vec<WageRow>)
    ensures
        final(page).shown() == wage_rows(
            old(page).shown(),
            list@,
            order_of(wage_keys(list@)),
            min(list@.len() as int, WAGE_ROWS as int),
        ),
{
    let mut keys: Vec<Key> = Vec::new();
    let mut i: usize = 0;
    while i < list.len()
        invariant
            i <= list.len(),
            keys@ == wage_keys(list@).take(i as int),
        decreases list.len() - i,
    {
        keys.push(best_first(list[i].rank));
        i += 1;
        assert(keys@ =~= wage_keys(list@).take(i as int));
    }
    assert(keys@ =~= wage_keys(list@));
    let order = order_by_keys(&keys);
    proof {
        ordering_is_stable(keys@);
    }
    let n: usize = if list.len() < WAGE_ROWS {
        list.len()
    } else {
        WAGE_ROWS
    };
    let ghost start = page.shown();
    let mut i: usize = 0;
    while i < n
        invariant
            i <= n <= list@.len(),
            order@.len() == list@.len(),
            order@ == order_of(wage_keys(list@)),
            forall|j: int| 0 <= j < order@.len() ==> #[trigger] order@[j] < list@.len(),
            page.shown() == wage_rows(start, list@, order@, i as int),
        decreases n - i,
    {
        let w = &list[order[i]];
        page.say_in(
            Tone::Plain,
            Style::Small,
            Text::of("  ").with(w.kind.as_str()).with("/").with(dash(&w.resource)).with(
                ": ",
            ).with(w.per_day.as_str()).with("/day (n=").number(w.samples as u64).with(")").done(),
        );
        i += 1;
    }
}

fn show_rumours(page: &mut Page<InspectorActionKind>, list: &Vec<RumourRow>)
    ensures
        final(page).shown() == rumour_rows(
            old(page).shown(),
            list@,
            order_of(rumour_keys(list@)),
            min(list@.len() as int, WAGE_ROWS as int),
        ),
{
    let mut keys: Vec<Key> = Vec::new();
    let mut i: usize = 0;
    while i < list.len()
        invariant
            i <= list.len(),
            keys@ == rumour_keys(list@).take(i as int),
        decreases list.len() - i,
    {
        keys.push(best_first(list[i].rank));
        i += 1;
        assert(keys@ =~= rumour_keys(list@).take(i as int));
    }
    assert(keys@ =~= rumour_keys(list@));
    let order = order_by_keys(&keys);
    proof {
        ordering_is_stable(keys@);
    }
    let n: usize = if list.len() < WAGE_ROWS {
        list.len()
    } else {
        WAGE_ROWS
    };
    let ghost start = page.shown();
    let mut i: usize = 0;
    while i < n
        invariant
            i <= n <= list@.len(),
            order@.len() == list@.len(),
            order@ == order_of(rumour_keys(list@)),
            forall|j: int| 0 <= j < order@.len() ==> #[trigger] order@[j] < list@.len(),
            page.shown() == rumour_rows(start, list@, order@, i as int),
        decreases n - i,
    {
        let w = &list[order[i]];
        page.say_in(
            Tone::Plain,
            Style::Small,
            Text::of("  #").number(w.faction as u64).with(" ").with(w.kind.as_str()).with(
                "/",
            ).with(dash(&w.resource)).with(": ").with(w.per_day.as_str()).with("/day (").with(
                w.days_old.as_str(),
            ).with("d old)").done(),
        );
        i += 1;
    }
}

/// Shows what a person earns and could earn, at tick `now` with `day` ticks to a day.
pub fn wage_labor_section(
    page: &mut Page<InspectorActionKind>,
    w: &WageSheet,
    now: u64,
    day: u32,
)
    ensures
        final(page).shown() == wage_part(old(page).shown(), *w, now, day),
{
    page.section(Tone::Plain, false, "Wage & Labor");
    show_earnings(page, &w.earnings, now, day);
    page.place(Widget::Rule);
    let d = &w.disposition;
    page.say_in(
        Tone::Gray(170),
        Style::Small,
        Text::of("Disposition: ent ").number(d.entrepreneurial as u64).with(" • greg ").number(
            d.gregariousness as u64,
        ).with(" • cur ").number(d.curiosity as u64).with(" • mar ").number(
            d.martial as u64,
        ).done(),
    );
    if !w.solo && w.village_known {
        page.place(Widget::Rule);
        page.say_in(
            Tone::Plain,
            Style::StrongSmall,
            Text::of("Expected wage per day (EarnIncome ×").with(d.earn_income.as_str()).with(
                ")",
            ).done(),
        );
        show_prospects(page, &w.prospects);
    }
    if w.village_known {
        if w.wages.len() > 0 {
            page.place(Widget::Rule);
            page.say_in(
                Tone::Plain,
                Style::StrongSmall,
                Text::of("Faction #").number(w.village as u64).with(" wage signal").done(),
            );
            show_wages(page, &w.wages);
        } else if !w.solo {
            page.note_in(Tone::Gray(140), Style::Small, "Faction wage signal: (no payouts yet)");
        }
    }
    match &w.rumours {
        Some(list) => {
            if list.len() > 0 {
                page.place(Widget::Rule);
                page.note_in(Tone::Plain, Style::StrongSmall, "Perceived wages (gossip)");
                show_rumours(page, list);
            }
        },
        None => {},
    }
    page.place(Widget::EndSection);
}

/// A pregnancy.
#[derive(Debug)]
pub struct PregnancyLine {
    pub ticks_remaining: u32,
    /// The seasons that remain, as they are to be read.
    pub seasons: String,
    pub father: Option<String>,
}

/// With whom a person sleeps.
#[derive(Debug)]
pub struct CoSleep {
    pub partner: Option<String>,
    pub ticks: u32,
}

/// What is known of a person's offspring to be.
#[derive(Debug)]
pub struct ReproductionSheet {
    pub female: bool,
    pub pregnancy: Option<PregnancyLine>,
    pub co_sleep: Option<CoSleep>,
    pub cooldown: Option<u32>,
}

/// The part of the page on offspring; a pregnancy lasts `whole` ticks.
pub open spec fn reproduction_rows(p: PersonRows, r: ReproductionSheet, whole: u32) -> PersonRows {
    let p = p.push((Widget::Section(Tone::Plain, false), "Reproduction"@, None));
    let p = match r.pregnancy {
        Some(g) => p.push(
            styled(
                Tone::Rgb(220, 130, 200),
                Style::Normal,
                "Pregnant: "@ + digits(max(whole - g.ticks_remaining, 0) as nat) + "/"@ + digits(
                    whole as nat,
                ) + " ticks ("@ + g.seasons@ + " seasons remaining)"@,
            ),
        ).push(line("Father: "@ + or_dash(g.father))),
        None => if r.female {
            p.push(styled(Tone::Gray(140), Style::Normal, "Not pregnant"@))
        } else {
            p
        },
    };
    let p = match r.co_sleep {
        Some(c) => p.push(
            line(
                "Co-sleep partner: "@ + or_dash(c.partner) + " (ticks: "@ + digits(c.ticks as nat)
                    + ")"@,
            ),
        ),
        None => p,
    };
    let p = if r.female {
        p
    } else {
        match r.cooldown {
            Some(n) => if n > 0 {
                p.push(
                    styled(
                        Tone::Rgb(180, 140, 120),
                        Style::Normal,
                        "Refractory: "@ + digits(n as nat) + " ticks remaining"@,
                    ),
                )
            } else {
                p.push(styled(Tone::Gray(140), Style::Normal, "Refractory: ready"@))
            },
            None => p,
        }
    };
    p.push(mark(Widget::EndSection))
}

/// Shows what is known of offspring to be.
pub fn show_reproduction(
    page: &mut Page<InspectorActionKind>,
    r: &ReproductionSheet,
    whole: u32,
)
    ensures
        final(page).shown() == reproduction_rows(old(page).shown(), *r, whole),
{
    page.section(Tone::Plain, false, "Reproduction");
    match &r.pregnancy {
        Some(g) => {
            page.say_in(
                Tone::Rgb(220, 130, 200),
                Style::Normal,
                Text::of("Pregnant: ").number(whole.saturating_sub(g.ticks_remaining) as u64).with(
                    "/",
                ).number(whole as u64).with(" ticks (").with(g.seasons.as_str()).with(
                    " seasons remaining)",
                ).done(),
            );
            page.say(Text::of("Father: ").with(dash(&g.father)).done());
        },
        None => {
            if r.female {
                page.note_in(Tone::Gray(140), Style::Normal, "Not pregnant");
            }
        },
    }
    match &r.co_sleep {
        Some(c) => page.say(
            Text::of("Co-sleep partner: ").with(dash(&c.partner)).with(" (ticks: ").number(
                c.ticks as u64,
            ).with(")").done(),
        ),
        None => {},
    }
    if !r.female {
        match r.cooldown {
            Some(n) => {
                if n > 0 {
                    page.say_in(
                        Tone::Rgb(180, 140, 120),
                        Style::Normal,
                        Text::of("Refractory: ").number(n as u64).with(" ticks remaining").done(),
                    );
                } else {
                    page.note_in(Tone::Gray(140), Style::Normal, "Refractory: ready");
                }
            },
            None => {},
        }
    }
    page.place(Widget::EndSection);
}

/// How a person likes another.
#[derive(Debug)]
pub struct Relation {
    pub name: Option<String>,
    pub affinity: i8,
}

/// The keys that put the dearest first.
pub open spec fn relation_keys(list: Seq<Relation>) -> Seq<Key> {
    Seq::new(list.len(), |i: int| ((-list[i].affinity) as i64, 0i64))
}

/// The rows on the first `n` acquaintances of an order.
pub open spec fn relation_rows(
    p: PersonRows,
    list: Seq<Relation>,
    order: Seq<usize>,
    n: int,
) -> PersonRows
    decreases n,
{
    if n <= 0 {
        p
    } else {
        let r = list[order[n - 1] as int];
        relation_rows(p, list, order, n - 1).push(mark(Widget::Begin)).push(
            line(
                padded(
                    match r.name {
                        Some(s) => s@,
                        None => "Unknown"@,
                    },
                    12,
                ),
            ),
        ).push(mark(Widget::Bar(Fill::Affinity, (r.affinity + 128) as u32, 255))).push(
            line(signed_numeral(r.affinity as int)),
        ).push(mark(Widget::End))
    }
}

/// The part of the page on acquaintances.
pub open spec fn acquaintance_rows(p: PersonRows, list: Seq<Relation>) -> PersonRows {
    let p = p.push((Widget::Section(Tone::Plain, false), "Relationships"@, None));
    let p = if list.len() == 0 {
        p.push(styled(Tone::Gray(160), Style::Italic, "No relationships yet"@))
    } else {
        p
    };
    relation_rows(p, list, order_of(relation_keys(list)), list.len() as int).push(
        mark(Widget::EndSection),
    )
}

/// Shows whom a person knows, the dearest first.
pub fn show_relations(page: &mut Page<InspectorActionKind>, list: &Vec<Relation>)
    ensures
        final(page).shown() == acquaintance_rows(old(page).shown(), list@),
{
    page.section(Tone::Plain, false, "Relationships");
    if list.len() == 0 {
        page.note_in(Tone::Gray(160), Style::Italic, "No relationships yet");
    }
    let mut keys: Vec<Key> = Vec::new();
    let mut i: usize = 0;
    while i < list.len()
        invariant
            i <= list.len(),
            keys@ == relation_keys(list@).take(i as int),
        decreases list.len() - i,
    {
        keys.push((-(list[i].affinity as i64), 0i64));
        i += 1;
        assert(keys@ =~= relation_keys(list@).take(i as int));
    }
    assert(keys@ =~= relation_keys(list@));
    let order = order_by_keys(&keys);
    proof {
        ordering_is_stable(keys@);
    }
    let ghost start = page.shown();
    let mut i: usize = 0;
    while i < list.len()
        invariant
            i <= list.len(),
            order@.len() == list@.len(),
            order@ == order_of(relation_keys(list@)),
            forall|j: int| 0 <= j < order@.len() ==> #[trigger] order@[j] < list@.len(),
            page.shown() == relation_rows(start, list@, order@, i as int),
        decreases list.len() - i,
    {
        let r = &list[order[i]];
        page.place(Widget::Begin);
        let name = match &r.name {
            Some(s) => s.as_str(),
            None => "Unknown",
        };
        page.say(Text::blank().pad(name, 12).done());
        page.place(Widget::Bar(Fill::Affinity, (r.affinity as i32 + 128) as u32, 255));
        page.say(Text::blank().plus(r.affinity as i64).done());
        page.place(Widget::End);
        i += 1;
    }
    page.place(Widget::EndSection);
}

/// The dearest stand first.
pub proof fn dearest_first(list: Seq<Relation>, a: int, b: int)
    requires
        list.len() <= usize::MAX,
        0 <= a < b < list.len(),
    ensures
        list[order_of(relation_keys(list))[a] as int].affinity >= list[order_of(
            relation_keys(list),
        )[b] as int].affinity,
{
    let keys = relation_keys(list);
    ordering_is_stable(keys);
    assert(crate::sorting::follows(keys, order_of(keys)[a], order_of(keys)[b]));
}

/// A payment counts as of the last day when no more than a day has passed since; in the first day
/// every one does.
pub proof fn the_last_day_is_a_day(p: Payout, now: u64, day: u32)
    requires
        now <= u32::MAX,
    ensures
        within_day(p, now, day) <==> now - p.tick <= day,
        now < day ==> within_day(p, now, day),
{
}

/// Six wages are listed at most.
pub proof fn six_wages_are_listed(n: int)
    ensures
        n <= 6 ==> min(n, WAGE_ROWS as int) == n,
        n >= 6 ==> min(n, WAGE_ROWS as int) == 6,
{
}

} // verus!
