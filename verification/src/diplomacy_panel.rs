//! The panel for dealing with other factions: whom one knows, how one stands with them, what they
//! propose, and what one can propose to them.

use vstd::prelude::*;
use vstd::string::*;
use crate::page::{line, mark, styled, Page, Shown, Style, Tone, Widget};
use crate::seqs::{
    collect, collect_contains, collect_len, count_bounds, find, find_is_first, find_is_none,
};
use crate::sorting::{
    every_place_is_taken, follows, order_by_keys, order_of, ordering_is_stable, Key,
};
use crate::text::{digits, numeral, Text};

verus! {

/// A kind of treaty.
#[derive(Clone, Copy, Debug, PartialEq, Eq, Structural)]
pub enum TreatyKind {
    War,
    Alliance,
    TradePact,
    NonAggression,
}

/// The treaties between two factions.
#[derive(Clone, Copy, Debug, PartialEq, Eq, Structural)]
pub struct TreatySet {
    pub war: bool,
    pub alliance: bool,
    pub trade_pact: bool,
    pub non_aggression: bool,
}

impl TreatySet {
    pub open spec fn holds(self, kind: TreatyKind) -> bool {
        match kind {
            TreatyKind::War => self.war,
            TreatyKind::Alliance => self.alliance,
            TreatyKind::TradePact => self.trade_pact,
            TreatyKind::NonAggression => self.non_aggression,
        }
    }

    pub fn has(self, kind: TreatyKind) -> (b: bool)
        ensures
            b == self.holds(kind),
    {
        match kind {
            TreatyKind::War => self.war,
            TreatyKind::Alliance => self.alliance,
            TreatyKind::TradePact => self.trade_pact,
            TreatyKind::NonAggression => self.non_aggression,
        }
    }
}

/// No treaty at all.
pub open spec fn no_treaties() -> TreatySet {
    TreatySet { war: false, alliance: false, trade_pact: false, non_aggression: false }
}

/// How fair a proposal is.
#[derive(Clone, Copy, Debug, PartialEq, Eq, Structural)]
pub enum FairnessLabel {
    Generous,
    Fair,
    HardBargain,
    Exploitative,
}

/// What can be offered.
#[derive(Clone, Copy, Debug, PartialEq, Eq, Structural)]
pub enum Offer {
    Peace,
    TradePact,
    Alliance,
    NonAggression,
}

/// What the panel asks for.
#[derive(Clone, Copy, Debug, PartialEq, Eq, Structural)]
pub enum DiplomacyAction {
    Close,
    Focus(u32),
    Accept(u32),
    Reject(u32),
    Propose { target: u32, offer: Offer },
    DeclareWar { target: u32 },
    BreakTreaty { target: u32, treaty: TreatyKind },
}

/// The page of the panel.
pub type DiplomacyRows = Seq<Shown<DiplomacyAction>>;

/// A faction on record.
#[derive(Clone, Copy, Debug, PartialEq, Eq, Structural)]
pub struct FactionEntry {
    pub id: u32,
    pub has_parent: bool,
    /// The faction at the root of its tree.
    pub root: u32,
    /// The player's people have met its people.
    pub met: bool,
}

/// Something that happened between two factions.
#[derive(Debug)]
pub struct Incident {
    pub tick: u64,
    pub kind: String,
}

/// How the player's faction stands with another.
#[derive(Debug)]
pub struct RelationView {
    pub faction: u32,
    pub attitude: String,
    pub trust: i32,
    pub fear: i32,
    pub grievance: i32,
    pub familiarity: i32,
    pub treaties: TreatySet,
    pub last_contact_tick: u64,
    pub incidents: Vec<Incident>,
}

/// A proposal.
#[derive(Debug)]
pub struct ProposalView {
    pub id: u32,
    pub from: u32,
    pub text: String,
    pub fairness: FairnessLabel,
}

/// What the panel is made from.
#[derive(Debug)]
pub struct DiplomacySheet {
    /// The player's faction.
    pub own: u32,
    /// The number that stands for belonging to no faction.
    pub solo: u32,
    pub own_root: u32,
    pub own_has_parent: bool,
    /// The treasury, as it is to be read.
    pub treasury: String,
    pub factions: Vec<FactionEntry>,
    pub relations: Vec<RelationView>,
    /// The numbers of the proposals that wait for an answer, and the proposals themselves.
    pub inbox: Vec<u32>,
    pub proposals: Vec<ProposalView>,
}

pub open spec fn is_with(faction: u32) -> spec_fn(RelationView) -> bool {
    |r: RelationView| r.faction == faction
}

pub open spec fn is_proposal(id: u32) -> spec_fn(ProposalView) -> bool {
    |p: ProposalView| p.id == id
}

/// There were dealings with a faction.
pub open spec fn had_dealings(relations: Seq<RelationView>, faction: u32) -> bool {
    match find(relations, is_with(faction)) {
        Some(r) => r.incidents@.len() > 0 || r.last_contact_tick > 0,
        None => false,
    }
}

/// A faction belongs on the list: it is a foreign root that was met or dealt with.
pub open spec fn is_known(s: DiplomacySheet, f: FactionEntry) -> bool {
    &&& f.id != s.solo
    &&& f.id != s.own
    &&& !f.has_parent
    &&& f.root != s.own_root
    &&& (f.met || had_dealings(s.relations@, f.id))
}

/// The known factions as they are on record.
pub open spec fn known_ids(s: DiplomacySheet) -> Seq<u32> {
    collect(
        s.factions@.len() as int,
        |i: int| is_known(s, s.factions@[i]),
        |i: int| s.factions@[i].id,
    )
}

pub open spec fn id_keys(ids: Seq<u32>) -> Seq<Key> {
    Seq::new(ids.len(), |i: int| (ids[i] as i64, 0i64))
}

/// Numbers in ascending order.
pub open spec fn ascending(ids: Seq<u32>) -> Seq<u32> {
    Seq::new(ids.len(), |i: int| ids[order_of(id_keys(ids))[i] as int])
}

/// The known factions in the order of their numbers.
pub open spec fn foreign(s: DiplomacySheet) -> Seq<u32> {
    ascending(known_ids(s))
}

/// The treaties in short.
pub open spec fn summary(t: TreatySet) -> Seq<char> {
    let a = if t.war {
        "War"@
    } else {
        Seq::empty()
    };
    let b = plus(a, t.alliance, "Ally"@);
    let c = plus(b, t.trade_pact, "Trade"@);
    let d = plus(c, t.non_aggression, "NAP"@);
    if t == no_treaties() {
        "—"@
    } else {
        d
    }
}

/// A text with a word behind it, if it is wanted, and a plus sign between them.
pub open spec fn plus(s: Seq<char>, wanted: bool, word: Seq<char>) -> Seq<char> {
    if !wanted {
        s
    } else if s.len() == 0 {
        word
    } else {
        s + "+"@ + word
    }
}

/// The treaties in short.
pub fn treaty_summary(t: TreatySet) -> (s: String)
    ensures
        s@ == summary(t),
{
    proof {
        reveal_strlit("War");
        reveal_strlit("Ally");
        reveal_strlit("Trade");
        reveal_strlit("NAP");
        reveal_strlit("+");
    }
    if !t.war && !t.alliance && !t.trade_pact && !t.non_aggression {
        return "—".to_owned();
    }
    let mut s = Text::blank();
    let mut some = false;
    if t.war {
        s = s.with("War");
        some = true;
    }
    if t.alliance {
        if some {
            s = s.with("+");
        }
        s = s.with("Ally");
        some = true;
    }
    if t.trade_pact {
        if some {
            s = s.with("+");
        }
        s = s.with("Trade");
        some = true;
    }
    if t.non_aggression {
        if some {
            s = s.with("+");
        }
        s = s.with("NAP");
    }
    assert(s@ =~= summary(t));
    s.done()
}

pub open spec fn fairness_name(f: FairnessLabel) -> Seq<char> {
    match f {
        FairnessLabel::Generous => "Generous"@,
        FairnessLabel::Fair => "Fair"@,
        FairnessLabel::HardBargain => "Hard Bargain"@,
        FairnessLabel::Exploitative => "Bad Deal"@,
    }
}

pub open spec fn fairness_tone(f: FairnessLabel) -> Tone {
    match f {
        FairnessLabel::Generous => Tone::Rgb(120, 220, 140),
        FairnessLabel::Fair => Tone::Rgb(220, 220, 220),
        FairnessLabel::HardBargain => Tone::Rgb(220, 180, 90),
        FairnessLabel::Exploitative => Tone::Rgb(220, 80, 80),
    }
}

/// The word and the colour for how fair a proposal is.
pub fn fairness_color_label(f: FairnessLabel) -> (r: (&'static str, Tone))
    ensures
        r.0@ == fairness_name(f),
        r.1 == fairness_tone(f),
{
    match f {
        FairnessLabel::Generous => ("Generous", Tone::Rgb(120, 220, 140)),
        FairnessLabel::Fair => ("Fair", Tone::Rgb(220, 220, 220)),
        FairnessLabel::HardBargain => ("Hard Bargain", Tone::Rgb(220, 180, 90)),
        FairnessLabel::Exploitative => ("Bad Deal", Tone::Rgb(220, 80, 80)),
    }
}

/// The rows on the first `n` known factions.
pub open spec fn list_rows(
    p: DiplomacyRows,
    relations: Seq<RelationView>,
    ids: Seq<u32>,
    focus: Option<u32>,
    n: int,
) -> DiplomacyRows
    decreases n,
{
    if n <= 0 {
        p
    } else {
        let id = ids[n - 1];
        let t = "Faction "@ + digits(id as nat) + " — "@;
        list_rows(p, relations, ids, focus, n - 1).push(
            (
                Widget::Choice(focus == Some(id)),
                match find(relations, is_with(id)) {
                    Some(r) => t + r.attitude@ + " ["@ + summary(r.treaties) + "]"@,
                    None => t + "Neutral [—]"@,
                },
                Some(DiplomacyAction::Focus(id)),
            ),
        )
    }
}

/// The rows on the latest `n` incidents, the last one first.
pub open spec fn incident_rows(p: DiplomacyRows, log: Seq<Incident>, n: int) -> DiplomacyRows
    decreases n,
{
    if n <= 0 {
        p
    } else {
        let i = log[log.len() - n];
        incident_rows(p, log, n - 1).push(
            line("  t="@ + digits(i.tick as nat) + " — "@ + i.kind@),
        )
    }
}

/// The rows on how one stands with a faction.
pub open spec fn standing_rows(
    p: DiplomacyRows,
    relations: Seq<RelationView>,
    target: u32,
) -> DiplomacyRows {
    match find(relations, is_with(target)) {
        Some(r) => incident_rows(
            p.push(
                line(
                    "Trust: "@ + numeral(r.trust as int) + "   Fear: "@ + numeral(r.fear as int)
                        + "   Grievance: "@ + numeral(r.grievance as int) + "   Familiarity: "@
                        + numeral(r.familiarity as int),
                ),
            ).push(line("Treaties: "@ + summary(r.treaties))).push(
                line("Last contact: tick "@ + digits(r.last_contact_tick as nat)),
            ).push(styled(Tone::Plain, Style::Strong, "Recent incidents"@)),
            r.incidents@,
            r.incidents@.len() as int,
        ),
        None => p.push(line("(no contact yet)"@)),
    }
}

/// The proposal with a number, where it comes from a certain faction.
pub open spec fn proposal_from(s: DiplomacySheet, id: u32, target: u32) -> Option<ProposalView> {
    match find(s.proposals@, is_proposal(id)) {
        Some(p) => if p.from == target {
            Some(p)
        } else {
            None
        },
        None => None,
    }
}

/// Some proposal of the inbox comes from a faction.
pub open spec fn something_proposed(s: DiplomacySheet, target: u32) -> bool {
    exists|i: int| 0 <= i < s.inbox@.len() && #[trigger] proposal_from(s, s.inbox@[i], target) is Some
}

/// The rows on the proposals of a faction among the first `n` of the inbox.
pub open spec fn inbox_rows(
    p: DiplomacyRows,
    s: DiplomacySheet,
    target: u32,
    n: int,
) -> DiplomacyRows
    decreases n,
{
    if n <= 0 {
        p
    } else {
        let q = inbox_rows(p, s, target, n - 1);
        match proposal_from(s, s.inbox@[n - 1], target) {
            Some(v) => {
                let q = q.push(mark(Widget::Begin)).push(line(v.text@));
                let q = if s.own_has_parent {
                    q
                } else {
                    q.push(
                        styled(
                            fairness_tone(v.fairness),
                            Style::Normal,
                            "["@ + fairness_name(v.fairness) + "]"@,
                        ),
                    )
                };
                q.push(
                    (
                        Widget::Button(Tone::Plain),
                        "Accept"@,
                        Some(DiplomacyAction::Accept(s.inbox@[n - 1])),
                    ),
                ).push(
                    (
                        Widget::Button(Tone::Plain),
                        "Reject"@,
                        Some(DiplomacyAction::Reject(s.inbox@[n - 1])),
                    ),
                ).push(mark(Widget::End))
            },
            None => q,
        }
    }
}

/// The treaties with a faction.
pub open spec fn treaties_with(relations: Seq<RelationView>, target: u32) -> TreatySet {
    match find(relations, is_with(target)) {
        Some(r) => r.treaties,
        None => no_treaties(),
    }
}

/// A button that offers something.
pub open spec fn offer_button(
    p: DiplomacyRows,
    wanted: bool,
    name: Seq<char>,
    target: u32,
    offer: Offer,
) -> DiplomacyRows {
    if wanted {
        p.push(
            (
                Widget::Button(Tone::Plain),
                name,
                Some(DiplomacyAction::Propose { target, offer }),
            ),
        )
    } else {
        p
    }
}

/// A button that breaks a treaty, where there is one.
pub open spec fn break_button(
    p: DiplomacyRows,
    held: bool,
    name: Seq<char>,
    target: u32,
    treaty: TreatyKind,
) -> DiplomacyRows {
    if held {
        p.push(
            (
                Widget::Button(Tone::Plain),
                name,
                Some(DiplomacyAction::BreakTreaty { target, treaty }),
            ),
        )
    } else {
        p
    }
}

/// What can be done. At war only peace can be offered; otherwise every treaty that there is not
/// can be offered, every one that there is can be broken, and war can be declared.
pub open spec fn action_rows(p: DiplomacyRows, t: TreatySet, target: u32) -> DiplomacyRows {
    let p = p.push(mark(Widget::Begin));
    if t.war {
        offer_button(p, true, "Offer Peace"@, target, Offer::Peace).push(mark(Widget::End))
    } else {
        let p = offer_button(p, !t.trade_pact, "Offer Trade Pact"@, target, Offer::TradePact);
        let p = offer_button(p, !t.alliance, "Offer Alliance"@, target, Offer::Alliance);
        let p = offer_button(
            p,
            !t.non_aggression,
            "Offer Non-Aggression"@,
            target,
            Offer::NonAggression,
        );
        let p = p.push(
            (
                Widget::Button(Tone::Rgb(220, 60, 60)),
                "Declare War"@,
                Some(DiplomacyAction::DeclareWar { target }),
            ),
        ).push(mark(Widget::End)).push(mark(Widget::Begin));
        let p = break_button(p, t.trade_pact, "Break TradePact"@, target, TreatyKind::TradePact);
        let p = break_button(p, t.alliance, "Break Alliance"@, target, TreatyKind::Alliance);
        break_button(
            p,
            t.non_aggression,
            "Break NonAggression"@,
            target,
            TreatyKind::NonAggression,
        ).push(mark(Widget::End))
    }
}

/// The rows on one faction.
pub open spec fn detail_rows(p: DiplomacyRows, s: DiplomacySheet, target: u32) -> DiplomacyRows {
    let p = p.push(
        styled(Tone::Plain, Style::Strong, "Faction "@ + digits(target as nat)),
    ).push(mark(Widget::Rule));
    let p = standing_rows(p, s.relations@, target).push(mark(Widget::Rule)).push(
        styled(Tone::Plain, Style::Strong, "Pending proposals"@),
    );
    let p = inbox_rows(p, s, target, s.inbox@.len() as int);
    let p = if something_proposed(s, target) {
        p
    } else {
        p.push(line("(no pending proposals from this faction)"@))
    };
    action_rows(
        p.push(mark(Widget::Rule)).push(styled(Tone::Plain, Style::Strong, "Actions"@)),
        treaties_with(s.relations@, target),
        target,
    )
}

/// The faction in view: the chosen one, else the first on the list.
pub open spec fn in_view(s: DiplomacySheet, focus: Option<u32>) -> Option<u32> {
    match focus {
        Some(f) => Some(f),
        None => if foreign(s).len() > 0 {
            Some(foreign(s)[0])
        } else {
            None
        },
    }
}

/// The panel.
pub open spec fn diplomacy_rows(s: DiplomacySheet, focus: Option<u32>) -> DiplomacyRows {
    let ids = foreign(s);
    let p = Seq::<Shown<DiplomacyAction>>::empty().push(mark(Widget::Begin)).push(
        styled(
            Tone::Plain,
            Style::Strong,
            "Your faction: "@ + digits(s.own as nat) + " (treasury "@ + s.treasury@ + ")"@,
        ),
    ).push((Widget::Button(Tone::Plain), "Close"@, Some(DiplomacyAction::Close))).push(
        mark(Widget::End),
    ).push(mark(Widget::Rule)).push(
        styled(Tone::Plain, Style::Strong, "Known factions"@),
    ).push(mark(Widget::Rule));
    let p = if ids.len() == 0 {
        p.push(styled(Tone::Plain, Style::Italic, "(none known)"@))
    } else {
        p
    };
    let p = list_rows(p, s.relations@, ids, focus, ids.len() as int).push(mark(Widget::Column));
    match in_view(s, focus) {
        Some(target) => detail_rows(p, s, target),
        None => p.push(line("Select a faction on the left."@)),
    }
}

fn relation_with<'a>(relations: &'a Vec<RelationView>, faction: u32) -> (r: Option<
    &'a RelationView,
>)
    ensures
        match r {
            Some(v) => find(relations@, is_with(faction)) == Some(*v),
            None => find(relations@, is_with(faction)) is None,
        },
{
    let ghost p = is_with(faction);
    let mut i: usize = 0;
    while i < relations.len()
        invariant
            i <= relations.len(),
            p == is_with(faction),
            forall|j: int| 0 <= j < i ==> !p(#[trigger] relations@[j]),
        decreases relations.len() - i,
    {
        if relations[i].faction == faction {
            proof {
                find_is_first(relations@, p, i as int);
            }
            return Some(&relations[i]);
        }
        i += 1;
    }
    proof {
        find_is_none(relations@, p);
    }
    None
}

fn incoming<'a>(s: &'a DiplomacySheet, id: u32, target: u32) -> (r: Option<&'a ProposalView>)
    ensures
        match r {
            Some(v) => proposal_from(*s, id, target) == Some(*v),
            None => proposal_from(*s, id, target) is None,
        },
{
    let ghost p = is_proposal(id);
    let mut i: usize = 0;
    while i < s.proposals.len()
        invariant
            i <= s.proposals.len(),
            p == is_proposal(id),
            forall|j: int| 0 <= j < i ==> !p(#[trigger] s.proposals@[j]),
        decreases s.proposals.len() - i,
    {
        if s.proposals[i].id == id {
            proof {
                find_is_first(s.proposals@, p, i as int);
            }
            if s.proposals[i].from == target {
                return Some(&s.proposals[i]);
            } else {
                return None;
            }
        }
        i += 1;
    }
    proof {
        find_is_none(s.proposals@, p);
    }
    None
}

fn known(s: &DiplomacySheet, f: FactionEntry) -> (b: bool)
    ensures
        b == is_known(*s, f),
{
    if f.id == s.solo || f.id == s.own || f.has_parent || f.root == s.own_root {
        return false;
    }
    if f.met {
        return true;
    }
    match relation_with(&s.relations, f.id) {
        Some(r) => r.incidents.len() > 0 || r.last_contact_tick > 0,
        None => false,
    }
}

/// The known factions in the order of their numbers.
pub fn known_factions(s: &DiplomacySheet) -> (ids: Vec<u32>)
    ensures
        ids@ == foreign(*s),
{
    let ghost p = |i: int| is_known(*s, s.factions@[i]);
    let ghost mk = |i: int| s.factions@[i].id;
    let mut raw: Vec<u32> = Vec::new();
    let mut keys: Vec<Key> = Vec::new();
    let mut i: usize = 0;
    while i < s.factions.len()
        invariant
            i <= s.factions.len(),
            p == (|i: int| is_known(*s, s.factions@[i])),
            mk == (|i: int| s.factions@[i].id),
            raw@ == collect(i as int, p, mk),
            keys@ == id_keys(raw@),
        decreases s.factions.len() - i,
    {
        if known(s, s.factions[i]) {
            raw.push(s.factions[i].id);
            keys.push((s.factions[i].id as i64, 0i64));
            assert(keys@ =~= id_keys(raw@));
        }
        i += 1;
    }
    let order = order_by_keys(&keys);
    proof {
        ordering_is_stable(keys@);
    }
    let mut ids: Vec<u32> = Vec::new();
    let mut i: usize = 0;
    while i < raw.len()
        invariant
            i <= raw.len(),
            order@ == order_of(id_keys(raw@)),
            order@.len() == raw@.len(),
            forall|j: int| 0 <= j < order@.len() ==> #[trigger] order@[j] < raw@.len(),
            ids@ == ascending(raw@).take(i as int),
        decreases raw.len() - i,
    {
        ids.push(raw[order[i]]);
        i += 1;
        assert(ids@ =~= ascending(raw@).take(i as int));
    }
    assert(ids@ =~= ascending(raw@));
    ids
}

fn show_list(
    page: &mut Page<DiplomacyAction>,
    relations: &Vec<RelationView>,
    ids: &Vec<u32>,
    focus: Option<u32>,
)
    ensures
        final(page).shown() == list_rows(
            old(page).shown(),
            relations@,
            ids@,
            focus,
            ids@.len() as int,
        ),
{
    let ghost start = page.shown();
    let mut i: usize = 0;
    while i < ids.len()
        invariant
            i <= ids.len(),
            page.shown() == list_rows(start, relations@, ids@, focus, i as int),
        decreases ids.len() - i,
    {
        let id: u32 = ids[i];
        let t = Text::of("Faction ").number(id as u64).with(" — ");
        let t = match relation_with(relations, id) {
            Some(r) => {
                let brief = treaty_summary(r.treaties);
                t.with(r.attitude.as_str()).with(" [").with(brief.as_str()).with("]")
            },
            None => t.with("Neutral [—]"),
        };
        let chosen = match focus {
            Some(f) => f == id,
            None => false,
        };
        page.put(Widget::Choice(chosen), t.done(), Some(DiplomacyAction::Focus(id)));
        i += 1;
    }
}

fn show_standing(page: &mut Page<DiplomacyAction>, relations: &Vec<RelationView>, target: u32)
    ensures
        final(page).shown() == standing_rows(old(page).shown(), relations@, target),
{
    match relation_with(relations, target) {
        Some(r) => {
            page.say(
                Text::of("Trust: ").signed(r.trust as i64).with("   Fear: ").signed(
                    r.fear as i64,
                ).with("   Grievance: ").signed(r.grievance as i64).with(
                    "   Familiarity: ",
                ).signed(r.familiarity as i64).done(),
            );
            let brief = treaty_summary(r.treaties);
            page.say(Text::of("Treaties: ").with(brief.as_str()).done());
            page.say(Text::of("Last contact: tick ").number(r.last_contact_tick).done());
            page.note_in(Tone::Plain, Style::Strong, "Recent incidents");
            let log = &r.incidents;
            let ghost start = page.shown();
            let mut i: usize = 0;
            while i < log.len()
                invariant
                    i <= log.len(),
                    page.shown() == incident_rows(start, log@, i as int),
                decreases log.len() - i,
            {
                let e = &log[log.len() - 1 - i];
                page.say(
                    Text::of("  t=").number(e.tick).with(" — ").with(e.kind.as_str()).done(),
                );
                i += 1;
            }
        },
        None => page.note("(no contact yet)"),
    }
}

fn show_inbox(page: &mut Page<DiplomacyAction>, s: &DiplomacySheet, target: u32)
    ensures
        ({
            let p = inbox_rows(old(page).shown(), *s, target, s.inbox@.len() as int);
            final(page).shown() == (if something_proposed(*s, target) {
                p
            } else {
                p.push(line("(no pending proposals from this faction)"@))
            })
        }),
{
    let ghost start = page.shown();
    let mut any = false;
    let mut i: usize = 0;
    while i < s.inbox.len()
        invariant
            i <= s.inbox.len(),
            any <==> exists|j: int|
                0 <= j < i && #[trigger] proposal_from(*s, s.inbox@[j], target) is Some,
            page.shown() == inbox_rows(start, *s, target, i as int),
        decreases s.inbox.len() - i,
    {
        let id: u32 = s.inbox[i];
        match incoming(s, id, target) {
            Some(v) => {
                any = true;
                assert(proposal_from(*s, s.inbox@[i as int], target) is Some);
                page.place(Widget::Begin);
                page.note(v.text.as_str());
                if !s.own_has_parent {
                    let (word, tone) = fairness_color_label(v.fairness);
                    page.say_in(
                        tone,
                        Style::Normal,
                        Text::of("[").with(word).with("]").done(),
                    );
                }
                page.offer(Widget::Button(Tone::Plain), "Accept", DiplomacyAction::Accept(id));
                page.offer(Widget::Button(Tone::Plain), "Reject", DiplomacyAction::Reject(id));
                page.place(Widget::End);
            },
            None => {},
        }
        i += 1;
    }
    if !any {
        page.note("(no pending proposals from this faction)");
    }
}

fn show_offer(
    page: &mut Page<DiplomacyAction>,
    wanted: bool,
    name: &str,
    target: u32,
    offer: Offer,
)
    ensures
        final(page).shown() == offer_button(old(page).shown(), wanted, name@, target, offer),
{
    if wanted {
        page.offer(
            Widget::Button(Tone::Plain),
            name,
            DiplomacyAction::Propose { target, offer },
        );
    }
}

fn show_break(
    page: &mut Page<DiplomacyAction>,
    held: bool,
    name: &str,
    target: u32,
    treaty: TreatyKind,
)
    ensures
        final(page).shown() == break_button(old(page).shown(), held, name@, target, treaty),
{
    if held {
        page.offer(
            Widget::Button(Tone::Plain),
            name,
            DiplomacyAction::BreakTreaty { target, treaty },
        );
    }
}

fn show_actions(page: &mut Page<DiplomacyAction>, t: TreatySet, target: u32)
    ensures
        final(page).shown() == action_rows(old(page).shown(), t, target),
{
    page.place(Widget::Begin);
    if t.has(TreatyKind::War) {
        show_offer(page, true, "Offer Peace", target, Offer::Peace);
        page.place(Widget::End);
    } else {
        let trade = t.has(TreatyKind::TradePact);
        let ally = t.has(TreatyKind::Alliance);
        let nap = t.has(TreatyKind::NonAggression);
        show_offer(page, !trade, "Offer Trade Pact", target, Offer::TradePact);
        show_offer(page, !ally, "Offer Alliance", target, Offer::Alliance);
        show_offer(page, !nap, "Offer Non-Aggression", target, Offer::NonAggression);
        page.offer(
            Widget::Button(Tone::Rgb(220, 60, 60)),
            "Declare War",
            DiplomacyAction::DeclareWar { target },
        );
        page.place(Widget::End);
        page.place(Widget::Begin);
        show_break(page, trade, "Break TradePact", target, TreatyKind::TradePact);
        show_break(page, ally, "Break Alliance", target, TreatyKind::Alliance);
        show_break(page, nap, "Break NonAggression", target, TreatyKind::NonAggression);
        page.place(Widget::End);
    }
}

fn show_detail(page: &mut Page<DiplomacyAction>, s: &DiplomacySheet, target: u32)
    ensures
        final(page).shown() == detail_rows(old(page).shown(), *s, target),
{
    page.say_in(
        Tone::Plain,
        Style::Strong,
        Text::of("Faction ").number(target as u64).done(),
    );
    page.place(Widget::Rule);
    show_standing(page, &s.relations, target);
    page.place(Widget::Rule);
    page.note_in(Tone::Plain, Style::Strong, "Pending proposals");
    show_inbox(page, s, target);
    page.place(Widget::Rule);
    page.note_in(Tone::Plain, Style::Strong, "Actions");
    let t = match relation_with(&s.relations, target) {
        Some(r) => r.treaties,
        None => TreatySet {
            war: false,
            alliance: false,
            trade_pact: false,
            non_aggression: false,
        },
    };
    show_actions(page, t, target);
}

/// The panel, while it is open and the player has a faction that is on record.
pub fn diplomacy_panel_system(
    open: bool,
    on_record: bool,
    s: &DiplomacySheet,
    focus: Option<u32>,
) -> (r: Option<Page<DiplomacyAction>>)
    ensures
        match r {
            Some(page) => open && on_record && s.own != s.solo && page.shown() == diplomacy_rows(
                *s,
                focus,
            ),
            None => !open || !on_record || s.own == s.solo,
        },
{
    if !open || s.own == s.solo || !on_record {
        return None;
    }
    let ids = known_factions(s);
    let mut page: Page<DiplomacyAction> = Page::new();
    page.place(Widget::Begin);
    page.say_in(
        Tone::Plain,
        Style::Strong,
        Text::of("Your faction: ").number(s.own as u64).with(" (treasury ").with(
            s.treasury.as_str(),
        ).with(")").done(),
    );
    page.offer(Widget::Button(Tone::Plain), "Close", DiplomacyAction::Close);
    page.place(Widget::End);
    page.place(Widget::Rule);
    page.note_in(Tone::Plain, Style::Strong, "Known factions");
    page.place(Widget::Rule);
    if ids.len() == 0 {
        page.note_in(Tone::Plain, Style::Italic, "(none known)");
    }
    show_list(&mut page, &s.relations, &ids, focus);
    page.place(Widget::Column);
    let target: Option<u32> = match focus {
        Some(f) => Some(f),
        None => {
            if ids.len() > 0 {
                Some(ids[0])
            } else {
                None
            }
        },
    };
    match target {
        Some(t) => show_detail(&mut page, s, t),
        None => page.note("Select a faction on the left."),
    }
    Some(page)
}

/// What the panel remembers.
#[derive(Clone, Copy, Debug, PartialEq, Eq, Structural)]
pub struct DiplomacyPanelState {
    pub open: bool,
    pub focused_faction: Option<u32>,
}

impl DiplomacyPanelState {
    /// What becomes of the panel when something on it is pressed.
    pub fn pressed(&mut self, a: DiplomacyAction)
        ensures
            final(self).open == (old(self).open && a != DiplomacyAction::Close),
            final(self).focused_faction == (match a {
                DiplomacyAction::Focus(f) => Some(f),
                _ => old(self).focused_faction,
            }),
    {
        match a {
            DiplomacyAction::Close => {
                self.open = false;
            },
            DiplomacyAction::Focus(f) => {
                self.focused_faction = Some(f);
            },
            _ => {},
        }
    }
}

/// The list is in order, and holds the known factions and no others.
pub proof fn known_factions_in_order(s: DiplomacySheet)
    requires
        s.factions@.len() <= usize::MAX,
    ensures
        forall|a: int, b: int|
            0 <= a < b < foreign(s).len() ==> (#[trigger] foreign(s)[a]) <= (#[trigger] foreign(
                s,
            )[b]),
        forall|id: u32|
            #[trigger] foreign(s).contains(id) ==> exists|i: int|
                0 <= i < s.factions@.len() && (#[trigger] s.factions@[i]).id == id && is_known(
                    s,
                    s.factions@[i],
                ),
        forall|i: int|
            0 <= i < s.factions@.len() && is_known(s, #[trigger] s.factions@[i])
                ==> foreign(s).contains(s.factions@[i].id),
{
    let ids = known_ids(s);
    let keys = id_keys(ids);
    let p = |i: int| is_known(s, s.factions@[i]);
    let mk = |i: int| s.factions@[i].id;
    collect_len(s.factions@.len() as int, p, mk);
    count_bounds(s.factions@.len() as int, p);
    ordering_is_stable(keys);
    assert forall|a: int, b: int| 0 <= a < b < foreign(s).len() implies (#[trigger] foreign(s)[a])
        <= (#[trigger] foreign(s)[b]) by {
        assert(follows(keys, order_of(keys)[a], order_of(keys)[b]));
    }
    assert forall|id: u32| #[trigger] foreign(s).contains(id) implies exists|i: int|
        0 <= i < s.factions@.len() && (#[trigger] s.factions@[i]).id == id && is_known(
            s,
            s.factions@[i],
        ) by {
        let k = choose|k: int| 0 <= k < foreign(s).len() && foreign(s)[k] == id;
        let j = order_of(keys)[k] as int;
        assert(ids[j] == id);
        collect_contains(s.factions@.len() as int, p, mk, id);
        let i = choose|i: int| 0 <= i < s.factions@.len() && p(i) && #[trigger] mk(i) == id;
        assert(s.factions@[i].id == id);
    }
    assert forall|i: int| 0 <= i < s.factions@.len() && is_known(
        s,
        #[trigger] s.factions@[i],
    ) implies foreign(s).contains(s.factions@[i].id) by {
        assert(mk(i) == s.factions@[i].id);
        collect_contains(s.factions@.len() as int, p, mk, mk(i));
        let j = choose|j: int| 0 <= j < ids.len() && ids[j] == mk(i);
        let k = every_place_is_taken(order_of(keys), keys.len() as int, j);
        assert(foreign(s)[k] == ids[j]);
    }
}

/// At war nothing but peace can be offered, and nothing can be declared or broken.
pub proof fn war_leaves_only_peace(p: DiplomacyRows, t: TreatySet, target: u32, i: int)
    requires
        t.war,
        p.len() <= i < action_rows(p, t, target).len(),
        action_rows(p, t, target)[i].2 is Some,
    ensures
        action_rows(p, t, target)[i].2 == Some(
            DiplomacyAction::Propose { target, offer: Offer::Peace },
        ),
{
}

/// A faction is listed when it is another, stands at the root of another tree, and was met or dealt
/// with: an incident or any contact counts as dealings.
pub proof fn the_met_and_the_dealt_with_are_known(s: DiplomacySheet, f: FactionEntry, k: int)
    requires
        0 <= k < s.relations@.len(),
        s.relations@[k].faction == f.id,
        forall|j: int| 0 <= j < k ==> (#[trigger] s.relations@[j]).faction != f.id,
    ensures
        ({
            let r = s.relations@[k];
            let foreigner = f.id != s.own && f.id != s.solo && !f.has_parent && f.root
                != s.own_root;
            &&& is_known(s, f) <==> foreigner && (f.met || r.incidents@.len() > 0
                || r.last_contact_tick > 0)
            &&& treaties_with(s.relations@, f.id) == r.treaties
        }),
{
    let p = is_with(f.id);
    assert forall|j: int| 0 <= j < k implies !p(#[trigger] s.relations@[j]) by {}
    find_is_first(s.relations@, p, k);
}

/// With strangers there are no treaties, and without having been met they are not listed.
pub proof fn strangers_have_no_treaties(s: DiplomacySheet, f: FactionEntry)
    requires
        forall|j: int| 0 <= j < s.relations@.len() ==> (#[trigger] s.relations@[j]).faction != f.id,
    ensures
        is_known(s, f) ==> f.met,
        ({
            let t = treaties_with(s.relations@, f.id);
            !t.war && !t.alliance && !t.trade_pact && !t.non_aggression
        }),
{
    let p = is_with(f.id);
    assert forall|j: int| 0 <= j < s.relations@.len() implies !p(#[trigger] s.relations@[j]) by {}
    find_is_none(s.relations@, p);
}

/// An action is offered in the rows from place `from` on.
pub open spec fn is_offered(q: DiplomacyRows, from: int, a: DiplomacyAction) -> bool {
    exists|i: int| from <= i < q.len() && (#[trigger] q[i]).2 == Some(a)
}

/// In peace war can be declared, a treaty that there is can be broken and one that there is not can
/// be offered, always to the faction in view; peace is not offered.
pub proof fn peace_leaves_every_choice(p: DiplomacyRows, t: TreatySet, target: u32)
    requires
        !t.war,
    ensures
        ({
            let q = action_rows(p, t, target);
            let n = p.len() as int;
            &&& is_offered(q, n, DiplomacyAction::DeclareWar { target })
            &&& !t.trade_pact ==> is_offered(
                q,
                n,
                DiplomacyAction::Propose { target, offer: Offer::TradePact },
            )
            &&& !t.alliance ==> is_offered(
                q,
                n,
                DiplomacyAction::Propose { target, offer: Offer::Alliance },
            )
            &&& !t.non_aggression ==> is_offered(
                q,
                n,
                DiplomacyAction::Propose { target, offer: Offer::NonAggression },
            )
            &&& t.trade_pact ==> is_offered(
                q,
                n,
                DiplomacyAction::BreakTreaty { target, treaty: TreatyKind::TradePact },
            )
            &&& t.alliance ==> is_offered(
                q,
                n,
                DiplomacyAction::BreakTreaty { target, treaty: TreatyKind::Alliance },
            )
            &&& t.non_aggression ==> is_offered(
                q,
                n,
                DiplomacyAction::BreakTreaty { target, treaty: TreatyKind::NonAggression },
            )
            &&& forall|i: int|
                n <= i < q.len() ==> (#[trigger] q[i]).2 != Some(
                    DiplomacyAction::Propose { target, offer: Offer::Peace },
                )
            &&& q.len() == n + 8
        }),
{
    let q = action_rows(p, t, target);
    let n = p.len() as int;
    let x: int = if t.trade_pact {
        0
    } else {
        1
    };
    let y: int = if t.alliance {
        0
    } else {
        1
    };
    let z: int = if t.non_aggression {
        0
    } else {
        1
    };
    let war = n + 1 + x + y + z;
    assert(q[war].2 == Some(DiplomacyAction::DeclareWar { target }));
    if !t.trade_pact {
        assert(q[n + 1].2 == Some(DiplomacyAction::Propose { target, offer: Offer::TradePact }));
    } else {
        assert(q[war + 3].2 == Some(
            DiplomacyAction::BreakTreaty { target, treaty: TreatyKind::TradePact },
        ));
    }
    if !t.alliance {
        assert(q[n + 1 + x].2 == Some(
            DiplomacyAction::Propose { target, offer: Offer::Alliance },
        ));
    } else {
        assert(q[war + 3 + (1 - x)].2 == Some(
            DiplomacyAction::BreakTreaty { target, treaty: TreatyKind::Alliance },
        ));
    }
    if !t.non_aggression {
        assert(q[n + 1 + x + y].2 == Some(
            DiplomacyAction::Propose { target, offer: Offer::NonAggression },
        ));
    } else {
        assert(q[war + 3 + (1 - x) + (1 - y)].2 == Some(
            DiplomacyAction::BreakTreaty { target, treaty: TreatyKind::NonAggression },
        ));
    }
}

/// A proposal shows only under the faction that made it.
pub proof fn proposals_show_under_their_maker(s: DiplomacySheet, id: u32, target: u32)
    ensures
        proposal_from(s, id, target) matches Some(p) ==> p.id == id && p.from == target
            && s.proposals@.contains(p),
{
    find_is_none(s.proposals@, is_proposal(id));
}

/// Treaties are named in short, war first; without any a dash stands for them.
pub proof fn treaties_are_named_in_short(t: TreatySet)
    ensures
        !t.war && !t.alliance && !t.trade_pact && !t.non_aggression ==> summary(t) == "—"@,
        t.war && !t.alliance && !t.trade_pact && !t.non_aggression ==> summary(t) == "War"@,
        !t.war && t.alliance && !t.trade_pact && !t.non_aggression ==> summary(t) == "Ally"@,
        !t.war && !t.alliance && t.trade_pact && !t.non_aggression ==> summary(t) == "Trade"@,
        !t.war && !t.alliance && !t.trade_pact && t.non_aggression ==> summary(t) == "NAP"@,
{
}

} // verus!
