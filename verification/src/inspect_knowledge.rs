//! The part of the inspector's page on what a person knows and believes.

use vstd::prelude::*;
use vstd::string::*;
use crate::inspect_items::Item;
use crate::inspect_person::{InspectorActionKind, PersonRows};
use crate::page::{hint, line, mark, styled, Fill, Page, Style, Tone, Widget};
use crate::parts::{Entity, ResourceId, TechId};
use crate::seqs::collect;
use crate::sorting::{order_by_keys, order_of, ordering_is_stable, Key};
use crate::text::{digits, Text};
use crate::tiles::{add_tech, has_tech, no_techs, techs_in};

verus! {

/// A technology, and how far a person knows it.
#[derive(Debug)]
pub struct TechLine {
    pub name: String,
    pub era: String,
    pub complexity: u32,
    pub learned: bool,
    pub aware: bool,
}

/// A technology that is being studied.
#[derive(Debug)]
pub struct Study {
    pub tech: TechId,
    pub name: String,
    pub progress: u32,
    pub threshold: u32,
}

/// How a belief relates to the truth.
#[derive(Clone, Copy, Debug, PartialEq, Eq, Structural)]
pub enum TruthStatus {
    True,
    FalseUseful,
    FalseHarmful,
    Contested,
}

/// What kind of question a belief answers.
#[derive(Clone, Copy, Debug, PartialEq, Eq, Structural)]
pub enum BeliefGroup {
    Cosmology,
    Disease,
    Omens,
    Other,
}

/// A belief that a person holds, and those that they gave up for it.
#[derive(Debug)]
pub struct Belief {
    pub number: u8,
    pub group: BeliefGroup,
    pub name: String,
    pub truth: TruthStatus,
    pub confidence: u8,
    pub rejected: Vec<String>,
}

/// What a person knows. The technologies stand at the place of their number; the studies and the
/// beliefs stand in no particular order.
#[derive(Debug)]
pub struct Knowledge {
    pub complexity_used: u32,
    /// The speed of learning, as it is to be read.
    pub speed: String,
    pub techs: Vec<TechLine>,
    pub studies: Vec<Study>,
    pub beliefs: Vec<Belief>,
}

/// What a person carries that may be read.
#[derive(Debug)]
pub struct Library<'a> {
    pub items: &'a Vec<(Item, u32)>,
    pub tablet: Option<ResourceId>,
    pub book: Option<ResourceId>,
}

/// What can be read of an entry of the pack: the technology on a tablet or in a book.
pub open spec fn writing(
    e: (Item, u32),
    tablet: Option<ResourceId>,
    book: Option<ResourceId>,
) -> Option<TechId> {
    if e.1 == 0 {
        None
    } else if Some(e.0.resource_id) == tablet || Some(e.0.resource_id) == book {
        e.0.tech_payload
    } else {
        None
    }
}

/// Some entry of the pack tells of a technology.
pub open spec fn can_read(l: Library, t: TechId) -> bool {
    exists|i: int|
        0 <= i < l.items@.len() && #[trigger] writing(l.items@[i], l.tablet, l.book) == Some(t)
}

/// The numbers of the learned technologies.
pub open spec fn learned(techs: Seq<TechLine>) -> Seq<TechId> {
    collect(techs.len() as int, |i: int| techs[i].learned, |i: int| i as TechId)
}

/// The numbers of the technologies that a person has only heard of.
pub open spec fn heard_of(techs: Seq<TechLine>) -> Seq<TechId> {
    collect(
        techs.len() as int,
        |i: int| !techs[i].learned && techs[i].aware,
        |i: int| i as TechId,
    )
}

/// The rows on the first `n` of the learned technologies.
pub open spec fn learned_rows(
    p: PersonRows,
    who: Entity,
    techs: Seq<TechLine>,
    ids: Seq<TechId>,
    n: int,
) -> PersonRows
    decreases n,
{
    if n <= 0 {
        p
    } else {
        let id = ids[n - 1];
        let t = techs[id as int];
        learned_rows(p, who, techs, ids, n - 1).push(mark(Widget::Begin)).push(
            line(
                "  ✓ "@ + t.name@ + " ("@ + t.era@ + ", "@ + digits(t.complexity as nat)
                    + " pts)"@,
            ),
        ).push(
            (
                Widget::SmallButton,
                "Lecture"@,
                Some(InspectorActionKind::HoldLecture { lecturer: who, tech: id }),
            ),
        ).push(hint("Have this person hold a lecture on this tech"@)).push(
            (
                Widget::SmallButton,
                "Encode"@,
                Some(InspectorActionKind::EncodeTablet { tech: id }),
            ),
        ).push(hint("Faction crafts a Clay Tablet encoding this tech"@)).push(mark(Widget::End))
    }
}

/// The rows on the first `n` of the technologies heard of. What can be read is offered.
pub open spec fn aware_rows(
    p: PersonRows,
    who: Entity,
    techs: Seq<TechLine>,
    l: Library,
    ids: Seq<TechId>,
    n: int,
) -> PersonRows
    decreases n,
{
    if n <= 0 {
        p
    } else {
        let id = ids[n - 1];
        let t = techs[id as int];
        let q = aware_rows(p, who, techs, l, ids, n - 1).push(mark(Widget::Begin)).push(
            line("  ◎ "@ + t.name@ + " ("@ + t.era@ + ")"@),
        );
        let q = if can_read(l, id) {
            q.push(
                (
                    Widget::SmallButton,
                    "Read"@,
                    Some(InspectorActionKind::ReadItem { reader: who, tech: id }),
                ),
            )
        } else {
            q
        };
        q.push(mark(Widget::End))
    }
}

/// The keys by which studies are ordered.
pub open spec fn study_keys(studies: Seq<Study>) -> Seq<Key> {
    Seq::new(studies.len(), |i: int| (studies[i].tech as i64, 0i64))
}

/// The rows on the first `n` studies of an order.
pub open spec fn study_rows(
    p: PersonRows,
    studies: Seq<Study>,
    order: Seq<usize>,
    n: int,
) -> PersonRows
    decreases n,
{
    if n <= 0 {
        p
    } else {
        let s = studies[order[n - 1] as int];
        study_rows(p, studies, order, n - 1).push(
            line(
                "  · "@ + s.name@ + ": "@ + digits(s.progress as nat) + "/"@ + digits(
                    s.threshold as nat,
                ) + " ticks"@,
            ),
        )
    }
}

/// The keys by which beliefs are ordered.
pub open spec fn belief_keys(beliefs: Seq<Belief>) -> Seq<Key> {
    Seq::new(beliefs.len(), |i: int| (beliefs[i].number as i64, 0i64))
}

pub open spec fn group_name(g: BeliefGroup) -> Seq<char> {
    match g {
        BeliefGroup::Cosmology => "Cosmology"@,
        BeliefGroup::Disease => "Disease"@,
        BeliefGroup::Omens => "Omens"@,
        BeliefGroup::Other => "Other"@,
    }
}

pub open spec fn truth_tone(t: TruthStatus) -> Tone {
    match t {
        TruthStatus::True => Tone::Rgb(120, 200, 120),
        TruthStatus::FalseUseful => Tone::Rgb(220, 200, 100),
        TruthStatus::FalseHarmful => Tone::Rgb(220, 120, 100),
        TruthStatus::Contested => Tone::Rgb(180, 180, 220),
    }
}

/// The first `n` texts with commas between them.
pub open spec fn listed(texts: Seq<String>, n: int) -> Seq<char>
    decreases n,
{
    if n <= 0 {
        Seq::empty()
    } else if n == 1 {
        texts[0]@
    } else {
        listed(texts, n - 1) + ", "@ + texts[n - 1]@
    }
}

/// The rows on a belief.
pub open spec fn one_belief(p: PersonRows, b: Belief) -> PersonRows {
    let p = p.push(mark(Widget::Begin)).push(line("  "@ + group_name(b.group) + ":"@)).push(
        styled(truth_tone(b.truth), Style::Normal, b.name@),
    ).push(
        (
            Widget::Bar(Fill::Neutral, b.confidence as u32, 255),
            digits((b.confidence as nat * 100) / 255) + "%"@,
            None,
        ),
    ).push(mark(Widget::End));
    if b.rejected@.len() > 0 {
        p.push(
            styled(
                Tone::Gray(160),
                Style::Fine,
                "    rejected: "@ + listed(b.rejected@, b.rejected@.len() as int),
            ),
        )
    } else {
        p
    }
}

/// The rows on the first `n` beliefs of an order.
pub open spec fn belief_rows(
    p: PersonRows,
    beliefs: Seq<Belief>,
    order: Seq<usize>,
    n: int,
) -> PersonRows
    decreases n,
{
    if n <= 0 {
        p
    } else {
        one_belief(belief_rows(p, beliefs, order, n - 1), beliefs[order[n - 1] as int])
    }
}

/// The rows on what is known, without the frame.
pub open spec fn known_rows(p: PersonRows, who: Entity, k: Knowledge, l: Library) -> PersonRows {
    let known = learned(k.techs@);
    let heard = heard_of(k.techs@);
    let p = p.push(
        line(
            "Knowledge: "@ + digits(k.complexity_used as nat) + " complexity pts ("@ + digits(
                known.len(),
            ) + " techs)"@,
        ),
    ).push(line("Learning speed: "@ + k.speed@ + "×"@)).push(
        line("Learned ("@ + digits(known.len()) + "):"@),
    );
    let p = learned_rows(p, who, k.techs@, known, known.len() as int);
    let p = if known.len() == 0 {
        p.push(line("  (none)"@))
    } else {
        p
    };
    let p = if k.studies@.len() > 0 {
        study_rows(
            p.push(mark(Widget::Rule)).push(line("In progress:"@)),
            k.studies@,
            order_of(study_keys(k.studies@)),
            k.studies@.len() as int,
        )
    } else {
        p
    };
    let p = p.push(line("Aware of ("@ + digits(heard.len()) + "):"@));
    let p = aware_rows(p, who, k.techs@, l, heard, heard.len() as int);
    let p = if heard.len() == 0 {
        p.push(line("  (none)"@))
    } else {
        p
    };
    let p = p.push(mark(Widget::Rule)).push(styled(Tone::Plain, Style::Strong, "Beliefs"@));
    if k.beliefs@.len() == 0 {
        p.push(line("  (no beliefs held)"@))
    } else {
        belief_rows(
            p,
            k.beliefs@,
            order_of(belief_keys(k.beliefs@)),
            k.beliefs@.len() as int,
        )
    }
}

/// The part of the page on knowledge.
pub open spec fn knowledge_rows(
    p: PersonRows,
    who: Entity,
    k: Option<&Knowledge>,
    l: Library,
) -> PersonRows {
    let p = p.push((Widget::Section(Tone::Plain, false), "Knowledge"@, None));
    let p = match k {
        Some(k) => known_rows(p, who, *k, l),
        None => p.push(line("  (no knowledge component)"@)),
    };
    p.push(mark(Widget::EndSection))
}

fn learned_ids(techs: &Vec<TechLine>) -> (ids: Vec<TechId>)
    requires
        techs@.len() <= u16::MAX,
    ensures
        ids@ == learned(techs@),
        forall|i: int| 0 <= i < ids@.len() ==> #[trigger] ids@[i] < techs@.len(),
{
    let ghost p = |i: int| techs@[i].learned;
    let ghost mk = |i: int| i as TechId;
    let mut ids: Vec<TechId> = Vec::new();
    let mut i: usize = 0;
    while i < techs.len()
        invariant
            i <= techs.len() <= u16::MAX,
            p == (|i: int| techs@[i].learned),
            mk == (|i: int| i as TechId),
            ids@ == collect(i as int, p, mk),
            forall|j: int| 0 <= j < ids@.len() ==> #[trigger] ids@[j] < i,
        decreases techs.len() - i,
    {
        if techs[i].learned {
            ids.push(i as TechId);
        }
        i += 1;
    }
    ids
}

fn heard_ids(techs: &Vec<TechLine>) -> (ids: Vec<TechId>)
    requires
        techs@.len() <= u16::MAX,
    ensures
        ids@ == heard_of(techs@),
        forall|i: int| 0 <= i < ids@.len() ==> #[trigger] ids@[i] < techs@.len(),
{
    let ghost p = |i: int| !techs@[i].learned && techs@[i].aware;
    let ghost mk = |i: int| i as TechId;
    let mut ids: Vec<TechId> = Vec::new();
    let mut i: usize = 0;
    while i < techs.len()
        invariant
            i <= techs.len() <= u16::MAX,
            p == (|i: int| !techs@[i].learned && techs@[i].aware),
            mk == (|i: int| i as TechId),
            ids@ == collect(i as int, p, mk),
            forall|j: int| 0 <= j < ids@.len() ==> #[trigger] ids@[j] < i,
        decreases techs.len() - i,
    {
        if !techs[i].learned && techs[i].aware {
            ids.push(i as TechId);
        }
        i += 1;
    }
    ids
}

/// The technologies that can be read of.
fn readable(l: &Library) -> (s: ahash::AHashSet<TechId>)
    ensures
        forall|t: TechId| techs_in(s).contains(t) <==> can_read(*l, t),
{
    let mut s = no_techs();
    let mut i: usize = 0;
    while i < l.items.len()
        invariant
            i <= l.items.len(),
            forall|t: TechId|
                techs_in(s).contains(t) <==> exists|j: int|
                    0 <= j < i && #[trigger] writing(l.items@[j], l.tablet, l.book) == Some(t),
        decreases l.items.len() - i,
    {
        let ghost before = techs_in(s);
        let e = l.items[i];
        let rid = e.0.resource_id;
        let written = match l.tablet {
            Some(r) => r == rid,
            None => false,
        } || match l.book {
            Some(r) => r == rid,
            None => false,
        };
        let mut found: Option<TechId> = None;
        if e.1 > 0 && written {
            found = e.0.tech_payload;
        }
        assert(found == writing(l.items@[i as int], l.tablet, l.book));
        match found {
            Some(t) => add_tech(&mut s, t),
            None => {},
        }
        assert forall|t: TechId| techs_in(s).contains(t) <==> exists|j: int|
            0 <= j < i + 1 && #[trigger] writing(l.items@[j], l.tablet, l.book) == Some(t) by {
            if found == Some(t) {
                assert(writing(l.items@[i as int], l.tablet, l.book) == Some(t));
            } else if before.contains(t) {
                let j = choose|j: int|
                    0 <= j < i && #[trigger] writing(l.items@[j], l.tablet, l.book) == Some(t);
                assert(writing(l.items@[j], l.tablet, l.book) == Some(t));
            }
        }
        i += 1;
    }
    s
}

fn show_learned(page: &mut Page<InspectorActionKind>, who: Entity, k: &Knowledge, ids: &Vec<TechId>)
    requires
        forall|i: int| 0 <= i < ids@.len() ==> #[trigger] ids@[i] < k.techs@.len(),
    ensures
        final(page).shown() == learned_rows(
            old(page).shown(),
            who,
            k.techs@,
            ids@,
            ids@.len() as int,
        ),
{
    let ghost start = page.shown();
    let mut i: usize = 0;
    while i < ids.len()
        invariant
            i <= ids.len(),
            forall|i: int| 0 <= i < ids@.len() ==> #[trigger] ids@[i] < k.techs@.len(),
            page.shown() == learned_rows(start, who, k.techs@, ids@, i as int),
        decreases ids.len() - i,
    {
        let id: TechId = ids[i];
        let t = &k.techs[id as usize];
        page.place(Widget::Begin);
        page.say(
            Text::of("  ✓ ").with(t.name.as_str()).with(" (").with(t.era.as_str()).with(", ").number(
                t.complexity as u64,
            ).with(" pts)").done(),
        );
        page.offer(
            Widget::SmallButton,
            "Lecture",
            InspectorActionKind::HoldLecture { lecturer: who, tech: id },
        );
        page.explain("Have this person hold a lecture on this tech");
        page.offer(Widget::SmallButton, "Encode", InspectorActionKind::EncodeTablet { tech: id });
        page.explain("Faction crafts a Clay Tablet encoding this tech");
        page.place(Widget::End);
        i += 1;
    }
}

fn show_aware(
    page: &mut Page<InspectorActionKind>,
    who: Entity,
    k: &Knowledge,
    l: &Library,
    ids: &Vec<TechId>,
)
    requires
        forall|i: int| 0 <= i < ids@.len() ==> #[trigger] ids@[i] < k.techs@.len(),
    ensures
        final(page).shown() == aware_rows(
            old(page).shown(),
            who,
            k.techs@,
            *l,
            ids@,
            ids@.len() as int,
        ),
{
    let texts = readable(l);
    let ghost start = page.shown();
    let mut i: usize = 0;
    while i < ids.len()
        invariant
            i <= ids.len(),
            forall|i: int| 0 <= i < ids@.len() ==> #[trigger] ids@[i] < k.techs@.len(),
            forall|t: TechId| techs_in(texts).contains(t) <==> can_read(*l, t),
            page.shown() == aware_rows(start, who, k.techs@, *l, ids@, i as int),
        decreases ids.len() - i,
    {
        let id: TechId = ids[i];
        let t = &k.techs[id as usize];
        page.place(Widget::Begin);
        page.say(
            Text::of("  ◎ ").with(t.name.as_str()).with(" (").with(t.era.as_str()).with(")").done(),
        );
        if has_tech(&texts, id) {
            page.offer(
                Widget::SmallButton,
                "Read",
                InspectorActionKind::ReadItem { reader: who, tech: id },
            );
        }
        page.place(Widget::End);
        i += 1;
    }
}

fn show_studies(page: &mut Page<InspectorActionKind>, studies: &Vec<Study>)
    ensures
        final(page).shown() == study_rows(
            old(page).shown(),
            studies@,
            order_of(study_keys(studies@)),
            studies@.len() as int,
        ),
{
    let mut keys: Vec<Key> = Vec::new();
    let mut i: usize = 0;
    while i < studies.len()
        invariant
            i <= studies.len(),
            keys@ == study_keys(studies@).take(i as int),
        decreases studies.len() - i,
    {
        keys.push((studies[i].tech as i64, 0i64));
        i += 1;
        assert(keys@ =~= study_keys(studies@).take(i as int));
    }
    assert(keys@ =~= study_keys(studies@));
    let order = order_by_keys(&keys);
    proof {
        ordering_is_stable(keys@);
    }
    let ghost start = page.shown();
    let mut i: usize = 0;
    while i < studies.len()
        invariant
            i <= studies.len(),
            order@.len() == studies@.len(),
            order@ == order_of(study_keys(studies@)),
            forall|j: int| 0 <= j < order@.len() ==> #[trigger] order@[j] < studies@.len(),
            page.shown() == study_rows(start, studies@, order@, i as int),
        decreases studies.len() - i,
    {
        let s = &studies[order[i]];
        page.say(
            Text::of("  · ").with(s.name.as_str()).with(": ").number(s.progress as u64).with(
                "/",
            ).number(s.threshold as u64).with(" ticks").done(),
        );
        i += 1;
    }
}

/// Texts with commas between them.
pub fn list_of(texts: &Vec<String>) -> (s: String)
    ensures
        s@ == listed(texts@, texts@.len() as int),
{
    let mut t = Text::blank();
    let mut i: usize = 0;
    while i < texts.len()
        invariant
            i <= texts.len(),
            t@ == listed(texts@, i as int),
        decreases texts.len() - i,
    {
        if i > 0 {
            t = t.with(", ");
        }
        t = t.with(texts[i].as_str());
        i += 1;
        assert(t@ =~= listed(texts@, i as int));
    }
    t.done()
}

fn show_belief(page: &mut Page<InspectorActionKind>, b: &Belief)
    ensures
        final(page).shown() == one_belief(old(page).shown(), *b),
{
    page.place(Widget::Begin);
    let g = match b.group {
        BeliefGroup::Cosmology => "Cosmology",
        BeliefGroup::Disease => "Disease",
        BeliefGroup::Omens => "Omens",
        BeliefGroup::Other => "Other",
    };
    page.say(Text::of("  ").with(g).with(":").done());
    let tone = match b.truth {
        TruthStatus::True => Tone::Rgb(120, 200, 120),
        TruthStatus::FalseUseful => Tone::Rgb(220, 200, 100),
        TruthStatus::FalseHarmful => Tone::Rgb(220, 120, 100),
        TruthStatus::Contested => Tone::Rgb(180, 180, 220),
    };
    page.note_in(tone, Style::Normal, b.name.as_str());
    page.put(
        Widget::Bar(Fill::Neutral, b.confidence as u32, 255),
        Text::blank().number((b.confidence as u64 * 100) / 255).with("%").done(),
        None,
    );
    page.place(Widget::End);
    if b.rejected.len() > 0 {
        let names = list_of(&b.rejected);
        page.say_in(
            Tone::Gray(160),
            Style::Fine,
            Text::of("    rejected: ").with(names.as_str()).done(),
        );
    }
}

fn show_beliefs(page: &mut Page<InspectorActionKind>, beliefs: &Vec<Belief>)
    ensures
        final(page).shown() == belief_rows(
            old(page).shown(),
            beliefs@,
            order_of(belief_keys(beliefs@)),
            beliefs@.len() as int,
        ),
{
    let mut keys: Vec<Key> = Vec::new();
    let mut i: usize = 0;
    while i < beliefs.len()
        invariant
            i <= beliefs.len(),
            keys@ == belief_keys(beliefs@).take(i as int),
        decreases beliefs.len() - i,
    {
        keys.push((beliefs[i].number as i64, 0i64));
        i += 1;
        assert(keys@ =~= belief_keys(beliefs@).take(i as int));
    }
    assert(keys@ =~= belief_keys(beliefs@));
    let order = order_by_keys(&keys);
    proof {
        ordering_is_stable(keys@);
    }
    let ghost start = page.shown();
    let mut i: usize = 0;
    while i < beliefs.len()
        invariant
            i <= beliefs.len(),
            order@.len() == beliefs@.len(),
            order@ == order_of(belief_keys(beliefs@)),
            forall|j: int| 0 <= j < order@.len() ==> #[trigger] order@[j] < beliefs@.len(),
            page.shown() == belief_rows(start, beliefs@, order@, i as int),
        decreases beliefs.len() - i,
    {
        show_belief(page, &beliefs[order[i]]);
        i += 1;
    }
}

/// Shows what a person knows and believes.
pub fn show_knowledge(
    page: &mut Page<InspectorActionKind>,
    who: Entity,
    k: Option<&Knowledge>,
    l: &Library,
)
    requires
        k matches Some(k) ==> k.techs@.len() <= u16::MAX,
    ensures
        final(page).shown() == knowledge_rows(old(page).shown(), who, k, *l),
{
    page.section(Tone::Plain, false, "Knowledge");
    match k {
        Some(k) => {
            let known = learned_ids(&k.techs);
            let heard = heard_ids(&k.techs);
            page.say(
                Text::of("Knowledge: ").number(k.complexity_used as u64).with(
                    " complexity pts (",
                ).number(known.len() as u64).with(" techs)").done(),
            );
            page.say(Text::of("Learning speed: ").with(k.speed.as_str()).with("×").done());
            page.say(Text::of("Learned (").number(known.len() as u64).with("):").done());
            show_learned(page, who, k, &known);
            if known.len() == 0 {
                page.note("  (none)");
            }
            if k.studies.len() > 0 {
                page.place(Widget::Rule);
                page.note("In progress:");
                show_studies(page, &k.studies);
            }
            page.say(Text::of("Aware of (").number(heard.len() as u64).with("):").done());
            show_aware(page, who, k, l, &heard);
            if heard.len() == 0 {
                page.note("  (none)");
            }
            page.place(Widget::Rule);
            page.note_in(Tone::Plain, Style::Strong, "Beliefs");
            if k.beliefs.len() == 0 {
                page.note("  (no beliefs held)");
            } else {
                show_beliefs(page, &k.beliefs);
            }
        },
        None => page.note("  (no knowledge component)"),
    }
    page.place(Widget::EndSection);
}

/// Something can be read of a technology exactly when the pack holds a tablet or book that tells of
/// it.
pub proof fn tablets_and_books_are_read(l: Library, t: TechId, k: int)
    requires
        0 <= k < l.items@.len(),
    ensures
        ({
            let (item, n) = l.items@[k];
            &&& n > 0 && (l.tablet == Some(item.resource_id) || l.book == Some(item.resource_id))
                && item.tech_payload == Some(t) ==> can_read(l, t)
            &&& n == 0 ==> writing(l.items@[k], l.tablet, l.book) is None
            &&& l.tablet != Some(item.resource_id) && l.book != Some(item.resource_id) ==> writing(
                l.items@[k],
                l.tablet,
                l.book,
            ) is None
        }),
{
    assert(writing(l.items@[k], l.tablet, l.book) == writing(l.items@[k], l.tablet, l.book));
}

/// What was learned is listed as learned, what was only heard of as heard of; nothing is listed as
/// both.
pub proof fn learning_is_more_than_hearing(techs: Seq<TechLine>, k: int)
    requires
        0 <= k < techs.len() <= u16::MAX,
    ensures
        learned(techs).contains(k as TechId) <==> techs[k].learned,
        heard_of(techs).contains(k as TechId) <==> techs[k].aware && !techs[k].learned,
{
    let n = techs.len() as int;
    let p = |i: int| techs[i].learned;
    let q = |i: int| !techs[i].learned && techs[i].aware;
    let mk = |i: int| i as TechId;
    crate::seqs::collect_contains(n, p, mk, k as TechId);
    crate::seqs::collect_contains(n, q, mk, k as TechId);
    assert(mk(k) == k as TechId);
    if learned(techs).contains(k as TechId) {
        let i = choose|i: int| 0 <= i < n && p(i) && #[trigger] mk(i) == k as TechId;
        assert(i == k);
    }
    if heard_of(techs).contains(k as TechId) {
        let i = choose|i: int| 0 <= i < n && q(i) && #[trigger] mk(i) == k as TechId;
        assert(i == k);
    }
}

/// A list names everything in turn, with a comma between two names and none at either end.
pub proof fn lists_have_commas_between(texts: Seq<String>, n: int)
    requires
        n >= 1,
    ensures
        listed(texts, 0).len() == 0,
        listed(texts, 1) == texts[0]@,
        listed(texts, 2) == texts[0]@ + ", "@ + texts[1]@,
        listed(texts, n + 1) == listed(texts, n) + ", "@ + texts[n]@,
{
    assert(listed(texts, 1) == texts[0]@);
}

} // verus!
