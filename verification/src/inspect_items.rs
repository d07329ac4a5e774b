//! What a person carries and wears.

use vstd::prelude::*;
use vstd::string::*;
use crate::geometry::min;
use crate::inspect_person::{InspectorActionKind, PersonRows};
use crate::page::{line, mark, styled, Fill, Page, Style, Tone, Widget};
use crate::parts::{Entity, ResourceId, TechId};
use crate::text::{digits, Text};

verus! {

/// A thing that can be carried. The handle finds it again in the running world.
#[derive(Clone, Copy, Debug, PartialEq, Eq, Structural)]
pub struct Item {
    pub resource_id: ResourceId,
    pub tech_payload: Option<TechId>,
    pub handle: u64,
}

/// A place on the body where something is worn or held ready.
#[derive(Clone, Copy, Debug, PartialEq, Eq, Structural)]
pub enum EquipmentSlot {
    MainHand,
    OffHand,
    TorsoArmor,
    HeadArmor,
    ArmArmor,
    LegArmor,
}

/// The name of a place on the body.
pub open spec fn slot_name(slot: EquipmentSlot) -> Seq<char> {
    match slot {
        EquipmentSlot::MainHand => "Main Hand"@,
        EquipmentSlot::OffHand => "Off Hand"@,
        EquipmentSlot::TorsoArmor => "Torso"@,
        EquipmentSlot::HeadArmor => "Head"@,
        EquipmentSlot::ArmArmor => "Arms"@,
        EquipmentSlot::LegArmor => "Legs"@,
    }
}

pub fn slot_display_name(slot: EquipmentSlot) -> (s: &'static str)
    ensures
        s@ == slot_name(slot),
{
    match slot {
        EquipmentSlot::MainHand => "Main Hand",
        EquipmentSlot::OffHand => "Off Hand",
        EquipmentSlot::TorsoArmor => "Torso",
        EquipmentSlot::HeadArmor => "Head",
        EquipmentSlot::ArmArmor => "Arms",
        EquipmentSlot::LegArmor => "Legs",
    }
}

/// A stack in the pack or in a hand.
#[derive(Debug)]
pub struct Stack {
    pub item: Item,
    pub qty: u32,
    pub label: String,
    /// The weight in kilograms, as it is to be read.
    pub weight: String,
    pub two_handed: bool,
    /// Where the item can be worn.
    pub slots: Vec<EquipmentSlot>,
}

/// What is in the hands.
#[derive(Debug)]
pub struct Hands {
    pub free: u8,
    pub left: Option<Stack>,
    pub right: Option<Stack>,
}

/// What a person owns and carries. The figures are given as they are to be read.
#[derive(Debug)]
pub struct Belongings {
    pub currency: String,
    pub weight: String,
    pub capacity: String,
    pub pouch: String,
    pub pouch_capacity: String,
    pub pack: String,
    pub pack_capacity: String,
    pub weight_g: u32,
    pub capacity_g: u32,
    pub stacks: Vec<Stack>,
    pub hands: Option<Hands>,
}

/// The rows on the first `n` stacks of the pack; empty ones are left out.
pub open spec fn stack_rows(p: PersonRows, who: Entity, stacks: Seq<Stack>, n: int) -> PersonRows
    decreases n,
{
    if n <= 0 {
        p
    } else {
        let q = stack_rows(p, who, stacks, n - 1);
        let s = stacks[n - 1];
        if s.qty == 0 {
            q
        } else {
            let q = q.push(mark(Widget::Begin)).push(
                line(s.label@ + ": "@ + digits(s.qty as nat) + " ("@ + s.weight@ + " kg)"@),
            ).push(
                (
                    Widget::SmallButton,
                    "Drop 1"@,
                    Some(InspectorActionKind::DropInvItemOne { target: who, item: s.item }),
                ),
            );
            let q = if s.qty > 1 {
                q.push(
                    (
                        Widget::SmallButton,
                        "Drop All"@,
                        Some(
                            InspectorActionKind::DropInventoryItem {
                                target: who,
                                item: s.item,
                                qty: s.qty,
                            },
                        ),
                    ),
                )
            } else {
                q
            };
            q.push(mark(Widget::End))
        }
    }
}

/// The rows on a hand.
pub open spec fn hand_rows(
    p: PersonRows,
    name: Seq<char>,
    held: Option<Stack>,
    drop: InspectorActionKind,
) -> PersonRows {
    match held {
        Some(s) => p.push(mark(Widget::Begin)).push(
            line(
                "  "@ + name + ": "@ + s.label@ + " ×"@ + digits(s.qty as nat) + (if s.two_handed {
                    " [2H]"@
                } else {
                    ""@
                }) + " ("@ + s.weight@ + " kg)"@,
            ),
        ).push((Widget::SmallButton, "Drop"@, Some(drop))).push(mark(Widget::End)),
        None => p.push(styled(Tone::Gray(140), Style::Normal, "  "@ + name + ": —"@)),
    }
}

/// What the left hand holds needs both.
pub open spec fn both_hands(left: Option<Stack>) -> bool {
    match left {
        Some(s) => s.two_handed,
        None => false,
    }
}

/// The part of the page on what a person owns and carries.
pub open spec fn belongings_rows(p: PersonRows, who: Entity, b: Belongings) -> PersonRows {
    let p = p.push((Widget::Section(Tone::Plain, false), "Currency & Inventory"@, None)).push(
        line("Currency: "@ + b.currency@),
    ).push(
        line(
            "Inventory: "@ + b.weight@ + " / "@ + b.capacity@ + " kg  |  pouch "@ + b.pouch@ + "/"@
                + b.pouch_capacity@ + " L  |  pack "@ + b.pack@ + "/"@ + b.pack_capacity@ + " L"@,
        ),
    ).push(
        (
            if b.capacity_g > 0 {
                Widget::Bar(
                    Fill::Neutral,
                    min(b.weight_g as int, b.capacity_g as int) as u32,
                    b.capacity_g,
                )
            } else {
                Widget::Bar(Fill::Neutral, 0, 1)
            },
            b.weight@ + " kg"@,
            None,
        ),
    );
    let p = stack_rows(p, who, b.stacks@, b.stacks@.len() as int);
    let left = match b.hands {
        Some(h) => h.left,
        None => None,
    };
    let right = match b.hands {
        Some(h) => h.right,
        None => None,
    };
    let p = p.push(
        line(
            match b.hands {
                Some(h) => "In hands: "@ + digits(h.free as nat) + " free"@,
                None => "In hands: —"@,
            },
        ),
    );
    let p = hand_rows(p, "L"@, left, InspectorActionKind::DropLeftHand { target: who });
    let p = if both_hands(left) {
        p.push(styled(Tone::Gray(140), Style::Normal, "  R: (held with two hands)"@))
    } else {
        hand_rows(p, "R"@, right, InspectorActionKind::DropRightHand { target: who })
    };
    p.push(mark(Widget::EndSection))
}

fn show_stacks(page: &mut Page<InspectorActionKind>, who: Entity, stacks: &Vec<Stack>)
    ensures
        final(page).shown() == stack_rows(
            old(page).shown(),
            who,
            stacks@,
            stacks@.len() as int,
        ),
{
    let ghost start = page.shown();
    let mut i: usize = 0;
    while i < stacks.len()
        invariant
            i <= stacks.len(),
            page.shown() == stack_rows(start, who, stacks@, i as int),
        decreases stacks.len() - i,
    {
        let s = &stacks[i];
        if s.qty > 0 {
            page.place(Widget::Begin);
            page.say(
                Text::of(s.label.as_str()).with(": ").number(s.qty as u64).with(" (").with(
                    s.weight.as_str(),
                ).with(" kg)").done(),
            );
            page.offer(
                Widget::SmallButton,
                "Drop 1",
                InspectorActionKind::DropInvItemOne { target: who, item: s.item },
            );
            if s.qty > 1 {
                page.offer(
                    Widget::SmallButton,
                    "Drop All",
                    InspectorActionKind::DropInventoryItem {
                        target: who,
                        item: s.item,
                        qty: s.qty,
                    },
                );
            }
            page.place(Widget::End);
        }
        i += 1;
    }
}

fn show_hand(
    page: &mut Page<InspectorActionKind>,
    name: &str,
    held: &Option<Stack>,
    drop: InspectorActionKind,
)
    ensures
        final(page).shown() == hand_rows(old(page).shown(), name@, *held, drop),
{
    match held {
        Some(s) => {
            page.place(Widget::Begin);
            let tag = if s.two_handed {
                " [2H]"
            } else {
                ""
            };
            page.say(
                Text::of("  ").with(name).with(": ").with(s.label.as_str()).with(" ×").number(
                    s.qty as u64,
                ).with(tag).with(" (").with(s.weight.as_str()).with(" kg)").done(),
            );
            page.offer(Widget::SmallButton, "Drop", drop);
            page.place(Widget::End);
        },
        None => page.say_in(
            Tone::Gray(140),
            Style::Normal,
            Text::of("  ").with(name).with(": —").done(),
        ),
    }
}

/// Shows what a person owns and carries.
pub fn show_belongings(page: &mut Page<InspectorActionKind>, who: Entity, b: &Belongings)
    ensures
        final(page).shown() == belongings_rows(old(page).shown(), who, *b),
{
    page.section(Tone::Plain, false, "Currency & Inventory");
    page.say(Text::of("Currency: ").with(b.currency.as_str()).done());
    page.say(
        Text::of("Inventory: ").with(b.weight.as_str()).with(" / ").with(b.capacity.as_str()).with(
            " kg  |  pouch ",
        ).with(b.pouch.as_str()).with("/").with(b.pouch_capacity.as_str()).with(
            " L  |  pack ",
        ).with(b.pack.as_str()).with("/").with(b.pack_capacity.as_str()).with(" L").done(),
    );
    let bar = if b.capacity_g > 0 {
        let full: u32 = if b.weight_g < b.capacity_g {
            b.weight_g
        } else {
            b.capacity_g
        };
        Widget::Bar(Fill::Neutral, full, b.capacity_g)
    } else {
        Widget::Bar(Fill::Neutral, 0, 1)
    };
    page.put(bar, Text::of(b.weight.as_str()).with(" kg").done(), None);
    show_stacks(page, who, &b.stacks);
    let nothing: Option<Stack> = None;
    let (left, right): (&Option<Stack>, &Option<Stack>) = match &b.hands {
        Some(h) => {
            page.say(Text::of("In hands: ").number(h.free as u64).with(" free").done());
            (&h.left, &h.right)
        },
        None => {
            page.note("In hands: —");
            (&nothing, &nothing)
        },
    };
    show_hand(page, "L", left, InspectorActionKind::DropLeftHand { target: who });
    let two_handed = match left {
        Some(s) => s.two_handed,
        None => false,
    };
    if two_handed {
        page.note_in(Tone::Gray(140), Style::Normal, "  R: (held with two hands)");
    } else {
        show_hand(page, "R", right, InspectorActionKind::DropRightHand { target: who });
    }
    page.place(Widget::EndSection);
}

/// What is worn at each place of the body, by its label.
#[derive(Debug)]
pub struct Outfit {
    pub main_hand: Option<String>,
    pub off_hand: Option<String>,
    pub torso: Option<String>,
    pub head: Option<String>,
    pub arms: Option<String>,
    pub legs: Option<String>,
}

/// The rows on a place of the body.
pub open spec fn worn_rows(
    p: PersonRows,
    who: Entity,
    slot: EquipmentSlot,
    worn: Option<String>,
) -> PersonRows {
    match worn {
        Some(label) => p.push(mark(Widget::Begin)).push(
            line(slot_name(slot) + ": "@ + label@),
        ).push(
            (
                Widget::SmallButton,
                "Unequip"@,
                Some(InspectorActionKind::UnequipSlot { target: who, slot }),
            ),
        ).push(mark(Widget::End)),
        None => p.push(styled(Tone::Gray(140), Style::Normal, slot_name(slot) + ": —"@)),
    }
}

/// The rows on every place of the body.
pub open spec fn outfit_rows(p: PersonRows, who: Entity, o: Outfit) -> PersonRows {
    let p = worn_rows(p, who, EquipmentSlot::MainHand, o.main_hand);
    let p = worn_rows(p, who, EquipmentSlot::OffHand, o.off_hand);
    let p = worn_rows(p, who, EquipmentSlot::TorsoArmor, o.torso);
    let p = worn_rows(p, who, EquipmentSlot::HeadArmor, o.head);
    let p = worn_rows(p, who, EquipmentSlot::ArmArmor, o.arms);
    worn_rows(p, who, EquipmentSlot::LegArmor, o.legs)
}

/// A stack of the pack holds something that can be worn.
pub open spec fn pack_offers(stacks: Seq<Stack>) -> bool {
    exists|i: int| 0 <= i < stacks.len() && (#[trigger] stacks[i]).qty > 0 && stacks[i].slots@.len() > 0
}

/// A hand holds something that can be worn.
pub open spec fn hand_offers(held: Option<Stack>) -> bool {
    match held {
        Some(s) => s.slots@.len() > 0,
        None => false,
    }
}

/// There is something that can be worn.
pub open spec fn something_to_wear(b: Belongings) -> bool {
    ||| pack_offers(b.stacks@)
    ||| match b.hands {
        Some(h) => hand_offers(h.left) || hand_offers(h.right),
        None => false,
    }
}

/// The offers to wear a stack at the first `n` places where it fits.
pub open spec fn wear_rows(
    p: PersonRows,
    who: Entity,
    s: Stack,
    from_hands: bool,
    tag: Seq<char>,
    n: int,
) -> PersonRows
    decreases n,
{
    if n <= 0 {
        p
    } else {
        let slot = s.slots@[n - 1];
        wear_rows(p, who, s, from_hands, tag, n - 1).push(
            (
                Widget::SmallButton,
                s.label@ + tag + " → "@ + slot_name(slot),
                Some(
                    InspectorActionKind::EquipItem { target: who, item: s.item, from_hands, slot },
                ),
            ),
        )
    }
}

/// The offers from the first `n` stacks of the pack.
pub open spec fn pack_wear_rows(
    p: PersonRows,
    who: Entity,
    stacks: Seq<Stack>,
    n: int,
) -> PersonRows
    decreases n,
{
    if n <= 0 {
        p
    } else {
        let q = pack_wear_rows(p, who, stacks, n - 1);
        let s = stacks[n - 1];
        if s.qty == 0 {
            q
        } else {
            wear_rows(q, who, s, false, ""@, s.slots@.len() as int)
        }
    }
}

/// The offers from a hand. What takes both hands is offered for its first place only.
pub open spec fn hand_wear_rows(
    p: PersonRows,
    who: Entity,
    held: Option<Stack>,
    hand: Seq<char>,
) -> PersonRows {
    match held {
        Some(s) => if s.two_handed {
            wear_rows(p, who, s, true, " (hands)"@, min(s.slots@.len() as int, 1))
        } else {
            wear_rows(p, who, s, true, hand, s.slots@.len() as int)
        },
        None => p,
    }
}

/// The part of the page on what is worn and what could be.
pub open spec fn equipment_rows(
    p: PersonRows,
    who: Entity,
    o: Option<&Outfit>,
    b: Belongings,
) -> PersonRows {
    let p = p.push((Widget::Section(Tone::Plain, true), "Equipment"@, None));
    let p = match o {
        Some(o) => {
            let p = outfit_rows(p, who, *o);
            if something_to_wear(b) {
                let p = p.push(mark(Widget::Rule)).push(
                    styled(Tone::Gray(180), Style::Small, "Equip from inventory/hands:"@),
                );
                let p = pack_wear_rows(p, who, b.stacks@, b.stacks@.len() as int);
                match b.hands {
                    Some(h) => hand_wear_rows(
                        hand_wear_rows(p, who, h.left, " (L)"@),
                        who,
                        h.right,
                        " (R)"@,
                    ),
                    None => p,
                }
            } else {
                p
            }
        },
        None => p.push(styled(Tone::Gray(140), Style::Normal, "(no equipment component)"@)),
    };
    p.push(mark(Widget::EndSection))
}

fn show_worn(
    page: &mut Page<InspectorActionKind>,
    who: Entity,
    slot: EquipmentSlot,
    worn: &Option<String>,
)
    ensures
        final(page).shown() == worn_rows(old(page).shown(), who, slot, *worn),
{
    match worn {
        Some(label) => {
            page.place(Widget::Begin);
            page.say(Text::of(slot_display_name(slot)).with(": ").with(label.as_str()).done());
            page.offer(
                Widget::SmallButton,
                "Unequip",
                InspectorActionKind::UnequipSlot { target: who, slot },
            );
            page.place(Widget::End);
        },
        None => page.say_in(
            Tone::Gray(140),
            Style::Normal,
            Text::of(slot_display_name(slot)).with(": —").done(),
        ),
    }
}

fn fits_somewhere(held: &Option<Stack>) -> (r: bool)
    ensures
        r == hand_offers(*held),
{
    match held {
        Some(s) => s.slots.len() > 0,
        None => false,
    }
}

fn has_equippable(b: &Belongings) -> (r: bool)
    ensures
        r == something_to_wear(*b),
{
    let mut i: usize = 0;
    while i < b.stacks.len()
        invariant
            i <= b.stacks.len(),
            forall|j: int|
                0 <= j < i ==> !((#[trigger] b.stacks@[j]).qty > 0 && b.stacks@[j].slots@.len() > 0),
        decreases b.stacks.len() - i,
    {
        if b.stacks[i].qty > 0 && b.stacks[i].slots.len() > 0 {
            assert(b.stacks@[i as int].qty > 0);
            return true;
        }
        i += 1;
    }
    match &b.hands {
        Some(h) => fits_somewhere(&h.left) || fits_somewhere(&h.right),
        None => false,
    }
}

fn show_wear(
    page: &mut Page<InspectorActionKind>,
    who: Entity,
    s: &Stack,
    from_hands: bool,
    tag: &str,
    n: usize,
)
    requires
        n <= s.slots@.len(),
    ensures
        final(page).shown() == wear_rows(old(page).shown(), who, *s, from_hands, tag@, n as int),
{
    let ghost start = page.shown();
    let mut i: usize = 0;
    while i < n
        invariant
            i <= n <= s.slots@.len(),
            page.shown() == wear_rows(start, who, *s, from_hands, tag@, i as int),
        decreases n - i,
    {
        let slot = s.slots[i];
        page.put(
            Widget::SmallButton,
            Text::of(s.label.as_str()).with(tag).with(" → ").with(slot_display_name(slot)).done(),
            Some(InspectorActionKind::EquipItem { target: who, item: s.item, from_hands, slot }),
        );
        i += 1;
    }
}

fn show_pack_wear(page: &mut Page<InspectorActionKind>, who: Entity, stacks: &Vec<Stack>)
    ensures
        final(page).shown() == pack_wear_rows(
            old(page).shown(),
            who,
            stacks@,
            stacks@.len() as int,
        ),
{
    let ghost start = page.shown();
    let mut i: usize = 0;
    while i < stacks.len()
        invariant
            i <= stacks.len(),
            page.shown() == pack_wear_rows(start, who, stacks@, i as int),
        decreases stacks.len() - i,
    {
        if stacks[i].qty > 0 {
            show_wear(page, who, &stacks[i], false, "", stacks[i].slots.len());
        }
        i += 1;
    }
}

fn show_hand_wear(
    page: &mut Page<InspectorActionKind>,
    who: Entity,
    held: &Option<Stack>,
    hand: &str,
)
    ensures
        final(page).shown() == hand_wear_rows(old(page).shown(), who, *held, hand@),
{
    match held {
        Some(s) => {
            if s.two_handed {
                let n: usize = if s.slots.len() > 0 {
                    1
                } else {
                    0
                };
                show_wear(page, who, s, true, " (hands)", n);
            } else {
                show_wear(page, who, s, true, hand, s.slots.len());
            }
        },
        None => {},
    }
}

/// Shows what is worn and what could be.
pub fn show_equipment(
    page: &mut Page<InspectorActionKind>,
    who: Entity,
    o: Option<&Outfit>,
    b: &Belongings,
)
    ensures
        final(page).shown() == equipment_rows(old(page).shown(), who, o, *b),
{
    page.section(Tone::Plain, true, "Equipment");
    match o {
        Some(o) => {
            show_worn(page, who, EquipmentSlot::MainHand, &o.main_hand);
            show_worn(page, who, EquipmentSlot::OffHand, &o.off_hand);
            show_worn(page, who, EquipmentSlot::TorsoArmor, &o.torso);
            show_worn(page, who, EquipmentSlot::HeadArmor, &o.head);
            show_worn(page, who, EquipmentSlot::ArmArmor, &o.arms);
            show_worn(page, who, EquipmentSlot::LegArmor, &o.legs);
            if has_equippable(b) {
                page.place(Widget::Rule);
                page.note_in(Tone::Gray(180), Style::Small, "Equip from inventory/hands:");
                show_pack_wear(page, who, &b.stacks);
                match &b.hands {
                    Some(h) => {
                        show_hand_wear(page, who, &h.left, " (L)");
                        show_hand_wear(page, who, &h.right, " (R)");
                    },
                    None => {},
                }
            }
        },
        None => page.note_in(Tone::Gray(140), Style::Normal, "(no equipment component)"),
    }
    page.place(Widget::EndSection);
}

/// A stack that is used up is not shown. Of any other one piece can be dropped, and all of it at
/// once where there is more than one.
pub proof fn stacks_can_be_dropped(p: PersonRows, who: Entity, stacks: Seq<Stack>, n: int)
    requires
        0 <= n < stacks.len(),
    ensures
        ({
            let s = stacks[n];
            let before = stack_rows(p, who, stacks, n);
            let after = stack_rows(p, who, stacks, n + 1);
            let k = before.len() as int;
            &&& s.qty == 0 ==> after == before
            &&& s.qty > 0 ==> after.take(k) =~= before && after[k + 2].2 == Some(
                InspectorActionKind::DropInvItemOne { target: who, item: s.item },
            )
            &&& s.qty == 1 ==> after.len() == k + 4
            &&& s.qty > 1 ==> after.len() == k + 5 && after[k + 3].2 == Some(
                InspectorActionKind::DropInventoryItem { target: who, item: s.item, qty: s.qty },
            )
        }),
{
}

/// What a hand holds can be dropped; an empty hand offers nothing.
pub proof fn full_hands_can_be_emptied(
    p: PersonRows,
    name: Seq<char>,
    held: Option<Stack>,
    drop: InspectorActionKind,
)
    ensures
        held is Some ==> hand_rows(p, name, held, drop).len() == p.len() + 4 && hand_rows(
            p,
            name,
            held,
            drop,
        )[p.len() as int + 2].2 == Some(drop),
        held is None ==> hand_rows(p, name, held, drop).len() == p.len() + 1 && hand_rows(
            p,
            name,
            held,
            drop,
        ).last().2 is None,
{
}

/// What is worn can be taken off, from where it is worn; an empty place offers nothing.
pub proof fn worn_things_can_be_taken_off(
    p: PersonRows,
    who: Entity,
    slot: EquipmentSlot,
    worn: Option<String>,
)
    ensures
        worn is Some ==> worn_rows(p, who, slot, worn).len() == p.len() + 4 && worn_rows(
            p,
            who,
            slot,
            worn,
        )[p.len() as int + 2].2 == Some(InspectorActionKind::UnequipSlot { target: who, slot }),
        worn is None ==> worn_rows(p, who, slot, worn).len() == p.len() + 1 && worn_rows(
            p,
            who,
            slot,
            worn,
        ).last().2 is None,
{
}

/// A thing is offered for each place where it can be worn, in turn.
pub proof fn things_are_offered_for_their_places(
    p: PersonRows,
    who: Entity,
    s: Stack,
    from_hands: bool,
    tag: Seq<char>,
    n: int,
    k: int,
)
    requires
        0 <= k < n <= s.slots@.len(),
    ensures
        wear_rows(p, who, s, from_hands, tag, n).len() == p.len() + n,
        wear_rows(p, who, s, from_hands, tag, n)[p.len() + k].2 == Some(
            InspectorActionKind::EquipItem {
                target: who,
                item: s.item,
                from_hands,
                slot: s.slots@[k],
            },
        ),
    decreases n,
{
    assert(wear_rows(p, who, s, from_hands, tag, 0) == p);
    if k < n - 1 {
        things_are_offered_for_their_places(p, who, s, from_hands, tag, n - 1, k);
    } else if n > 1 {
        things_are_offered_for_their_places(p, who, s, from_hands, tag, n - 1, 0);
    }
}

/// A thing held with two hands is offered once; one in a single hand for each of its places, and an
/// empty hand offers nothing.
pub proof fn two_handed_things_are_offered_once(
    p: PersonRows,
    who: Entity,
    held: Option<Stack>,
    hand: Seq<char>,
)
    ensures
        held is None ==> hand_wear_rows(p, who, held, hand) == p,
        held matches Some(s) ==> s.slots@.len() > 0 ==> hand_wear_rows(p, who, held, hand).len()
            == p.len() + (if s.two_handed {
            1
        } else {
            s.slots@.len()
        }),
        held matches Some(s) ==> s.slots@.len() == 0 ==> hand_wear_rows(p, who, held, hand) == p,
{
    match held {
        Some(s) => {
            if s.slots@.len() > 0 {
                things_are_offered_for_their_places(p, who, s, true, " (hands)"@, 1, 0);
                things_are_offered_for_their_places(
                    p,
                    who,
                    s,
                    true,
                    hand,
                    s.slots@.len() as int,
                    0,
                );
            }
        },
        None => {},
    }
}

/// There is something to wear exactly if the pack or a hand holds something that can be worn.
pub proof fn wearable_things_are_noticed(b: Belongings, i: int)
    ensures
        0 <= i < b.stacks@.len() && b.stacks@[i].qty > 0 && b.stacks@[i].slots@.len() > 0
            ==> something_to_wear(b),
        b.hands matches Some(h) ==> (h.left matches Some(s) ==> s.slots@.len() > 0
            ==> something_to_wear(b)),
        b.hands matches Some(h) ==> (h.right matches Some(s) ==> s.slots@.len() > 0
            ==> something_to_wear(b)),
        (forall|k: int|
            0 <= k < b.stacks@.len() ==> (#[trigger] b.stacks@[k]).qty == 0
                || b.stacks@[k].slots@.len() == 0) && b.hands is None ==> !something_to_wear(b),
{
}

} // verus!
