//! What is done when something on the inspector's page was pressed.
//!
//! Taking, wearing and stowing happen in the running world. Here it is decided what is to be
//! tried first, and what follows from what came of it.

use vstd::prelude::*;
use crate::inspect_items::{EquipmentSlot, Item};
use crate::inspect_person::InspectorActionKind;
use crate::parts::{Entity, TechId};

verus! {

/// A stack held in a hand.
#[derive(Clone, Copy, Debug, PartialEq, Eq, Structural)]
pub struct HandStack {
    pub item: Item,
    pub qty: u32,
    pub two_handed: bool,
}

/// What a person's two hands hold.
#[derive(Clone, Copy, Debug, PartialEq, Eq, Structural)]
pub struct Carrier {
    pub left: Option<HandStack>,
    pub right: Option<HandStack>,
}

impl Carrier {
    /// Opens the left hand, and the right one too where the stack takes both. Returns what falls.
    pub fn drop_left(&mut self) -> (fallen: Option<(Item, u32)>)
        ensures
            final(self).left is None,
            match old(self).left {
                Some(s) => {
                    &&& fallen == Some((s.item, s.qty))
                    &&& final(self).right == (if s.two_handed {
                        None
                    } else {
                        old(self).right
                    })
                },
                None => fallen is None && final(self).right == old(self).right,
            },
    {
        match self.left {
            Some(s) => {
                self.left = None;
                if s.two_handed {
                    self.right = None;
                }
                Some((s.item, s.qty))
            },
            None => None,
        }
    }

    /// Opens the right hand. Returns what falls.
    pub fn drop_right(&mut self) -> (fallen: Option<(Item, u32)>)
        ensures
            final(self).right is None,
            final(self).left == old(self).left,
            match old(self).right {
                Some(s) => fallen == Some((s.item, s.qty)),
                None => fallen is None,
            },
    {
        match self.right {
            Some(s) => {
                self.right = None;
                Some((s.item, s.qty))
            },
            None => None,
        }
    }
}

/// A command to the people of a faction, or to the faction itself.
#[derive(Clone, Copy, Debug, PartialEq, Eq, Structural)]
pub enum KnowledgeOrder {
    HoldLecture { tech: TechId },
    ReadItem { tech: TechId },
    EncodeTablet { tech: TechId, faction: u32 },
}

/// What is to be done next.
#[derive(Clone, Copy, Debug, PartialEq, Eq, Structural)]
pub enum InspectorStep {
    TakeFromPack { target: Entity, item: Item, qty: u32 },
    TakeFromHands { target: Entity, item: Item, qty: u32 },
    DropLeft { target: Entity },
    DropRight { target: Entity },
    /// Puts an item where it is worn; what was worn there comes off.
    Wear { target: Entity, slot: EquipmentSlot, item: Item },
    TakeOff { target: Entity, slot: EquipmentSlot },
    /// Puts an item into the pack.
    Stow { target: Entity, item: Item, qty: u32 },
    /// Takes an item into the hands.
    Hold { target: Entity, item: Item, qty: u32 },
    /// Leaves an item on the ground where the person stands.
    Leave { target: Entity, item: Item, qty: u32 },
    Send { to: Option<Entity>, order: KnowledgeOrder },
    ReleaseJob { job: u32 },
    Replan { target: Entity },
    Finish,
}

/// What came of the last step.
#[derive(Clone, Copy, Debug, PartialEq, Eq, Structural)]
pub enum StepOutcome {
    /// Nothing was done yet.
    Start,
    /// So much was taken.
    Taken(u32),
    /// This came off.
    CameOff(Option<Item>),
    /// So much of an item did not go into the pack.
    NotStowed(Item, u32),
    /// So much of an item did not go into the hands.
    NotHeld(Item, u32),
}

/// Whom an action is about.
pub open spec fn target_of(a: InspectorActionKind) -> Option<Entity> {
    match a {
        InspectorActionKind::DropInventoryItem { target, .. } => Some(target),
        InspectorActionKind::DropInvItemOne { target, .. } => Some(target),
        InspectorActionKind::DropLeftHand { target } => Some(target),
        InspectorActionKind::DropRightHand { target } => Some(target),
        InspectorActionKind::EquipItem { target, .. } => Some(target),
        InspectorActionKind::UnequipSlot { target, .. } => Some(target),
        InspectorActionKind::HoldLecture { lecturer, .. } => Some(lecturer),
        InspectorActionKind::ReadItem { reader, .. } => Some(reader),
        InspectorActionKind::EncodeTablet { .. } => None,
        InspectorActionKind::ReleaseJob { .. } => None,
        InspectorActionKind::Replan { target } => Some(target),
    }
}

/// What is tried first.
pub open spec fn first_step(a: InspectorActionKind, faction: u32) -> InspectorStep {
    match a {
        InspectorActionKind::DropInventoryItem { target, item, qty } => InspectorStep::TakeFromPack {
            target,
            item,
            qty,
        },
        InspectorActionKind::DropInvItemOne { target, item } => InspectorStep::TakeFromPack {
            target,
            item,
            qty: 1,
        },
        InspectorActionKind::DropLeftHand { target } => InspectorStep::DropLeft { target },
        InspectorActionKind::DropRightHand { target } => InspectorStep::DropRight { target },
        InspectorActionKind::EquipItem { target, item, from_hands, .. } => if from_hands {
            InspectorStep::TakeFromHands { target, item, qty: 1 }
        } else {
            InspectorStep::TakeFromPack { target, item, qty: 1 }
        },
        InspectorActionKind::UnequipSlot { target, slot } => InspectorStep::TakeOff {
            target,
            slot,
        },
        InspectorActionKind::HoldLecture { lecturer, tech } => InspectorStep::Send {
            to: Some(lecturer),
            order: KnowledgeOrder::HoldLecture { tech },
        },
        InspectorActionKind::ReadItem { reader, tech } => InspectorStep::Send {
            to: Some(reader),
            order: KnowledgeOrder::ReadItem { tech },
        },
        InspectorActionKind::EncodeTablet { tech } => InspectorStep::Send {
            to: None,
            order: KnowledgeOrder::EncodeTablet { tech, faction },
        },
        InspectorActionKind::ReleaseJob { job } => InspectorStep::ReleaseJob { job },
        InspectorActionKind::Replan { target } => InspectorStep::Replan { target },
    }
}

/// What follows once `n` pieces were taken.
pub open spec fn after_taking(a: InspectorActionKind, n: u32) -> InspectorStep {
    if n == 0 {
        InspectorStep::Finish
    } else {
        match a {
            InspectorActionKind::DropInventoryItem { target, item, .. } => InspectorStep::Leave {
                target,
                item,
                qty: n,
            },
            InspectorActionKind::DropInvItemOne { target, item } => InspectorStep::Leave {
                target,
                item,
                qty: 1,
            },
            InspectorActionKind::EquipItem { target, item, slot, .. } => InspectorStep::Wear {
                target,
                slot,
                item,
            },
            _ => InspectorStep::Finish,
        }
    }
}

/// What is to be done next: what came off is stowed, else held, else left on the ground.
pub open spec fn next_step(
    a: InspectorActionKind,
    o: StepOutcome,
    faction: u32,
) -> InspectorStep {
    match o {
        StepOutcome::Start => first_step(a, faction),
        StepOutcome::Taken(n) => after_taking(a, n),
        StepOutcome::CameOff(off) => match (off, target_of(a)) {
            (Some(item), Some(target)) => InspectorStep::Stow { target, item, qty: 1 },
            _ => InspectorStep::Finish,
        },
        StepOutcome::NotStowed(item, n) => match target_of(a) {
            Some(target) => if n > 0 {
                InspectorStep::Hold { target, item, qty: n }
            } else {
                InspectorStep::Finish
            },
            None => InspectorStep::Finish,
        },
        StepOutcome::NotHeld(item, n) => match target_of(a) {
            Some(target) => if n > 0 {
                InspectorStep::Leave { target, item, qty: n }
            } else {
                InspectorStep::Finish
            },
            None => InspectorStep::Finish,
        },
    }
}

fn action_target(a: InspectorActionKind) -> (r: Option<Entity>)
    ensures
        r == target_of(a),
{
    match a {
        InspectorActionKind::DropInventoryItem { target, .. } => Some(target),
        InspectorActionKind::DropInvItemOne { target, .. } => Some(target),
        InspectorActionKind::DropLeftHand { target } => Some(target),
        InspectorActionKind::DropRightHand { target } => Some(target),
        InspectorActionKind::EquipItem { target, .. } => Some(target),
        InspectorActionKind::UnequipSlot { target, .. } => Some(target),
        InspectorActionKind::HoldLecture { lecturer, .. } => Some(lecturer),
        InspectorActionKind::ReadItem { reader, .. } => Some(reader),
        InspectorActionKind::EncodeTablet { .. } => None,
        InspectorActionKind::ReleaseJob { .. } => None,
        InspectorActionKind::Replan { target } => Some(target),
    }
}

fn begin(a: InspectorActionKind, faction: u32) -> (s: InspectorStep)
    ensures
        s == first_step(a, faction),
{
    match a {
        InspectorActionKind::DropInventoryItem { target, item, qty } => InspectorStep::TakeFromPack {
            target,
            item,
            qty,
        },
        InspectorActionKind::DropInvItemOne { target, item } => InspectorStep::TakeFromPack {
            target,
            item,
            qty: 1,
        },
        InspectorActionKind::DropLeftHand { target } => InspectorStep::DropLeft { target },
        InspectorActionKind::DropRightHand { target } => InspectorStep::DropRight { target },
        InspectorActionKind::EquipItem { target, item, from_hands, .. } => {
            if from_hands {
                InspectorStep::TakeFromHands { target, item, qty: 1 }
            } else {
                InspectorStep::TakeFromPack { target, item, qty: 1 }
            }
        },
        InspectorActionKind::UnequipSlot { target, slot } => InspectorStep::TakeOff {
            target,
            slot,
        },
        InspectorActionKind::HoldLecture { lecturer, tech } => InspectorStep::Send {
            to: Some(lecturer),
            order: KnowledgeOrder::HoldLecture { tech },
        },
        InspectorActionKind::ReadItem { reader, tech } => InspectorStep::Send {
            to: Some(reader),
            order: KnowledgeOrder::ReadItem { tech },
        },
        InspectorActionKind::EncodeTablet { tech } => InspectorStep::Send {
            to: None,
            order: KnowledgeOrder::EncodeTablet { tech, faction },
        },
        InspectorActionKind::ReleaseJob { job } => InspectorStep::ReleaseJob { job },
        InspectorActionKind::Replan { target } => InspectorStep::Replan { target },
    }
}

/// What is to be done next for an action of a player of `faction`, after what came of the last
/// step.
pub fn inspector_action_system(a: InspectorActionKind, o: StepOutcome, faction: u32) -> (s: InspectorStep)
    ensures
        s == next_step(a, o, faction),
{
    match o {
        StepOutcome::Start => begin(a, faction),
        StepOutcome::Taken(n) => {
            if n == 0 {
                InspectorStep::Finish
            } else {
                match a {
                    InspectorActionKind::DropInventoryItem { target, item, .. } => {
                        InspectorStep::Leave { target, item, qty: n }
                    },
                    InspectorActionKind::DropInvItemOne { target, item } => {
                        InspectorStep::Leave { target, item, qty: 1 }
                    },
                    InspectorActionKind::EquipItem { target, item, slot, .. } => {
                        InspectorStep::Wear { target, slot, item }
                    },
                    _ => InspectorStep::Finish,
                }
            }
        },
        StepOutcome::CameOff(off) => match (off, action_target(a)) {
            (Some(item), Some(target)) => InspectorStep::Stow { target, item, qty: 1 },
            _ => InspectorStep::Finish,
        },
        StepOutcome::NotStowed(item, n) => match action_target(a) {
            Some(target) => {
                if n > 0 {
                    InspectorStep::Hold { target, item, qty: n }
                } else {
                    InspectorStep::Finish
                }
            },
            None => InspectorStep::Finish,
        },
        StepOutcome::NotHeld(item, n) => match action_target(a) {
            Some(target) => {
                if n > 0 {
                    InspectorStep::Leave { target, item, qty: n }
                } else {
                    InspectorStep::Finish
                }
            },
            None => InspectorStep::Finish,
        },
    }
}

/// The pieces that a step asks to be put somewhere.
pub open spec fn asked(s: InspectorStep) -> int {
    match s {
        InspectorStep::Stow { qty, .. } => qty as int,
        InspectorStep::Hold { qty, .. } => qty as int,
        InspectorStep::Leave { qty, .. } => qty as int,
        _ => 0,
    }
}

/// What comes off the body is never lost: where the pack leaves `n` pieces over and the hands
/// `m` of those, the rest of the one piece was stowed or held, and the `m` are left on the ground.
pub proof fn nothing_worn_is_lost(a: InspectorActionKind, item: Item, n: u32, m: u32, faction: u32)
    requires
        target_of(a) is Some,
        n <= 1,
        m <= n,
    ensures
        ({
            let stow = next_step(a, StepOutcome::CameOff(Some(item)), faction);
            let hold = next_step(a, StepOutcome::NotStowed(item, n), faction);
            let leave = next_step(a, StepOutcome::NotHeld(item, m), faction);
            &&& asked(stow) == 1
            &&& asked(hold) == n
            &&& asked(leave) == m
            &&& (asked(stow) - n) + (asked(hold) - m) + asked(leave) == 1
        }),
{
}

/// An order is carried out on whom it names: every step that has a person has the one whom the
/// order is about.
pub proof fn orders_stay_with_their_person(
    a: InspectorActionKind,
    o: StepOutcome,
    faction: u32,
)
    ensures
        ({
            let s = next_step(a, o, faction);
            &&& s matches InspectorStep::TakeFromPack { target, .. } ==> target_of(a) == Some(
                target,
            )
            &&& s matches InspectorStep::TakeFromHands { target, .. } ==> target_of(a) == Some(
                target,
            )
            &&& s matches InspectorStep::DropLeft { target } ==> target_of(a) == Some(target)
            &&& s matches InspectorStep::DropRight { target } ==> target_of(a) == Some(target)
            &&& s matches InspectorStep::Wear { target, .. } ==> target_of(a) == Some(target)
            &&& s matches InspectorStep::TakeOff { target, .. } ==> target_of(a) == Some(target)
            &&& s matches InspectorStep::Stow { target, .. } ==> target_of(a) == Some(target)
            &&& s matches InspectorStep::Hold { target, .. } ==> target_of(a) == Some(target)
            &&& s matches InspectorStep::Leave { target, .. } ==> target_of(a) == Some(target)
            &&& s matches InspectorStep::Replan { target } ==> target_of(a) == Some(target)
        }),
{
}

/// What is dropped is first taken from the pack and then left, so much of it as was taken; what is
/// put on is taken from the hands or the pack, one of it, and then worn where it was said to be;
/// of nothing nothing is left.
pub proof fn what_is_taken_is_put_to_use(
    target: Entity,
    item: Item,
    qty: u32,
    slot: EquipmentSlot,
    n: u32,
    faction: u32,
)
    requires
        n > 0,
    ensures
        ({
            let a = InspectorActionKind::DropInventoryItem { target, item, qty };
            &&& next_step(a, StepOutcome::Start, faction) == InspectorStep::TakeFromPack {
                target,
                item,
                qty,
            }
            &&& next_step(a, StepOutcome::Taken(n), faction) == InspectorStep::Leave {
                target,
                item,
                qty: n,
            }
            &&& next_step(a, StepOutcome::Taken(0), faction) is Finish
        }),
        ({
            let a = InspectorActionKind::DropInvItemOne { target, item };
            &&& next_step(a, StepOutcome::Start, faction) == InspectorStep::TakeFromPack {
                target,
                item,
                qty: 1,
            }
            &&& next_step(a, StepOutcome::Taken(0), faction) is Finish
        }),
        forall|a: InspectorActionKind|
            (#[trigger] target_of(a) == Some(target) && (a matches InspectorActionKind::EquipItem {
                item: i,
                slot: s,
                from_hands,
                ..
            } && i == item && s == slot && from_hands)) ==> next_step(
                a,
                StepOutcome::Start,
                faction,
            ) == (InspectorStep::TakeFromHands { target, item, qty: 1 }) && next_step(
                a,
                StepOutcome::Taken(n),
                faction,
            ) == (InspectorStep::Wear { target, slot, item }),
        ({
            let a = InspectorActionKind::DropLeftHand { target };
            let b = InspectorActionKind::DropRightHand { target };
            &&& next_step(a, StepOutcome::Start, faction) is DropLeft
            &&& next_step(b, StepOutcome::Start, faction) is DropRight
        }),
        ({
            let a = InspectorActionKind::UnequipSlot { target, slot };
            &&& next_step(a, StepOutcome::Start, faction) == InspectorStep::TakeOff { target, slot }
            &&& next_step(a, StepOutcome::CameOff(Some(item)), faction) == InspectorStep::Stow {
                target,
                item,
                qty: 1,
            }
            &&& next_step(a, StepOutcome::CameOff(None), faction) is Finish
        }),
{
}

} // verus!
