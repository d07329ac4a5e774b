//! Driving a vehicle by hand.

use vstd::prelude::*;
use vstd::string::*;
use crate::design::VehicleDesign;
use crate::drive::{plan_manual_step, pose, stepped, ManualDriveState, ManualIntent};
use crate::footprint::covered;
use crate::occupancy::{headroom, stance_open, VehicleOccupancyIndex};
use crate::parts::Entity;
use crate::terrain::TerrainWindow;
use crate::text::Text;
use crate::vehicle::{Vehicle, VehicleNode};

verus! {

/// The keys that drive. Those for moving count while they are held, the others when they are
/// pressed.
#[derive(Clone, Copy, Debug, PartialEq, Eq, Structural)]
pub struct DriveKeys {
    pub release: bool,
    pub stop: bool,
    pub forward: bool,
    pub turn_left: bool,
    pub turn_right: bool,
    pub forward_left: bool,
    pub forward_right: bool,
}

/// What follows from the keys.
#[derive(Debug)]
pub enum DriveEffect {
    Nothing,
    /// The vehicle is no longer driven by hand.
    Release(Entity),
    /// The vehicle stops where it is.
    Stop(Entity),
    /// The vehicle follows these poses.
    Follow(Entity, Vec<VehicleNode>),
}

/// Where the vehicle is that is driven.
pub struct DriveView<'a> {
    /// The vehicle, while it exists.
    pub vehicle: Option<&'a Vehicle>,
    /// It is still on its way.
    pub following: bool,
    pub design: Option<&'a VehicleDesign>,
    pub terrain: &'a TerrainWindow,
    pub occupancy: &'a VehicleOccupancyIndex,
}

/// The step that the held keys ask for.
pub open spec fn held(k: DriveKeys) -> Option<ManualIntent> {
    if k.forward {
        Some(ManualIntent::Forward)
    } else if k.turn_left {
        Some(ManualIntent::TurnCCW)
    } else if k.turn_right {
        Some(ManualIntent::TurnCW)
    } else if k.forward_left {
        Some(ManualIntent::ForwardLeft)
    } else if k.forward_right {
        Some(ManualIntent::ForwardRight)
    } else {
        None
    }
}

pub open spec fn intent_name(i: ManualIntent) -> Seq<char> {
    match i {
        ManualIntent::Forward => "Forward"@,
        ManualIntent::ForwardLeft => "ForwardLeft"@,
        ManualIntent::ForwardRight => "ForwardRight"@,
        ManualIntent::TurnCCW => "TurnCCW"@,
        ManualIntent::TurnCW => "TurnCW"@,
    }
}

/// The step that is to be planned: the vehicle stands, nobody types, and neither release nor
/// stop was pressed.
pub open spec fn wanted(v: DriveView, k: DriveKeys, typing: bool) -> Option<ManualIntent> {
    if v.vehicle is None || v.design is None || typing || k.release || k.stop || v.following {
        None
    } else {
        held(k)
    }
}

/// The vehicle can take a step.
pub open spec fn can_step(v: DriveView, e: Entity, i: ManualIntent) -> bool {
    let end = stepped(pose(*v.vehicle->0), i);
    stance_open(
        v.design->0.grid.cells@,
        *v.terrain,
        v.occupancy.at(),
        Some(e),
        (end.x, end.y),
        end.z as int,
        end.heading as int,
    )
}

/// What is said after the keys were read.
pub open spec fn status_after(
    v: DriveView,
    k: DriveKeys,
    typing: bool,
    e: Entity,
    before: Option<Seq<char>>,
) -> Option<Seq<char>> {
    if v.vehicle is None {
        Some("Manual drive: vehicle gone"@)
    } else if typing {
        before
    } else if k.release {
        Some("Manual drive: released"@)
    } else if k.stop {
        if v.following {
            Some("Manual drive: stopped"@)
        } else {
            before
        }
    } else {
        match wanted(v, k, typing) {
            Some(i) => if can_step(v, e, i) {
                Some("Manual drive: "@ + intent_name(i))
            } else {
                Some("Manual drive: blocked ("@ + intent_name(i) + ")"@)
            },
            None => before,
        }
    }
}

pub open spec fn status_text(s: Option<String>) -> Option<Seq<char>> {
    match s {
        Some(t) => Some(t@),
        None => None,
    }
}

fn intent_label(i: ManualIntent) -> (s: &'static str)
    ensures
        s@ == intent_name(i),
{
    match i {
        ManualIntent::Forward => "Forward",
        ManualIntent::ForwardLeft => "ForwardLeft",
        ManualIntent::ForwardRight => "ForwardRight",
        ManualIntent::TurnCCW => "TurnCCW",
        ManualIntent::TurnCW => "TurnCW",
    }
}

fn held_keys(k: DriveKeys) -> (r: Option<ManualIntent>)
    ensures
        r == held(k),
{
    if k.forward {
        Some(ManualIntent::Forward)
    } else if k.turn_left {
        Some(ManualIntent::TurnCCW)
    } else if k.turn_right {
        Some(ManualIntent::TurnCW)
    } else if k.forward_left {
        Some(ManualIntent::ForwardLeft)
    } else if k.forward_right {
        Some(ManualIntent::ForwardRight)
    } else {
        None
    }
}

/// Reads the keys for the vehicle that is driven by hand.
pub fn manual_drive_input_system(
    state: &mut ManualDriveState,
    v: &DriveView,
    k: DriveKeys,
    typing: bool,
) -> (r: DriveEffect)
    requires
        wanted(*v, k, typing) matches Some(i) ==> {
            let vehicle = *v.vehicle->0;
            let cells = v.design->0.grid.cells@;
            let end = stepped(pose(vehicle), i);
            &&& v.terrain.wf()
            &&& crate::footprint::footprint_ready(cells)
            &&& crate::rings::room_around(vehicle.anchor_tile, 1)
            &&& crate::footprint::cover_fits(cells, (end.x, end.y), end.heading as int)
        },
    ensures
        match old(state).active {
            None => {
                &&& r is Nothing
                &&& final(state).active is None
                &&& status_text(final(state).last_status) == status_text(old(state).last_status)
            },
            Some(e) => {
                &&& final(state).active == (if v.vehicle is None || (k.release && !typing) {
                    None
                } else {
                    Some(e)
                })
                &&& status_text(final(state).last_status) == status_after(
                    *v,
                    k,
                    typing,
                    e,
                    status_text(old(state).last_status),
                )
                &&& match r {
                    DriveEffect::Release(x) => x == e && v.vehicle is Some && !typing && k.release,
                    DriveEffect::Stop(x) => x == e && v.vehicle is Some && !typing && !k.release
                        && k.stop && v.following,
                    DriveEffect::Follow(x, path) => {
                        &&& x == e
                        &&& wanted(*v, k, typing) matches Some(i)
                        &&& can_step(*v, e, i)
                        &&& path@ == seq![pose(*v.vehicle->0), stepped(pose(*v.vehicle->0), i)]
                    },
                    DriveEffect::Nothing => {
                        ||| v.vehicle is None
                        ||| typing
                        ||| !k.release && k.stop && !v.following
                        ||| !k.release && !k.stop && match wanted(*v, k, typing) {
                            Some(i) => !can_step(*v, e, i),
                            None => true,
                        }
                    },
                }
            },
        },
{
    let e = match state.active {
        Some(e) => e,
        None => {
            return DriveEffect::Nothing;
        },
    };
    let vehicle = match v.vehicle {
        Some(x) => x,
        None => {
            state.active = None;
            state.last_status = Some("Manual drive: vehicle gone".to_owned());
            return DriveEffect::Nothing;
        },
    };
    if typing {
        return DriveEffect::Nothing;
    }
    if k.release {
        state.active = None;
        state.last_status = Some("Manual drive: released".to_owned());
        return DriveEffect::Release(e);
    }
    if k.stop {
        if v.following {
            state.last_status = Some("Manual drive: stopped".to_owned());
            return DriveEffect::Stop(e);
        }
        return DriveEffect::Nothing;
    }
    if v.following {
        return DriveEffect::Nothing;
    }
    let intent = match held_keys(k) {
        Some(i) => i,
        None => {
            return DriveEffect::Nothing;
        },
    };
    let design = match v.design {
        Some(d) => d,
        None => {
            return DriveEffect::Nothing;
        },
    };
    match plan_manual_step(vehicle, design, intent, v.terrain, v.occupancy, e) {
        Some(path) => {
            state.last_status = Some(
                Text::of("Manual drive: ").with(intent_label(intent)).done(),
            );
            DriveEffect::Follow(e, path)
        },
        None => {
            state.last_status = Some(
                Text::of("Manual drive: blocked (").with(intent_label(intent)).with(")").done(),
            );
            DriveEffect::Nothing
        },
    }
}

/// Each key does what it is for: the key for forward drives forward whatever else is held, each of
/// the others when it is the only one held, and without any nothing is asked for.
pub proof fn keys_ask_for_their_step(k: DriveKeys)
    ensures
        k.forward ==> held(k) == Some(ManualIntent::Forward),
        !k.forward && !k.turn_right && !k.forward_left && !k.forward_right && k.turn_left ==> held(
            k,
        ) == Some(ManualIntent::TurnCCW),
        !k.forward && !k.turn_left && !k.forward_left && !k.forward_right && k.turn_right ==> held(
            k,
        ) == Some(ManualIntent::TurnCW),
        !k.forward && !k.turn_left && !k.turn_right && !k.forward_right && k.forward_left ==> held(
            k,
        ) == Some(ManualIntent::ForwardLeft),
        !k.forward && !k.turn_left && !k.turn_right && !k.forward_left && k.forward_right ==> held(
            k,
        ) == Some(ManualIntent::ForwardRight),
        held(k) is None <==> !k.forward && !k.turn_left && !k.turn_right && !k.forward_left
            && !k.forward_right,
        held(k) == Some(ManualIntent::TurnCCW) ==> k.turn_left,
        held(k) == Some(ManualIntent::TurnCW) ==> k.turn_right && !k.turn_left,
        held(k) == Some(ManualIntent::ForwardLeft) ==> k.forward_left,
        held(k) == Some(ManualIntent::ForwardRight) ==> k.forward_right && !k.forward_left,
{
}

/// A step is taken only by a vehicle that exists and stands, with a known design, while nobody
/// types and neither release nor stop is pressed; then it is what the keys ask for.
pub proof fn steps_wait_for_the_last(v: DriveView, k: DriveKeys, typing: bool)
    ensures
        wanted(v, k, typing) is Some ==> v.vehicle is Some && v.design is Some && !typing
            && !k.release && !k.stop && !v.following,
        v.vehicle is Some && v.design is Some && !typing && !k.release && !k.stop && !v.following
            ==> wanted(v, k, typing) == held(k),
{
}

/// A step is possible exactly when every tile that the vehicle would stand on can be entered at
/// its level and is free but for itself, with room above it.
pub proof fn steps_need_open_ground(v: DriveView, e: Entity, i: ManualIntent)
    requires
        v.vehicle is Some,
        v.design is Some,
    ensures
        ({
            let end = stepped(pose(*v.vehicle->0), i);
            let cells = v.design->0.grid.cells@;
            can_step(v, e, i) <==> forall|k: int|
                #![trigger covered(cells, (end.x, end.y), end.heading as int)[k]]
                0 <= k < covered(cells, (end.x, end.y), end.heading as int).len() ==> {
                    let t = covered(cells, (end.x, end.y), end.heading as int)[k];
                    &&& v.terrain.passable(t.0 as int, t.1 as int, end.z as int)
                    &&& v.terrain.tile(t.0 as int, t.1 as int) matches Some(g) && g.clearance
                        >= headroom(cells)
                    &&& v.occupancy.at().dom().contains(t) ==> v.occupancy.at()[t] == e
                }
        }),
{
}

/// The driver is told what came of the keys: that the vehicle is gone, whatever is pressed; then that
/// it was released; then that it was stopped, if it was on its way; then which step it took or was
/// kept from. Without keys, or while somebody types, what was said before stays.
pub proof fn drivers_are_told_what_happened(
    v: DriveView,
    k: DriveKeys,
    typing: bool,
    e: Entity,
    before: Option<Seq<char>>,
)
    ensures
        ({
            let told = status_after(v, k, typing, e, before);
            &&& v.vehicle is None ==> told == Some("Manual drive: vehicle gone"@)
            &&& v.vehicle is Some && typing ==> told == before
            &&& v.vehicle is Some && !typing && k.release ==> told == Some(
                "Manual drive: released"@,
            )
            &&& v.vehicle is Some && !typing && !k.release && k.stop && v.following ==> told
                == Some("Manual drive: stopped"@)
            &&& v.vehicle is Some && !typing && !k.release && k.stop && !v.following ==> told
                == before
            &&& v.vehicle is Some && !typing && !k.release && !k.stop && wanted(
                v,
                k,
                typing,
            ) is None ==> told == before
            &&& v.vehicle is Some && !typing && !k.release && !k.stop ==> (wanted(
                v,
                k,
                typing,
            ) matches Some(i) ==> told == Some(
                if can_step(v, e, i) {
                    "Manual drive: "@ + intent_name(i)
                } else {
                    "Manual drive: blocked ("@ + intent_name(i) + ")"@
                },
            ))
        }),
{
}

} // verus!
