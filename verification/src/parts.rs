//! What a vehicle cell is, and the small identities that a design is made of.

use vstd::prelude::*;

verus! {

/// A catalog resource.
#[derive(Clone, Copy, Debug, PartialEq, Eq, Hash, Structural)]
pub struct ResourceId(pub u16);

/// A technology.
pub type TechId = u16;

/// An entity of the running world.
#[derive(Clone, Copy, Debug, PartialEq, Eq, Hash, Structural)]
pub struct Entity(pub u64);

impl Entity {
    /// The place of an entity in the world's table: the lower half of its number.
    pub open spec fn place(self) -> nat {
        (self.0 % 0x1_0000_0000) as nat
    }

    pub fn index(self) -> (n: u64)
        ensures
            n == self.place(),
    {
        self.0 % 0x1_0000_0000
    }
}

/// What a cell is.
#[derive(Clone, Copy, Debug, PartialEq, Eq, Hash, Structural)]
pub enum VehiclePartKind {
    Frame,
    Deck,
    Wall,
    Axle,
    Wheel,
    Hitch,
    Yoke,
    CargoBay,
    CrewSeat,
    WeaponMount,
    Engine,
    Track,
    ArmorPlate,
    Turret,
}

impl VehiclePartKind {
    /// A driver or a puller takes this cell.
    pub open spec fn controls(self) -> bool {
        self == VehiclePartKind::CrewSeat || self == VehiclePartKind::Hitch || self
            == VehiclePartKind::Yoke
    }

    /// The cell bears load.
    pub open spec fn bears_load(self) -> bool {
        self == VehiclePartKind::Frame || self == VehiclePartKind::Deck || self
            == VehiclePartKind::Wall || self == VehiclePartKind::Axle || self
            == VehiclePartKind::Engine || self == VehiclePartKind::Track
    }

    /// The cell may hang off a load-bearing neighbour.
    pub open spec fn cantilevers(self) -> bool {
        self == VehiclePartKind::Turret || self == VehiclePartKind::ArmorPlate
    }

    /// How many draft animals one cell can harness.
    pub open spec fn harness(self) -> int {
        if self == VehiclePartKind::Hitch {
            1
        } else if self == VehiclePartKind::Yoke {
            2
        } else {
            0
        }
    }

    pub fn is_control(self) -> (b: bool)
        ensures
            b == self.controls(),
    {
        match self {
            VehiclePartKind::CrewSeat | VehiclePartKind::Hitch | VehiclePartKind::Yoke => true,
            _ => false,
        }
    }

    pub fn is_structural(self) -> (b: bool)
        ensures
            b == self.bears_load(),
    {
        match self {
            VehiclePartKind::Frame
            | VehiclePartKind::Deck
            | VehiclePartKind::Wall
            | VehiclePartKind::Axle
            | VehiclePartKind::Engine
            | VehiclePartKind::Track => true,
            _ => false,
        }
    }

    pub fn may_cantilever(self) -> (b: bool)
        ensures
            b == self.cantilevers(),
    {
        match self {
            VehiclePartKind::Turret | VehiclePartKind::ArmorPlate => true,
            _ => false,
        }
    }

    pub fn draft_capacity(self) -> (n: u8)
        ensures
            n == self.harness(),
    {
        match self {
            VehiclePartKind::Hitch => 1,
            VehiclePartKind::Yoke => 2,
            _ => 0,
        }
    }
}

/// The role a design is built for.
#[derive(Clone, Copy, Debug, PartialEq, Eq, Hash, Structural)]
pub enum VehiclePurpose {
    Cargo,
    War,
    Transport,
}

/// What a spawned vehicle is doing.
#[derive(Clone, Copy, Debug, PartialEq, Eq, Structural)]
pub enum VehicleState {
    Parked,
    Moving,
    Loading,
    Overturned,
}

/// Why a vehicle cannot move, steer or carry, as a set of bits.
#[derive(Clone, Copy, Debug, PartialEq, Eq, Structural)]
pub struct VehicleDisableFlags(pub u8);

pub const MOVEMENT: u8 = 1;

pub const STEERING: u8 = 2;

pub const CARGO: u8 = 4;

impl VehicleDisableFlags {
    /// Some bit of `flag` is set.
    pub open spec fn holds(self, flag: u8) -> bool {
        self.0 & flag != 0
    }

    pub fn set(&mut self, flag: u8)
        ensures
            final(self).0 == old(self).0 | flag,
    {
        self.0 = self.0 | flag;
    }

    pub fn has(self, flag: u8) -> (b: bool)
        ensures
            b == self.holds(flag),
    {
        self.0 & flag != 0
    }
}

impl Default for VehicleDisableFlags {
    fn default() -> (f: VehicleDisableFlags)
        ensures
            f.0 == 0,
    {
        VehicleDisableFlags(0)
    }
}

/// A flag that was set is held, and setting one flag never clears another.
pub proof fn setting_a_flag_keeps_the_others(before: VehicleDisableFlags, flag: u8, other: u8)
    ensures
        flag != 0 ==> VehicleDisableFlags(before.0 | flag).holds(flag),
        before.holds(other) ==> VehicleDisableFlags(before.0 | flag).holds(other),
        flag & other == 0 && VehicleDisableFlags(before.0 | flag).holds(other) ==> before.holds(
            other,
        ),
{
    let b = before.0;
    assert(flag != 0 ==> (b | flag) & flag != 0) by (bit_vector);
    assert(b & other != 0 ==> (b | flag) & other != 0) by (bit_vector);
    assert(flag & other == 0 && (b | flag) & other != 0 ==> b & other != 0) by (bit_vector);
}

/// The index of a part variant in the catalog.
#[derive(Clone, Copy, Debug, PartialEq, Eq, Hash, Structural)]
pub struct VehiclePartVariantId(pub u16);

/// The index of a weapon-module definition in the catalog.
#[derive(Clone, Copy, Debug, PartialEq, Eq, Hash, Structural)]
pub struct VehicleModuleDefId(pub u16);

/// One placed module within a grid.
#[derive(Clone, Copy, Debug, PartialEq, Eq, Hash, Structural)]
pub struct VehicleModuleId(pub u16);

/// A registered design.
#[derive(Clone, Copy, Debug, PartialEq, Eq, Hash, Structural)]
pub struct VehicleDesignId(pub u32);

/// The directions a weapon module can fire in.
#[derive(Clone, Copy, Debug, PartialEq, Eq, Structural)]
pub enum FiringArc {
    /// Not a firing weapon.
    NoArc,
    /// Within 45 degrees of the facing.
    Front90,
    /// Any direction.
    Full360,
}

impl Default for FiringArc {
    fn default() -> (arc: FiringArc)
        ensures
            arc == FiringArc::NoArc,
    {
        FiringArc::NoArc
    }
}

/// What the parts are for: seats, hitches and yokes steer; a hitch takes one animal, a yoke two,
/// no other part any; frames, decks, walls, axles, engines and tracks bear loads; turrets and
/// armour may hang.
pub proof fn parts_have_their_uses(k: VehiclePartKind)
    ensures
        VehiclePartKind::CrewSeat.controls() && VehiclePartKind::Hitch.controls()
            && VehiclePartKind::Yoke.controls(),
        k.controls() ==> k == VehiclePartKind::CrewSeat || k.harness() > 0,
        VehiclePartKind::Hitch.harness() == 1,
        VehiclePartKind::Yoke.harness() == 2,
        k != VehiclePartKind::Hitch && k != VehiclePartKind::Yoke ==> k.harness() == 0,
        VehiclePartKind::Turret.cantilevers() && VehiclePartKind::ArmorPlate.cantilevers(),
        k.cantilevers() ==> k == VehiclePartKind::Turret || k == VehiclePartKind::ArmorPlate,
        VehiclePartKind::Frame.bears_load() && VehiclePartKind::Deck.bears_load()
            && VehiclePartKind::Wall.bears_load() && VehiclePartKind::Axle.bears_load()
            && VehiclePartKind::Engine.bears_load() && VehiclePartKind::Track.bears_load(),
        k.bears_load() ==> !k.controls() && !k.cantilevers() && k != VehiclePartKind::Wheel && k
            != VehiclePartKind::CargoBay && k != VehiclePartKind::WeaponMount,
{
}

/// The three ways to be disabled are told apart: each is a bit of its own, and none sets another.
pub proof fn disabilities_are_told_apart(f: VehicleDisableFlags)
    ensures
        f.holds(MOVEMENT) <==> f.0 % 2 == 1,
        f.holds(STEERING) <==> (f.0 / 2) % 2 == 1,
        f.holds(CARGO) <==> (f.0 / 4) % 2 == 1,
        VehicleDisableFlags(f.0 | MOVEMENT).holds(CARGO) == f.holds(CARGO),
        VehicleDisableFlags(f.0 | MOVEMENT).holds(STEERING) == f.holds(STEERING),
        VehicleDisableFlags(f.0 | CARGO).holds(MOVEMENT) == f.holds(MOVEMENT),
        VehicleDisableFlags(f.0 | CARGO).holds(STEERING) == f.holds(STEERING),
{
    let b = f.0;
    assert((b & 1 != 0) == (b % 2 == 1)) by (bit_vector);
    assert((b & 2 != 0) == ((b / 2) % 2 == 1)) by (bit_vector);
    assert((b & 4 != 0) == ((b / 4) % 2 == 1)) by (bit_vector);
    assert((b | 1) & 4 == b & 4 && (b | 1) & 2 == b & 2) by (bit_vector);
    assert((b | 4) & 1 == b & 1 && (b | 4) & 2 == b & 2) by (bit_vector);
}

} // verus!
