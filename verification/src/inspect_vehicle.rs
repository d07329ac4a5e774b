//! The inspector's page for a vehicle.

use vstd::prelude::*;
use vstd::string::*;
use crate::catalog::VehicleData;
use crate::design::VehicleDesign;
use crate::geometry::{max, IVec3};
use crate::grid::{bounding_box, box_is_unique, is_box};
use crate::health::VehicleHealth;
use crate::inventory::{total, VehicleInventory};
use crate::page::{line, mark, styled, Page, Shown, Style, Tone, Widget};
use crate::parts::{Entity, VehicleDisableFlags, VehicleState, CARGO, MOVEMENT, STEERING};
use crate::siege::SiegeOrder;
use crate::text::{digits, numeral, push_number, push_signed};
use crate::turret::VehicleFireOrder;
use crate::vehicle::{
    gunner_demand, operator_capacity, vehicle_gunner_demand, vehicle_operator_capacity, Vehicle,
    VehicleCrew, VehicleDraft, VehiclePathFollow,
};

verus! {

/// What the page is made from.
pub struct VehicleSheet<'a> {
    pub vehicle: &'a Vehicle,
    pub design: Option<&'a VehicleDesign>,
    pub data: &'a VehicleData,
    /// The figures of the design, and its speeds and stability as they are to be read.
    pub stats: Option<&'a StatLines>,
    pub inventory: &'a VehicleInventory,
    /// The name of the resource in each slot of the cargo.
    pub cargo_names: &'a Vec<String>,
    pub crew: &'a VehicleCrew,
    pub draft: &'a VehicleDraft,
    pub route: Option<&'a VehiclePathFollow>,
    pub fire_order: Option<&'a VehicleFireOrder>,
    pub siege_order: Option<&'a SiegeOrder>,
    pub health: Option<&'a VehicleHealth>,
    pub now: u64,
}

/// Figures of a design, some of them as they are to be read.
#[derive(Debug)]
pub struct StatLines {
    pub empty_mass_g: u32,
    pub max_payload_g: u32,
    pub max_cargo_volume_ml: u32,
    pub road_speed: String,
    pub offroad_speed: String,
    pub stability: String,
    pub turn_radius: String,
}

/// A page that offers nothing to press.
pub type Rows = Seq<Shown<()>>;

/// The name of a state.
pub open spec fn state_name(s: VehicleState) -> Seq<char> {
    match s {
        VehicleState::Parked => "Parked"@,
        VehicleState::Moving => "Moving"@,
        VehicleState::Loading => "Loading"@,
        VehicleState::Overturned => "Overturned!"@,
    }
}

/// Two numbers in brackets.
pub open spec fn pair_text(p: (i32, i32)) -> Seq<char> {
    "("@ + numeral(p.0 as int) + ", "@ + numeral(p.1 as int) + ")"@
}

/// The size of a body.
pub open spec fn size_text(d: VehicleDesign) -> Seq<char> {
    let (lo, hi) = bounding_box(d.grid.cells@);
    "Footprint: "@ + numeral(hi.x - lo.x + 1) + "×"@ + numeral(hi.y - lo.y + 1) + "  height "@
        + numeral(hi.z - lo.z + 1)
}

/// The rows on a design.
pub open spec fn design_rows(p: Rows, d: VehicleDesign, stats: Option<&StatLines>) -> Rows {
    let p = if d.grid.cells@.len() > 0 {
        p.push(line(size_text(d)))
    } else {
        p
    };
    match stats {
        Some(s) => p.push(
            line(
                "Empty "@ + digits((s.empty_mass_g / 1000) as nat) + " kg  ·  max payload "@
                    + digits((s.max_payload_g / 1000) as nat) + " kg  ("@ + digits(
                    (s.max_cargo_volume_ml / 1000) as nat,
                ) + " L)"@,
            ),
        ).push(
            line("Speed: road "@ + s.road_speed@ + "  off-road "@ + s.offroad_speed@),
        ).push(
            line("Stability: "@ + s.stability@ + "  ·  turn radius "@ + s.turn_radius@),
        ),
        None => p,
    }
}

/// The rows on the first `n` slots of a cargo; empty slots are left out.
pub open spec fn cargo_rows(
    p: Rows,
    items: Seq<(crate::parts::ResourceId, u32)>,
    names: Seq<String>,
    n: int,
) -> Rows
    decreases n,
{
    if n <= 0 {
        p
    } else {
        let q = cargo_rows(p, items, names, n - 1);
        if items[n - 1].1 > 0 {
            q.push(line("  • "@ + names[n - 1]@ + " ×"@ + digits(items[n - 1].1 as nat)))
        } else {
            q
        }
    }
}

/// Who drives: the driver of the crew, else the hauler.
pub open spec fn at_the_reins(v: Vehicle, crew: VehicleCrew) -> Option<Entity> {
    match crew.driver {
        Some(d) => Some(d),
        None => v.hauler,
    }
}

/// Seats left for passengers.
pub open spec fn passenger_seats(d: VehicleDesign, data: VehicleData, driven: bool) -> int {
    let taken = if driven {
        1int
    } else {
        0
    };
    max(
        max(operator_capacity(d.grid.cells@, data) - taken, 0) - gunner_demand(d, data),
        0,
    )
}

/// The rows on the crew.
pub open spec fn crew_rows(
    p: Rows,
    v: Vehicle,
    crew: VehicleCrew,
    design: Option<&VehicleDesign>,
    data: VehicleData,
) -> Rows {
    let driver = at_the_reins(v, crew);
    let p = match driver {
        Some(d) => p.push(line("Driver: entity "@ + digits(d.place()))),
        None => p.push(line("Driver: none (parked)"@)),
    };
    match design {
        Some(d) => p.push(
            line(
                "Gunners: "@ + digits(crew.gunners@.len()) + "/"@ + digits(
                    gunner_demand(*d, data) as nat,
                ),
            ),
        ).push(
            line(
                "Passengers: "@ + digits(crew.passengers@.len()) + "/"@ + digits(
                    passenger_seats(*d, data, driver is Some) as nat,
                ),
            ),
        ),
        None => p.push(line("Gunners: "@ + digits(crew.gunners@.len()))).push(
            line("Passengers: "@ + digits(crew.passengers@.len())),
        ),
    }
}

/// The rows on the team and the orders.
pub open spec fn order_rows(
    p: Rows,
    draft: VehicleDraft,
    route: Option<&VehiclePathFollow>,
    fire: Option<&VehicleFireOrder>,
    siege: Option<&SiegeOrder>,
    now: u64,
) -> Rows {
    let p = p.push(
        line(
            "Draft: "@ + digits(draft.hitched@.len()) + "/"@ + digits(
                draft.required_animals as nat,
            ) + " animal(s) hitched"@,
        ),
    );
    let p = match route {
        Some(r) => p.push(
            line(
                "Route: en route ("@ + digits(r.cursor as nat) + "/"@ + digits(r.path@.len())
                    + " nodes)"@,
            ),
        ),
        None => p.push(line("Route: idle"@)),
    };
    let p = match fire {
        Some(o) => p.push(
            line(
                "Fire order: "@ + pair_text(o.target_tile) + "  · "@ + digits(
                    max(o.expires_tick - now, 0) as nat,
                ) + " ticks left"@,
            ),
        ),
        None => p,
    };
    match siege {
        Some(o) => p.push(line("Siege order: "@ + pair_text(o.target_tile))),
        None => p,
    }
}

/// What no longer works, by name.
pub open spec fn broken_names(f: VehicleDisableFlags) -> Seq<char> {
    let a = f.holds(MOVEMENT);
    let b = f.holds(STEERING);
    let c = f.holds(CARGO);
    let s = if a {
        "Mobility"@
    } else {
        ""@
    };
    let s = if b {
        (if a {
            s + ", "@
        } else {
            s
        }) + "Steering"@
    } else {
        s
    };
    if c {
        (if a || b {
            s + ", "@
        } else {
            s
        }) + "Cargo"@
    } else {
        s
    }
}

/// Something no longer works.
pub open spec fn broken(f: VehicleDisableFlags) -> bool {
    f.holds(MOVEMENT) || f.holds(STEERING) || f.holds(CARGO)
}

/// The rows on damage.
pub open spec fn damage_rows(p: Rows, health: Option<&VehicleHealth>, state: VehicleState) -> Rows {
    let p = match health {
        Some(h) => if broken(h.disabled) {
            p.push(
                styled(
                    Tone::Rgb(220, 160, 60),
                    Style::Normal,
                    "Disabled: "@ + broken_names(h.disabled),
                ),
            )
        } else {
            p
        },
        None => p,
    };
    if state == VehicleState::Overturned {
        p.push(
            styled(Tone::Rgb(220, 90, 60), Style::Normal, "⚠ Overturned — movement disabled."@),
        )
    } else {
        p
    }
}

/// The page for a vehicle.
pub open spec fn vehicle_rows(s: VehicleSheet) -> Rows {
    let v = *s.vehicle;
    let p = Seq::<Shown<()>>::empty().push(
        (Widget::Section(Tone::Plain, true), "Vehicle"@, None),
    ).push(
        line(
            "Design: "@ + (match s.design {
                Some(d) => d.name@,
                None => "(unknown design)"@,
            }),
        ),
    ).push(line("State: "@ + state_name(v.state))).push(
        line(
            "Anchor: "@ + pair_text(v.anchor_tile) + "  z "@ + numeral(v.z as int) + "  heading "@
                + digits(v.heading as nat),
        ),
    );
    let p = match s.design {
        Some(d) => design_rows(p, *d, s.stats),
        None => p,
    };
    let p = p.push(line("Cargo: "@ + digits(total(s.inventory.items@) as nat) + " units"@));
    let p = cargo_rows(
        p,
        s.inventory.items@,
        s.cargo_names@,
        s.inventory.items@.len() as int,
    );
    let p = crew_rows(p, v, *s.crew, s.design, *s.data);
    let p = order_rows(p, *s.draft, s.route, s.fire_order, s.siege_order, s.now);
    damage_rows(p, s.health, v.state).push(mark(Widget::EndSection))
}

/// Writes two numbers in brackets.
pub fn push_pair(s: &mut String, p: (i32, i32))
    ensures
        final(s)@ == old(s)@ + pair_text(p),
{
    s.append("(");
    push_signed(s, p.0 as i64);
    s.append(", ");
    push_signed(s, p.1 as i64);
    s.append(")");
    assert(s@ =~= old(s)@ + pair_text(p));
}

fn show_design(page: &mut Page<()>, d: &VehicleDesign, stats: Option<&StatLines>)
    ensures
        final(page).shown() == design_rows(old(page).shown(), *d, stats),
{
    match d.grid.bounds() {
        Some((lo, hi)) => {
            let mut s = "Footprint: ".to_owned();
            push_signed(&mut s, hi.x as i64 - lo.x as i64 + 1);
            s.append("×");
            push_signed(&mut s, hi.y as i64 - lo.y as i64 + 1);
            s.append("  height ");
            push_signed(&mut s, hi.z as i64 - lo.z as i64 + 1);
            page.say(s);
        },
        None => {},
    }
    match stats {
        Some(st) => {
            let mut s = "Empty ".to_owned();
            push_number(&mut s, (st.empty_mass_g / 1000) as u64);
            s.append(" kg  ·  max payload ");
            push_number(&mut s, (st.max_payload_g / 1000) as u64);
            s.append(" kg  (");
            push_number(&mut s, (st.max_cargo_volume_ml / 1000) as u64);
            s.append(" L)");
            page.say(s);
            let mut s = "Speed: road ".to_owned();
            s.append(st.road_speed.as_str());
            s.append("  off-road ");
            s.append(st.offroad_speed.as_str());
            page.say(s);
            let mut s = "Stability: ".to_owned();
            s.append(st.stability.as_str());
            s.append("  ·  turn radius ");
            s.append(st.turn_radius.as_str());
            page.say(s);
        },
        None => {},
    }
}

fn show_cargo(page: &mut Page<()>, inv: &VehicleInventory, names: &Vec<String>)
    requires
        names@.len() == inv.items@.len(),
    ensures
        final(page).shown() == cargo_rows(
            old(page).shown(),
            inv.items@,
            names@,
            inv.items@.len() as int,
        ),
{
    let ghost start = page.shown();
    let mut i: usize = 0;
    while i < inv.items.len()
        invariant
            i <= inv.items.len(),
            names@.len() == inv.items@.len(),
            page.shown() == cargo_rows(start, inv.items@, names@, i as int),
        decreases inv.items.len() - i,
    {
        if inv.items[i].1 > 0 {
            let mut s = "  • ".to_owned();
            s.append(names[i].as_str());
            s.append(" ×");
            push_number(&mut s, inv.items[i].1 as u64);
            page.say(s);
        }
        i += 1;
    }
}

fn show_crew(
    page: &mut Page<()>,
    v: &Vehicle,
    crew: &VehicleCrew,
    design: Option<&VehicleDesign>,
    data: &VehicleData,
)
    ensures
        final(page).shown() == crew_rows(old(page).shown(), *v, *crew, design, *data),
{
    let driver: Option<Entity> = match crew.driver {
        Some(d) => Some(d),
        None => v.hauler,
    };
    match driver {
        Some(d) => {
            let mut s = "Driver: entity ".to_owned();
            push_number(&mut s, d.index());
            page.say(s);
        },
        None => page.note("Driver: none (parked)"),
    }
    let mut g = "Gunners: ".to_owned();
    push_number(&mut g, crew.gunners.len() as u64);
    let mut q = "Passengers: ".to_owned();
    push_number(&mut q, crew.passengers.len() as u64);
    match design {
        Some(d) => {
            let capacity: usize = vehicle_operator_capacity(d, data);
            let demand: usize = vehicle_gunner_demand(d, data);
            let taken: usize = if driver.is_some() {
                1
            } else {
                0
            };
            let left: usize = capacity.saturating_sub(taken).saturating_sub(demand);
            g.append("/");
            push_number(&mut g, demand as u64);
            q.append("/");
            push_number(&mut q, left as u64);
        },
        None => {},
    }
    page.say(g);
    page.say(q);
}

fn show_orders(
    page: &mut Page<()>,
    draft: &VehicleDraft,
    route: Option<&VehiclePathFollow>,
    fire: Option<&VehicleFireOrder>,
    siege: Option<&SiegeOrder>,
    now: u64,
)
    ensures
        final(page).shown() == order_rows(old(page).shown(), *draft, route, fire, siege, now),
{
    let mut s = "Draft: ".to_owned();
    push_number(&mut s, draft.hitched.len() as u64);
    s.append("/");
    push_number(&mut s, draft.required_animals as u64);
    s.append(" animal(s) hitched");
    page.say(s);
    match route {
        Some(r) => {
            let mut s = "Route: en route (".to_owned();
            push_number(&mut s, r.cursor as u64);
            s.append("/");
            push_number(&mut s, r.path.len() as u64);
            s.append(" nodes)");
            page.say(s);
        },
        None => page.note("Route: idle"),
    }
    match fire {
        Some(o) => {
            let mut s = "Fire order: ".to_owned();
            push_pair(&mut s, o.target_tile);
            s.append("  · ");
            push_number(&mut s, o.expires_tick.saturating_sub(now));
            s.append(" ticks left");
            page.say(s);
        },
        None => {},
    }
    match siege {
        Some(o) => {
            let mut s = "Siege order: ".to_owned();
            push_pair(&mut s, o.target_tile);
            page.say(s);
        },
        None => {},
    }
}

fn broken_list(f: VehicleDisableFlags) -> (s: String)
    ensures
        s@ == broken_names(f),
{
    let a: bool = f.has(MOVEMENT);
    let b: bool = f.has(STEERING);
    let c: bool = f.has(CARGO);
    let mut s = if a {
        "Mobility".to_owned()
    } else {
        "".to_owned()
    };
    if b {
        if a {
            s.append(", ");
        }
        s.append("Steering");
    }
    if c {
        if a || b {
            s.append(", ");
        }
        s.append("Cargo");
    }
    s
}

fn show_damage(page: &mut Page<()>, health: Option<&VehicleHealth>, state: VehicleState)
    ensures
        final(page).shown() == damage_rows(old(page).shown(), health, state),
{
    match health {
        Some(h) => {
            if h.disabled.has(MOVEMENT) || h.disabled.has(STEERING) || h.disabled.has(CARGO) {
                let mut s = "Disabled: ".to_owned();
                let list = broken_list(h.disabled);
                s.append(list.as_str());
                page.say_in(Tone::Rgb(220, 160, 60), Style::Normal, s);
            }
        },
        None => {},
    }
    if state == VehicleState::Overturned {
        page.note_in(
            Tone::Rgb(220, 90, 60),
            Style::Normal,
            "⚠ Overturned — movement disabled.",
        );
    }
}

/// The inspector's page for a vehicle.
pub fn inspect_vehicle(s: &VehicleSheet) -> (page: Page<()>)
    requires
        s.cargo_names@.len() == s.inventory.items@.len(),
        total(s.inventory.items@) <= u32::MAX,
    ensures
        page.shown() == vehicle_rows(*s),
{
    let v = s.vehicle;
    let mut page: Page<()> = Page::new();
    page.section(Tone::Plain, true, "Vehicle");
    let mut t = "Design: ".to_owned();
    match s.design {
        Some(d) => t.append(d.name.as_str()),
        None => t.append("(unknown design)"),
    }
    page.say(t);
    let mut t = "State: ".to_owned();
    match v.state {
        VehicleState::Parked => t.append("Parked"),
        VehicleState::Moving => t.append("Moving"),
        VehicleState::Loading => t.append("Loading"),
        VehicleState::Overturned => t.append("Overturned!"),
    }
    page.say(t);
    let mut t = "Anchor: ".to_owned();
    push_pair(&mut t, v.anchor_tile);
    t.append("  z ");
    push_signed(&mut t, v.z as i64);
    t.append("  heading ");
    push_number(&mut t, v.heading as u64);
    page.say(t);
    match s.design {
        Some(d) => show_design(&mut page, d, s.stats),
        None => {},
    }
    let mut t = "Cargo: ".to_owned();
    push_number(&mut t, s.inventory.total_qty() as u64);
    t.append(" units");
    page.say(t);
    show_cargo(&mut page, s.inventory, s.cargo_names);
    show_crew(&mut page, v, s.crew, s.design, s.data);
    show_orders(&mut page, s.draft, s.route, s.fire_order, s.siege_order, s.now);
    show_damage(&mut page, s.health, v.state);
    page.place(Widget::EndSection);
    page
}

/// The driver drives; without one the hauler does; without either nobody.
pub proof fn drivers_come_before_haulers(v: Vehicle, crew: VehicleCrew)
    ensures
        crew.driver is Some ==> at_the_reins(v, crew) == crew.driver,
        crew.driver is None ==> at_the_reins(v, crew) == v.hauler,
{
}

/// Seats that neither the driver nor the gunners take are left for passengers, and none where there
/// are too few.
pub proof fn passengers_get_what_is_left(d: VehicleDesign, data: VehicleData)
    ensures
        ({
            let seats = operator_capacity(d.grid.cells@, data);
            let guns = gunner_demand(d, data);
            &&& seats >= guns + 1 ==> passenger_seats(d, data, true) + guns + 1 == seats
            &&& seats >= guns && seats >= 0 ==> passenger_seats(d, data, false) + guns == seats
            &&& seats < guns + 1 && guns >= 0 ==> passenger_seats(d, data, true) == 0
            &&& passenger_seats(d, data, true) <= passenger_seats(d, data, false)
        }),
{
}

/// What is broken is named, and only that.
pub proof fn what_is_broken_is_named(f: VehicleDisableFlags)
    ensures
        f.holds(1) && !f.holds(2) && !f.holds(4) ==> broken_names(f) == "Mobility"@,
        !f.holds(1) && f.holds(2) && !f.holds(4) ==> broken_names(f) =~= ""@ + "Steering"@,
        !f.holds(1) && !f.holds(2) && f.holds(4) ==> broken_names(f) =~= ""@ + "Cargo"@,
        f.holds(1) && !f.holds(2) && f.holds(4) ==> broken_names(f) == "Mobility"@ + ", "@
            + "Cargo"@,
        broken(f) <==> f.holds(1) || f.holds(2) || f.holds(4),
{
}

/// A slot of cargo is shown while it holds something, with how much of what it holds.
pub proof fn full_slots_are_shown(
    p: Rows,
    items: Seq<(crate::parts::ResourceId, u32)>,
    names: Seq<String>,
    n: int,
)
    requires
        0 < n,
    ensures
        items[n - 1].1 == 0 ==> cargo_rows(p, items, names, n) == cargo_rows(
            p,
            items,
            names,
            n - 1,
        ),
        items[n - 1].1 > 0 ==> {
            let q = cargo_rows(p, items, names, n);
            &&& q.drop_last() =~= cargo_rows(p, items, names, n - 1)
            &&& q.last().1 == "  • "@ + names[n - 1]@ + " ×"@ + digits(items[n - 1].1 as nat)
        },
{
}

/// The size that is shown counts the outermost cells on both sides.
pub proof fn sizes_count_both_ends(d: VehicleDesign, lo: IVec3, w: int, l: int, h: int, hi: IVec3)
    requires
        is_box(d.grid.cells@, d.grid.cells@.len() as int, lo, hi),
        hi.x == lo.x + w - 1,
        hi.y == lo.y + l - 1,
        hi.z == lo.z + h - 1,
    ensures
        size_text(d) == "Footprint: "@ + numeral(w) + "×"@ + numeral(l) + "  height "@ + numeral(h),
{
    box_is_unique(d.grid.cells@, lo, hi);
}

} // verus!
