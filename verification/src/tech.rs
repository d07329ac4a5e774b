//! The technologies that vehicle definitions name, and the gates of a design.

use vstd::prelude::*;
use crate::catalog::VehicleData;
use crate::grid::{VehicleCell, VehicleGrid, VehicleModuleInstance};
use crate::geometry::IVec3;
use crate::parts::TechId;
use crate::text::same_text;

verus! {

pub const ANIMAL_HUSBANDRY: TechId = 0;

pub const OX_CART: TechId = 1;

pub const HORSE_TAMING: TechId = 2;

pub const WAR_CHARIOT: TechId = 3;

pub const BRONZE_CASTING: TechId = 4;

pub const SIEGE_ENGINEERING: TechId = 5;

pub const ARMOR_PLATING: TechId = 6;

pub const POWERED_TRACTION: TechId = 7;

/// The written name of a technology that definitions may use.
pub open spec fn tech_name(id: TechId) -> Option<Seq<char>> {
    if id == ANIMAL_HUSBANDRY {
        Some("animal_husbandry"@)
    } else if id == OX_CART {
        Some("ox_cart"@)
    } else if id == HORSE_TAMING {
        Some("horse_taming"@)
    } else if id == WAR_CHARIOT {
        Some("war_chariot"@)
    } else if id == BRONZE_CASTING {
        Some("bronze_casting"@)
    } else if id == SIEGE_ENGINEERING {
        Some("siege_engineering"@)
    } else if id == ARMOR_PLATING {
        Some("armor_plating"@)
    } else if id == POWERED_TRACTION {
        Some("powered_traction"@)
    } else {
        None
    }
}

/// The technology with a written name.
pub open spec fn tech_named(name: Seq<char>) -> Option<TechId> {
    if name == "animal_husbandry"@ {
        Some(ANIMAL_HUSBANDRY)
    } else if name == "ox_cart"@ {
        Some(OX_CART)
    } else if name == "horse_taming"@ {
        Some(HORSE_TAMING)
    } else if name == "war_chariot"@ {
        Some(WAR_CHARIOT)
    } else if name == "bronze_casting"@ {
        Some(BRONZE_CASTING)
    } else if name == "siege_engineering"@ {
        Some(SIEGE_ENGINEERING)
    } else if name == "armor_plating"@ {
        Some(ARMOR_PLATING)
    } else if name == "powered_traction"@ {
        Some(POWERED_TRACTION)
    } else {
        None
    }
}

/// The technology that a definition names.
pub fn tech_id_from_name(name: &str) -> (r: Option<TechId>)
    ensures
        r == tech_named(name@),
{
    if same_text(name, "animal_husbandry") {
        Some(ANIMAL_HUSBANDRY)
    } else if same_text(name, "ox_cart") {
        Some(OX_CART)
    } else if same_text(name, "horse_taming") {
        Some(HORSE_TAMING)
    } else if same_text(name, "war_chariot") {
        Some(WAR_CHARIOT)
    } else if same_text(name, "bronze_casting") {
        Some(BRONZE_CASTING)
    } else if same_text(name, "siege_engineering") {
        Some(SIEGE_ENGINEERING)
    } else if same_text(name, "armor_plating") {
        Some(ARMOR_PLATING)
    } else if same_text(name, "powered_traction") {
        Some(POWERED_TRACTION)
    } else {
        None
    }
}

/// The written name of a technology.
pub fn tech_name_from_id(id: TechId) -> (r: Option<String>)
    ensures
        match r {
            Some(s) => tech_name(id) == Some(s@),
            None => tech_name(id) is None,
        },
{
    if id == ANIMAL_HUSBANDRY {
        Some("animal_husbandry".to_owned())
    } else if id == OX_CART {
        Some("ox_cart".to_owned())
    } else if id == HORSE_TAMING {
        Some("horse_taming".to_owned())
    } else if id == WAR_CHARIOT {
        Some("war_chariot".to_owned())
    } else if id == BRONZE_CASTING {
        Some("bronze_casting".to_owned())
    } else if id == SIEGE_ENGINEERING {
        Some("siege_engineering".to_owned())
    } else if id == ARMOR_PLATING {
        Some("armor_plating".to_owned())
    } else if id == POWERED_TRACTION {
        Some("powered_traction".to_owned())
    } else {
        None
    }
}

/// Writing a technology's name and reading it back gives the technology, and a name that is
/// understood is written back letter for letter.
pub proof fn tech_names_are_inverse(id: TechId, name: Seq<char>)
    ensures
        tech_name(id) matches Some(n) ==> tech_named(n) == Some(id),
        tech_named(name) matches Some(t) ==> tech_name(t) == Some(name),
{
    reveal_strlit("animal_husbandry");
    reveal_strlit("ox_cart");
    reveal_strlit("horse_taming");
    reveal_strlit("war_chariot");
    reveal_strlit("bronze_casting");
    reveal_strlit("siege_engineering");
    reveal_strlit("armor_plating");
    reveal_strlit("powered_traction");
    assert("war_chariot"@[0] != "ox_cart"@[0]);
    assert("armor_plating"@[0] != "horse_taming"@[0]);
    assert("animal_husbandry"@[1] != "armor_plating"@[1]);
    assert("siege_engineering"@[0] != "powered_traction"@[0]);
    assert("animal_husbandry"@.len() == 16);
    assert("ox_cart"@.len() == 7);
    assert("horse_taming"@.len() == 12);
    assert("war_chariot"@.len() == 11);
    assert("bronze_casting"@.len() == 14);
    assert("siege_engineering"@.len() == 17);
    assert("armor_plating"@.len() == 13);
    assert("powered_traction"@.len() == 16);
    assert("animal_husbandry"@[0] != "powered_traction"@[0]);
}

/// `gates` with `t` added where it was missing.
pub open spec fn with_gate(gates: Seq<TechId>, t: TechId) -> Seq<TechId> {
    if gates.contains(t) {
        gates
    } else {
        gates.push(t)
    }
}

/// `gates` with the first `n` of `more` added where they were missing.
pub open spec fn with_gates(gates: Seq<TechId>, more: Seq<TechId>, n: int) -> Seq<TechId>
    decreases n,
{
    if n <= 0 {
        gates
    } else {
        with_gate(with_gates(gates, more, n - 1), more[n - 1])
    }
}

/// The gates of one cell's part.
pub open spec fn part_gates(cell: VehicleCell, data: VehicleData) -> Seq<TechId> {
    match data.part_spec(cell.kind) {
        Some(p) => p.tech_gates@,
        None => Seq::empty(),
    }
}

/// The gates of one cell's variant.
pub open spec fn variant_gates(cell: VehicleCell, data: VehicleData) -> Seq<TechId> {
    match cell.variant {
        Some(v) => match data.variant_spec(v) {
            Some(d) => d.tech_gates@,
            None => Seq::empty(),
        },
        None => Seq::empty(),
    }
}

/// The gates of one placed module.
pub open spec fn module_gates(m: VehicleModuleInstance, data: VehicleData) -> Seq<TechId> {
    match data.module_spec(m.def) {
        Some(d) => d.tech_gates@,
        None => Seq::empty(),
    }
}

/// `base` with the gates of the parts and variants of the first `n` cells.
pub open spec fn cell_gates(
    base: Seq<TechId>,
    cells: Seq<(IVec3, VehicleCell)>,
    data: VehicleData,
    n: int,
) -> Seq<TechId>
    decreases n,
{
    if n <= 0 {
        base
    } else {
        let before = cell_gates(base, cells, data, n - 1);
        let p = part_gates(cells[n - 1].1, data);
        let v = variant_gates(cells[n - 1].1, data);
        with_gates(with_gates(before, p, p.len() as int), v, v.len() as int)
    }
}

/// `base` with the gates of the first `n` modules.
pub open spec fn placed_gates(
    base: Seq<TechId>,
    modules: Seq<VehicleModuleInstance>,
    data: VehicleData,
    n: int,
) -> Seq<TechId>
    decreases n,
{
    if n <= 0 {
        base
    } else {
        let g = module_gates(modules[n - 1], data);
        with_gates(placed_gates(base, modules, data, n - 1), g, g.len() as int)
    }
}

/// The gates of a design: its own, then those of its cells, then those of its modules, none
/// added twice.
pub open spec fn design_gates(
    grid: VehicleGrid,
    base: Seq<TechId>,
    data: VehicleData,
) -> Seq<TechId> {
    placed_gates(
        cell_gates(base, grid.cells@, data, grid.cells@.len() as int),
        grid.modules@,
        data,
        grid.modules@.len() as int,
    )
}

/// Whether a technology is in a list.
pub fn holds_tech(list: &Vec<TechId>, t: TechId) -> (b: bool)
    ensures
        b == list@.contains(t),
{
    let mut i: usize = 0;
    while i < list.len()
        invariant
            i <= list.len(),
            forall|j: int| 0 <= j < i ==> list@[j] != t,
        decreases list.len() - i,
    {
        if list[i] == t {
            assert(list@[i as int] == t);
            return true;
        }
        i += 1;
    }
    false
}

fn add_gates(gates: &mut Vec<TechId>, more: &Vec<TechId>)
    ensures
        final(gates)@ == with_gates(old(gates)@, more@, more@.len() as int),
{
    let ghost start = gates@;
    let mut i: usize = 0;
    while i < more.len()
        invariant
            i <= more.len(),
            gates@ == with_gates(start, more@, i as int),
        decreases more.len() - i,
    {
        if !holds_tech(gates, more[i]) {
            gates.push(more[i]);
        }
        i += 1;
    }
}

/// The gates that a design requires: `base`, extended by the gates of every cell's part and
/// variant and of every module.
pub fn collect_design_tech_gates(
    grid: &VehicleGrid,
    base: Vec<TechId>,
    data: &VehicleData,
) -> (gates: Vec<TechId>)
    ensures
        gates@ == design_gates(*grid, base@, *data),
{
    let ghost start = base@;
    let mut gates = base;
    let mut i: usize = 0;
    while i < grid.cells.len()
        invariant
            i <= grid.cells.len(),
            gates@ == cell_gates(start, grid.cells@, *data, i as int),
        decreases grid.cells.len() - i,
    {
        let cell = grid.cells[i].1;
        match data.part(cell.kind) {
            Some(p) => add_gates(&mut gates, &p.tech_gates),
            None => {},
        }
        match cell.variant {
            Some(v) => match data.variant(v) {
                Some(d) => add_gates(&mut gates, &d.tech_gates),
                None => {},
            },
            None => {},
        }
        i += 1;
    }
    let ghost after_cells = gates@;
    let mut k: usize = 0;
    while k < grid.modules.len()
        invariant
            k <= grid.modules.len(),
            gates@ == placed_gates(after_cells, grid.modules@, *data, k as int),
        decreases grid.modules.len() - k,
    {
        match data.module_def(grid.modules[k].def) {
            Some(d) => add_gates(&mut gates, &d.tech_gates),
            None => {},
        }
        k += 1;
    }
    gates
}

proof fn with_gates_holds(gates: Seq<TechId>, more: Seq<TechId>, n: int, t: TechId)
    requires
        n <= more.len(),
    ensures
        with_gates(gates, more, n).contains(t) <==> gates.contains(t) || exists|i: int|
            0 <= i < n && #[trigger] more[i] == t,
    decreases n,
{
    if n > 0 {
        with_gates_holds(gates, more, n - 1, t);
        let before = with_gates(gates, more, n - 1);
        let after = with_gates(gates, more, n);
        if before.contains(t) {
            let k = choose|k: int| 0 <= k < before.len() && before[k] == t;
            assert(after[k] == t);
        }
        if !before.contains(more[n - 1]) {
            assert(after[before.len() as int] == more[n - 1]);
            if after.contains(t) && t != more[n - 1] {
                let k = choose|k: int| 0 <= k < after.len() && after[k] == t;
                assert(before[k] == t);
            }
        }
        if exists|i: int| 0 <= i < n && #[trigger] more[i] == t {
            let i = choose|i: int| 0 <= i < n && #[trigger] more[i] == t;
            if i < n - 1 {
                assert(more[i] == t);
            }
        }
    }
}

/// Adding gates that are all there already changes nothing.
pub proof fn gates_already_there(gates: Seq<TechId>, more: Seq<TechId>, n: int)
    requires
        0 <= n <= more.len(),
        forall|i: int| 0 <= i < n ==> gates.contains(#[trigger] more[i]),
    ensures
        with_gates(gates, more, n) == gates,
    decreases n,
{
    if n > 0 {
        gates_already_there(gates, more, n - 1);
        assert(gates.contains(more[n - 1]));
    }
}

proof fn cell_gates_grow(
    base: Seq<TechId>,
    cells: Seq<(IVec3, VehicleCell)>,
    data: VehicleData,
    n: int,
    t: TechId,
)
    requires
        0 <= n <= cells.len(),
    ensures
        cell_gates(base, cells, data, n).contains(t) <==> base.contains(t) || exists|i: int|
            0 <= i < n && (part_gates((#[trigger] cells[i]).1, data).contains(t) || variant_gates(
                cells[i].1,
                data,
            ).contains(t)),
    decreases n,
{
    if n > 0 {
        cell_gates_grow(base, cells, data, n - 1, t);
        let before = cell_gates(base, cells, data, n - 1);
        let p = part_gates(cells[n - 1].1, data);
        let v = variant_gates(cells[n - 1].1, data);
        with_gates_holds(before, p, p.len() as int, t);
        with_gates_holds(with_gates(before, p, p.len() as int), v, v.len() as int, t);
        if p.contains(t) {
            let k = choose|k: int| 0 <= k < p.len() && p[k] == t;
            assert(p[k] == t);
        }
        if v.contains(t) {
            let k = choose|k: int| 0 <= k < v.len() && v[k] == t;
            assert(v[k] == t);
        }
        if exists|i: int|
            0 <= i < n && (part_gates((#[trigger] cells[i]).1, data).contains(t) || variant_gates(
                cells[i].1,
                data,
            ).contains(t)) {
            let i = choose|i: int|
                0 <= i < n && (part_gates((#[trigger] cells[i]).1, data).contains(t)
                    || variant_gates(cells[i].1, data).contains(t));
            if i < n - 1 {
                assert(cells[i] == cells[i]);
            }
        }
        assert(part_gates(cells[n - 1].1, data) == p);
    }
}

proof fn placed_gates_grow(
    base: Seq<TechId>,
    modules: Seq<VehicleModuleInstance>,
    data: VehicleData,
    n: int,
    t: TechId,
)
    requires
        0 <= n <= modules.len(),
    ensures
        placed_gates(base, modules, data, n).contains(t) <==> base.contains(t) || exists|i: int|
            0 <= i < n && module_gates(#[trigger] modules[i], data).contains(t),
    decreases n,
{
    if n > 0 {
        placed_gates_grow(base, modules, data, n - 1, t);
        let g = module_gates(modules[n - 1], data);
        with_gates_holds(placed_gates(base, modules, data, n - 1), g, g.len() as int, t);
        if g.contains(t) {
            let k = choose|k: int| 0 <= k < g.len() && g[k] == t;
            assert(g[k] == t);
        }
        if exists|i: int| 0 <= i < n && module_gates(#[trigger] modules[i], data).contains(t) {
            let i = choose|i: int|
                0 <= i < n && module_gates(#[trigger] modules[i], data).contains(t);
            if i < n - 1 {
                assert(module_gates(modules[i], data).contains(t));
            }
        }
    }
}

/// A design requires exactly the technologies that its own gates, its parts, its variants or its
/// modules require.
pub proof fn design_gates_are_the_union(
    grid: VehicleGrid,
    base: Seq<TechId>,
    data: VehicleData,
    t: TechId,
)
    ensures
        design_gates(grid, base, data).contains(t) <==> {
            ||| base.contains(t)
            ||| exists|i: int|
                0 <= i < grid.cells@.len() && (part_gates(
                    (#[trigger] grid.cells@[i]).1,
                    data,
                ).contains(t) || variant_gates(grid.cells@[i].1, data).contains(t))
            ||| exists|i: int|
                0 <= i < grid.modules@.len() && module_gates(
                    #[trigger] grid.modules@[i],
                    data,
                ).contains(t)
        },
{
    cell_gates_grow(base, grid.cells@, data, grid.cells@.len() as int, t);
    placed_gates_grow(
        cell_gates(base, grid.cells@, data, grid.cells@.len() as int),
        grid.modules@,
        data,
        grid.modules@.len() as int,
        t,
    );
}

/// The gates hold everything that the parts, variants and modules of a body require.
pub open spec fn gates_complete(grid: VehicleGrid, gates: Seq<TechId>, data: VehicleData) -> bool {
    &&& forall|i: int, k: int|
        0 <= i < grid.cells@.len() && 0 <= k < part_gates(grid.cells@[i].1, data).len()
            ==> gates.contains(#[trigger] part_gates(grid.cells@[i].1, data)[k])
    &&& forall|i: int, k: int|
        0 <= i < grid.cells@.len() && 0 <= k < variant_gates(grid.cells@[i].1, data).len()
            ==> gates.contains(#[trigger] variant_gates(grid.cells@[i].1, data)[k])
    &&& forall|i: int, k: int|
        0 <= i < grid.modules@.len() && 0 <= k < module_gates(grid.modules@[i], data).len()
            ==> gates.contains(#[trigger] module_gates(grid.modules@[i], data)[k])
}

proof fn complete_cells_stay(grid: VehicleGrid, gates: Seq<TechId>, data: VehicleData, n: int)
    requires
        gates_complete(grid, gates, data),
        0 <= n <= grid.cells@.len(),
    ensures
        cell_gates(gates, grid.cells@, data, n) == gates,
    decreases n,
{
    if n > 0 {
        complete_cells_stay(grid, gates, data, n - 1);
        let p = part_gates(grid.cells@[n - 1].1, data);
        let v = variant_gates(grid.cells@[n - 1].1, data);
        gates_already_there(gates, p, p.len() as int);
        gates_already_there(gates, v, v.len() as int);
    }
}

proof fn complete_modules_stay(grid: VehicleGrid, gates: Seq<TechId>, data: VehicleData, n: int)
    requires
        gates_complete(grid, gates, data),
        0 <= n <= grid.modules@.len(),
    ensures
        placed_gates(gates, grid.modules@, data, n) == gates,
    decreases n,
{
    if n > 0 {
        complete_modules_stay(grid, gates, data, n - 1);
        let g = module_gates(grid.modules@[n - 1], data);
        gates_already_there(gates, g, g.len() as int);
    }
}

/// Collecting the gates of a body into a list that holds them all changes nothing.
pub proof fn complete_gates_stay(grid: VehicleGrid, gates: Seq<TechId>, data: VehicleData)
    requires
        gates_complete(grid, gates, data),
    ensures
        design_gates(grid, gates, data) == gates,
{
    complete_cells_stay(grid, gates, data, grid.cells@.len() as int);
    complete_modules_stay(grid, gates, data, grid.modules@.len() as int);
}

/// The gates that a design gets hold everything that its body requires.
pub proof fn design_gates_are_complete(grid: VehicleGrid, base: Seq<TechId>, data: VehicleData)
    ensures
        gates_complete(grid, design_gates(grid, base, data), data),
{
    let all = design_gates(grid, base, data);
    assert forall|i: int, k: int|
        0 <= i < grid.cells@.len() && 0 <= k < part_gates(
            grid.cells@[i].1,
            data,
        ).len() implies all.contains(#[trigger] part_gates(grid.cells@[i].1, data)[k]) by {
        let t = part_gates(grid.cells@[i].1, data)[k];
        design_gates_are_the_union(grid, base, data, t);
        assert(part_gates(grid.cells@[i].1, data).contains(t));
    }
    assert forall|i: int, k: int|
        0 <= i < grid.cells@.len() && 0 <= k < variant_gates(
            grid.cells@[i].1,
            data,
        ).len() implies all.contains(#[trigger] variant_gates(grid.cells@[i].1, data)[k]) by {
        let t = variant_gates(grid.cells@[i].1, data)[k];
        design_gates_are_the_union(grid, base, data, t);
        assert(variant_gates(grid.cells@[i].1, data).contains(t));
    }
    assert forall|i: int, k: int|
        0 <= i < grid.modules@.len() && 0 <= k < module_gates(
            grid.modules@[i],
            data,
        ).len() implies all.contains(#[trigger] module_gates(grid.modules@[i], data)[k]) by {
        let t = module_gates(grid.modules@[i], data)[k];
        design_gates_are_the_union(grid, base, data, t);
        assert(module_gates(grid.modules@[i], data).contains(t));
    }
}

/// What a cell and a module ask for is what their part, variant and definition say, and nothing
/// where these are not listed.
pub proof fn gates_come_from_the_catalog(
    cell: VehicleCell,
    m: VehicleModuleInstance,
    data: VehicleData,
)
    ensures
        data.part_spec(cell.kind) matches Some(p) ==> part_gates(cell, data) == p.tech_gates@,
        data.part_spec(cell.kind) is None ==> part_gates(cell, data).len() == 0,
        cell.variant is None ==> variant_gates(cell, data).len() == 0,
        cell.variant is Some && data.variant_spec(cell.variant->0) is Some ==> variant_gates(
            cell,
            data,
        ) == (data.variant_spec(cell.variant->0)->0).tech_gates@,
        data.module_spec(m.def) matches Some(d) ==> module_gates(m, data) == d.tech_gates@,
        data.module_spec(m.def) is None ==> module_gates(m, data).len() == 0,
{
}

} // verus!
