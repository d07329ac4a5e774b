//! The figures that follow from a body: masses, payload, spans and power.
//!
//! A cell's own figures (its mass, what it supports, what it holds, its power) come scaled by the
//! multipliers of its variant, as whole grams and millilitres; everything here adds them up.

use vstd::prelude::*;
use crate::catalog::VehicleData;
use crate::footprint::{base_tiles, xy_of};
use crate::geometry::{IVec2, IVec3};
use crate::grid::{
    bounding_box, bounding_box_is_box, box_is_unique, is_box, VehicleCell, VehicleGrid,
};
use crate::parts::{ResourceId, VehiclePartKind, VehiclePartVariantId};
use crate::seqs::{
    capped_sum, distinct_keeps_elements, distinct_lengths_agree, elements_of_any_order, is_range,
    range_extends, spread, spread_of_nothing, spread_of_range, spreads_agree, sum, sum_agrees,
    sum_at_most, sum_bound, sum_grows, total, total_of_any_order, values_within,
};

verus! {

/// Grams supported per point of material strength.
pub const AXLE_SUPPORT_PER_STRENGTH: u32 = 2_000;

pub const WHEEL_SUPPORT_PER_STRENGTH: u32 = 400;

pub const FRAME_SUPPORT_PER_STRENGTH: u32 = 300;

pub const TRACK_SUPPORT_PER_STRENGTH: u32 = 1_500;

/// One cell's figures after its variant's multipliers.
#[derive(Clone, Copy, Debug, PartialEq, Eq, Structural)]
pub struct CellFigures {
    pub mass_g: u32,
    pub support_g: u32,
    pub cargo_g: u32,
    pub cargo_ml: u32,
    pub engine_g: u32,
}

/// One cell's figures before its variant's multipliers.
#[derive(Clone, Copy, Debug, PartialEq, Eq, Structural)]
pub struct BaseFigures {
    pub mass_g: u64,
    pub support_g: u32,
    pub cargo_g: u32,
    pub cargo_ml: u32,
    pub engine_g: u32,
}

/// The whole-number figures of a body.
#[derive(Clone, Copy, Debug, PartialEq, Eq, Structural)]
pub struct VehicleStats {
    pub empty_mass_g: u32,
    pub support_g: u32,
    pub max_payload_g: u32,
    pub max_cargo_volume_ml: u32,
    pub loaded_mass_g: u32,
    /// Tiles from the first axle row to the last.
    pub wheelbase: u32,
    /// Tiles from the leftmost wheel to the rightmost.
    pub track_width: u32,
    pub height_z: u8,
    pub footprint_area: u32,
    pub engine_power: u32,
    pub is_engine_driven: bool,
    pub wheel_count: u32,
    /// Summed rolling-resistance reduction of the tracks, in percent.
    pub track_traction_pct: u32,
}

/// The spacing of single-precision numbers at `n`: the least power of two `u` with
/// `n < 2^24 * u`.
pub open spec fn spacing(n: nat) -> nat
    decreases n,
{
    if n < 0x100_0000 {
        1
    } else {
        2 * spacing(n / 2)
    }
}

/// `n` in single precision: rounded to a multiple of its spacing, halfway cases to an even
/// multiple.
pub open spec fn single(n: nat) -> nat {
    let u = spacing(n);
    if 2 * (n % u) > u || (2 * (n % u) == u && (n / u) % 2 == 1) {
        (n / u + 1) * u
    } else {
        n / u * u
    }
}

/// A whole number kept within `u32`.
pub open spec fn within_u32(n: int) -> u32 {
    if n > u32::MAX {
        u32::MAX
    } else {
        n as u32
    }
}

/// Grams per point of strength that a part kind contributes.
pub open spec fn support_rate(kind: VehiclePartKind) -> int {
    match kind {
        VehiclePartKind::Axle => AXLE_SUPPORT_PER_STRENGTH as int,
        VehiclePartKind::Wheel => WHEEL_SUPPORT_PER_STRENGTH as int,
        VehiclePartKind::Frame => FRAME_SUPPORT_PER_STRENGTH as int,
        VehiclePartKind::Track => TRACK_SUPPORT_PER_STRENGTH as int,
        _ => 0,
    }
}

/// The unscaled figures of a cell. A part without a definition weighs two kilograms and holds
/// nothing; a material without a profile has density 100 percent and strength 30.
pub open spec fn base_figures_spec(cell: VehicleCell, data: VehicleData) -> BaseFigures {
    let part = data.part_spec(cell.kind);
    let material = data.material_spec(cell.material);
    let base: int = match part {
        Some(p) => p.base_mass_g as int,
        None => 2_000,
    };
    let density: int = match material {
        Some(m) => m.density_pct as int,
        None => 100,
    };
    let strength: int = match material {
        Some(m) => m.strength as int,
        None => 30,
    };
    BaseFigures {
        mass_g: (base * density / 100) as u64,
        support_g: within_u32(strength * support_rate(cell.kind)),
        cargo_g: if cell.kind == VehiclePartKind::CargoBay && part is Some {
            part->0.cargo_volume_g
        } else {
            0
        },
        cargo_ml: if cell.kind == VehiclePartKind::CargoBay && part is Some {
            part->0.cargo_volume_ml
        } else {
            0
        },
        engine_g: if cell.kind == VehiclePartKind::Engine && part is Some {
            part->0.engine_power_g
        } else {
            0
        },
    }
}

/// Unscaled figures pass through single precision on their way to cell figures.
pub open spec fn standard_figures_spec(base: BaseFigures) -> CellFigures {
    CellFigures {
        mass_g: within_u32(single(base.mass_g as nat) as int),
        support_g: within_u32(single(base.support_g as nat) as int),
        cargo_g: within_u32(single(base.cargo_g as nat) as int),
        cargo_ml: within_u32(single(base.cargo_ml as nat) as int),
        engine_g: within_u32(single(base.engine_g as nat) as int),
    }
}

proof fn spacing_positive(n: nat)
    ensures
        spacing(n) >= 1,
        spacing(n) <= 1 || spacing(n) <= n,
    decreases n,
{
    if n >= 0x100_0000 {
        spacing_positive(n / 2);
    }
}

/// A whole number in single precision.
pub fn to_single(n: u64) -> (r: u64)
    requires
        n < 0x4000_0000_0000_0000,
    ensures
        r == single(n as nat),
        n < 0x100_0000 ==> r == n,
{
    let mut u: u64 = 1;
    assert(n as nat / 1 == n);
    while n / u >= 0x100_0000
        invariant
            1 <= u,
            u == 1 || u <= n,
            n < 0x4000_0000_0000_0000,
            spacing(n as nat) == u * spacing((n / u) as nat),
        decreases n / u,
    {
        let ghost m = (n / u) as nat;
        proof {
            assert(spacing(m) == 2 * spacing(m / 2));
            vstd::arithmetic::div_mod::lemma_div_denominator(n as int, u as int, 2);
            assert(u * 2 == 2 * u);
            assert(u * (2 * spacing(m / 2)) == (2 * u) * spacing(m / 2)) by (nonlinear_arith);
            assert(2 * u <= n) by (nonlinear_arith)
                requires
                    n / u >= 0x100_0000,
                    u >= 1,
            ;
            assert(m / 2 < m);
        }
        u = 2 * u;
    }
    proof {
        assert(spacing((n / u) as nat) == 1);
        assert(u * 1 == u);
        assert((n / u) * u <= n) by (nonlinear_arith)
            requires
                u >= 1,
        ;
        assert((n / u + 1) * u <= n + u) by (nonlinear_arith)
            requires
                (n / u) * u <= n,
                u >= 1,
        ;
        if n < 0x100_0000 {
            assert(u == 1) by {
                if u > 1 {
                    assert(spacing(n as nat) == 1);
                }
            }
        }
    }
    let q: u64 = n / u;
    let r: u64 = n % u;
    if r > u - r || (r == u - r && q % 2 == 1) {
        (q + 1) * u
    } else {
        q * u
    }
}

fn at_most_u32(n: u64) -> (r: u32)
    ensures
        r == within_u32(n as int),
{
    if n > u32::MAX as u64 {
        u32::MAX
    } else {
        n as u32
    }
}

/// The unscaled figures of one cell.
pub fn base_figures(cell: &VehicleCell, data: &VehicleData) -> (f: BaseFigures)
    ensures
        f == base_figures_spec(*cell, *data),
{
    let mut base: u64 = 2_000;
    let mut cargo_g: u32 = 0;
    let mut cargo_ml: u32 = 0;
    let mut engine_g: u32 = 0;
    match data.part(cell.kind) {
        Some(p) => {
            base = p.base_mass_g as u64;
            if cell.kind == VehiclePartKind::CargoBay {
                cargo_g = p.cargo_volume_g;
                cargo_ml = p.cargo_volume_ml;
            }
            if cell.kind == VehiclePartKind::Engine {
                engine_g = p.engine_power_g;
            }
        },
        None => {},
    }
    let mut density: u64 = 100;
    let mut strength: u64 = 30;
    match data.material(cell.material) {
        Some(m) => {
            density = m.density_pct as u64;
            strength = m.strength as u64;
        },
        None => {},
    }
    let rate: u64 = match cell.kind {
        VehiclePartKind::Axle => AXLE_SUPPORT_PER_STRENGTH as u64,
        VehiclePartKind::Wheel => WHEEL_SUPPORT_PER_STRENGTH as u64,
        VehiclePartKind::Frame => FRAME_SUPPORT_PER_STRENGTH as u64,
        VehiclePartKind::Track => TRACK_SUPPORT_PER_STRENGTH as u64,
        _ => 0,
    };
    assert(base * density <= 0xffff_ffff * 0xffff_ffff) by (nonlinear_arith)
        requires
            base <= 0xffff_ffff,
            density <= 0xffff_ffff,
    ;
    assert(strength * rate <= 0xffff * 2000) by (nonlinear_arith)
        requires
            strength <= 0xffff,
            rate <= 2000,
    ;
    let raw: u64 = base * density / 100;
    BaseFigures {
        mass_g: raw,
        support_g: at_most_u32(strength * rate),
        cargo_g,
        cargo_ml,
        engine_g,
    }
}

/// The figures of a cell whose variant changes nothing.
pub fn standard_figures(base: BaseFigures) -> (f: CellFigures)
    requires
        base.mass_g < 0x4000_0000_0000_0000,
    ensures
        f == standard_figures_spec(base),
{
    CellFigures {
        mass_g: at_most_u32(to_single(base.mass_g)),
        support_g: at_most_u32(to_single(base.support_g as u64)),
        cargo_g: at_most_u32(to_single(base.cargo_g as u64)),
        cargo_ml: at_most_u32(to_single(base.cargo_ml as u64)),
        engine_g: at_most_u32(to_single(base.engine_g as u64)),
    }
}

/// The figures of a body whose cells carry no variant.
pub open spec fn plain_figures(
    cells: Seq<(IVec3, VehicleCell)>,
    data: VehicleData,
) -> Seq<CellFigures> {
    Seq::new(cells.len(), |i: int| standard_figures_spec(base_figures_spec(cells[i].1, data)))
}

/// The figures of every cell of a body whose cells carry no variant.
pub fn plain_body_figures(grid: &VehicleGrid, data: &VehicleData) -> (figures: Vec<CellFigures>)
    ensures
        figures@ == plain_figures(grid.cells@, *data),
{
    let mut figures: Vec<CellFigures> = Vec::new();
    let mut i: usize = 0;
    while i < grid.cells.len()
        invariant
            i <= grid.cells.len(),
            figures@.len() == i,
            forall|j: int|
                0 <= j < i ==> #[trigger] figures@[j] == standard_figures_spec(
                    base_figures_spec(grid.cells@[j].1, *data),
                ),
        decreases grid.cells.len() - i,
    {
        let base = base_figures(&grid.cells[i].1, data);
        proof {
            base_mass_is_small(grid.cells@[i as int].1, *data);
        }
        figures.push(standard_figures(base));
        i += 1;
    }
    assert(figures@ =~= plain_figures(grid.cells@, *data));
    figures
}

proof fn base_mass_is_small(cell: VehicleCell, data: VehicleData)
    ensures
        base_figures_spec(cell, data).mass_g < 0x4000_0000_0000_0000,
{
    let base: int = match data.part_spec(cell.kind) {
        Some(p) => p.base_mass_g as int,
        None => 2_000,
    };
    let density: int = match data.material_spec(cell.material) {
        Some(m) => m.density_pct as int,
        None => 100,
    };
    assert(0 <= base * density <= 0xffff_ffff * 0xffff_ffff) by (nonlinear_arith)
        requires
            0 <= base <= 0xffff_ffff,
            0 <= density <= 0xffff_ffff,
    ;
}

pub open spec fn mass_of(figures: Seq<CellFigures>) -> spec_fn(int) -> int {
    |i: int| figures[i].mass_g as int
}

pub open spec fn support_of(figures: Seq<CellFigures>) -> spec_fn(int) -> int {
    |i: int| figures[i].support_g as int
}

pub open spec fn cargo_g_of(
    cells: Seq<(IVec3, VehicleCell)>,
    figures: Seq<CellFigures>,
) -> spec_fn(int) -> int {
    |i: int|
        if cells[i].1.kind == VehiclePartKind::CargoBay {
            figures[i].cargo_g as int
        } else {
            0
        }
}

pub open spec fn cargo_ml_of(
    cells: Seq<(IVec3, VehicleCell)>,
    figures: Seq<CellFigures>,
) -> spec_fn(int) -> int {
    |i: int|
        if cells[i].1.kind == VehiclePartKind::CargoBay {
            figures[i].cargo_ml as int
        } else {
            0
        }
}

pub open spec fn engine_of(
    cells: Seq<(IVec3, VehicleCell)>,
    figures: Seq<CellFigures>,
) -> spec_fn(int) -> int {
    |i: int|
        if cells[i].1.kind == VehiclePartKind::Engine {
            figures[i].engine_g as int
        } else {
            0
        }
}

pub open spec fn traction_of(
    cells: Seq<(IVec3, VehicleCell)>,
    data: VehicleData,
) -> spec_fn(int) -> int {
    |i: int|
        if cells[i].1.kind == VehiclePartKind::Track {
            match data.part_spec(VehiclePartKind::Track) {
                Some(p) => p.traction_pct as int,
                None => 0,
            }
        } else {
            0
        }
}

/// One for each cell of a kind.
pub open spec fn one_of_kind(
    cells: Seq<(IVec3, VehicleCell)>,
    kind: VehiclePartKind,
) -> spec_fn(int) -> int {
    |i: int|
        if cells[i].1.kind == kind {
            1
        } else {
            0
        }
}

pub open spec fn is_kind(
    cells: Seq<(IVec3, VehicleCell)>,
    kind: VehiclePartKind,
) -> spec_fn(int) -> bool {
    |i: int| cells[i].1.kind == kind
}

pub open spec fn x_of(cells: Seq<(IVec3, VehicleCell)>) -> spec_fn(int) -> int {
    |i: int| cells[i].0.x as int
}

pub open spec fn y_of(cells: Seq<(IVec3, VehicleCell)>) -> spec_fn(int) -> int {
    |i: int| cells[i].0.y as int
}

/// The empty mass, as the low 32 bits of the sum over the cells.
pub open spec fn empty_mass(figures: Seq<CellFigures>) -> int {
    sum(figures.len() as int, mass_of(figures)) % 0x1_0000_0000
}

/// What the running gear and the chassis can carry.
pub open spec fn support_limit(figures: Seq<CellFigures>) -> int {
    capped_sum(figures.len() as int, support_of(figures), u32::MAX as int)
}

/// The sides of the bounding box fit in `i32`.
pub open spec fn box_fits(cells: Seq<(IVec3, VehicleCell)>) -> bool {
    let (lo, hi) = bounding_box(cells);
    cells.len() > 0 ==> {
        &&& hi.x - lo.x + 1 <= i32::MAX
        &&& hi.y - lo.y + 1 <= i32::MAX
        &&& hi.z - lo.z + 1 <= i32::MAX
    }
}

/// The figures belong to the body and their sums fit in machine words.
pub open spec fn figures_fit(
    cells: Seq<(IVec3, VehicleCell)>,
    figures: Seq<CellFigures>,
) -> bool {
    &&& figures.len() == cells.len()
    &&& cells.len() <= u32::MAX
    &&& sum(cells.len() as int, cargo_g_of(cells, figures)) <= u32::MAX
    &&& sum(cells.len() as int, cargo_ml_of(cells, figures)) <= u32::MAX
}

/// The stat block of a body.
pub open spec fn stats_spec(
    cells: Seq<(IVec3, VehicleCell)>,
    data: VehicleData,
    figures: Seq<CellFigures>,
) -> VehicleStats {
    let n = cells.len() as int;
    let (lo, hi) = bounding_box(cells);
    let empty = empty_mass(figures);
    let support = support_limit(figures);
    let room = if support > empty {
        support - empty
    } else {
        0
    };
    let cargo = sum(n, cargo_g_of(cells, figures));
    let payload = if cargo < room {
        cargo
    } else {
        room
    };
    let power = capped_sum(n, engine_of(cells, figures), u32::MAX as int);
    VehicleStats {
        empty_mass_g: empty as u32,
        support_g: support as u32,
        max_payload_g: payload as u32,
        max_cargo_volume_ml: sum(n, cargo_ml_of(cells, figures)) as u32,
        loaded_mass_g: within_u32(empty + payload),
        wheelbase: spread(
            n,
            is_kind(cells, VehiclePartKind::Axle),
            y_of(cells),
            hi.y - lo.y + 1,
        ) as u32,
        track_width: spread(
            n,
            is_kind(cells, VehiclePartKind::Wheel),
            x_of(cells),
            hi.x - lo.x + 1,
        ) as u32,
        height_z: ((hi.z - lo.z + 1) % 256) as u8,
        footprint_area: base_tiles(cells).len() as u32,
        engine_power: power as u32,
        is_engine_driven: power > 0,
        wheel_count: sum(n, one_of_kind(cells, VehiclePartKind::Wheel)) as u32,
        track_traction_pct: capped_sum(n, traction_of(cells, data), u32::MAX as int) as u32,
    }
}

/// The stat block of a body without cells.
pub open spec fn no_stats() -> VehicleStats {
    VehicleStats {
        empty_mass_g: 0,
        support_g: 0,
        max_payload_g: 0,
        max_cargo_volume_ml: 0,
        loaded_mass_g: 0,
        wheelbase: 0,
        track_width: 0,
        height_z: 0,
        footprint_area: 0,
        engine_power: 0,
        is_engine_driven: false,
        wheel_count: 0,
        track_traction_pct: 0,
    }
}

/// The low 32 bits of the summed mass.
pub fn empty_mass_g(figures: &Vec<CellFigures>) -> (m: u32)
    requires
        figures@.len() <= u32::MAX,
    ensures
        m == empty_mass(figures@),
{
    let ghost f = mass_of(figures@);
    let mut total: u64 = 0;
    let mut i: usize = 0;
    while i < figures.len()
        invariant
            i <= figures.len(),
            figures@.len() <= u32::MAX,
            f == mass_of(figures@),
            total == sum(i as int, f),
        decreases figures.len() - i,
    {
        proof {
            sum_bound(i as int, f, u32::MAX as int);
            assert(i * u32::MAX <= 0xffff_fffe * 0xffff_ffff) by (nonlinear_arith)
                requires
                    i <= 0xffff_fffe,
            ;
        }
        total = total + figures[i].mass_g as u64;
        i += 1;
    }
    (total % 0x1_0000_0000) as u32
}

/// The summed support, held at the greatest `u32`.
pub fn support_limit_g(figures: &Vec<CellFigures>) -> (s: u32)
    ensures
        s == support_limit(figures@),
{
    let ghost f = support_of(figures@);
    let mut total: u32 = 0;
    let mut i: usize = 0;
    while i < figures.len()
        invariant
            i <= figures.len(),
            f == support_of(figures@),
            total == capped_sum(i as int, f, u32::MAX as int),
        decreases figures.len() - i,
    {
        proof {
            sum_grows(0, i as int, f);
        }
        total = total.saturating_add(figures[i].support_g);
        i += 1;
    }
    total
}

/// The body is heavier, in single precision, than its own running gear can carry.
pub open spec fn overloaded(figures: Seq<CellFigures>) -> bool {
    single(empty_mass(figures) as nat) > single(support_limit(figures) as nat)
}

/// Whether the empty body outweighs its support.
pub fn is_overloaded(figures: &Vec<CellFigures>) -> (b: bool)
    requires
        figures@.len() <= u32::MAX,
    ensures
        b == overloaded(figures@),
{
    let empty: u32 = empty_mass_g(figures);
    let support: u32 = support_limit_g(figures);
    to_single(empty as u64) > to_single(support as u64)
}

/// Sums one figure of the cells of a kind; the sum is known to fit.
fn total_of_bays(
    grid: &VehicleGrid,
    figures: &Vec<CellFigures>,
) -> (r: (u32, u32))
    requires
        figures_fit(grid.cells@, figures@),
    ensures
        r.0 == sum(grid.cells@.len() as int, cargo_g_of(grid.cells@, figures@)),
        r.1 == sum(grid.cells@.len() as int, cargo_ml_of(grid.cells@, figures@)),
{
    let ghost n = grid.cells@.len() as int;
    let ghost f = cargo_g_of(grid.cells@, figures@);
    let ghost g = cargo_ml_of(grid.cells@, figures@);
    let mut grams: u32 = 0;
    let mut millilitres: u32 = 0;
    let mut i: usize = 0;
    while i < grid.cells.len()
        invariant
            i <= grid.cells.len(),
            n == grid.cells@.len(),
            f == cargo_g_of(grid.cells@, figures@),
            g == cargo_ml_of(grid.cells@, figures@),
            figures_fit(grid.cells@, figures@),
            grams == sum(i as int, f),
            millilitres == sum(i as int, g),
        decreases grid.cells.len() - i,
    {
        proof {
            sum_grows(i + 1, n, f);
            sum_grows(i + 1, n, g);
        }
        if grid.cells[i].1.kind == VehiclePartKind::CargoBay {
            grams = grams + figures[i].cargo_g;
            millilitres = millilitres + figures[i].cargo_ml;
        }
        i += 1;
    }
    (grams, millilitres)
}

/// Engine power and track traction of a body, each held at the greatest `u32`.
fn drive_of(
    grid: &VehicleGrid,
    data: &VehicleData,
    figures: &Vec<CellFigures>,
) -> (r: (u32, u32))
    requires
        figures@.len() == grid.cells@.len(),
    ensures
        r.0 == capped_sum(
            grid.cells@.len() as int,
            engine_of(grid.cells@, figures@),
            u32::MAX as int,
        ),
        r.1 == capped_sum(
            grid.cells@.len() as int,
            traction_of(grid.cells@, *data),
            u32::MAX as int,
        ),
{
    let ghost f = engine_of(grid.cells@, figures@);
    let ghost g = traction_of(grid.cells@, *data);
    let per_track: u32 = match data.part(VehiclePartKind::Track) {
        Some(p) => p.traction_pct,
        None => 0,
    };
    let mut power: u32 = 0;
    let mut traction: u32 = 0;
    let mut i: usize = 0;
    while i < grid.cells.len()
        invariant
            i <= grid.cells.len(),
            figures@.len() == grid.cells@.len(),
            f == engine_of(grid.cells@, figures@),
            g == traction_of(grid.cells@, *data),
            per_track == (match data.part_spec(VehiclePartKind::Track) {
                Some(p) => p.traction_pct,
                None => 0,
            }),
            power == capped_sum(i as int, f, u32::MAX as int),
            traction == capped_sum(i as int, g, u32::MAX as int),
        decreases grid.cells.len() - i,
    {
        proof {
            sum_grows(0, i as int, f);
            sum_grows(0, i as int, g);
        }
        if grid.cells[i].1.kind == VehiclePartKind::Engine {
            power = power.saturating_add(figures[i].engine_g);
        }
        if grid.cells[i].1.kind == VehiclePartKind::Track {
            traction = traction.saturating_add(per_track);
        }
        i += 1;
    }
    (power, traction)
}

/// Wheel count, track width and wheelbase of a body with the given bounding box.
fn running_gear(grid: &VehicleGrid, lo: IVec3, hi: IVec3) -> (r: (u32, u32, u32))
    requires
        0 < grid.cells@.len() <= u32::MAX,
        is_box(grid.cells@, grid.cells@.len() as int, lo, hi),
        hi.x - lo.x + 1 <= i32::MAX,
        hi.y - lo.y + 1 <= i32::MAX,
    ensures
        r.0 == sum(
            grid.cells@.len() as int,
            one_of_kind(grid.cells@, VehiclePartKind::Wheel),
        ),
        r.1 == spread(
            grid.cells@.len() as int,
            is_kind(grid.cells@, VehiclePartKind::Wheel),
            x_of(grid.cells@),
            hi.x - lo.x + 1,
        ),
        r.2 == spread(
            grid.cells@.len() as int,
            is_kind(grid.cells@, VehiclePartKind::Axle),
            y_of(grid.cells@),
            hi.y - lo.y + 1,
        ),
{
    let ghost n = grid.cells@.len() as int;
    let ghost ones = one_of_kind(grid.cells@, VehiclePartKind::Wheel);
    let ghost wheel = is_kind(grid.cells@, VehiclePartKind::Wheel);
    let ghost axle = is_kind(grid.cells@, VehiclePartKind::Axle);
    let ghost xs = x_of(grid.cells@);
    let ghost ys = y_of(grid.cells@);
    let mut wheels: u32 = 0;
    let mut has_axle: bool = false;
    let mut wheel_lo: i32 = 0;
    let mut wheel_hi: i32 = 0;
    let mut axle_lo: i32 = 0;
    let mut axle_hi: i32 = 0;
    let mut i: usize = 0;
    while i < grid.cells.len()
        invariant
            i <= grid.cells.len(),
            n == grid.cells@.len(),
            n <= u32::MAX,
            ones == one_of_kind(grid.cells@, VehiclePartKind::Wheel),
            wheel == is_kind(grid.cells@, VehiclePartKind::Wheel),
            axle == is_kind(grid.cells@, VehiclePartKind::Axle),
            xs == x_of(grid.cells@),
            ys == y_of(grid.cells@),
            wheels == sum(i as int, ones),
            wheels > 0 ==> is_range(i as int, wheel, xs, wheel_lo as int, wheel_hi as int),
            wheels == 0 ==> forall|j: int| 0 <= j < i ==> !#[trigger] wheel(j),
            has_axle ==> is_range(i as int, axle, ys, axle_lo as int, axle_hi as int),
            !has_axle ==> forall|j: int| 0 <= j < i ==> !#[trigger] axle(j),
        decreases grid.cells.len() - i,
    {
        let p = grid.cells[i].0;
        let kind = grid.cells[i].1.kind;
        proof {
            sum_bound(i as int, ones, 1);
            range_extends(i as int, wheel, xs, wheel_lo as int, wheel_hi as int, wheels > 0);
            range_extends(i as int, axle, ys, axle_lo as int, axle_hi as int, has_axle);
        }
        if kind == VehiclePartKind::Wheel {
            if wheels == 0 || p.x < wheel_lo {
                wheel_lo = p.x;
            }
            if wheels == 0 || p.x > wheel_hi {
                wheel_hi = p.x;
            }
            wheels = wheels + 1;
        }
        if kind == VehiclePartKind::Axle {
            if !has_axle || p.y < axle_lo {
                axle_lo = p.y;
            }
            if !has_axle || p.y > axle_hi {
                axle_hi = p.y;
            }
            has_axle = true;
        }
        i += 1;
    }
    let width: u32 = (hi.x - lo.x + 1) as u32;
    let depth: u32 = (hi.y - lo.y + 1) as u32;
    proof {
        if wheels > 0 {
            spread_of_range(n, wheel, xs, width as int, wheel_lo as int, wheel_hi as int);
            let a = choose|a: int| 0 <= a < n && #[trigger] wheel(a) && xs(a) == wheel_lo;
            let b = choose|b: int| 0 <= b < n && #[trigger] wheel(b) && xs(b) == wheel_hi;
            assert(lo.x <= grid.cells@[a].0.x && grid.cells@[b].0.x <= hi.x);
        } else {
            spread_of_nothing(n, wheel, xs, width as int);
        }
        if has_axle {
            spread_of_range(n, axle, ys, depth as int, axle_lo as int, axle_hi as int);
            let a = choose|a: int| 0 <= a < n && #[trigger] axle(a) && ys(a) == axle_lo;
            let b = choose|b: int| 0 <= b < n && #[trigger] axle(b) && ys(b) == axle_hi;
            assert(lo.y <= grid.cells@[a].0.y && grid.cells@[b].0.y <= hi.y);
        } else {
            spread_of_nothing(n, axle, ys, depth as int);
        }
    }
    let track_width: u32 = if wheels > 0 && wheel_lo < wheel_hi {
        (wheel_hi - wheel_lo + 1) as u32
    } else {
        width
    };
    let wheelbase: u32 = if has_axle && axle_lo < axle_hi {
        (axle_hi - axle_lo + 1) as u32
    } else {
        depth
    };
    (wheels, track_width, wheelbase)
}

/// The stat block of a body.
pub fn derive_stats(
    grid: &VehicleGrid,
    data: &VehicleData,
    figures: &Vec<CellFigures>,
) -> (stats: VehicleStats)
    requires
        figures_fit(grid.cells@, figures@),
        box_fits(grid.cells@),
    ensures
        grid.cells@.len() == 0 ==> stats == no_stats(),
        grid.cells@.len() > 0 ==> stats == stats_spec(grid.cells@, *data, figures@),
{
    match grid.bounds() {
        None => VehicleStats {
            empty_mass_g: 0,
            support_g: 0,
            max_payload_g: 0,
            max_cargo_volume_ml: 0,
            loaded_mass_g: 0,
            wheelbase: 0,
            track_width: 0,
            height_z: 0,
            footprint_area: 0,
            engine_power: 0,
            is_engine_driven: false,
            wheel_count: 0,
            track_traction_pct: 0,
        },
        Some((lo, hi)) => {
            let empty: u32 = empty_mass_g(figures);
            let support: u32 = support_limit_g(figures);
            let (cargo, cargo_ml) = total_of_bays(grid, figures);
            let room: u32 = support.saturating_sub(empty);
            let payload: u32 = if cargo < room {
                cargo
            } else {
                room
            };
            let (power, traction) = drive_of(grid, data, figures);
            let (wheels, track_width, wheelbase) = running_gear(grid, lo, hi);
            let tiles = crate::footprint::tiles_under(grid);
            proof {
                distinct_keeps_elements(xy_of(grid.cells@));
            }
            let levels: i32 = hi.z - lo.z + 1;
            VehicleStats {
                empty_mass_g: empty,
                support_g: support,
                max_payload_g: payload,
                max_cargo_volume_ml: cargo_ml,
                loaded_mass_g: empty.saturating_add(payload),
                wheelbase,
                track_width,
                height_z: (levels % 256) as u8,
                footprint_area: tiles.len() as u32,
                engine_power: power,
                is_engine_driven: power > 0,
                wheel_count: wheels,
                track_traction_pct: traction,
            }
        },
    }
}

/// A payload never overloads a body that can stand empty, and never exceeds what its bays hold.
pub proof fn payload_respects_support_and_volume(
    cells: Seq<(IVec3, VehicleCell)>,
    data: VehicleData,
    figures: Seq<CellFigures>,
)
    requires
        cells.len() > 0,
        figures_fit(cells, figures),
    ensures
        stats_spec(cells, data, figures).max_payload_g <= sum(
            cells.len() as int,
            cargo_g_of(cells, figures),
        ),
        empty_mass(figures) <= support_limit(figures) ==> stats_spec(
            cells,
            data,
            figures,
        ).loaded_mass_g <= support_limit(figures),
        empty_mass(figures) >= support_limit(figures) ==> stats_spec(
            cells,
            data,
            figures,
        ).max_payload_g == 0,
{
    sum_grows(0, figures.len() as int, mass_of(figures));
    sum_grows(0, figures.len() as int, support_of(figures));
    sum_grows(0, cells.len() as int, cargo_g_of(cells, figures));
}

proof fn spacing_doubles(a: nat, b: nat)
    requires
        a <= b,
    ensures
        spacing(a) == spacing(b) || 2 * spacing(a) <= spacing(b),
    decreases b,
{
    if b >= 0x100_0000 {
        if a >= 0x100_0000 {
            spacing_doubles(a / 2, b / 2);
        } else {
            spacing_positive(b / 2);
        }
    }
}

proof fn spacing_brackets(n: nat)
    ensures
        n < 0x100_0000 * spacing(n),
        spacing(n) > 1 ==> 0x80_0000 * spacing(n) <= n,
    decreases n,
{
    if n >= 0x100_0000 {
        spacing_brackets(n / 2);
        spacing_positive(n / 2);
    }
}

/// Rounding to single precision keeps the order of whole numbers, so a body is only ever called
/// overloaded when its empty mass really exceeds its support.
pub proof fn single_precision_keeps_order(a: nat, b: nat)
    requires
        a <= b,
    ensures
        single(a) <= single(b),
{
    let ua = spacing(a);
    let ub = spacing(b);
    spacing_positive(a);
    spacing_positive(b);
    spacing_doubles(a, b);
    spacing_brackets(a);
    spacing_brackets(b);
    let qa = a / ua;
    let qb = b / ub;
    let ra = a % ua;
    let rb = b % ub;
    vstd::arithmetic::div_mod::lemma_fundamental_div_mod(a as int, ua as int);
    vstd::arithmetic::div_mod::lemma_fundamental_div_mod(b as int, ub as int);
    if ua == ub {
        assert(qa <= qb) by {
            vstd::arithmetic::div_mod::lemma_div_is_ordered(a as int, b as int, ua as int);
        }
        if qa < qb {
            assert((qa + 1) * ua <= qb * ub) by (nonlinear_arith)
                requires
                    qa + 1 <= qb,
                    ua == ub,
            ;
            assert(qb * ub <= (qb + 1) * ub) by (nonlinear_arith);
            assert(qa * ua <= (qa + 1) * ua) by (nonlinear_arith);
        } else {
            assert(ra <= rb) by (nonlinear_arith)
                requires
                    a <= b,
                    a == ua * qa + ra,
                    b == ub * qb + rb,
                    ua == ub,
                    qa == qb,
            ;
            assert(qa * ua <= (qa + 1) * ua) by (nonlinear_arith);
        }
    } else {
        assert(qa < 0x100_0000) by (nonlinear_arith)
            requires
                a < 0x100_0000 * ua,
                a == ua * qa + ra,
                0 <= ra,
                ua >= 1,
        ;
        assert((qa + 1) * ua <= 0x100_0000 * ua) by (nonlinear_arith)
            requires
                qa + 1 <= 0x100_0000,
        ;
        assert(qa * ua <= (qa + 1) * ua) by (nonlinear_arith);
        assert(0x80_0000 <= qb) by (nonlinear_arith)
            requires
                0x80_0000 * ub <= b,
                b == ub * qb + rb,
                0 <= rb < ub,
        ;
        assert(0x80_0000 * ub <= qb * ub) by (nonlinear_arith)
            requires
                0x80_0000 <= qb,
        ;
        assert(qb * ub <= (qb + 1) * ub) by (nonlinear_arith);
    }
}

/// The figures of a body where each cell's figures follow from the cell.
pub open spec fn figures_by(
    cells: Seq<(IVec3, VehicleCell)>,
    figure: spec_fn(VehicleCell) -> CellFigures,
) -> Seq<CellFigures> {
    Seq::new(cells.len(), |i: int| figure(cells[i].1))
}

proof fn sums_of_any_order(
    a: Seq<(IVec3, VehicleCell)>,
    b: Seq<(IVec3, VehicleCell)>,
    share: spec_fn((IVec3, VehicleCell)) -> int,
    f: spec_fn(int) -> int,
    g: spec_fn(int) -> int,
)
    requires
        a.to_multiset() == b.to_multiset(),
        forall|i: int| 0 <= i < a.len() ==> #[trigger] f(i) == share(a[i]),
        forall|i: int| 0 <= i < b.len() ==> #[trigger] g(i) == share(b[i]),
    ensures
        sum(a.len() as int, f) == sum(b.len() as int, g),
{
    total_of_any_order(a, b, share);
    sum_agrees(a.len() as int, f, |i: int| share(a[i]));
    sum_agrees(b.len() as int, g, |i: int| share(b[i]));
    assert(total(a, share) == total(b, share));
}

proof fn kinds_within(
    a: Seq<(IVec3, VehicleCell)>,
    b: Seq<(IVec3, VehicleCell)>,
    kind: VehiclePartKind,
)
    requires
        forall|c: (IVec3, VehicleCell)| #[trigger] a.contains(c) ==> b.contains(c),
    ensures
        values_within(
            a.len() as int,
            is_kind(a, kind),
            x_of(a),
            b.len() as int,
            is_kind(b, kind),
            x_of(b),
        ),
        values_within(
            a.len() as int,
            is_kind(a, kind),
            y_of(a),
            b.len() as int,
            is_kind(b, kind),
            y_of(b),
        ),
{
    let p = is_kind(a, kind);
    let q = is_kind(b, kind);
    assert forall|i: int| 0 <= i < a.len() && #[trigger] p(i) implies exists|j: int|
        0 <= j < b.len() && #[trigger] q(j) && x_of(b)(j) == x_of(a)(i) && y_of(b)(j) == y_of(a)(
            i,
        ) by {
        assert(a.contains(a[i]));
        let j = choose|j: int| 0 <= j < b.len() && b[j] == a[i];
        assert(q(j));
    }
    assert forall|i: int| 0 <= i < a.len() && #[trigger] p(i) implies exists|j: int|
        0 <= j < b.len() && #[trigger] q(j) && x_of(b)(j) == x_of(a)(i) by {
        let j = choose|j: int|
            0 <= j < b.len() && #[trigger] q(j) && x_of(b)(j) == x_of(a)(i) && y_of(b)(j) == y_of(
                a,
            )(i);
        assert(q(j));
    }
    assert forall|i: int| 0 <= i < a.len() && #[trigger] p(i) implies exists|j: int|
        0 <= j < b.len() && #[trigger] q(j) && y_of(b)(j) == y_of(a)(i) by {
        let j = choose|j: int|
            0 <= j < b.len() && #[trigger] q(j) && x_of(b)(j) == x_of(a)(i) && y_of(b)(j) == y_of(
                a,
            )(i);
        assert(q(j));
    }
}

proof fn boxes_agree(a: Seq<(IVec3, VehicleCell)>, b: Seq<(IVec3, VehicleCell)>)
    requires
        a.len() == b.len(),
        forall|c: (IVec3, VehicleCell)| #[trigger] a.contains(c) <==> b.contains(c),
    ensures
        bounding_box(a) == bounding_box(b),
{
    if a.len() == 0 {
        assert(a =~= b);
    } else {
        bounding_box_is_box(a);
        let (lo, hi) = bounding_box(a);
        assert forall|i: int| 0 <= i < a.len() implies exists|j: int|
            0 <= j < b.len() && #[trigger] b[j] == #[trigger] a[i] by {
            assert(a.contains(a[i]));
        }
        assert forall|j: int| 0 <= j < b.len() implies ({
            let p = (#[trigger] b[j]).0;
            lo.x <= p.x <= hi.x && lo.y <= p.y <= hi.y && lo.z <= p.z <= hi.z
        }) by {
            assert(b.contains(b[j]));
            assert(a.contains(b[j]));
        }
        assert(is_box(b, b.len() as int, lo, hi));
        box_is_unique(b, lo, hi);
    }
}

proof fn tiles_within(a: Seq<(IVec3, VehicleCell)>, b: Seq<(IVec3, VehicleCell)>)
    requires
        forall|c: (IVec3, VehicleCell)| #[trigger] a.contains(c) ==> b.contains(c),
    ensures
        forall|t: IVec2| #[trigger] xy_of(a).contains(t) ==> xy_of(b).contains(t),
{
    assert forall|t: IVec2| #[trigger] xy_of(a).contains(t) implies xy_of(b).contains(t) by {
        let i = choose|i: int| 0 <= i < xy_of(a).len() && xy_of(a)[i] == t;
        assert(a.contains(a[i]));
        let j = choose|j: int| 0 <= j < b.len() && b[j] == a[i];
        assert(xy_of(b)[j] == t);
    }
}

/// The order in which a body lists its cells makes no difference to its figures, and a body is
/// engine driven exactly when it has engine power.
pub proof fn order_of_cells_is_free(
    a: Seq<(IVec3, VehicleCell)>,
    b: Seq<(IVec3, VehicleCell)>,
    data: VehicleData,
    figure: spec_fn(VehicleCell) -> CellFigures,
)
    requires
        a.to_multiset() == b.to_multiset(),
    ensures
        stats_spec(a, data, figures_by(a, figure)) == stats_spec(b, data, figures_by(b, figure)),
        stats_spec(a, data, figures_by(a, figure)).is_engine_driven <==> stats_spec(
            a,
            data,
            figures_by(a, figure),
        ).engine_power > 0,
{
    let fa = figures_by(a, figure);
    let fb = figures_by(b, figure);
    let n = a.len() as int;
    let bay = VehiclePartKind::CargoBay;
    let engine = VehiclePartKind::Engine;
    elements_of_any_order(a, b);
    sums_of_any_order(
        a,
        b,
        |c: (IVec3, VehicleCell)| figure(c.1).mass_g as int,
        mass_of(fa),
        mass_of(fb),
    );
    sums_of_any_order(
        a,
        b,
        |c: (IVec3, VehicleCell)| figure(c.1).support_g as int,
        support_of(fa),
        support_of(fb),
    );
    sums_of_any_order(
        a,
        b,
        |c: (IVec3, VehicleCell)|
            if c.1.kind == bay {
                figure(c.1).cargo_g as int
            } else {
                0
            },
        cargo_g_of(a, fa),
        cargo_g_of(b, fb),
    );
    sums_of_any_order(
        a,
        b,
        |c: (IVec3, VehicleCell)|
            if c.1.kind == bay {
                figure(c.1).cargo_ml as int
            } else {
                0
            },
        cargo_ml_of(a, fa),
        cargo_ml_of(b, fb),
    );
    sums_of_any_order(
        a,
        b,
        |c: (IVec3, VehicleCell)|
            if c.1.kind == engine {
                figure(c.1).engine_g as int
            } else {
                0
            },
        engine_of(a, fa),
        engine_of(b, fb),
    );
    sums_of_any_order(
        a,
        b,
        |c: (IVec3, VehicleCell)| traction_of(seq![c], data)(0),
        traction_of(a, data),
        traction_of(b, data),
    );
    sums_of_any_order(
        a,
        b,
        |c: (IVec3, VehicleCell)| one_of_kind(seq![c], VehiclePartKind::Wheel)(0),
        one_of_kind(a, VehiclePartKind::Wheel),
        one_of_kind(b, VehiclePartKind::Wheel),
    );
    boxes_agree(a, b);
    let (lo, hi) = bounding_box(a);
    kinds_within(a, b, VehiclePartKind::Axle);
    kinds_within(b, a, VehiclePartKind::Axle);
    kinds_within(a, b, VehiclePartKind::Wheel);
    kinds_within(b, a, VehiclePartKind::Wheel);
    spreads_agree(
        n,
        is_kind(a, VehiclePartKind::Axle),
        y_of(a),
        n,
        is_kind(b, VehiclePartKind::Axle),
        y_of(b),
        hi.y - lo.y + 1,
    );
    spreads_agree(
        n,
        is_kind(a, VehiclePartKind::Wheel),
        x_of(a),
        n,
        is_kind(b, VehiclePartKind::Wheel),
        x_of(b),
        hi.x - lo.x + 1,
    );
    tiles_within(a, b);
    tiles_within(b, a);
    distinct_lengths_agree(xy_of(a), xy_of(b));
    let power = capped_sum(n, engine_of(a, fa), u32::MAX as int);
    sum_grows(0, n, engine_of(a, fa));
    assert(0 <= power <= u32::MAX);
}

/// The density of a material, 100 percent where it has no profile.
pub open spec fn density_spec(data: VehicleData, rid: ResourceId) -> int {
    match data.material_spec(rid) {
        Some(m) => m.density_pct as int,
        None => 100,
    }
}

/// The second body is the first with some cells of a kind remade in materials at least as dense.
pub open spec fn remade_denser(
    a: Seq<(IVec3, VehicleCell)>,
    b: Seq<(IVec3, VehicleCell)>,
    data: VehicleData,
    kind: VehiclePartKind,
) -> bool {
    &&& a.len() == b.len()
    &&& forall|i: int|
        0 <= i < a.len() ==> {
            let old_cell = (#[trigger] a[i]).1;
            let new_cell = b[i].1;
            ||| new_cell == old_cell
            ||| {
                &&& old_cell.kind == kind
                &&& new_cell.kind == kind
                &&& new_cell.variant == old_cell.variant
                &&& density_spec(data, old_cell.material) <= density_spec(data, new_cell.material)
            }
        }
}

/// Remaking cells, the wheels among them, in a denser material never makes a body lighter,
/// whatever its variants do to a cell's weight as long as they keep heavier cells heavier.
pub proof fn denser_cells_weigh_no_less(
    a: Seq<(IVec3, VehicleCell)>,
    b: Seq<(IVec3, VehicleCell)>,
    data: VehicleData,
    kind: VehiclePartKind,
    weigh: spec_fn(Option<VehiclePartVariantId>, u64) -> u32,
    before: Seq<CellFigures>,
    after: Seq<CellFigures>,
)
    requires
        remade_denser(a, b, data, kind),
        before.len() == a.len(),
        after.len() == b.len(),
        forall|v: Option<VehiclePartVariantId>, x: u64, y: u64|
            x <= y ==> #[trigger] weigh(v, x) <= #[trigger] weigh(v, y),
        forall|i: int|
            0 <= i < a.len() ==> (#[trigger] before[i]).mass_g == weigh(
                a[i].1.variant,
                base_figures_spec(a[i].1, data).mass_g,
            ),
        forall|i: int|
            0 <= i < b.len() ==> (#[trigger] after[i]).mass_g == weigh(
                b[i].1.variant,
                base_figures_spec(b[i].1, data).mass_g,
            ),
        sum(after.len() as int, mass_of(after)) <= u32::MAX,
    ensures
        empty_mass(before) <= empty_mass(after),
{
    let f = mass_of(before);
    let g = mass_of(after);
    assert forall|i: int| 0 <= i < a.len() implies #[trigger] f(i) <= g(i) by {
        assert(before[i].mass_g == weigh(
            a[i].1.variant,
            base_figures_spec(a[i].1, data).mass_g,
        ));
        assert(after[i].mass_g == weigh(
            b[i].1.variant,
            base_figures_spec(b[i].1, data).mass_g,
        ));
        denser_cell_weighs_no_less(a[i].1, b[i].1, data);
    }
    sum_at_most(a.len() as int, f, g);
    sum_grows(0, a.len() as int, f);
}

proof fn denser_cell_weighs_no_less(a: VehicleCell, b: VehicleCell, data: VehicleData)
    requires
        a.kind == b.kind,
        density_spec(data, a.material) <= density_spec(data, b.material),
    ensures
        base_figures_spec(a, data).mass_g <= base_figures_spec(b, data).mass_g,
{
    let base: int = match data.part_spec(a.kind) {
        Some(p) => p.base_mass_g as int,
        None => 2_000,
    };
    let da = density_spec(data, a.material);
    let db = density_spec(data, b.material);
    assert(0 <= base * da <= base * db <= 0xffff_ffff * 0xffff_ffff) by (nonlinear_arith)
        requires
            0 <= base <= 0xffff_ffff,
            0 <= da <= db <= 0xffff_ffff,
    ;
}

/// The same of bodies without variants: denser wheels never lower the empty mass.
pub proof fn denser_wheels_weigh_no_less(
    a: Seq<(IVec3, VehicleCell)>,
    b: Seq<(IVec3, VehicleCell)>,
    data: VehicleData,
)
    requires
        remade_denser(a, b, data, VehiclePartKind::Wheel),
        sum(b.len() as int, mass_of(plain_figures(b, data))) <= u32::MAX,
    ensures
        empty_mass(plain_figures(a, data)) <= empty_mass(plain_figures(b, data)),
{
    let weigh = |v: Option<VehiclePartVariantId>, x: u64| within_u32(single(x as nat) as int);
    assert forall|v: Option<VehiclePartVariantId>, x: u64, y: u64| x <= y implies #[trigger] weigh(
        v,
        x,
    ) <= #[trigger] weigh(v, y) by {
        single_precision_keeps_order(x as nat, y as nat);
    }
    denser_cells_weigh_no_less(
        a,
        b,
        data,
        VehiclePartKind::Wheel,
        weigh,
        plain_figures(a, data),
        plain_figures(b, data),
    );
}

/// What a cell is good for goes by its kind and material: mass is the part's mass by the density in
/// percent; support is the material's strength, times 2000 for an axle, 1500 for a track, 400 for a
/// wheel, 300 for a frame and nothing for the rest; only bays hold cargo and only engines drive.
pub proof fn figures_follow_kind_and_material(cell: VehicleCell, data: VehicleData)
    requires
        data.part_spec(cell.kind) is Some,
        data.material_spec(cell.material) is Some,
    ensures
        ({
            let p = data.part_spec(cell.kind)->0;
            let m = data.material_spec(cell.material)->0;
            let f = base_figures_spec(cell, data);
            let k = cell.kind;
            &&& 100 * f.mass_g <= p.base_mass_g * m.density_pct < 100 * (f.mass_g + 1)
            &&& k == VehiclePartKind::Axle ==> f.support_g == 2000 * m.strength
            &&& k == VehiclePartKind::Track ==> f.support_g == 1500 * m.strength
            &&& k == VehiclePartKind::Wheel ==> f.support_g == 400 * m.strength
            &&& k == VehiclePartKind::Frame ==> f.support_g == 300 * m.strength
            &&& k != VehiclePartKind::Axle && k != VehiclePartKind::Track && k
                != VehiclePartKind::Wheel && k != VehiclePartKind::Frame ==> f.support_g == 0
            &&& k == VehiclePartKind::CargoBay ==> f.cargo_g == p.cargo_volume_g && f.cargo_ml
                == p.cargo_volume_ml
            &&& k != VehiclePartKind::CargoBay ==> f.cargo_g == 0 && f.cargo_ml == 0
            &&& k == VehiclePartKind::Engine ==> f.engine_g == p.engine_power_g
            &&& k != VehiclePartKind::Engine ==> f.engine_g == 0
        }),
{
    let p = data.part_spec(cell.kind)->0;
    let m = data.material_spec(cell.material)->0;
    let x = p.base_mass_g * m.density_pct;
    assert(0 <= x <= 0xffff_ffff * 0xffff_ffff) by (nonlinear_arith)
        requires
            x == p.base_mass_g * m.density_pct,
            0 <= p.base_mass_g <= 0xffff_ffff,
            0 <= m.density_pct <= 0xffff_ffff,
    ;
    let s = m.strength as int;
    assert(s * 2000 == 2000 * s && s * 1500 == 1500 * s && s * 400 == 400 * s && s * 300 == 300 * s
        && s * 0 == 0);
}

/// A part that the catalog does not list weighs two kilograms of ordinary matter; a material that
/// it does not list is as dense as any and of strength thirty.
pub proof fn the_unlisted_are_ordinary(cell: VehicleCell, data: VehicleData)
    requires
        data.part_spec(cell.kind) is None,
        data.material_spec(cell.material) is None,
    ensures
        base_figures_spec(cell, data).mass_g == 2000,
        cell.kind == VehiclePartKind::Axle ==> base_figures_spec(cell, data).support_g == 60000,
        base_figures_spec(cell, data).cargo_g == 0 && base_figures_spec(cell, data).engine_g == 0,
{
}

/// Each further cell adds its own figures to the body's: its mass and support whatever it is, its
/// cargo only if it is a bay, its power only if it is an engine, its traction only if it is a
/// track; a wheel counts as one.
pub proof fn bodies_add_up_cell_by_cell(
    cells: Seq<(IVec3, VehicleCell)>,
    figures: Seq<CellFigures>,
    data: VehicleData,
    c: (IVec3, VehicleCell),
    f: CellFigures,
)
    requires
        cells.len() > 0,
        figures.len() == cells.len(),
        figures_fit(cells.push(c), figures.push(f)),
        sum(figures.len() as int + 1, mass_of(figures.push(f))) <= u32::MAX,
        sum(figures.len() as int + 1, support_of(figures.push(f))) <= u32::MAX,
        sum(cells.len() as int + 1, engine_of(cells.push(c), figures.push(f))) <= u32::MAX,
    ensures
        ({
            let a = stats_spec(cells, data, figures);
            let b = stats_spec(cells.push(c), data, figures.push(f));
            let kind = c.1.kind;
            &&& b.empty_mass_g == a.empty_mass_g + f.mass_g
            &&& b.support_g == a.support_g + f.support_g
            &&& b.max_cargo_volume_ml == a.max_cargo_volume_ml + (if kind
                == VehiclePartKind::CargoBay {
                f.cargo_ml as int
            } else {
                0
            })
            &&& b.engine_power == a.engine_power + (if kind == VehiclePartKind::Engine {
                f.engine_g as int
            } else {
                0
            })
            &&& b.wheel_count == a.wheel_count + (if kind == VehiclePartKind::Wheel {
                1int
            } else {
                0
            })
            &&& kind != VehiclePartKind::Track ==> b.track_traction_pct == a.track_traction_pct
            &&& b.is_engine_driven <==> b.engine_power > 0
            &&& b.loaded_mass_g == b.empty_mass_g + b.max_payload_g
            &&& b.support_g >= b.empty_mass_g ==> b.max_payload_g <= b.support_g - b.empty_mass_g
        }),
{
    let n = cells.len() as int;
    let cs = cells.push(c);
    let fs = figures.push(f);
    assert forall|i: int| 0 <= i < n implies cs[i] == cells[i] && fs[i] == figures[i] by {}
    assert(cs[n] == c && fs[n] == f);
    let m0 = mass_of(figures);
    let m1 = mass_of(fs);
    let s0 = support_of(figures);
    let s1 = support_of(fs);
    let g0 = cargo_g_of(cells, figures);
    let g1 = cargo_g_of(cs, fs);
    let v0 = cargo_ml_of(cells, figures);
    let v1 = cargo_ml_of(cs, fs);
    let e0 = engine_of(cells, figures);
    let e1 = engine_of(cs, fs);
    let t0 = traction_of(cells, data);
    let t1 = traction_of(cs, data);
    let w0 = one_of_kind(cells, VehiclePartKind::Wheel);
    let w1 = one_of_kind(cs, VehiclePartKind::Wheel);
    sum_agrees(n, m0, m1);
    sum_agrees(n, s0, s1);
    sum_agrees(n, g0, g1);
    sum_agrees(n, v0, v1);
    sum_agrees(n, e0, e1);
    sum_agrees(n, t0, t1);
    sum_agrees(n, w0, w1);
    sum_grows(0, n, m0);
    sum_grows(0, n, s0);
    sum_grows(0, n, g0);
    sum_grows(0, n, v0);
    sum_grows(0, n, e0);
    sum_grows(0, n, t0);
    wheels_are_few(cs, n + 1);
    wheels_are_few(cells, n);
    assert(g1(n) >= 0 && v1(n) >= 0);
    assert(sum(n + 1, v1) == sum(n, v1) + v1(n));
    assert(sum(n + 1, w1) == sum(n, w1) + w1(n));
}

proof fn wheels_are_few(cells: Seq<(IVec3, VehicleCell)>, n: int)
    requires
        0 <= n,
    ensures
        0 <= sum(n, one_of_kind(cells, VehiclePartKind::Wheel)) <= n,
    decreases n,
{
    if n > 0 {
        wheels_are_few(cells, n - 1);
    }
}

/// The wheelbase runs from the first axle row to the last, both counted, and the track from the
/// leftmost wheel to the rightmost; with all in one row they are as long and as wide as the body.
/// The height counts the lowest and the highest level.
pub proof fn bodies_are_measured_end_to_end(
    cells: Seq<(IVec3, VehicleCell)>,
    data: VehicleData,
    figures: Seq<CellFigures>,
    a: int,
    b: int,
    l: int,
    r: int,
)
    requires
        0 <= a < cells.len(),
        0 <= b < cells.len(),
        0 <= l < cells.len(),
        0 <= r < cells.len(),
        cells[a].1.kind == VehiclePartKind::Axle,
        cells[b].1.kind == VehiclePartKind::Axle,
        forall|i: int|
            0 <= i < cells.len() && (#[trigger] cells[i]).1.kind == VehiclePartKind::Axle
                ==> cells[a].0.y <= cells[i].0.y <= cells[b].0.y,
        cells[l].1.kind == VehiclePartKind::Wheel,
        cells[r].1.kind == VehiclePartKind::Wheel,
        forall|i: int|
            0 <= i < cells.len() && (#[trigger] cells[i]).1.kind == VehiclePartKind::Wheel
                ==> cells[l].0.x <= cells[i].0.x <= cells[r].0.x,
        box_fits(cells),
    ensures
        ({
            let s = stats_spec(cells, data, figures);
            let (lo, hi) = bounding_box(cells);
            &&& cells[a].0.y < cells[b].0.y ==> s.wheelbase == cells[b].0.y - cells[a].0.y + 1
            &&& cells[a].0.y == cells[b].0.y ==> s.wheelbase == hi.y - lo.y + 1
            &&& cells[l].0.x < cells[r].0.x ==> s.track_width == cells[r].0.x - cells[l].0.x + 1
            &&& cells[l].0.x == cells[r].0.x ==> s.track_width == hi.x - lo.x + 1
            &&& hi.z - lo.z < 255 ==> s.height_z == hi.z - lo.z + 1
        }),
{
    let n = cells.len() as int;
    bounding_box_is_box(cells);
    let (lo, hi) = bounding_box(cells);
    let axle = is_kind(cells, VehiclePartKind::Axle);
    let wheel = is_kind(cells, VehiclePartKind::Wheel);
    assert(axle(a) && axle(b) && wheel(l) && wheel(r));
    assert forall|i: int| 0 <= i < n && #[trigger] axle(i) implies cells[a].0.y <= y_of(cells)(i)
        <= cells[b].0.y by {
        assert(cells[i].1.kind == VehiclePartKind::Axle);
    }
    assert forall|i: int| 0 <= i < n && #[trigger] wheel(i) implies cells[l].0.x <= x_of(cells)(i)
        <= cells[r].0.x by {
        assert(cells[i].1.kind == VehiclePartKind::Wheel);
    }
    assert(is_range(n, axle, y_of(cells), cells[a].0.y as int, cells[b].0.y as int));
    assert(is_range(n, wheel, x_of(cells), cells[l].0.x as int, cells[r].0.x as int));
    spread_of_range(
        n,
        axle,
        y_of(cells),
        hi.y - lo.y + 1,
        cells[a].0.y as int,
        cells[b].0.y as int,
    );
    spread_of_range(
        n,
        wheel,
        x_of(cells),
        hi.x - lo.x + 1,
        cells[l].0.x as int,
        cells[r].0.x as int,
    );
    assert(lo.y <= cells[a].0.y && cells[b].0.y <= hi.y);
    assert(lo.x <= cells[l].0.x && cells[r].0.x <= hi.x);
}

/// A body is overloaded only when it weighs more than its gear supports, and always when the
/// difference shows in single precision.
pub proof fn overloading_is_weighing_too_much(figures: Seq<CellFigures>)
    requires
        sum(figures.len() as int, mass_of(figures)) <= u32::MAX,
        sum(figures.len() as int, support_of(figures)) <= u32::MAX,
        sum(figures.len() as int, support_of(figures)) >= 0,
        sum(figures.len() as int, mass_of(figures)) >= 0,
    ensures
        overloaded(figures) ==> sum(figures.len() as int, mass_of(figures)) > sum(
            figures.len() as int,
            support_of(figures),
        ),
        sum(figures.len() as int, mass_of(figures)) < 0x100_0000 && sum(
            figures.len() as int,
            mass_of(figures),
        ) > sum(figures.len() as int, support_of(figures)) ==> overloaded(figures),
{
    let m = sum(figures.len() as int, mass_of(figures));
    let s = sum(figures.len() as int, support_of(figures));
    if m <= s {
        single_precision_keeps_order(m as nat, s as nat);
    }
    if m < 0x100_0000 && m > s {
        assert(single(m as nat) == m) by {
            assert(spacing(m as nat) == 1);
        }
        assert(single(s as nat) == s) by {
            assert(spacing(s as nat) == 1);
        }
    }
}

/// Single precision gives the nearest number that it can hold, and of two as near the one with an
/// even last digit.
pub proof fn single_precision_is_the_nearest(n: nat)
    ensures
        spacing(n) > 0,
        single(n) % spacing(n) == 0,
        2 * (single(n) - n) <= spacing(n),
        2 * (n - single(n)) <= spacing(n),
        2 * (single(n) - n) == spacing(n) || 2 * (n - single(n)) == spacing(n) ==> (single(n)
            / spacing(n)) % 2 == 0,
        n < 0x100_0000 ==> single(n) == n,
{
    spacing_is_positive(n);
    let u = spacing(n) as int;
    let q = n as int / u;
    let r = n as int % u;
    assert(n == q * u + r && 0 <= r < u) by (nonlinear_arith)
        requires
            u > 0,
            q == n as int / u,
            r == n as int % u,
    ;
    assert((q + 1) * u == q * u + u) by (nonlinear_arith);
    assert((q * u) % u == 0 && ((q + 1) * u) % u == 0 && (q * u) / u == q && ((q + 1) * u) / u == q
        + 1) by (nonlinear_arith)
        requires
            u > 0,
    ;
    if n < 0x100_0000 {
        assert(u == 1);
        assert(r == 0);
    }
}

proof fn spacing_is_positive(n: nat)
    ensures
        spacing(n) > 0,
    decreases n,
{
    if n >= 0x100_0000 {
        spacing_is_positive(n / 2);
    }
}

} // verus!
