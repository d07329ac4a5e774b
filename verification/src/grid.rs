//! A vehicle body: a sparse set of cells over a bounded three-dimensional grid.

use vstd::prelude::*;
use crate::geometry::{larger, max, min, smaller, IVec3};
use crate::parts::{
    ResourceId, VehicleModuleDefId, VehicleModuleId, VehiclePartKind, VehiclePartVariantId,
};

verus! {

/// Greatest extent of a design grid.
pub const GRID_MAX_WIDTH: i32 = 10;

pub const GRID_MAX_DEPTH: i32 = 8;

pub const GRID_MAX_HEIGHT: i32 = 6;

/// One cell of a design.
#[derive(Clone, Copy, Debug, PartialEq, Eq, Structural)]
pub struct VehicleCell {
    pub kind: VehiclePartKind,
    pub material: ResourceId,
    pub durability: u16,
    pub variant: Option<VehiclePartVariantId>,
    pub module_id: Option<VehicleModuleId>,
}

impl VehicleCell {
    /// A cell without a variant that belongs to no module.
    pub fn plain(kind: VehiclePartKind, material: ResourceId, durability: u16) -> (c: VehicleCell)
        ensures
            c == (VehicleCell { kind, material, durability, variant: None, module_id: None }),
    {
        VehicleCell { kind, material, durability, variant: None, module_id: None }
    }
}

/// One placed weapon module.
#[derive(Debug)]
pub struct VehicleModuleInstance {
    pub id: VehicleModuleId,
    pub def: VehicleModuleDefId,
    pub cells: Vec<IVec3>,
    /// Heading offset added to the vehicle's heading.
    pub facing: u8,
}

/// A vehicle body.
#[derive(Debug)]
pub struct VehicleGrid {
    pub cells: Vec<(IVec3, VehicleCell)>,
    pub modules: Vec<VehicleModuleInstance>,
}

/// Some cell stands at `pos`.
pub open spec fn occupied(cells: Seq<(IVec3, VehicleCell)>, pos: IVec3) -> bool {
    exists|i: int| 0 <= i < cells.len() && (#[trigger] cells[i]).0 == pos
}

/// The cell with index `i` is the first one at `pos`.
pub open spec fn first_at(cells: Seq<(IVec3, VehicleCell)>, pos: IVec3, i: int) -> bool {
    &&& 0 <= i < cells.len()
    &&& cells[i].0 == pos
    &&& forall|j: int| 0 <= j < i ==> (#[trigger] cells[j]).0 != pos
}

/// The first cell at `pos`.
pub open spec fn cell_at(cells: Seq<(IVec3, VehicleCell)>, pos: IVec3) -> Option<VehicleCell> {
    if exists|i: int| first_at(cells, pos, i) {
        Some(cells[choose|i: int| first_at(cells, pos, i)].1)
    } else {
        None
    }
}

/// Knowing the index of the first cell at `pos` is knowing the cell.
pub proof fn cell_at_first(cells: Seq<(IVec3, VehicleCell)>, pos: IVec3, i: int)
    requires
        first_at(cells, pos, i),
    ensures
        cell_at(cells, pos) == Some(cells[i].1),
        occupied(cells, pos),
{
    let k = choose|k: int| first_at(cells, pos, k);
    assert(k == i) by {
        if k < i {
            assert(cells[k].0 != pos);
        } else if i < k {
            assert(cells[i].0 != pos);
        }
    }
}

/// A position holds a cell exactly when the lookup finds one.
pub proof fn occupied_has_cell(cells: Seq<(IVec3, VehicleCell)>, pos: IVec3)
    ensures
        occupied(cells, pos) <==> cell_at(cells, pos) is Some,
    decreases cells.len(),
{
    if occupied(cells, pos) {
        let i = choose|i: int| 0 <= i < cells.len() && (#[trigger] cells[i]).0 == pos;
        first_exists(cells, pos, i);
    }
}

proof fn first_exists(cells: Seq<(IVec3, VehicleCell)>, pos: IVec3, i: int)
    requires
        0 <= i < cells.len(),
        cells[i].0 == pos,
    ensures
        exists|k: int| first_at(cells, pos, k),
    decreases i,
{
    if forall|j: int| 0 <= j < i ==> (#[trigger] cells[j]).0 != pos {
        assert(first_at(cells, pos, i));
    } else {
        let j = choose|j: int| 0 <= j < i && (#[trigger] cells[j]).0 == pos;
        first_exists(cells, pos, j);
    }
}

/// `lo` and `hi` are the componentwise least and greatest of the first `n` positions.
pub open spec fn is_box(
    cells: Seq<(IVec3, VehicleCell)>,
    n: int,
    lo: IVec3,
    hi: IVec3,
) -> bool {
    &&& forall|i: int|
        0 <= i < n ==> {
            let p = (#[trigger] cells[i]).0;
            lo.x <= p.x <= hi.x && lo.y <= p.y <= hi.y && lo.z <= p.z <= hi.z
        }
    &&& exists|i: int| 0 <= i < n && (#[trigger] cells[i]).0.x == lo.x
    &&& exists|i: int| 0 <= i < n && (#[trigger] cells[i]).0.y == lo.y
    &&& exists|i: int| 0 <= i < n && (#[trigger] cells[i]).0.z == lo.z
    &&& exists|i: int| 0 <= i < n && (#[trigger] cells[i]).0.x == hi.x
    &&& exists|i: int| 0 <= i < n && (#[trigger] cells[i]).0.y == hi.y
    &&& exists|i: int| 0 <= i < n && (#[trigger] cells[i]).0.z == hi.z
}

/// The bounding box of a body.
pub open spec fn bounding_box(cells: Seq<(IVec3, VehicleCell)>) -> (IVec3, IVec3) {
    choose|b: (IVec3, IVec3)| #[trigger] is_box(cells, cells.len() as int, b.0, b.1)
}

/// A body has at most one bounding box.
pub proof fn box_is_unique(cells: Seq<(IVec3, VehicleCell)>, lo: IVec3, hi: IVec3)
    requires
        is_box(cells, cells.len() as int, lo, hi),
    ensures
        bounding_box(cells) == (lo, hi),
{
    let b = bounding_box(cells);
    assert(is_box(cells, cells.len() as int, (lo, hi).0, (lo, hi).1));
    assert(is_box(cells, cells.len() as int, b.0, b.1));
    assert(b.0.x == lo.x && b.0.y == lo.y && b.0.z == lo.z);
    assert(b.1.x == hi.x && b.1.y == hi.y && b.1.z == hi.z);
}

/// The bounding box of a body with cells is a box of it.
pub proof fn bounding_box_is_box(cells: Seq<(IVec3, VehicleCell)>)
    requires
        cells.len() > 0,
    ensures
        is_box(cells, cells.len() as int, bounding_box(cells).0, bounding_box(cells).1),
{
    box_exists(cells, cells.len() as int);
}

proof fn box_exists(cells: Seq<(IVec3, VehicleCell)>, n: int)
    requires
        1 <= n <= cells.len(),
    ensures
        exists|b: (IVec3, IVec3)| #[trigger] is_box(cells, n, b.0, b.1),
    decreases n,
{
    if n == 1 {
        let b = (cells[0].0, cells[0].0);
        assert(is_box(cells, 1, b.0, b.1));
    } else {
        box_exists(cells, n - 1);
        let b = choose|b: (IVec3, IVec3)| #[trigger] is_box(cells, n - 1, b.0, b.1);
        let p = cells[n - 1].0;
        let lo = IVec3 {
            x: min(b.0.x as int, p.x as int) as i32,
            y: min(b.0.y as int, p.y as int) as i32,
            z: min(b.0.z as int, p.z as int) as i32,
        };
        let hi = IVec3 {
            x: max(b.1.x as int, p.x as int) as i32,
            y: max(b.1.y as int, p.y as int) as i32,
            z: max(b.1.z as int, p.z as int) as i32,
        };
        box_grows(cells, n - 1, b.0, b.1, lo, hi);
        assert(is_box(cells, n, (lo, hi).0, (lo, hi).1));
    }
}

/// The cells that belong to no module with identity `id`.
pub open spec fn outside_module(id: VehicleModuleId) -> spec_fn((IVec3, VehicleCell)) -> bool {
    |c: (IVec3, VehicleCell)| c.1.module_id != Some(id)
}

/// The modules other than `id`.
pub open spec fn other_module(id: VehicleModuleId) -> spec_fn(VehicleModuleInstance) -> bool {
    |m: VehicleModuleInstance| m.id != id
}

/// The module with index `i` is the first with identity `id`.
pub open spec fn first_module(
    modules: Seq<VehicleModuleInstance>,
    id: VehicleModuleId,
    i: int,
) -> bool {
    &&& 0 <= i < modules.len()
    &&& modules[i].id == id
    &&& forall|j: int| 0 <= j < i ==> (#[trigger] modules[j]).id != id
}

/// The cell at `pos` belongs to the module with index `i`.
pub open spec fn names_module(grid: VehicleGrid, pos: IVec3, i: int) -> bool {
    match cell_at(grid.cells@, pos) {
        Some(c) => match c.module_id {
            Some(id) => first_module(grid.modules@, id, i),
            None => false,
        },
        None => false,
    }
}

/// No module has the identity `n`.
pub open spec fn id_is_free(modules: Seq<VehicleModuleInstance>, n: u16) -> bool {
    forall|i: int| 0 <= i < modules.len() ==> (#[trigger] modules[i]).id.0 != n
}

impl VehicleGrid {
    pub fn is_empty(&self) -> (b: bool)
        ensures
            b == (self.cells@.len() == 0),
    {
        self.cells.len() == 0
    }

    /// The index of the first cell at `pos`.
    pub fn index_of(&self, pos: IVec3) -> (r: Option<usize>)
        ensures
            match r {
                Some(i) => first_at(self.cells@, pos, i as int),
                None => !occupied(self.cells@, pos),
            },
    {
        let mut i: usize = 0;
        while i < self.cells.len()
            invariant
                i <= self.cells.len(),
                forall|j: int| 0 <= j < i ==> (#[trigger] self.cells@[j]).0 != pos,
            decreases self.cells.len() - i,
        {
            if self.cells[i].0 == pos {
                return Some(i);
            }
            i += 1;
        }
        None
    }

    /// The first cell at `pos`.
    pub fn get(&self, pos: IVec3) -> (r: Option<&VehicleCell>)
        ensures
            match r {
                Some(c) => cell_at(self.cells@, pos) == Some(*c),
                None => cell_at(self.cells@, pos) is None,
            },
            r is Some <==> occupied(self.cells@, pos),
    {
        match self.index_of(pos) {
            Some(i) => {
                proof {
                    cell_at_first(self.cells@, pos, i as int);
                }
                Some(&self.cells[i].1)
            },
            None => {
                proof {
                    occupied_has_cell(self.cells@, pos);
                }
                None
            },
        }
    }

    pub fn contains(&self, pos: IVec3) -> (b: bool)
        ensures
            b == occupied(self.cells@, pos),
    {
        self.index_of(pos).is_some()
    }

    /// The first module instance named by the cell at `pos`.
    pub fn module_at(&self, pos: IVec3) -> (r: Option<&VehicleModuleInstance>)
        ensures
            match r {
                Some(m) => exists|i: int| #[trigger]
                    names_module(*self, pos, i) && *m == self.modules@[i],
                None => forall|i: int| !names_module(*self, pos, i),
            },
    {
        match self.get(pos) {
            None => None,
            Some(c) => match c.module_id {
                None => None,
                Some(id) => {
                    let mut i: usize = 0;
                    while i < self.modules.len()
                        invariant
                            i <= self.modules.len(),
                            forall|j: int| 0 <= j < i ==> (#[trigger] self.modules@[j]).id != id,
                            cell_at(self.cells@, pos) == Some(*c),
                            c.module_id == Some(id),
                        decreases self.modules.len() - i,
                    {
                        if self.modules[i].id == id {
                            assert(names_module(*self, pos, i as int));
                            return Some(&self.modules[i]);
                        }
                        i += 1;
                    }
                    None
                },
            },
        }
    }

    /// A module identity that is not in use: one more than the greatest in use, 0 without modules,
    /// and the least free one where there is none beyond the greatest.
    pub fn next_module_id(&self) -> (id: VehicleModuleId)
        requires
            exists|n: u16| #[trigger] id_is_free(self.modules@, n),
        ensures
            id_is_free(self.modules@, id.0),
            self.modules@.len() == 0 ==> id.0 == 0,
            self.modules@.len() > 0 && id_is_free(self.modules@, u16::MAX) ==> {
                &&& exists|i: int|
                    0 <= i < self.modules@.len() && (#[trigger] self.modules@[i]).id.0 + 1 == id.0
                &&& forall|i: int|
                    0 <= i < self.modules@.len() ==> (#[trigger] self.modules@[i]).id.0 < id.0
            },
            !id_is_free(self.modules@, u16::MAX) ==> forall|n: u16|
                n < id.0 ==> !#[trigger] id_is_free(self.modules@, n),
    {
        if self.uses_id(u16::MAX) {
            let mut n: u16 = 0;
            while self.uses_id(n)
                invariant
                    exists|k: u16| k >= n && #[trigger] id_is_free(self.modules@, k),
                    forall|k: u16| k < n ==> !#[trigger] id_is_free(self.modules@, k),
                ensures
                    id_is_free(self.modules@, n),
                    forall|k: u16| k < n ==> !#[trigger] id_is_free(self.modules@, k),
                decreases u16::MAX - n,
            {
                assert(!id_is_free(self.modules@, n));
                let ghost k = choose|k: u16| k >= n && #[trigger] id_is_free(self.modules@, k);
                assert(k > n);
                n += 1;
            }
            return VehicleModuleId(n);
        }
        let mut next: u16 = 0;
        let mut i: usize = 0;
        while i < self.modules.len()
            invariant
                i <= self.modules.len(),
                id_is_free(self.modules@, u16::MAX),
                i == 0 ==> next == 0,
                i > 0 ==> exists|j: int|
                    0 <= j < i && (#[trigger] self.modules@[j]).id.0 + 1 == next,
                forall|j: int| 0 <= j < i ==> (#[trigger] self.modules@[j]).id.0 < next,
            decreases self.modules.len() - i,
        {
            if self.modules[i].id.0 >= next {
                assert(self.modules@[i as int].id.0 != u16::MAX);
                next = self.modules[i].id.0 + 1;
            }
            i += 1;
        }
        VehicleModuleId(next)
    }

    fn uses_id(&self, n: u16) -> (b: bool)
        ensures
            b == !id_is_free(self.modules@, n),
    {
        let mut i: usize = 0;
        while i < self.modules.len()
            invariant
                i <= self.modules.len(),
                forall|j: int| 0 <= j < i ==> (#[trigger] self.modules@[j]).id.0 != n,
            decreases self.modules.len() - i,
        {
            if self.modules[i].id.0 == n {
                assert(self.modules@[i as int].id.0 == n);
                return true;
            }
            i += 1;
        }
        false
    }

    /// Removes a module instance and every cell that it owns.
    pub fn remove_module(&mut self, id: VehicleModuleId)
        ensures
            final(self).cells@ == old(self).cells@.filter(outside_module(id)),
            final(self).modules@ == old(self).modules@.filter(other_module(id)),
    {
        let ghost cells = self.cells@;
        let ghost keep = outside_module(id);
        let mut i: usize = self.cells.len();
        assert(cells.skip(i as int).filter(keep) =~= Seq::empty()) by {
            reveal(Seq::filter);
        }
        assert(self.cells@ =~= cells.take(i as int) + cells.skip(i as int).filter(keep));
        while i > 0
            invariant
                i <= cells.len(),
                keep == outside_module(id),
                self.cells@ == cells.take(i as int) + cells.skip(i as int).filter(keep),
                self.modules@ == old(self).modules@,
            decreases i,
        {
            i -= 1;
            proof {
                assert(cells.skip(i as int) =~= seq![cells[i as int]] + cells.skip(i + 1));
                filter_prepend(cells[i as int], cells.skip(i + 1), keep);
            }
            if self.cells[i].1.module_id == Some(id) {
                self.cells.remove(i);
            }
            assert(self.cells@ =~= cells.take(i as int) + cells.skip(i as int).filter(keep));
        }
        assert(cells.skip(0) =~= cells);
        let ghost modules = self.modules@;
        let ghost others = other_module(id);
        let mut k: usize = self.modules.len();
        assert(modules.skip(k as int).filter(others) =~= Seq::empty()) by {
            reveal(Seq::filter);
        }
        assert(self.modules@ =~= modules.take(k as int) + modules.skip(k as int).filter(others));
        while k > 0
            invariant
                k <= modules.len(),
                others == other_module(id),
                self.modules@ == modules.take(k as int) + modules.skip(k as int).filter(others),
                self.cells@ == old(self).cells@.filter(outside_module(id)),
            decreases k,
        {
            k -= 1;
            proof {
                assert(modules.skip(k as int) =~= seq![modules[k as int]] + modules.skip(k + 1));
                filter_prepend(modules[k as int], modules.skip(k + 1), others);
            }
            if self.modules[k].id == id {
                self.modules.remove(k);
            }
            assert(self.modules@ =~= modules.take(k as int) + modules.skip(k as int).filter(
                others,
            ));
        }
        assert(modules.skip(0) =~= modules);
    }

    /// The least and greatest coordinates of the body, or `None` when there are no cells.
    pub fn bounds(&self) -> (r: Option<(IVec3, IVec3)>)
        ensures
            r is None <==> self.cells@.len() == 0,
            r matches Some(b) ==> is_box(self.cells@, self.cells@.len() as int, b.0, b.1)
                && bounding_box(self.cells@) == b,
    {
        if self.cells.len() == 0 {
            return None;
        }
        let mut lo = self.cells[0].0;
        let mut hi = self.cells[0].0;
        let mut i: usize = 1;
        assert(self.cells@[0].0 == lo);
        while i < self.cells.len()
            invariant
                1 <= i <= self.cells.len(),
                is_box(self.cells@, i as int, lo, hi),
            decreases self.cells.len() - i,
        {
            let p = self.cells[i].0;
            let ghost old_lo = lo;
            let ghost old_hi = hi;
            lo = IVec3 { x: smaller(lo.x, p.x), y: smaller(lo.y, p.y), z: smaller(lo.z, p.z) };
            hi = IVec3 { x: larger(hi.x, p.x), y: larger(hi.y, p.y), z: larger(hi.z, p.z) };
            proof {
                box_grows(self.cells@, i as int, old_lo, old_hi, lo, hi);
            }
            i += 1;
        }
        proof {
            box_is_unique(self.cells@, lo, hi);
        }
        Some((lo, hi))
    }
}

proof fn filter_prepend<A>(a: A, s: Seq<A>, keep: spec_fn(A) -> bool)
    ensures
        (seq![a] + s).filter(keep) == (if keep(a) {
            seq![a] + s.filter(keep)
        } else {
            s.filter(keep)
        }),
    decreases s.len(),
{
    reveal(Seq::filter);
    if s.len() == 0 {
        assert(seq![a] + s =~= seq![a]);
        assert(seq![a].drop_last() =~= Seq::<A>::empty());
        assert(Seq::<A>::empty().filter(keep) =~= Seq::<A>::empty());
        assert(seq![a].filter(keep) =~= if keep(a) {
            seq![a]
        } else {
            Seq::<A>::empty()
        });
    } else {
        filter_prepend(a, s.drop_last(), keep);
        assert((seq![a] + s).drop_last() =~= seq![a] + s.drop_last());
        assert((seq![a] + s).last() == s.last());
        if keep(s.last()) {
            assert((seq![a] + s.drop_last().filter(keep)).push(s.last()) =~= seq![a]
                + s.drop_last().filter(keep).push(s.last()));
        }
    }
}

proof fn box_grows(
    cells: Seq<(IVec3, VehicleCell)>,
    i: int,
    lo: IVec3,
    hi: IVec3,
    new_lo: IVec3,
    new_hi: IVec3,
)
    requires
        1 <= i < cells.len(),
        is_box(cells, i, lo, hi),
        new_lo.x == min(lo.x as int, cells[i].0.x as int),
        new_lo.y == min(lo.y as int, cells[i].0.y as int),
        new_lo.z == min(lo.z as int, cells[i].0.z as int),
        new_hi.x == max(hi.x as int, cells[i].0.x as int),
        new_hi.y == max(hi.y as int, cells[i].0.y as int),
        new_hi.z == max(hi.z as int, cells[i].0.z as int),
    ensures
        is_box(cells, i + 1, new_lo, new_hi),
{
    let lx = choose|j: int| 0 <= j < i && (#[trigger] cells[j]).0.x == lo.x;
    let ly = choose|j: int| 0 <= j < i && (#[trigger] cells[j]).0.y == lo.y;
    let lz = choose|j: int| 0 <= j < i && (#[trigger] cells[j]).0.z == lo.z;
    let hx = choose|j: int| 0 <= j < i && (#[trigger] cells[j]).0.x == hi.x;
    let hy = choose|j: int| 0 <= j < i && (#[trigger] cells[j]).0.y == hi.y;
    let hz = choose|j: int| 0 <= j < i && (#[trigger] cells[j]).0.z == hi.z;
    assert(cells[lx].0.x == new_lo.x || cells[i].0.x == new_lo.x);
    assert(cells[ly].0.y == new_lo.y || cells[i].0.y == new_lo.y);
    assert(cells[lz].0.z == new_lo.z || cells[i].0.z == new_lo.z);
    assert(cells[hx].0.x == new_hi.x || cells[i].0.x == new_hi.x);
    assert(cells[hy].0.y == new_hi.y || cells[i].0.y == new_hi.y);
    assert(cells[hz].0.z == new_hi.z || cells[i].0.z == new_hi.z);
}

/// A removed module is gone: no cell names it and no instance has its identity. Every cell that
/// did not belong to it stays.
pub proof fn removal_leaves_no_trace(
    cells: Seq<(IVec3, VehicleCell)>,
    modules: Seq<VehicleModuleInstance>,
    id: VehicleModuleId,
)
    ensures
        forall|i: int|
            0 <= i < cells.filter(outside_module(id)).len() ==> (#[trigger] cells.filter(
                outside_module(id),
            )[i]).1.module_id != Some(id),
        forall|i: int|
            0 <= i < modules.filter(other_module(id)).len() ==> (#[trigger] modules.filter(
                other_module(id),
            )[i]).id != id,
        forall|c: (IVec3, VehicleCell)|
            cells.contains(c) && c.1.module_id != Some(id) ==> #[trigger] cells.filter(
                outside_module(id),
            ).contains(c),
{
    broadcast use vstd::seq_lib::group_filter_ensures;

    assert forall|c: (IVec3, VehicleCell)|
        cells.contains(c) && c.1.module_id != Some(id) implies #[trigger] cells.filter(
        outside_module(id),
    ).contains(c) by {
        let i = choose|i: int| 0 <= i < cells.len() && cells[i] == c;
        assert(outside_module(id)(cells[i]));
    }
}

} // verus!
