//! Designs and the registry that holds them.

use vstd::prelude::*;
use crate::catalog::VehicleData;
use crate::grid::VehicleGrid;
use crate::parts::{TechId, VehicleDesignId, VehiclePurpose};
use crate::text::same_text;
use crate::seqs::{find, find_is_first, find_is_none, first_where};
use crate::stats::CellFigures;
use crate::validate::{grid_errors, grid_interior, validate_grid, DesignError};

verus! {

/// A stored design.
#[derive(Debug)]
pub struct VehicleDesign {
    pub id: VehicleDesignId,
    pub name: String,
    pub grid: VehicleGrid,
    pub allowed_purpose: VehiclePurpose,
    pub required_animals: u8,
    pub tech_gates: Vec<TechId>,
    /// The faction that made the design; `None` for stock templates.
    pub author_faction: Option<u32>,
    /// The design was read from a saved file.
    pub from_user_file: bool,
    pub revision: u16,
}

/// All known designs, in the order in which they were added.
#[derive(Debug)]
pub struct VehicleDesignRegistry {
    pub designs: Vec<VehicleDesign>,
    pub next_id: u32,
}

pub open spec fn with_id(id: VehicleDesignId) -> spec_fn(VehicleDesign) -> bool {
    |d: VehicleDesign| d.id == id
}

pub open spec fn with_name(name: Seq<char>) -> spec_fn(VehicleDesign) -> bool {
    |d: VehicleDesign| d.name@ == name
}

/// A design under a new identity.
pub open spec fn renumbered(d: VehicleDesign, id: VehicleDesignId) -> VehicleDesign {
    VehicleDesign { id, ..d }
}

impl VehicleDesignRegistry {
    /// Identities are handed out once: each is below the next one, and no two are equal.
    pub open spec fn wf(self) -> bool {
        &&& forall|i: int|
            0 <= i < self.designs@.len() ==> (#[trigger] self.designs@[i]).id.0 < self.next_id
        &&& forall|i: int, j: int|
            0 <= i < j < self.designs@.len() ==> (#[trigger] self.designs@[i]).id.0 < (
            #[trigger] self.designs@[j]).id.0
    }

    /// The design with an identity.
    pub open spec fn lookup(self, id: VehicleDesignId) -> Option<VehicleDesign> {
        find(self.designs@, with_id(id))
    }

    /// A registry without designs.
    pub fn new() -> (r: VehicleDesignRegistry)
        ensures
            r.wf(),
            r.designs@.len() == 0,
            r.next_id == 0,
    {
        VehicleDesignRegistry { designs: Vec::new(), next_id: 0 }
    }

    pub fn get(&self, id: VehicleDesignId) -> (r: Option<&VehicleDesign>)
        ensures
            match r {
                Some(d) => self.lookup(id) == Some(*d),
                None => self.lookup(id) is None,
            },
    {
        let ghost p = with_id(id);
        let mut i: usize = 0;
        while i < self.designs.len()
            invariant
                i <= self.designs.len(),
                p == with_id(id),
                forall|j: int| 0 <= j < i ==> !p(#[trigger] self.designs@[j]),
            decreases self.designs.len() - i,
        {
            if self.designs[i].id == id {
                proof {
                    find_is_first(self.designs@, p, i as int);
                }
                return Some(&self.designs[i]);
            }
            i += 1;
        }
        proof {
            find_is_none(self.designs@, p);
        }
        None
    }

    /// The first design with a name.
    pub fn by_name(&self, name: &str) -> (r: Option<&VehicleDesign>)
        ensures
            match r {
                Some(d) => find(self.designs@, with_name(name@)) == Some(*d),
                None => find(self.designs@, with_name(name@)) is None,
            },
    {
        let ghost p = with_name(name@);
        let mut i: usize = 0;
        while i < self.designs.len()
            invariant
                i <= self.designs.len(),
                p == with_name(name@),
                forall|j: int| 0 <= j < i ==> !p(#[trigger] self.designs@[j]),
            decreases self.designs.len() - i,
        {
            if same_text(self.designs[i].name.as_str(), name) {
                proof {
                    find_is_first(self.designs@, p, i as int);
                }
                return Some(&self.designs[i]);
            }
            i += 1;
        }
        proof {
            find_is_none(self.designs@, p);
        }
        None
    }

    /// All designs, in the order in which they were added.
    pub fn iter(&self) -> (all: &[VehicleDesign])
        ensures
            all@ == self.designs@,
    {
        self.designs.as_slice()
    }

    pub fn len(&self) -> (n: usize)
        ensures
            n == self.designs@.len(),
    {
        self.designs.len()
    }

    pub fn is_empty(&self) -> (b: bool)
        ensures
            b == (self.designs@.len() == 0),
    {
        self.designs.len() == 0
    }

    /// Adds a design under a fresh identity and returns that identity.
    pub fn insert(&mut self, design: VehicleDesign) -> (id: VehicleDesignId)
        requires
            old(self).next_id < u32::MAX,
        ensures
            id.0 == old(self).next_id,
            final(self).next_id == old(self).next_id + 1,
            final(self).designs@ == old(self).designs@.push(renumbered(design, id)),
            old(self).wf() ==> final(self).wf(),
    {
        let id = VehicleDesignId(self.next_id);
        self.next_id = self.next_id + 1;
        let mut design = design;
        design.id = id;
        self.designs.push(design);
        id
    }
}

/// A design that was added is found under its identity, and every design that was found before
/// is found as before.
pub proof fn added_designs_are_found(r: VehicleDesignRegistry, d: VehicleDesign, other: VehicleDesignId)
    requires
        r.wf(),
    ensures
        ({
            let id = VehicleDesignId(r.next_id);
            let after = r.designs@.push(renumbered(d, id));
            &&& r.lookup(id) is None
            &&& find(after, with_id(id)) == Some(renumbered(d, id))
            &&& other != id ==> find(after, with_id(other)) == r.lookup(other)
        }),
{
    let id = VehicleDesignId(r.next_id);
    let s = r.designs@;
    let after = s.push(renumbered(d, id));
    find_is_none(s, with_id(id));
    assert(first_where(after, with_id(id), s.len() as int));
    find_is_first(after, with_id(id), s.len() as int);
    if other != id {
        find_is_none(s, with_id(other));
        find_is_none(after, with_id(other));
        if r.lookup(other) is Some {
            let i = choose|i: int| first_where(s, with_id(other), i);
            assert(first_where(s, with_id(other), i)) by {
                if !(exists|i: int| first_where(s, with_id(other), i)) {
                    assert(r.lookup(other) is None);
                }
            }
            assert(first_where(after, with_id(other), i)) by {
                assert forall|j: int| 0 <= j < i implies !with_id(other)(#[trigger] after[j]) by {
                    assert(after[j] == s[j]);
                }
            }
            find_is_first(after, with_id(other), i);
            find_is_first(s, with_id(other), i);
        } else {
            assert forall|i: int| 0 <= i < after.len() implies !with_id(other)(
                #[trigger] after[i],
            ) by {
                if i < s.len() {
                    assert(after[i] == s[i]);
                    assert(!with_id(other)(s[i]));
                }
            }
        }
    }
}

/// Validates a stored design.
pub fn validate_design(
    design: &VehicleDesign,
    data: &VehicleData,
    figures: &Vec<CellFigures>,
    engine_too_weak: bool,
) -> (r: Result<(), Vec<DesignError>>)
    requires
        grid_interior(design.grid),
        figures@.len() <= u32::MAX,
    ensures
        match r {
            Ok(_) => grid_errors(
                design.grid,
                design.allowed_purpose,
                design.required_animals,
                *data,
                figures@,
                engine_too_weak,
            ).len() == 0,
            Err(e) => e@.len() > 0 && e@ == grid_errors(
                design.grid,
                design.allowed_purpose,
                design.required_animals,
                *data,
                figures@,
                engine_too_weak,
            ),
        },
{
    validate_grid(
        &design.grid,
        design.allowed_purpose,
        design.required_animals,
        data,
        figures,
        engine_too_weak,
    )
}

} // verus!
