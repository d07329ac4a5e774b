//! The vehicle catalog: materials, parts, part variants and weapon modules.

use vstd::prelude::*;
use crate::geometry::{IVec2, IVec3};
use crate::parts::{
    FiringArc, ResourceId, TechId, VehicleModuleDefId, VehiclePartKind, VehiclePartVariantId,
};
use crate::text::same_text;
use crate::seqs::{collect, find, find_is_first, find_is_none};

verus! {

/// Physical inputs of one cell material.
#[derive(Clone, Copy, Debug, PartialEq, Eq, Structural)]
pub struct MaterialProfile {
    pub resource: ResourceId,
    pub density_pct: u32,
    pub strength: u16,
    pub friction: u16,
    pub traction: u16,
    pub durability: u16,
}

/// Structural inputs of one part kind.
#[derive(Debug)]
pub struct PartDef {
    pub kind: VehiclePartKind,
    pub base_mass_g: u32,
    pub cargo_volume_g: u32,
    pub cargo_volume_ml: u32,
    pub crew_capacity: u8,
    pub tech_gates: Vec<TechId>,
    pub engine_power_g: u32,
    pub traction_pct: u32,
    pub mounted_weapon_range: u8,
    pub mounted_weapon_damage: u8,
}

/// A behavioural identity for a part kind. Its multipliers are applied where cell figures are
/// made.
#[derive(Debug)]
pub struct PartVariantDef {
    pub id: VehiclePartVariantId,
    pub label: String,
    pub description: String,
    pub part_kind: VehiclePartKind,
    pub tech_gates: Vec<TechId>,
}

/// A weapon module: several cells that fire or strike as one.
#[derive(Debug)]
pub struct VehicleModuleDef {
    pub id: VehicleModuleDefId,
    pub label: String,
    pub description: String,
    pub part_kind: VehiclePartKind,
    pub footprint: Vec<IVec3>,
    pub allowed_rotations: Vec<u8>,
    pub muzzle_offset: IVec2,
    pub crew_required: u8,
    pub gunner_required: u8,
    pub firing_arc: FiringArc,
    pub range: u8,
    pub damage: u8,
    pub siege_damage: u8,
    pub cooldown_ticks: u64,
    pub required_support: u8,
    pub tech_gates: Vec<TechId>,
    pub extra_bill: Vec<(ResourceId, u32)>,
}

/// The loaded catalog.
#[derive(Debug)]
pub struct VehicleData {
    pub materials: Vec<MaterialProfile>,
    pub parts: Vec<PartDef>,
    pub variants: Vec<PartVariantDef>,
    pub modules: Vec<VehicleModuleDef>,
    /// The catalog's wood: what a fresh cell is made of.
    pub wood: ResourceId,
}

pub open spec fn made_of(rid: ResourceId) -> spec_fn(MaterialProfile) -> bool {
    |m: MaterialProfile| m.resource == rid
}

pub open spec fn of_kind(kind: VehiclePartKind) -> spec_fn(PartDef) -> bool {
    |p: PartDef| p.kind == kind
}

pub open spec fn variant_labelled(label: Seq<char>) -> spec_fn(PartVariantDef) -> bool {
    |v: PartVariantDef| v.label@ == label
}

pub open spec fn module_labelled(label: Seq<char>) -> spec_fn(VehicleModuleDef) -> bool {
    |m: VehicleModuleDef| m.label@ == label
}

impl VehicleData {
    /// The first profile of a material.
    pub open spec fn material_spec(self, rid: ResourceId) -> Option<MaterialProfile> {
        find(self.materials@, made_of(rid))
    }

    /// The first definition of a part kind.
    pub open spec fn part_spec(self, kind: VehiclePartKind) -> Option<PartDef> {
        find(self.parts@, of_kind(kind))
    }

    /// The variant with index `id`.
    pub open spec fn variant_spec(self, id: VehiclePartVariantId) -> Option<PartVariantDef> {
        if id.0 < self.variants@.len() {
            Some(self.variants@[id.0 as int])
        } else {
            None
        }
    }

    /// The module definition with index `id`.
    pub open spec fn module_spec(self, id: VehicleModuleDefId) -> Option<VehicleModuleDef> {
        if id.0 < self.modules@.len() {
            Some(self.modules@[id.0 as int])
        } else {
            None
        }
    }

    pub fn material(&self, rid: ResourceId) -> (r: Option<&MaterialProfile>)
        ensures
            match r {
                Some(m) => self.material_spec(rid) == Some(*m),
                None => self.material_spec(rid) is None,
            },
    {
        let ghost p = made_of(rid);
        let mut i: usize = 0;
        while i < self.materials.len()
            invariant
                i <= self.materials.len(),
                p == made_of(rid),
                forall|j: int| 0 <= j < i ==> !p(#[trigger] self.materials@[j]),
            decreases self.materials.len() - i,
        {
            if self.materials[i].resource == rid {
                proof {
                    find_is_first(self.materials@, p, i as int);
                }
                return Some(&self.materials[i]);
            }
            i += 1;
        }
        proof {
            find_is_none(self.materials@, p);
        }
        None
    }

    pub fn part(&self, kind: VehiclePartKind) -> (r: Option<&PartDef>)
        ensures
            match r {
                Some(p) => self.part_spec(kind) == Some(*p),
                None => self.part_spec(kind) is None,
            },
    {
        let ghost p = of_kind(kind);
        let mut i: usize = 0;
        while i < self.parts.len()
            invariant
                i <= self.parts.len(),
                p == of_kind(kind),
                forall|j: int| 0 <= j < i ==> !p(#[trigger] self.parts@[j]),
            decreases self.parts.len() - i,
        {
            if self.parts[i].kind == kind {
                proof {
                    find_is_first(self.parts@, p, i as int);
                }
                return Some(&self.parts[i]);
            }
            i += 1;
        }
        proof {
            find_is_none(self.parts@, p);
        }
        None
    }

    /// What a fresh cell is made of.
    pub fn default_material(&self) -> (rid: ResourceId)
        ensures
            rid == self.wood,
    {
        self.wood
    }

    pub fn material_count(&self) -> (n: usize)
        ensures
            n == self.materials@.len(),
    {
        self.materials.len()
    }

    pub fn materials(&self) -> (s: &[MaterialProfile])
        ensures
            s@ == self.materials@,
    {
        self.materials.as_slice()
    }

    pub fn parts(&self) -> (s: &[PartDef])
        ensures
            s@ == self.parts@,
    {
        self.parts.as_slice()
    }

    pub fn variants(&self) -> (s: &[PartVariantDef])
        ensures
            s@ == self.variants@,
    {
        self.variants.as_slice()
    }

    pub fn modules(&self) -> (s: &[VehicleModuleDef])
        ensures
            s@ == self.modules@,
    {
        self.modules.as_slice()
    }

    pub fn variant(&self, id: VehiclePartVariantId) -> (r: Option<&PartVariantDef>)
        ensures
            match r {
                Some(v) => self.variant_spec(id) == Some(*v),
                None => self.variant_spec(id) is None,
            },
    {
        let i: usize = id.0 as usize;
        if i < self.variants.len() {
            Some(&self.variants[i])
        } else {
            None
        }
    }

    pub fn module_def(&self, id: VehicleModuleDefId) -> (r: Option<&VehicleModuleDef>)
        ensures
            match r {
                Some(m) => self.module_spec(id) == Some(*m),
                None => self.module_spec(id) is None,
            },
    {
        let i: usize = id.0 as usize;
        if i < self.modules.len() {
            Some(&self.modules[i])
        } else {
            None
        }
    }

    /// The first variant with a label.
    pub fn variant_by_label(&self, label: &str) -> (r: Option<&PartVariantDef>)
        ensures
            match r {
                Some(v) => find(self.variants@, variant_labelled(label@)) == Some(*v),
                None => find(self.variants@, variant_labelled(label@)) is None,
            },
    {
        let ghost p = variant_labelled(label@);
        let mut i: usize = 0;
        while i < self.variants.len()
            invariant
                i <= self.variants.len(),
                p == variant_labelled(label@),
                forall|j: int| 0 <= j < i ==> !p(#[trigger] self.variants@[j]),
            decreases self.variants.len() - i,
        {
            if same_text(self.variants[i].label.as_str(), label) {
                proof {
                    find_is_first(self.variants@, p, i as int);
                }
                return Some(&self.variants[i]);
            }
            i += 1;
        }
        proof {
            find_is_none(self.variants@, p);
        }
        None
    }

    /// The first module definition with a label.
    pub fn module_by_label(&self, label: &str) -> (r: Option<&VehicleModuleDef>)
        ensures
            match r {
                Some(m) => find(self.modules@, module_labelled(label@)) == Some(*m),
                None => find(self.modules@, module_labelled(label@)) is None,
            },
    {
        let ghost p = module_labelled(label@);
        let mut i: usize = 0;
        while i < self.modules.len()
            invariant
                i <= self.modules.len(),
                p == module_labelled(label@),
                forall|j: int| 0 <= j < i ==> !p(#[trigger] self.modules@[j]),
            decreases self.modules.len() - i,
        {
            if same_text(self.modules[i].label.as_str(), label) {
                proof {
                    find_is_first(self.modules@, p, i as int);
                }
                return Some(&self.modules[i]);
            }
            i += 1;
        }
        proof {
            find_is_none(self.modules@, p);
        }
        None
    }

    /// The variants of one part kind, in catalog order.
    pub fn variants_for(&self, kind: VehiclePartKind) -> (list: Vec<&PartVariantDef>)
        ensures
            list@ == collect(
                self.variants@.len() as int,
                |i: int| self.variants@[i].part_kind == kind,
                |i: int| &self.variants@[i],
            ),
    {
        let mut list: Vec<&PartVariantDef> = Vec::new();
        let ghost p = |i: int| self.variants@[i].part_kind == kind;
        let ghost mk = |i: int| &self.variants@[i];
        let mut i: usize = 0;
        while i < self.variants.len()
            invariant
                i <= self.variants.len(),
                p == (|i: int| self.variants@[i].part_kind == kind),
                mk == (|i: int| &self.variants@[i]),
                list@ == collect(i as int, p, mk),
            decreases self.variants.len() - i,
        {
            if self.variants[i].part_kind == kind {
                list.push(&self.variants[i]);
            }
            i += 1;
        }
        list
    }
}

/// A catalog is looked up by what is asked for: the first material of a resource, the first part of
/// a kind, and variants and modules by their number.
pub proof fn catalogs_give_what_is_asked_for(data: VehicleData, k: int)
    ensures
        0 <= k < data.materials@.len() && (forall|j: int|
            0 <= j < k ==> (#[trigger] data.materials@[j]).resource != data.materials@[k].resource)
            ==> data.material_spec(data.materials@[k].resource) == Some(data.materials@[k]),
        0 <= k < data.parts@.len() && (forall|j: int|
            0 <= j < k ==> (#[trigger] data.parts@[j]).kind != data.parts@[k].kind)
            ==> data.part_spec(data.parts@[k].kind) == Some(data.parts@[k]),
        forall|rid: ResourceId|
            (#[trigger] data.material_spec(rid)) matches Some(m) ==> m.resource == rid,
        forall|kind: VehiclePartKind|
            (#[trigger] data.part_spec(kind)) matches Some(p) ==> p.kind == kind,
        0 <= k < data.variants@.len() && k <= u16::MAX ==> data.variant_spec(
            VehiclePartVariantId(k as u16),
        ) == Some(data.variants@[k]),
        0 <= k < data.modules@.len() && k <= u16::MAX ==> data.module_spec(
            VehicleModuleDefId(k as u16),
        ) == Some(data.modules@[k]),
        data.modules@.len() <= k <= u16::MAX ==> data.module_spec(VehicleModuleDefId(k as u16))
            is None,
        data.variants@.len() <= k <= u16::MAX ==> data.variant_spec(
            VehiclePartVariantId(k as u16),
        ) is None,
{
    if 0 <= k < data.materials@.len() && (forall|j: int|
        0 <= j < k ==> (#[trigger] data.materials@[j]).resource != data.materials@[k].resource) {
        let p = made_of(data.materials@[k].resource);
        assert forall|j: int| 0 <= j < k implies !p(#[trigger] data.materials@[j]) by {}
        find_is_first(data.materials@, p, k);
    }
    if 0 <= k < data.parts@.len() && (forall|j: int|
        0 <= j < k ==> (#[trigger] data.parts@[j]).kind != data.parts@[k].kind) {
        let p = of_kind(data.parts@[k].kind);
        assert forall|j: int| 0 <= j < k implies !p(#[trigger] data.parts@[j]) by {}
        find_is_first(data.parts@, p, k);
    }
    assert forall|rid: ResourceId|
        ((#[trigger] data.material_spec(rid)) matches Some(m) ==> m.resource == rid) by {
        find_is_none(data.materials@, made_of(rid));
    }
    assert forall|kind: VehiclePartKind|
        ((#[trigger] data.part_spec(kind)) matches Some(p) ==> p.kind == kind) by {
        find_is_none(data.parts@, of_kind(kind));
    }
}

} // verus!
