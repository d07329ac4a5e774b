//! Definitions as they are written in files, and how they become a catalog and designs.

use vstd::prelude::*;
use vstd::string::*;
use crate::catalog::{
    module_labelled, variant_labelled, MaterialProfile, PartDef, PartVariantDef, VehicleData,
    VehicleModuleDef,
};
use crate::design::{VehicleDesign, VehicleDesignRegistry};
use crate::geometry::{IVec2, IVec3};
use crate::grid::{first_at, VehicleCell, VehicleGrid, VehicleModuleInstance};
use crate::parts::{
    FiringArc, ResourceId, TechId, VehicleDesignId, VehicleModuleDefId, VehicleModuleId,
    VehiclePartKind, VehiclePartVariantId, VehiclePurpose,
};
use crate::seqs::{collect, find, find_is_first, find_is_none};
use crate::slug::{slug_of, slugify};
use crate::tech::{
    collect_design_tech_gates, complete_gates_stay, design_gates, gates_complete, tech_id_from_name, tech_name, tech_name_from_id,
    tech_named, tech_names_are_inverse,
};
use crate::text::{joined, same_text};

verus! {

/// The resource catalog's keys.
#[derive(Debug)]
pub struct ResourceNames {
    pub entries: Vec<(String, ResourceId)>,
}

pub open spec fn keyed(key: Seq<char>) -> spec_fn((String, ResourceId)) -> bool {
    |e: (String, ResourceId)| e.0@ == key
}

pub open spec fn naming(rid: ResourceId) -> spec_fn((String, ResourceId)) -> bool {
    |e: (String, ResourceId)| e.1 == rid
}

impl ResourceNames {
    /// The resource with a key.
    pub open spec fn id_spec(self, key: Seq<char>) -> Option<ResourceId> {
        match find(self.entries@, keyed(key)) {
            Some(e) => Some(e.1),
            None => None,
        }
    }

    /// The key of a resource.
    pub open spec fn key_spec(self, rid: ResourceId) -> Option<Seq<char>> {
        match find(self.entries@, naming(rid)) {
            Some(e) => Some(e.0@),
            None => None,
        }
    }

    pub fn id_of(&self, key: &str) -> (r: Option<ResourceId>)
        ensures
            r == self.id_spec(key@),
    {
        let ghost p = keyed(key@);
        let mut i: usize = 0;
        while i < self.entries.len()
            invariant
                i <= self.entries.len(),
                p == keyed(key@),
                forall|j: int| 0 <= j < i ==> !p(#[trigger] self.entries@[j]),
            decreases self.entries.len() - i,
        {
            if same_text(self.entries[i].0.as_str(), key) {
                proof {
                    find_is_first(self.entries@, p, i as int);
                }
                return Some(self.entries[i].1);
            }
            i += 1;
        }
        proof {
            find_is_none(self.entries@, p);
        }
        None
    }

    pub fn key_of(&self, rid: ResourceId) -> (r: Option<String>)
        ensures
            match r {
                Some(k) => self.key_spec(rid) == Some(k@),
                None => self.key_spec(rid) is None,
            },
    {
        let ghost p = naming(rid);
        let mut i: usize = 0;
        while i < self.entries.len()
            invariant
                i <= self.entries.len(),
                p == naming(rid),
                forall|j: int| 0 <= j < i ==> !p(#[trigger] self.entries@[j]),
            decreases self.entries.len() - i,
        {
            if self.entries[i].1 == rid {
                proof {
                    find_is_first(self.entries@, p, i as int);
                }
                return Some(self.entries[i].0.clone());
            }
            i += 1;
        }
        proof {
            find_is_none(self.entries@, p);
        }
        None
    }
}

/// A written material.
#[derive(Debug)]
pub struct MaterialText {
    pub resource: String,
    pub density_pct: u32,
    pub strength: u16,
    pub friction: u16,
    pub traction: u16,
    pub durability: u16,
}

/// A written part.
#[derive(Debug)]
pub struct PartText {
    pub kind: VehiclePartKind,
    pub base_mass_g: u32,
    pub cargo_volume_g: u32,
    pub cargo_volume_ml: u32,
    pub crew_capacity: u8,
    pub tech_gates: Vec<String>,
    pub engine_power_g: u32,
    pub traction_pct: u32,
    pub mounted_weapon_range: u8,
    pub mounted_weapon_damage: u8,
}

/// A written part variant.
#[derive(Debug)]
pub struct VariantText {
    pub label: String,
    pub description: String,
    pub part_kind: VehiclePartKind,
    pub tech_gates: Vec<String>,
}

/// A written weapon module.
#[derive(Debug)]
pub struct ModuleDefText {
    pub label: String,
    pub description: String,
    pub part_kind: VehiclePartKind,
    pub footprint: Vec<IVec3>,
    pub allowed_rotations: Vec<u8>,
    pub muzzle_offset: IVec2,
    pub crew_required: u8,
    pub gunner_required: u8,
    pub firing_arc: FiringArc,
    pub range: u8,
    pub damage: u8,
    pub siege_damage: u8,
    pub cooldown_ticks: u64,
    pub required_support: u8,
    pub tech_gates: Vec<String>,
    pub extra_bill: Vec<(String, u32)>,
}

/// A written cell of a template.
#[derive(Debug)]
pub struct CellText {
    pub pos: IVec3,
    pub kind: VehiclePartKind,
    pub material: String,
    pub variant: Option<String>,
}

/// A written module placement of a template.
#[derive(Debug)]
pub struct PlacementText {
    pub def: String,
    pub cells: Vec<IVec3>,
    pub facing: u8,
}

/// A written design.
#[derive(Debug)]
pub struct TemplateText {
    pub name: String,
    pub purpose: VehiclePurpose,
    pub required_animals: u8,
    pub tech_gates: Vec<String>,
    pub cells: Vec<CellText>,
    pub modules: Vec<PlacementText>,
}

/// The definitions of one file.
#[derive(Debug)]
pub struct VehicleDataFile {
    pub materials: Vec<MaterialText>,
    pub parts: Vec<PartText>,
    pub variants: Vec<VariantText>,
    pub modules: Vec<ModuleDefText>,
}

/// The technologies named in a list; names that are not understood are passed over.
pub open spec fn techs_of(names: Seq<String>, n: int) -> Seq<TechId> {
    collect(
        n,
        |i: int| tech_named(names[i]@) is Some,
        |i: int| tech_named(names[i]@)->0,
    )
}

/// The technologies that a list of names means.
pub fn resolve_techs(names: &Vec<String>) -> (list: Vec<TechId>)
    ensures
        list@ == techs_of(names@, names@.len() as int),
{
    let mut list: Vec<TechId> = Vec::new();
    let mut i: usize = 0;
    while i < names.len()
        invariant
            i <= names.len(),
            list@ == techs_of(names@, i as int),
        decreases names.len() - i,
    {
        match tech_id_from_name(names[i].as_str()) {
            Some(t) => list.push(t),
            None => {},
        }
        i += 1;
    }
    list
}

/// The part that a text defines.
pub open spec fn part_from(t: PartText, d: PartDef) -> bool {
    &&& d.kind == t.kind
    &&& d.base_mass_g == t.base_mass_g
    &&& d.cargo_volume_g == t.cargo_volume_g
    &&& d.cargo_volume_ml == t.cargo_volume_ml
    &&& d.crew_capacity == t.crew_capacity
    &&& d.tech_gates@ == techs_of(t.tech_gates@, t.tech_gates@.len() as int)
    &&& d.engine_power_g == t.engine_power_g
    &&& d.traction_pct == t.traction_pct
    &&& d.mounted_weapon_range == t.mounted_weapon_range
    &&& d.mounted_weapon_damage == t.mounted_weapon_damage
}

/// The variant that a text defines at a catalog index.
pub open spec fn variant_from(t: VariantText, index: int, d: PartVariantDef) -> bool {
    &&& d.id.0 == index % 65536
    &&& d.label@ == t.label@
    &&& d.description@ == t.description@
    &&& d.part_kind == t.part_kind
    &&& d.tech_gates@ == techs_of(t.tech_gates@, t.tech_gates@.len() as int)
}

/// A bill with its keys resolved; keys that are not in the catalog are passed over.
pub open spec fn bill_of(
    bill: Seq<(String, u32)>,
    names: ResourceNames,
    n: int,
) -> Seq<(ResourceId, u32)> {
    collect(
        n,
        |i: int| names.id_spec(bill[i].0@) is Some,
        |i: int| (names.id_spec(bill[i].0@)->0, bill[i].1),
    )
}

/// The module that a text defines at a catalog index. A module that allows no rotation allows
/// heading 0.
pub open spec fn module_from(
    t: ModuleDefText,
    names: ResourceNames,
    index: int,
    d: VehicleModuleDef,
) -> bool {
    &&& d.id.0 == index % 65536
    &&& d.label@ == t.label@
    &&& d.description@ == t.description@
    &&& d.part_kind == t.part_kind
    &&& d.footprint@ == t.footprint@
    &&& d.allowed_rotations@ == (if t.allowed_rotations@.len() == 0 {
        seq![0u8]
    } else {
        t.allowed_rotations@
    })
    &&& d.muzzle_offset == t.muzzle_offset
    &&& d.crew_required == t.crew_required
    &&& d.gunner_required == t.gunner_required
    &&& d.firing_arc == t.firing_arc
    &&& d.range == t.range
    &&& d.damage == t.damage
    &&& d.siege_damage == t.siege_damage
    &&& d.cooldown_ticks == t.cooldown_ticks
    &&& d.required_support == t.required_support
    &&& d.tech_gates@ == techs_of(t.tech_gates@, t.tech_gates@.len() as int)
    &&& d.extra_bill@ == bill_of(t.extra_bill@, names, t.extra_bill@.len() as int)
}

/// The profiles of the materials whose resource is in the catalog.
pub open spec fn profiles_of(
    texts: Seq<MaterialText>,
    names: ResourceNames,
    n: int,
) -> Seq<MaterialProfile> {
    collect(
        n,
        |i: int| names.id_spec(texts[i].resource@) is Some,
        |i: int|
            MaterialProfile {
                resource: names.id_spec(texts[i].resource@)->0,
                density_pct: texts[i].density_pct,
                strength: texts[i].strength,
                friction: texts[i].friction,
                traction: texts[i].traction,
                durability: texts[i].durability,
            },
    )
}

fn copy_bytes(list: &Vec<u8>) -> (out: Vec<u8>)
    ensures
        out@ == list@,
{
    let mut out: Vec<u8> = Vec::new();
    let mut i: usize = 0;
    while i < list.len()
        invariant
            i <= list.len(),
            out@ == list@.take(i as int),
        decreases list.len() - i,
    {
        out.push(list[i]);
        i += 1;
        assert(out@ =~= list@.take(i as int));
    }
    assert(list@.take(i as int) =~= list@);
    out
}

fn copy_places(list: &Vec<IVec3>) -> (out: Vec<IVec3>)
    ensures
        out@ == list@,
{
    let mut out: Vec<IVec3> = Vec::new();
    let mut i: usize = 0;
    while i < list.len()
        invariant
            i <= list.len(),
            out@ == list@.take(i as int),
        decreases list.len() - i,
    {
        out.push(list[i]);
        i += 1;
        assert(out@ =~= list@.take(i as int));
    }
    assert(list@.take(i as int) =~= list@);
    out
}

fn add_materials(data: &mut VehicleData, texts: &Vec<MaterialText>, names: &ResourceNames)
    ensures
        final(data).materials@ == old(data).materials@ + profiles_of(
            texts@,
            *names,
            texts@.len() as int,
        ),
        final(data).parts == old(data).parts,
        final(data).variants == old(data).variants,
        final(data).modules == old(data).modules,
        final(data).wood == old(data).wood,
{
    let ghost start = data.materials@;
    let mut i: usize = 0;
    while i < texts.len()
        invariant
            i <= texts.len(),
            start == old(data).materials@,
            data.materials@ =~= start + profiles_of(texts@, *names, i as int),
            data.parts == old(data).parts,
            data.variants == old(data).variants,
            data.modules == old(data).modules,
            data.wood == old(data).wood,
        decreases texts.len() - i,
    {
        match names.id_of(texts[i].resource.as_str()) {
            Some(rid) => {
                let m = MaterialProfile {
                    resource: rid,
                    density_pct: texts[i].density_pct,
                    strength: texts[i].strength,
                    friction: texts[i].friction,
                    traction: texts[i].traction,
                    durability: texts[i].durability,
                };
                data.materials.push(m);
            },
            None => {},
        }
        i += 1;
    }
}

fn add_parts(data: &mut VehicleData, texts: &Vec<PartText>)
    ensures
        final(data).parts@.len() == old(data).parts@.len() + texts@.len(),
        forall|i: int|
            0 <= i < old(data).parts@.len() ==> final(data).parts@[i] == #[trigger] old(
                data,
            ).parts@[i],
        forall|i: int|
            0 <= i < texts@.len() ==> part_from(
                #[trigger] texts@[i],
                final(data).parts@[old(data).parts@.len() + i],
            ),
        final(data).materials == old(data).materials,
        final(data).variants == old(data).variants,
        final(data).modules == old(data).modules,
        final(data).wood == old(data).wood,
{
    let ghost start = data.parts@;
    let mut i: usize = 0;
    while i < texts.len()
        invariant
            i <= texts.len(),
            start == old(data).parts@,
            data.parts@.len() == start.len() + i,
            forall|j: int| 0 <= j < start.len() ==> data.parts@[j] == #[trigger] start[j],
            forall|j: int|
                0 <= j < i ==> part_from(#[trigger] texts@[j], data.parts@[start.len() + j]),
            data.materials == old(data).materials,
            data.variants == old(data).variants,
            data.modules == old(data).modules,
            data.wood == old(data).wood,
        decreases texts.len() - i,
    {
        let t = &texts[i];
        let d = PartDef {
            kind: t.kind,
            base_mass_g: t.base_mass_g,
            cargo_volume_g: t.cargo_volume_g,
            cargo_volume_ml: t.cargo_volume_ml,
            crew_capacity: t.crew_capacity,
            tech_gates: resolve_techs(&t.tech_gates),
            engine_power_g: t.engine_power_g,
            traction_pct: t.traction_pct,
            mounted_weapon_range: t.mounted_weapon_range,
            mounted_weapon_damage: t.mounted_weapon_damage,
        };
        data.parts.push(d);
        i += 1;
    }
}

fn add_variants(data: &mut VehicleData, texts: &Vec<VariantText>)
    ensures
        final(data).variants@.len() == old(data).variants@.len() + texts@.len(),
        forall|i: int|
            0 <= i < old(data).variants@.len() ==> final(data).variants@[i] == #[trigger] old(
                data,
            ).variants@[i],
        forall|i: int|
            0 <= i < texts@.len() ==> variant_from(
                #[trigger] texts@[i],
                old(data).variants@.len() + i,
                final(data).variants@[old(data).variants@.len() + i],
            ),
        final(data).materials == old(data).materials,
        final(data).parts == old(data).parts,
        final(data).modules == old(data).modules,
        final(data).wood == old(data).wood,
{
    let ghost start = data.variants@;
    let mut i: usize = 0;
    while i < texts.len()
        invariant
            i <= texts.len(),
            start == old(data).variants@,
            data.variants@.len() == start.len() + i,
            forall|j: int| 0 <= j < start.len() ==> data.variants@[j] == #[trigger] start[j],
            forall|j: int|
                0 <= j < i ==> variant_from(
                    #[trigger] texts@[j],
                    start.len() + j,
                    data.variants@[start.len() + j],
                ),
            data.materials == old(data).materials,
            data.parts == old(data).parts,
            data.modules == old(data).modules,
            data.wood == old(data).wood,
        decreases texts.len() - i,
    {
        let t = &texts[i];
        let index: usize = data.variants.len();
        let d = PartVariantDef {
            id: VehiclePartVariantId((index % 65536) as u16),
            label: t.label.clone(),
            description: t.description.clone(),
            part_kind: t.part_kind,
            tech_gates: resolve_techs(&t.tech_gates),
        };
        data.variants.push(d);
        i += 1;
    }
}

fn resolve_bill(bill: &Vec<(String, u32)>, names: &ResourceNames) -> (out: Vec<(ResourceId, u32)>)
    ensures
        out@ == bill_of(bill@, *names, bill@.len() as int),
{
    let mut out: Vec<(ResourceId, u32)> = Vec::new();
    let mut i: usize = 0;
    while i < bill.len()
        invariant
            i <= bill.len(),
            out@ == bill_of(bill@, *names, i as int),
        decreases bill.len() - i,
    {
        match names.id_of(bill[i].0.as_str()) {
            Some(rid) => out.push((rid, bill[i].1)),
            None => {},
        }
        i += 1;
    }
    out
}

fn add_modules(data: &mut VehicleData, texts: &Vec<ModuleDefText>, names: &ResourceNames)
    ensures
        final(data).modules@.len() == old(data).modules@.len() + texts@.len(),
        forall|i: int|
            0 <= i < old(data).modules@.len() ==> final(data).modules@[i] == #[trigger] old(
                data,
            ).modules@[i],
        forall|i: int|
            0 <= i < texts@.len() ==> module_from(
                #[trigger] texts@[i],
                *names,
                old(data).modules@.len() + i,
                final(data).modules@[old(data).modules@.len() + i],
            ),
        final(data).materials == old(data).materials,
        final(data).parts == old(data).parts,
        final(data).variants == old(data).variants,
        final(data).wood == old(data).wood,
{
    let ghost start = data.modules@;
    let mut i: usize = 0;
    while i < texts.len()
        invariant
            i <= texts.len(),
            start == old(data).modules@,
            data.modules@.len() == start.len() + i,
            forall|j: int| 0 <= j < start.len() ==> data.modules@[j] == #[trigger] start[j],
            forall|j: int|
                0 <= j < i ==> module_from(
                    #[trigger] texts@[j],
                    *names,
                    start.len() + j,
                    data.modules@[start.len() + j],
                ),
            data.materials == old(data).materials,
            data.parts == old(data).parts,
            data.variants == old(data).variants,
            data.wood == old(data).wood,
        decreases texts.len() - i,
    {
        let t = &texts[i];
        let index: usize = data.modules.len();
        let mut rotations = copy_bytes(&t.allowed_rotations);
        if rotations.len() == 0 {
            rotations.push(0);
            assert(rotations@ =~= seq![0u8]);
        }
        let d = VehicleModuleDef {
            id: VehicleModuleDefId((index % 65536) as u16),
            label: t.label.clone(),
            description: t.description.clone(),
            part_kind: t.part_kind,
            footprint: copy_places(&t.footprint),
            allowed_rotations: rotations,
            muzzle_offset: t.muzzle_offset,
            crew_required: t.crew_required,
            gunner_required: t.gunner_required,
            firing_arc: t.firing_arc,
            range: t.range,
            damage: t.damage,
            siege_damage: t.siege_damage,
            cooldown_ticks: t.cooldown_ticks,
            required_support: t.required_support,
            tech_gates: resolve_techs(&t.tech_gates),
            extra_bill: resolve_bill(&t.extra_bill, names),
        };
        data.modules.push(d);
        i += 1;
    }
}

/// Adds the definitions of one file to the catalog. A material whose resource the catalog does
/// not know is passed over; variants and modules are numbered in the order in which they come.
pub fn add_definitions(data: &mut VehicleData, file: &VehicleDataFile, names: &ResourceNames)
    ensures
        final(data).wood == old(data).wood,
        final(data).materials@ == old(data).materials@ + profiles_of(
            file.materials@,
            *names,
            file.materials@.len() as int,
        ),
        final(data).parts@.len() == old(data).parts@.len() + file.parts@.len(),
        forall|i: int|
            0 <= i < old(data).parts@.len() ==> final(data).parts@[i] == #[trigger] old(
                data,
            ).parts@[i],
        forall|i: int|
            0 <= i < file.parts@.len() ==> part_from(
                #[trigger] file.parts@[i],
                final(data).parts@[old(data).parts@.len() + i],
            ),
        final(data).variants@.len() == old(data).variants@.len() + file.variants@.len(),
        forall|i: int|
            0 <= i < old(data).variants@.len() ==> final(data).variants@[i] == #[trigger] old(
                data,
            ).variants@[i],
        forall|i: int|
            0 <= i < file.variants@.len() ==> variant_from(
                #[trigger] file.variants@[i],
                old(data).variants@.len() + i,
                final(data).variants@[old(data).variants@.len() + i],
            ),
        final(data).modules@.len() == old(data).modules@.len() + file.modules@.len(),
        forall|i: int|
            0 <= i < old(data).modules@.len() ==> final(data).modules@[i] == #[trigger] old(
                data,
            ).modules@[i],
        forall|i: int|
            0 <= i < file.modules@.len() ==> module_from(
                #[trigger] file.modules@[i],
                *names,
                old(data).modules@.len() + i,
                final(data).modules@[old(data).modules@.len() + i],
            ),
{
    add_materials(data, &file.materials, names);
    add_parts(data, &file.parts);
    add_variants(data, &file.variants);
    add_modules(data, &file.modules, names);
}

/// The durability of a cell before its part and variant scale it: its material's, or 100.
pub open spec fn base_durability_spec(material: ResourceId, data: VehicleData) -> u16 {
    match data.material_spec(material) {
        Some(m) => m.durability,
        None => 100,
    }
}

/// The durability of a cell before its part and variant scale it.
pub fn base_durability(material: ResourceId, data: &VehicleData) -> (d: u16)
    ensures
        d == base_durability_spec(material, *data),
{
    match data.material(material) {
        Some(m) => m.durability,
        None => 100,
    }
}

/// The variant that a written label means.
pub open spec fn variant_meant(label: Option<String>, data: VehicleData) -> Option<
    VehiclePartVariantId,
> {
    match label {
        Some(l) => match find(data.variants@, variant_labelled(l@)) {
            Some(v) => Some(v.id),
            None => None,
        },
        None => None,
    }
}

/// The cell that a text describes. An unknown material is read as wood, an unknown variant as
/// none.
pub open spec fn cell_meant(t: CellText, data: VehicleData, names: ResourceNames) -> (
    IVec3,
    VehicleCell,
) {
    let material = match names.id_spec(t.material@) {
        Some(rid) => rid,
        None => data.wood,
    };
    (
        t.pos,
        VehicleCell {
            kind: t.kind,
            material,
            durability: base_durability_spec(material, data),
            variant: variant_meant(t.variant, data),
            module_id: None,
        },
    )
}

/// The cells that a template describes, before modules claim any.
pub open spec fn cells_meant(
    texts: Seq<CellText>,
    data: VehicleData,
    names: ResourceNames,
) -> Seq<(IVec3, VehicleCell)> {
    Seq::new(texts.len(), |i: int| cell_meant(texts[i], data, names))
}

/// A cell claimed by a module.
pub open spec fn claimed(c: VehicleCell, id: VehicleModuleId) -> VehicleCell {
    VehicleCell { module_id: Some(id), ..c }
}

/// `cells` with the first cell at `pos` claimed by a module.
pub open spec fn claim_one(
    cells: Seq<(IVec3, VehicleCell)>,
    pos: IVec3,
    id: VehicleModuleId,
) -> Seq<(IVec3, VehicleCell)> {
    if exists|i: int| first_at(cells, pos, i) {
        let i = choose|i: int| first_at(cells, pos, i);
        cells.update(i, (pos, claimed(cells[i].1, id)))
    } else {
        cells
    }
}

/// `cells` with the first `n` of the `places` claimed by a module.
pub open spec fn claim_all(
    cells: Seq<(IVec3, VehicleCell)>,
    places: Seq<IVec3>,
    n: int,
    id: VehicleModuleId,
) -> Seq<(IVec3, VehicleCell)>
    decreases n,
{
    if n <= 0 {
        cells
    } else {
        claim_one(claim_all(cells, places, n - 1, id), places[n - 1], id)
    }
}

/// The module definition that a placement names.
pub open spec fn def_meant(p: PlacementText, data: VehicleData) -> Option<VehicleModuleDefId> {
    match find(data.modules@, module_labelled(p.def@)) {
        Some(d) => Some(d.id),
        None => None,
    }
}

/// `cells` with the cells of the first `n` placements claimed. A placement of an unknown module
/// claims nothing.
pub open spec fn cells_placed(
    cells: Seq<(IVec3, VehicleCell)>,
    placements: Seq<PlacementText>,
    data: VehicleData,
    n: int,
) -> Seq<(IVec3, VehicleCell)>
    decreases n,
{
    if n <= 0 {
        cells
    } else {
        let before = cells_placed(cells, placements, data, n - 1);
        let p = placements[n - 1];
        if def_meant(p, data) is Some {
            claim_all(
                before,
                p.cells@,
                p.cells@.len() as int,
                VehicleModuleId(((n - 1) % 65536) as u16),
            )
        } else {
            before
        }
    }
}

/// A module as a mathematical value.
#[verifier::ext_equal]
pub struct PlacedModule {
    pub id: VehicleModuleId,
    pub def: VehicleModuleDefId,
    pub cells: Seq<IVec3>,
    pub facing: u8,
}

pub open spec fn placed_view(m: VehicleModuleInstance) -> PlacedModule {
    PlacedModule { id: m.id, def: m.def, cells: m.cells@, facing: m.facing }
}

pub open spec fn placed_views(ms: Seq<VehicleModuleInstance>) -> Seq<PlacedModule> {
    Seq::new(ms.len(), |i: int| placed_view(ms[i]))
}

/// The modules that the first `n` placements describe. A module is numbered by its place in the
/// template; a placement of an unknown module describes none.
pub open spec fn modules_placed(
    placements: Seq<PlacementText>,
    data: VehicleData,
    n: int,
) -> Seq<PlacedModule> {
    collect(
        n,
        |i: int| def_meant(placements[i], data) is Some,
        |i: int|
            PlacedModule {
                id: VehicleModuleId((i % 65536) as u16),
                def: def_meant(placements[i], data)->0,
                cells: placements[i].cells@,
                facing: placements[i].facing,
            },
    )
}

/// The cells of a template's body.
pub open spec fn template_cells(
    t: TemplateText,
    data: VehicleData,
    names: ResourceNames,
) -> Seq<(IVec3, VehicleCell)> {
    cells_placed(
        cells_meant(t.cells@, data, names),
        t.modules@,
        data,
        t.modules@.len() as int,
    )
}

fn claim(grid: &mut VehicleGrid, pos: IVec3, id: VehicleModuleId)
    ensures
        final(grid).cells@ == claim_one(old(grid).cells@, pos, id),
        final(grid).modules == old(grid).modules,
{
    match grid.index_of(pos) {
        Some(i) => {
            let c = grid.cells[i].1;
            proof {
                let k = choose|k: int| first_at(grid.cells@, pos, k);
                if k < i {
                    assert(grid.cells@[k].0 != pos);
                } else if i < k {
                    assert(grid.cells@[i as int].0 != pos);
                }
            }
            let after = VehicleCell {
                kind: c.kind,
                material: c.material,
                durability: c.durability,
                variant: c.variant,
                module_id: Some(id),
            };
            grid.cells.set(i, (pos, after));
        },
        None => {
            proof {
                if exists|k: int| first_at(grid.cells@, pos, k) {
                    let k = choose|k: int| first_at(grid.cells@, pos, k);
                    assert(grid.cells@[k].0 == pos);
                }
            }
        },
    }
}

/// The body that a template describes. Cells have the durability of their material; parts and
/// variants scale it afterwards.
pub fn template_grid(t: &TemplateText, data: &VehicleData, names: &ResourceNames) -> (grid:
    VehicleGrid)
    ensures
        grid.cells@ == template_cells(*t, *data, *names),
        placed_views(grid.modules@) == modules_placed(t.modules@, *data, t.modules@.len() as int),
{
    let mut grid = VehicleGrid { cells: Vec::new(), modules: Vec::new() };
    let ghost all = cells_meant(t.cells@, *data, *names);
    let mut i: usize = 0;
    while i < t.cells.len()
        invariant
            i <= t.cells.len(),
            all == cells_meant(t.cells@, *data, *names),
            grid.cells@ == all.take(i as int),
            grid.modules@.len() == 0,
        decreases t.cells.len() - i,
    {
        let c = &t.cells[i];
        let material: ResourceId = match names.id_of(c.material.as_str()) {
            Some(rid) => rid,
            None => data.default_material(),
        };
        let variant: Option<VehiclePartVariantId> = match &c.variant {
            Some(label) => match data.variant_by_label(label.as_str()) {
                Some(v) => Some(v.id),
                None => None,
            },
            None => None,
        };
        let cell = VehicleCell {
            kind: c.kind,
            material,
            durability: base_durability(material, data),
            variant,
            module_id: None,
        };
        grid.cells.push((c.pos, cell));
        i += 1;
        assert(grid.cells@ =~= all.take(i as int));
    }
    assert(all.take(i as int) =~= all);
    let mut k: usize = 0;
    assert(placed_views(grid.modules@) =~= modules_placed(t.modules@, *data, 0));
    while k < t.modules.len()
        invariant
            k <= t.modules.len(),
            grid.cells@ == cells_placed(all, t.modules@, *data, k as int),
            placed_views(grid.modules@) == modules_placed(t.modules@, *data, k as int),
        decreases t.modules.len() - k,
    {
        let p = &t.modules[k];
        match data.module_by_label(p.def.as_str()) {
            Some(d) => {
                let id = VehicleModuleId((k % 65536) as u16);
                let ghost before = grid.cells@;
                let ghost modules = grid.modules;
                let mut c: usize = 0;
                while c < p.cells.len()
                    invariant
                        c <= p.cells.len(),
                        grid.cells@ == claim_all(before, p.cells@, c as int, id),
                        grid.modules == modules,
                    decreases p.cells.len() - c,
                {
                    claim(&mut grid, p.cells[c], id);
                    c += 1;
                }
                let m = VehicleModuleInstance {
                    id,
                    def: d.id,
                    cells: copy_places(&p.cells),
                    facing: p.facing,
                };
                let ghost views = placed_views(grid.modules@);
                let ghost one = placed_view(m);
                grid.modules.push(m);
                assert(placed_views(grid.modules@) =~= views.push(one));
            },
            None => {},
        }
        k += 1;
    }
    grid
}

/// Sets the durability of every cell.
pub fn set_durability(grid: &mut VehicleGrid, durability: &Vec<u16>)
    requires
        durability@.len() == old(grid).cells@.len(),
    ensures
        final(grid).modules == old(grid).modules,
        final(grid).cells@ == Seq::new(
            old(grid).cells@.len(),
            |i: int|
                (
                    old(grid).cells@[i].0,
                    VehicleCell { durability: durability@[i], ..old(grid).cells@[i].1 },
                ),
        ),
{
    let ghost start = grid.cells@;
    let ghost all = Seq::new(
        start.len(),
        |i: int| (start[i].0, VehicleCell { durability: durability@[i], ..start[i].1 }),
    );
    let mut i: usize = 0;
    while i < grid.cells.len()
        invariant
            i <= grid.cells.len(),
            grid.cells@.len() == start.len(),
            durability@.len() == start.len(),
            all == Seq::new(
                start.len(),
                |i: int| (start[i].0, VehicleCell { durability: durability@[i], ..start[i].1 }),
            ),
            grid.cells@ =~= all.take(i as int) + start.skip(i as int),
            grid.modules == old(grid).modules,
        decreases grid.cells.len() - i,
    {
        let (p, c) = grid.cells[i];
        assert(grid.cells@[i as int] == start[i as int]);
        let after = VehicleCell {
            kind: c.kind,
            material: c.material,
            durability: durability[i],
            variant: c.variant,
            module_id: c.module_id,
        };
        grid.cells.set(i, (p, after));
        i += 1;
        assert(grid.cells@ =~= all.take(i as int) + start.skip(i as int));
    }
    assert(grid.cells@ =~= all);
}

/// What a template says about its design.
pub open spec fn design_meant(
    t: TemplateText,
    data: VehicleData,
    from_user_file: bool,
    grid: VehicleGrid,
    d: VehicleDesign,
) -> bool {
    &&& d.name@ == t.name@
    &&& d.grid == grid
    &&& d.allowed_purpose == t.purpose
    &&& d.required_animals == t.required_animals
    &&& d.tech_gates@ == design_gates(
        grid,
        techs_of(t.tech_gates@, t.tech_gates@.len() as int),
        data,
    )
    &&& d.author_faction is None
    &&& d.from_user_file == from_user_file
    &&& d.revision == 0
}

/// Registers the design of a template with the given body, and returns its identity.
pub fn register_template(
    registry: &mut VehicleDesignRegistry,
    t: &TemplateText,
    grid: VehicleGrid,
    data: &VehicleData,
    from_user_file: bool,
) -> (id: VehicleDesignId)
    requires
        old(registry).next_id < u32::MAX,
    ensures
        id.0 == old(registry).next_id,
        final(registry).next_id == old(registry).next_id + 1,
        old(registry).wf() ==> final(registry).wf(),
        final(registry).designs@.len() == old(registry).designs@.len() + 1,
        final(registry).designs@.drop_last() == old(registry).designs@,
        final(registry).designs@.last().id == id,
        design_meant(*t, *data, from_user_file, grid, final(registry).designs@.last()),
{
    let base = resolve_techs(&t.tech_gates);
    let gates = collect_design_tech_gates(&grid, base, data);
    let design = VehicleDesign {
        id: VehicleDesignId(0),
        name: t.name.clone(),
        grid,
        allowed_purpose: t.purpose,
        required_animals: t.required_animals,
        tech_gates: gates,
        author_faction: None,
        from_user_file,
        revision: 0,
    };
    let id = registry.insert(design);
    assert(registry.designs@.drop_last() =~= old(registry).designs@);
    id
}

/// Why a design cannot be written.
#[derive(Clone, Copy, Debug, PartialEq, Eq, Structural)]
pub enum SaveError {
    /// A cell is made of a resource without a key.
    UnknownMaterial(ResourceId, IVec3),
    /// A module's definition is not in the catalog.
    UnknownModule(VehicleModuleDefId),
}

pub open spec fn variant_numbered(id: VehiclePartVariantId) -> spec_fn(PartVariantDef) -> bool {
    |v: PartVariantDef| v.id == id
}

pub open spec fn module_numbered(id: VehicleModuleDefId) -> spec_fn(VehicleModuleDef) -> bool {
    |m: VehicleModuleDef| m.id == id
}

/// The label of a variant; `None` for a variant that is not in the catalog.
pub open spec fn label_of(variant: Option<VehiclePartVariantId>, data: VehicleData) -> Option<
    Seq<char>,
> {
    match variant {
        Some(id) => match find(data.variants@, variant_numbered(id)) {
            Some(v) => Some(v.label@),
            None => None,
        },
        None => None,
    }
}

/// A text writes a cell.
pub open spec fn writes_cell(
    t: CellText,
    c: (IVec3, VehicleCell),
    data: VehicleData,
    names: ResourceNames,
) -> bool {
    &&& t.pos == c.0
    &&& t.kind == c.1.kind
    &&& names.key_spec(c.1.material) == Some(t.material@)
    &&& match t.variant {
        Some(l) => label_of(c.1.variant, data) == Some(l@),
        None => label_of(c.1.variant, data) is None,
    }
}

/// A text writes a module.
pub open spec fn writes_module(
    t: PlacementText,
    m: VehicleModuleInstance,
    data: VehicleData,
) -> bool {
    &&& find(data.modules@, module_numbered(m.def)) matches Some(d) && d.label@ == t.def@
    &&& t.cells@ == m.cells@
    &&& t.facing == m.facing
}

/// The written names of the technologies that have one.
pub open spec fn tech_names_of(techs: Seq<TechId>, n: int) -> Seq<Seq<char>> {
    collect(n, |i: int| tech_name(techs[i]) is Some, |i: int| tech_name(techs[i])->0)
}

pub open spec fn string_views(s: Seq<String>) -> Seq<Seq<char>> {
    Seq::new(s.len(), |i: int| s[i]@)
}

/// A text writes a design.
pub open spec fn writes_design(
    t: TemplateText,
    d: VehicleDesign,
    data: VehicleData,
    names: ResourceNames,
) -> bool {
    &&& t.name@ == d.name@
    &&& t.purpose == d.allowed_purpose
    &&& t.required_animals == d.required_animals
    &&& string_views(t.tech_gates@) == tech_names_of(d.tech_gates@, d.tech_gates@.len() as int)
    &&& t.cells@.len() == d.grid.cells@.len()
    &&& forall|i: int|
        0 <= i < t.cells@.len() ==> writes_cell(
            #[trigger] t.cells@[i],
            d.grid.cells@[i],
            data,
            names,
        )
    &&& t.modules@.len() == d.grid.modules@.len()
    &&& forall|i: int|
        0 <= i < t.modules@.len() ==> writes_module(
            #[trigger] t.modules@[i],
            d.grid.modules@[i],
            data,
        )
}

/// Cell `i` is the first whose material has no key.
pub open spec fn first_unkeyed(d: VehicleDesign, names: ResourceNames, i: int) -> bool {
    &&& 0 <= i < d.grid.cells@.len()
    &&& names.key_spec(d.grid.cells@[i].1.material) is None
    &&& forall|j: int|
        0 <= j < i ==> names.key_spec((#[trigger] d.grid.cells@[j]).1.material) is Some
}

/// Module `i` is the first whose definition is not in the catalog.
pub open spec fn first_undefined(d: VehicleDesign, data: VehicleData, i: int) -> bool {
    &&& 0 <= i < d.grid.modules@.len()
    &&& find(data.modules@, module_numbered(d.grid.modules@[i].def)) is None
    &&& forall|j: int|
        0 <= j < i ==> find(
            data.modules@,
            module_numbered((#[trigger] d.grid.modules@[j]).def),
        ) is Some
}

/// Every material has a key.
pub open spec fn all_keyed(d: VehicleDesign, names: ResourceNames) -> bool {
    forall|j: int|
        0 <= j < d.grid.cells@.len() ==> names.key_spec(
            (#[trigger] d.grid.cells@[j]).1.material,
        ) is Some
}

/// Every module is defined.
pub open spec fn all_defined(d: VehicleDesign, data: VehicleData) -> bool {
    forall|j: int|
        0 <= j < d.grid.modules@.len() ==> find(
            data.modules@,
            module_numbered((#[trigger] d.grid.modules@[j]).def),
        ) is Some
}

fn write_label(variant: Option<VehiclePartVariantId>, data: &VehicleData) -> (r: Option<String>)
    ensures
        match r {
            Some(l) => label_of(variant, *data) == Some(l@),
            None => label_of(variant, *data) is None,
        },
{
    match variant {
        None => None,
        Some(id) => {
            let ghost p = variant_numbered(id);
            let mut i: usize = 0;
            while i < data.variants.len()
                invariant
                    i <= data.variants.len(),
                    variant == Some(id),
                    p == variant_numbered(id),
                    forall|j: int| 0 <= j < i ==> !p(#[trigger] data.variants@[j]),
                decreases data.variants.len() - i,
            {
                if data.variants[i].id == id {
                    proof {
                        find_is_first(data.variants@, p, i as int);
                    }
                    return Some(data.variants[i].label.clone());
                }
                i += 1;
            }
            proof {
                find_is_none(data.variants@, p);
            }
            None
        },
    }
}

fn write_module_label(def: VehicleModuleDefId, data: &VehicleData) -> (r: Option<String>)
    ensures
        match r {
            Some(l) => find(data.modules@, module_numbered(def)) matches Some(d) && d.label@ == l@,
            None => find(data.modules@, module_numbered(def)) is None,
        },
{
    let ghost p = module_numbered(def);
    let mut i: usize = 0;
    while i < data.modules.len()
        invariant
            i <= data.modules.len(),
            p == module_numbered(def),
            forall|j: int| 0 <= j < i ==> !p(#[trigger] data.modules@[j]),
        decreases data.modules.len() - i,
    {
        if data.modules[i].id == def {
            proof {
                find_is_first(data.modules@, p, i as int);
            }
            return Some(data.modules[i].label.clone());
        }
        i += 1;
    }
    proof {
        find_is_none(data.modules@, p);
    }
    None
}

fn write_techs(techs: &Vec<TechId>) -> (out: Vec<String>)
    ensures
        string_views(out@) == tech_names_of(techs@, techs@.len() as int),
{
    let mut out: Vec<String> = Vec::new();
    let mut i: usize = 0;
    assert(string_views(out@) =~= tech_names_of(techs@, 0));
    while i < techs.len()
        invariant
            i <= techs.len(),
            string_views(out@) == tech_names_of(techs@, i as int),
        decreases techs.len() - i,
    {
        match tech_name_from_id(techs[i]) {
            Some(s) => {
                let ghost before = string_views(out@);
                let ghost one = s@;
                out.push(s);
                assert(string_views(out@) =~= before.push(one));
            },
            None => {},
        }
        i += 1;
    }
    out
}

/// The text of a design, as it is saved. Fails on the first cell whose material has no key, then
/// on the first module without a definition. A variant that is not in the catalog is written as
/// none; a technology without a written name is passed over.
pub fn design_to_template(
    design: &VehicleDesign,
    data: &VehicleData,
    names: &ResourceNames,
) -> (r: Result<TemplateText, SaveError>)
    ensures
        r is Ok <==> all_keyed(*design, *names) && all_defined(*design, *data),
        match r {
            Ok(t) => writes_design(t, *design, *data, *names),
            Err(SaveError::UnknownMaterial(rid, pos)) => exists|i: int| #[trigger]
                first_unkeyed(*design, *names, i) && design.grid.cells@[i].0 == pos
                    && design.grid.cells@[i].1.material == rid,
            Err(SaveError::UnknownModule(def)) => all_keyed(*design, *names) && exists|i: int|
                #[trigger]
                first_undefined(*design, *data, i) && design.grid.modules@[i].def == def,
        },
{
    let mut cells: Vec<CellText> = Vec::new();
    let mut i: usize = 0;
    while i < design.grid.cells.len()
        invariant
            i <= design.grid.cells.len(),
            cells@.len() == i,
            forall|j: int|
                0 <= j < i ==> writes_cell(
                    #[trigger] cells@[j],
                    design.grid.cells@[j],
                    *data,
                    *names,
                ),
            forall|j: int|
                0 <= j < i ==> names.key_spec(
                    (#[trigger] design.grid.cells@[j]).1.material,
                ) is Some,
        decreases design.grid.cells.len() - i,
    {
        let (pos, cell) = design.grid.cells[i];
        match names.key_of(cell.material) {
            Some(key) => {
                let t = CellText {
                    pos,
                    kind: cell.kind,
                    material: key,
                    variant: write_label(cell.variant, data),
                };
                cells.push(t);
            },
            None => {
                assert(first_unkeyed(*design, *names, i as int));
                return Err(SaveError::UnknownMaterial(cell.material, pos));
            },
        }
        i += 1;
    }
    assert(all_keyed(*design, *names));
    let mut modules: Vec<PlacementText> = Vec::new();
    let mut k: usize = 0;
    while k < design.grid.modules.len()
        invariant
            k <= design.grid.modules.len(),
            modules@.len() == k,
            all_keyed(*design, *names),
            forall|j: int|
                0 <= j < k ==> writes_module(
                    #[trigger] modules@[j],
                    design.grid.modules@[j],
                    *data,
                ),
            forall|j: int|
                0 <= j < k ==> find(
                    data.modules@,
                    module_numbered((#[trigger] design.grid.modules@[j]).def),
                ) is Some,
        decreases design.grid.modules.len() - k,
    {
        let m = &design.grid.modules[k];
        match write_module_label(m.def, data) {
            Some(label) => {
                let t = PlacementText {
                    def: label,
                    cells: copy_places(&m.cells),
                    facing: m.facing,
                };
                modules.push(t);
            },
            None => {
                assert(first_undefined(*design, *data, k as int));
                return Err(SaveError::UnknownModule(m.def));
            },
        }
        k += 1;
    }
    Ok(
        TemplateText {
            name: design.name.clone(),
            purpose: design.allowed_purpose,
            required_animals: design.required_animals,
            tech_gates: write_techs(&design.tech_gates),
            cells,
            modules,
        },
    )
}

/// The catalog can tell apart what a design uses: keys and labels lead back to what they name.
pub open spec fn names_lead_back(d: VehicleDesign, data: VehicleData, names: ResourceNames) -> bool {
    &&& forall|i: int|
        0 <= i < d.grid.cells@.len() ==> {
            let c = (#[trigger] d.grid.cells@[i]).1;
            &&& names.key_spec(c.material) matches Some(k) && names.id_spec(k) == Some(c.material)
            &&& c.variant matches Some(v) ==> label_of(Some(v), data) matches Some(l) && find(
                data.variants@,
                variant_labelled(l),
            ) matches Some(w) && w.id == v
        }
    &&& forall|i: int|
        0 <= i < d.grid.modules@.len() ==> {
            let m = #[trigger] d.grid.modules@[i];
            find(data.modules@, module_numbered(m.def)) matches Some(e) && find(
                data.modules@,
                module_labelled(e.label@),
            ) matches Some(f) && f.id == m.def
        }
    &&& forall|i: int|
        0 <= i < d.tech_gates@.len() ==> tech_name(#[trigger] d.tech_gates@[i]) is Some
}

/// The cells without any module's claim.
pub open spec fn unclaimed(cells: Seq<(IVec3, VehicleCell)>) -> Seq<(IVec3, VehicleCell)> {
    Seq::new(cells.len(), |i: int| (cells[i].0, VehicleCell { module_id: None, ..cells[i].1 }))
}

/// `cells` with the cells of the first `n` modules claimed.
pub open spec fn claims_of(
    cells: Seq<(IVec3, VehicleCell)>,
    modules: Seq<VehicleModuleInstance>,
    n: int,
) -> Seq<(IVec3, VehicleCell)>
    decreases n,
{
    if n <= 0 {
        cells
    } else {
        claim_all(
            claims_of(cells, modules, n - 1),
            modules[n - 1].cells@,
            modules[n - 1].cells@.len() as int,
            modules[n - 1].id,
        )
    }
}

/// A design in the shape in which designs are loaded: modules are numbered in order and cells
/// carry exactly the claims of the modules.
pub open spec fn in_loaded_shape(d: VehicleDesign) -> bool {
    &&& d.grid.modules@.len() <= 65536
    &&& forall|i: int|
        0 <= i < d.grid.modules@.len() ==> (#[trigger] d.grid.modules@[i]).id.0 == i
    &&& d.grid.cells@ == claims_of(
        unclaimed(d.grid.cells@),
        d.grid.modules@,
        d.grid.modules@.len() as int,
    )
}

/// The same cells in the same places, their durabilities left aside.
pub open spec fn alike(
    a: Seq<(IVec3, VehicleCell)>,
    b: Seq<(IVec3, VehicleCell)>,
) -> bool {
    &&& a.len() == b.len()
    &&& forall|i: int|
        0 <= i < a.len() ==> {
            &&& (#[trigger] a[i]).0 == b[i].0
            &&& a[i].1 == VehicleCell { durability: a[i].1.durability, ..b[i].1 }
        }
}

proof fn claims_keep_alike(
    a: Seq<(IVec3, VehicleCell)>,
    b: Seq<(IVec3, VehicleCell)>,
    places: Seq<IVec3>,
    n: int,
    id: VehicleModuleId,
)
    requires
        alike(a, b),
    ensures
        alike(claim_all(a, places, n, id), claim_all(b, places, n, id)),
    decreases n,
{
    if n > 0 {
        claims_keep_alike(a, b, places, n - 1, id);
        let ca = claim_all(a, places, n - 1, id);
        let cb = claim_all(b, places, n - 1, id);
        let pos = places[n - 1];
        assert forall|i: int| first_at(ca, pos, i) <==> first_at(cb, pos, i) by {
            assert forall|j: int| 0 <= j < ca.len() implies (#[trigger] ca[j]).0 == cb[j].0 by {}
            assert forall|j: int| 0 <= j < cb.len() implies (#[trigger] cb[j]).0 == ca[j].0 by {
                assert(ca[j].0 == cb[j].0);
            }
        }
        if exists|i: int| first_at(ca, pos, i) {
            let i = choose|i: int| first_at(ca, pos, i);
            let j = choose|j: int| first_at(cb, pos, j);
            assert(first_at(cb, pos, i));
            assert(first_at(cb, pos, j));
            assert(i == j);
        }
    }
}

proof fn modules_keep_alike(
    a: Seq<(IVec3, VehicleCell)>,
    b: Seq<(IVec3, VehicleCell)>,
    modules: Seq<VehicleModuleInstance>,
    n: int,
)
    requires
        alike(a, b),
    ensures
        alike(claims_of(a, modules, n), claims_of(b, modules, n)),
    decreases n,
{
    if n > 0 {
        modules_keep_alike(a, b, modules, n - 1);
        claims_keep_alike(
            claims_of(a, modules, n - 1),
            claims_of(b, modules, n - 1),
            modules[n - 1].cells@,
            modules[n - 1].cells@.len() as int,
            modules[n - 1].id,
        );
    }
}

proof fn placed_like_claims(
    cells: Seq<(IVec3, VehicleCell)>,
    t: TemplateText,
    d: VehicleDesign,
    data: VehicleData,
    names: ResourceNames,
    n: int,
)
    requires
        writes_design(t, d, data, names),
        names_lead_back(d, data, names),
        in_loaded_shape(d),
        0 <= n <= t.modules@.len(),
    ensures
        cells_placed(cells, t.modules@, data, n) == claims_of(cells, d.grid.modules@, n),
        modules_placed(t.modules@, data, n) == placed_views(d.grid.modules@.take(n)),
    decreases n,
{
    if n > 0 {
        placed_like_claims(cells, t, d, data, names, n - 1);
        let p = t.modules@[n - 1];
        let m = d.grid.modules@[n - 1];
        assert(writes_module(p, m, data));
        assert(m.id.0 == n - 1);
        let e = find(data.modules@, module_numbered(m.def))->0;
        assert(e.label@ == p.def@);
        assert(def_meant(p, data) == Some(m.def));
        assert(m.id == VehicleModuleId(((n - 1) % 65536) as u16));
        assert(placed_views(d.grid.modules@.take(n)) =~= placed_views(
            d.grid.modules@.take(n - 1),
        ).push(placed_view(m)));
        let one = PlacedModule {
            id: VehicleModuleId(((n - 1) % 65536) as u16),
            def: def_meant(p, data)->0,
            cells: p.cells@,
            facing: p.facing,
        };
        assert(one =~= placed_view(m));
    } else {
        assert(placed_views(d.grid.modules@.take(0)) =~= modules_placed(t.modules@, data, 0));
    }
}

proof fn techs_lead_back(t: TemplateText, techs: Seq<TechId>, n: int)
    requires
        0 <= n <= techs.len(),
        string_views(t.tech_gates@) == tech_names_of(techs, techs.len() as int),
        forall|i: int| 0 <= i < techs.len() ==> tech_name(#[trigger] techs[i]) is Some,
    ensures
        t.tech_gates@.len() == techs.len(),
        techs_of(t.tech_gates@, n) == techs.take(n),
    decreases n,
{
    names_keep_order(techs, techs.len() as int);
    assert(string_views(t.tech_gates@).len() == t.tech_gates@.len());
    if n > 0 {
        techs_lead_back(t, techs, n - 1);
        assert(string_views(t.tech_gates@)[n - 1] == t.tech_gates@[n - 1]@);
        tech_names_are_inverse(techs[n - 1], t.tech_gates@[n - 1]@);
        assert(techs.take(n) =~= techs.take(n - 1).push(techs[n - 1]));
    } else {
        assert(techs.take(0) =~= techs_of(t.tech_gates@, 0));
    }
}

proof fn names_keep_order(techs: Seq<TechId>, n: int)
    requires
        0 <= n <= techs.len(),
        forall|i: int| 0 <= i < techs.len() ==> tech_name(#[trigger] techs[i]) is Some,
    ensures
        tech_names_of(techs, n).len() == n,
        forall|i: int|
            0 <= i < n ==> #[trigger] tech_names_of(techs, n)[i] == tech_name(techs[i])->0,
    decreases n,
{
    if n > 0 {
        names_keep_order(techs, n - 1);
        assert(tech_name(techs[n - 1]) is Some);
    }
}

/// Reading back what was written gives the design: cells of the same kinds, materials, variants
/// and claims in the same places, the same modules and the same gates. Durability is not written;
/// reading gives it anew.
pub proof fn saved_designs_load_back(
    t: TemplateText,
    d: VehicleDesign,
    data: VehicleData,
    names: ResourceNames,
)
    requires
        writes_design(t, d, data, names),
        names_lead_back(d, data, names),
        in_loaded_shape(d),
    ensures
        alike(template_cells(t, data, names), d.grid.cells@),
        modules_placed(t.modules@, data, t.modules@.len() as int) == placed_views(d.grid.modules@),
        techs_of(t.tech_gates@, t.tech_gates@.len() as int) == d.tech_gates@,
        gates_complete(d.grid, d.tech_gates@, data) ==> design_gates(d.grid, d.tech_gates@, data)
            == d.tech_gates@,
{
    if gates_complete(d.grid, d.tech_gates@, data) {
        complete_gates_stay(d.grid, d.tech_gates@, data);
    }
    let n = t.modules@.len() as int;
    let plain = cells_meant(t.cells@, data, names);
    placed_like_claims(plain, t, d, data, names, n);
    assert(d.grid.modules@.take(n) =~= d.grid.modules@);
    let bare = unclaimed(d.grid.cells@);
    assert forall|i: int| 0 <= i < plain.len() implies {
        &&& (#[trigger] plain[i]).0 == bare[i].0
        &&& plain[i].1 == VehicleCell { durability: plain[i].1.durability, ..bare[i].1 }
    } by {
        let c = d.grid.cells@[i];
        assert(writes_cell(t.cells@[i], c, data, names));
        assert(names.id_spec(t.cells@[i].material@) == Some(c.1.material));
        assert(variant_meant(t.cells@[i].variant, data) == c.1.variant) by {
            match c.1.variant {
                Some(v) => {
                    assert(label_of(Some(v), data) is Some);
                },
                None => {},
            }
        }
    }
    modules_keep_alike(plain, bare, d.grid.modules@, n);
    techs_lead_back(t, d.tech_gates@, d.tech_gates@.len() as int);
    assert(d.tech_gates@.take(d.tech_gates@.len() as int) =~= d.tech_gates@);
}

/// A text stands in another from the place `k` on.
pub open spec fn stands_at(name: Seq<char>, part: Seq<char>, k: int) -> bool {
    &&& 0 <= k
    &&& k + part.len() <= name.len()
    &&& name.subrange(k, k + part.len()) == part
}

fn stands_in(name: &str, part: &str, k: usize) -> (b: bool)
    requires
        k <= name@.len(),
    ensures
        b == stands_at(name@, part@, k as int),
{
    let all: usize = name.unicode_len();
    let n: usize = part.unicode_len();
    if all - k < n {
        return false;
    }
    let mut i: usize = 0;
    while i < n
        invariant
            i <= n,
            n == part@.len(),
            all == name@.len(),
            k + n <= all,
            forall|j: int| 0 <= j < i ==> name@[k + j] == #[trigger] part@[j],
        decreases n - i,
    {
        if name.get_char(k + i) != part.get_char(i) {
            assert(name@.subrange(k as int, k + n)[i as int] != part@[i as int]);
            return false;
        }
        i += 1;
    }
    assert(name@.subrange(k as int, k + n) =~= part@);
    true
}

/// A file of this name is read: it has the extension `ron`, and something before it.
pub open spec fn is_vehicle_file(name: Seq<char>) -> bool {
    name.len() > 4 && stands_at(name, ".ron"@, name.len() - 4)
}

/// Whether a file of the vehicles directory is read, by its name, and if so whether its designs
/// count as the player's own: those of files whose names begin with `user_` do.
pub open spec fn origin_of(name: Seq<char>) -> Option<bool> {
    if is_vehicle_file(name) {
        Some(stands_at(name, "user_"@, 0))
    } else {
        None
    }
}

/// What a file of the vehicles directory is, by its name: nothing that is read, or a file whose
/// designs count as the player's own, or not.
pub fn file_origin(name: &str) -> (r: Option<bool>)
    ensures
        r == origin_of(name@),
{
    let n: usize = name.unicode_len();
    if n > 4 && stands_in(name, ".ron", n - 4) {
        Some(stands_in(name, "user_", 0))
    } else {
        None
    }
}

/// The file that a design of this name is saved in.
pub open spec fn saved_name(design: Seq<char>) -> Seq<char> {
    "user_"@ + slug_of(design) + ".ron"@
}

/// The name of the file that a design is saved in.
pub fn saved_file_name(design: &str) -> (name: String)
    ensures
        name@ == saved_name(design@),
{
    let stem = slugify(design);
    let start = joined("user_", stem.as_str());
    joined(start.as_str(), ".ron")
}

/// A saved design is read again at the next start, as the player's own.
pub proof fn saved_files_are_the_players(design: Seq<char>)
    ensures
        origin_of(saved_name(design)) == Some(true),
{
    let name = saved_name(design);
    reveal_strlit("user_");
    reveal_strlit(".ron");
    assert(name.subrange(0, 5) =~= "user_"@);
    assert(name.subrange(name.len() - 4, name.len() as int) =~= ".ron"@);
}

/// A written cell is read as it stands: at its place, of its kind, with the variant that its label
/// names; of its material, or of wood where nobody knows that; as durable as the material, or 100
/// where nothing is said of it; and in no module yet.
pub proof fn cells_are_read_as_written(t: CellText, data: VehicleData, names: ResourceNames)
    ensures
        ({
            let c = cell_meant(t, data, names);
            &&& c.0 == t.pos && c.1.kind == t.kind && c.1.module_id is None
            &&& names.id_spec(t.material@) matches Some(rid) ==> c.1.material == rid
            &&& names.id_spec(t.material@) is None ==> c.1.material == data.wood
            &&& data.material_spec(c.1.material) matches Some(m) ==> c.1.durability == m.durability
            &&& data.material_spec(c.1.material) is None ==> c.1.durability == 100
            &&& t.variant is None ==> c.1.variant is None
            &&& t.variant is Some && c.1.variant is Some ==> exists|i: int|
                0 <= i < data.variants@.len() && (#[trigger] data.variants@[i]).label@
                    == (t.variant->0)@ && Some(data.variants@[i].id) == c.1.variant
        }),
{
    if t.variant is Some {
        let p = variant_labelled((t.variant->0)@);
        find_is_none(data.variants@, p);
        if find(data.variants@, p) is Some {
            let v = find(data.variants@, p)->0;
            let i = choose|i: int| 0 <= i < data.variants@.len() && data.variants@[i] == v;
            assert(data.variants@[i].label@ == (t.variant->0)@);
        }
    }
}

/// A module claims the first cell at each place that it names; a claim changes whose a cell is and
/// nothing else, and no other cell.
pub proof fn claims_change_the_owner_only(
    cells: Seq<(IVec3, VehicleCell)>,
    pos: IVec3,
    id: VehicleModuleId,
    k: int,
    i: int,
)
    requires
        0 <= k < cells.len(),
        cells[k].0 == pos,
        forall|j: int| 0 <= j < k ==> (#[trigger] cells[j]).0 != pos,
        0 <= i < cells.len(),
    ensures
        ({
            let after = claim_one(cells, pos, id);
            &&& after.len() == cells.len()
            &&& after[k].1.module_id == Some(id)
            &&& after[k].0 == pos && after[k].1.kind == cells[k].1.kind && after[k].1.material
                == cells[k].1.material && after[k].1.durability == cells[k].1.durability
                && after[k].1.variant == cells[k].1.variant
            &&& i != k ==> after[i] == cells[i]
        }),
{
    assert(first_at(cells, pos, k));
    let m = choose|m: int| first_at(cells, pos, m);
    if m < k {
        assert(cells[m].0 != pos);
    } else if k < m {
        assert(cells[k].0 != pos);
    }
}

/// A template's design has its name, purpose, team and body; it is nobody's own and of the first
/// revision, asks for every technology that the template names, and is the player's if its file
/// is.
pub proof fn designs_are_what_templates_say(
    t: TemplateText,
    data: VehicleData,
    from_user_file: bool,
    grid: VehicleGrid,
    d: VehicleDesign,
    k: int,
)
    requires
        design_meant(t, data, from_user_file, grid, d),
    ensures
        d.name@ == t.name@,
        d.allowed_purpose == t.purpose,
        d.required_animals == t.required_animals,
        d.author_faction is None,
        d.from_user_file == from_user_file,
        0 <= k < t.tech_gates@.len() && tech_named(t.tech_gates@[k]@) is Some
            ==> d.tech_gates@.contains(tech_named(t.tech_gates@[k]@)->0),
{
    let base = techs_of(t.tech_gates@, t.tech_gates@.len() as int);
    if 0 <= k < t.tech_gates@.len() && tech_named(t.tech_gates@[k]@) is Some {
        let p = |i: int| tech_named(t.tech_gates@[i]@) is Some;
        let mk = |i: int| tech_named(t.tech_gates@[i]@)->0;
        crate::seqs::collect_contains(t.tech_gates@.len() as int, p, mk, mk(k));
        assert(p(k));
        assert(base.contains(mk(k)));
        crate::tech::design_gates_are_the_union(grid, base, data, mk(k));
    }
}

/// Files are read by their names: only those with something before the extension, and as the
/// player's own only those whose name begins with `user_`.
pub proof fn files_are_known_by_their_names(stem: Seq<char>)
    ensures
        stem.len() > 0 ==> origin_of(stem + ".ron"@) is Some,
        origin_of(".ron"@) is None,
        stem.len() > 0 ==> origin_of("user_"@ + stem + ".ron"@) == Some(true),
        stem.len() > 0 && stem[0] != 'u' ==> origin_of(stem + ".ron"@) == Some(false),
{
    reveal_strlit("user_");
    reveal_strlit(".ron");
    let a = stem + ".ron"@;
    let b = "user_"@ + stem + ".ron"@;
    assert(a.subrange(a.len() - 4, a.len() as int) =~= ".ron"@);
    assert(b.subrange(b.len() - 4, b.len() as int) =~= ".ron"@);
    assert(b.subrange(0, 5) =~= "user_"@);
    if stem.len() > 0 && stem[0] != 'u' && stands_at(a, "user_"@, 0) {
        assert(a.subrange(0, 5)[0] == 'u');
        assert(a[0] == stem[0]);
    }
}

} // verus!
