//! The materials of the blocks, by block id and by block kind.

use vstd::prelude::*;

verus! {

/// What a block is made of.
#[derive(Clone, Copy, Debug, PartialEq, Eq, Structural)]
pub struct Material {}

/// A kind of block, which has one block id.
pub trait BlockKind {
    spec fn block_id() -> u8;

    fn id() -> (id: u8)
        ensures
            id == Self::block_id(),
    ;
}

pub struct Void;

pub struct Grass;

pub struct Stone;

pub struct Water;

pub struct Sand;

impl BlockKind for Void {
    open spec fn block_id() -> u8 {
        0
    }

    fn id() -> (id: u8) {
        0
    }
}

impl BlockKind for Grass {
    open spec fn block_id() -> u8 {
        1
    }

    fn id() -> (id: u8) {
        1
    }
}

impl BlockKind for Stone {
    open spec fn block_id() -> u8 {
        2
    }

    fn id() -> (id: u8) {
        2
    }
}

impl BlockKind for Water {
    open spec fn block_id() -> u8 {
        3
    }

    fn id() -> (id: u8) {
        3
    }
}

impl BlockKind for Sand {
    open spec fn block_id() -> u8 {
        4
    }

    fn id() -> (id: u8) {
        4
    }
}

/// A `bevy::utils::HashMap` from block id to material.
#[verifier::external_body]
pub struct MaterialTable {
    map: bevy::utils::HashMap<u8, Material>,
}

/// The materials that a table holds, by block id.
pub uninterp spec fn material_entries(table: MaterialTable) -> Map<u8, Material>;

/// `HashMap::default`: a table without entries.
#[verifier::external_body]
fn material_table_new() -> (table: MaterialTable)
    ensures
        material_entries(table).dom() == Set::<u8>::empty(),
{
    MaterialTable { map: bevy::utils::HashMap::default() }
}

/// `HashMap::insert`: files `material` under `id` and hands back the material
/// that was filed there before, if there was one.
#[verifier::external_body]
fn material_table_insert(table: &mut MaterialTable, id: u8, material: Material) -> (before: Option<
    Material,
>)
    ensures
        material_entries(*final(table)) == material_entries(*old(table)).insert(id, material),
        before is Some <==> material_entries(*old(table)).contains_key(id),
        before matches Some(m) ==> m == material_entries(*old(table))[id],
{
    table.map.insert(id, material)
}

/// `HashMap::get`: the material filed under `id`, if there is one.
#[verifier::external_body]
fn material_table_get(table: &MaterialTable, id: u8) -> (material: Option<&Material>)
    ensures
        material is Some <==> material_entries(*table).contains_key(id),
        material matches Some(m) ==> *m == material_entries(*table)[id],
{
    table.map.get(&id)
}

/// The materials that are known, by block id.
pub struct Materials {
    id_map: MaterialTable,
}

impl View for Materials {
    type V = Map<u8, Material>;

    closed spec fn view(&self) -> Map<u8, Material> {
        material_entries(self.id_map)
    }
}

impl Materials {
    /// No material is known.
    pub fn new() -> (materials: Materials)
        ensures
            materials@.dom() == Set::<u8>::empty(),
    {
        Materials { id_map: material_table_new() }
    }

    /// The material of the block id `id`, if it is known.
    pub fn get_from_id(&self, id: &u8) -> (material: Option<&Material>)
        ensures
            material is Some <==> self@.contains_key(*id),
            material matches Some(m) ==> *m == self@[*id],
    {
        material_table_get(&self.id_map, *id)
    }

    /// The material of the block kind `T`, if it is known.
    pub fn get<T: BlockKind>(&self) -> (material: Option<&Material>)
        ensures
            material is Some <==> self@.contains_key(T::block_id()),
            material matches Some(m) ==> *m == self@[T::block_id()],
    {
        let id = T::id();
        self.get_from_id(&id)
    }
}

pub struct MaterialPlugin;

impl MaterialPlugin {
    /// Makes the materials of the five block kinds known, and no others.
    pub fn init_materials(materials: &mut Materials)
        ensures
            final(materials)@.dom() == set![0u8, 1u8, 2u8, 3u8, 4u8],
    {
        let mut id_map = material_table_new();
        let mut id: u8 = 0;
        while id < 5
            invariant
                id <= 5,
                material_entries(id_map).dom() == Set::new(|known: u8| known < id),
            decreases 5 - id,
        {
            let _ = material_table_insert(&mut id_map, id, Material {  });
            assert(material_entries(id_map).dom() =~= Set::new(|known: u8| known < id + 1));
            id += 1;
        }
        assert(material_entries(id_map).dom() =~= set![0u8, 1u8, 2u8, 3u8, 4u8]);
        materials.id_map = id_map;
    }
}

} // verus!
