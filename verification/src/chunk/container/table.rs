//! The hash map that files chunks under their ids.

use vstd::prelude::*;

use crate::chunk::Chunk;

verus! {

/// A `bevy::utils::HashMap` from chunk id to chunk.
#[verifier::external_body]
pub struct ChunkTable {
    map: bevy::utils::HashMap<i32, Chunk>,
}

/// The chunks that a table holds, by id.
pub uninterp spec fn table_entries(table: ChunkTable) -> Map<i32, Chunk>;

/// `HashMap::default`: a table without entries.
#[verifier::external_body]
pub(crate) fn table_new() -> (table: ChunkTable)
    ensures
        table_entries(table).dom() == Set::<i32>::empty(),
{
    ChunkTable { map: bevy::utils::HashMap::default() }
}

/// `HashMap::get`: the chunk filed under `id`, if there is one.
#[verifier::external_body]
pub(crate) fn table_get(table: &ChunkTable, id: i32) -> (chunk: Option<&Chunk>)
    ensures
        chunk is Some <==> table_entries(*table).contains_key(id),
        chunk matches Some(c) ==> *c == table_entries(*table)[id],
{
    table.map.get(&id)
}

/// `HashMap::get_mut`: the chunk filed under `id`, if there is one, for
/// writing. What is written becomes the entry; no other entry changes.
#[verifier::external_body]
pub(crate) fn table_get_mut(table: &mut ChunkTable, id: i32) -> (chunk: Option<&mut Chunk>)
    ensures
        chunk is Some <==> table_entries(*old(table)).contains_key(id),
        chunk is None ==> table_entries(*final(table)) == table_entries(*old(table)),
        chunk matches Some(c) ==> *c == table_entries(*old(table))[id] && table_entries(
            *final(table),
        ) == table_entries(*old(table)).insert(id, *final(c)),
{
    table.map.get_mut(&id)
}

/// `HashMap::insert`: files `chunk` under `id` and hands back the chunk that
/// was filed there before, if there was one.
#[verifier::external_body]
pub(crate) fn table_insert(table: &mut ChunkTable, id: i32, chunk: Chunk) -> (before: Option<
    Chunk,
>)
    ensures
        table_entries(*final(table)) == table_entries(*old(table)).insert(id, chunk),
        before is Some <==> table_entries(*old(table)).contains_key(id),
        before matches Some(c) ==> c == table_entries(*old(table))[id],
{
    table.map.insert(id, chunk)
}

/// `HashMap::keys`, copied into a vector: every id of the table. The order is
/// the map's own and differs from run to run, so nothing is stated of it.
#[verifier::external_body]
pub(crate) fn table_keys(table: &ChunkTable) -> (ids: Vec<i32>)
    ensures
        forall|id: i32| ids@.contains(id) <==> table_entries(*table).contains_key(id),
{
    table.map.keys().copied().collect()
}

} // verus!
