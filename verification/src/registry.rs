//! The query registry: one writer registers standing queries while any
//! number of readers walk point-in-time snapshots of them without blocking.

use vstd::prelude::*;
use std::collections::hash_map::RandomState;
use std::hash::{BuildHasher, Hash};
use flashmap::{ReadHandle, WriteHandle};
use crate::records::{PersistentQuery, QueryModel};

verus! {

/// The writing half of a `flashmap` map, carried as an opaque value.
#[verifier::external_type_specification]
#[verifier::external_body]
#[verifier::reject_recursive_types(K)]
#[verifier::reject_recursive_types(V)]
#[verifier::reject_recursive_types(S)]
pub struct ExWriteHandle<K, V, S>(WriteHandle<K, V, S>) where K: Hash + Eq, S: BuildHasher;

/// A reading half of a `flashmap` map, carried as an opaque value.
#[verifier::external_type_specification]
#[verifier::external_body]
#[verifier::reject_recursive_types(K)]
#[verifier::reject_recursive_types(V)]
#[verifier::reject_recursive_types(S)]
pub struct ExReadHandle<K, V, S>(ReadHandle<K, V, S>);

/// The queries that the writer of a registry has put in, by key, as the
/// writer itself sees them through a write guard.
pub uninterp spec fn registered(writer: WriteHandle<u64, PersistentQuery, RandomState>) -> Map<
    u64,
    QueryModel,
>;

/// The registry that holds no query.
pub open spec fn no_queries() -> Map<u64, QueryModel> {
    Map::empty()
}

/// Every query stands under its own id.
pub open spec fn keyed_by_id(queries: Map<u64, QueryModel>) -> bool {
    forall|id: u64| queries.contains_key(id) ==> (#[trigger] queries[id]).id == id
}

/// The two halves of a freshly made map.
struct Halves {
    writer: WriteHandle<u64, PersistentQuery, RandomState>,
    reader: ReadHandle<u64, PersistentQuery, RandomState>,
}

/// Makes a map with `flashmap::with_capacity` and hands out its two halves.
/// The map starts empty; the capacity only sizes its first allocation.
#[verifier::external_body]
fn flashmap_with_capacity(capacity: usize) -> (halves: Halves)
    ensures
        registered(halves.writer) == no_queries(),
{
    let (writer, reader) = flashmap::with_capacity(capacity);
    Halves { writer, reader }
}

/// Takes a write guard, calls its `insert` and publishes by dropping the
/// guard. The writer's map then holds `query` under `key`, in place of
/// whatever stood there, and is otherwise as before.
#[verifier::external_body]
fn flashmap_insert(
    writer: &mut WriteHandle<u64, PersistentQuery, RandomState>,
    key: u64,
    query: PersistentQuery,
)
    ensures
        registered(*final(writer)) == registered(*old(writer)).insert(key, query@),
{
    writer.guard().insert(key, query);
}

/// Takes a write guard and calls its `get`, cloning what is found. The
/// writer's map is left as it was.
#[verifier::external_body]
fn flashmap_get(writer: &mut WriteHandle<u64, PersistentQuery, RandomState>, key: u64) -> (out:
    Option<PersistentQuery>)
    ensures
        registered(*final(writer)) == registered(*old(writer)),
        out.is_some() <==> registered(*old(writer)).contains_key(key),
        out.is_some() ==> out.unwrap()@ == registered(*old(writer))[key],
{
    writer.guard().get(&key).cloned()
}

/// Takes a read guard and clones every value it shows, in the order in which
/// the guard walks them. Which writes the guard already shows depends on
/// when it is taken, and the order on the map's hasher, so nothing is stated
/// of the outcome.
#[verifier::external_body]
fn flashmap_values(reader: &ReadHandle<u64, PersistentQuery, RandomState>) -> Vec<
    PersistentQuery,
> {
    reader.guard().values().cloned().collect()
}

/// The single writer of the registry.
pub struct QueryWriter {
    inner: WriteHandle<u64, PersistentQuery, RandomState>,
}

/// A reader of the registry. Readers never block the writer, nor the writer
/// them.
pub struct QueryReader {
    inner: ReadHandle<u64, PersistentQuery, RandomState>,
}

/// An empty registry with room for `capacity` queries, as its writer and one
/// reader.
pub fn registry(capacity: usize) -> (halves: (QueryWriter, QueryReader))
    ensures
        halves.0@ == no_queries(),
        keyed_by_id(halves.0@),
{
    let halves = flashmap_with_capacity(capacity);
    (QueryWriter { inner: halves.writer }, QueryReader { inner: halves.reader })
}

impl View for QueryWriter {
    type V = Map<u64, QueryModel>;

    closed spec fn view(&self) -> Map<u64, QueryModel> {
        registered(self.inner)
    }
}

impl QueryWriter {
    /// Registers `query` under its id. A query already registered under that
    /// id is replaced; every other query stays.
    pub fn insert(&mut self, query: PersistentQuery)
        ensures
            final(self)@ == old(self)@.insert(query.id, query@),
            keyed_by_id(old(self)@) ==> keyed_by_id(final(self)@),
    {
        let id = query.id;
        flashmap_insert(&mut self.inner, id, query);
    }

    /// Looks a query up by id.
    pub fn get(&mut self, id: u64) -> (out: Option<PersistentQuery>)
        ensures
            final(self)@ == old(self)@,
            out.is_some() <==> old(self)@.contains_key(id),
            out.is_some() ==> out.unwrap()@ == old(self)@[id],
    {
        flashmap_get(&mut self.inner, id)
    }
}

impl QueryReader {
    /// The queries of the registry as of some instant, in no particular
    /// order. An insert that has only just returned may not show yet.
    pub fn snapshot(&self) -> Vec<PersistentQuery> {
        flashmap_values(&self.inner)
    }
}

/// A query that was registered stays registered, under its own id, through
/// any later insert under another id, and is replaced only by an insert
/// under its own id.
pub proof fn lemma_insert_is_kept(
    before: Map<u64, QueryModel>,
    first: QueryModel,
    second: QueryModel,
)
    ensures
        before.insert(first.id, first).contains_key(first.id),
        before.insert(first.id, first)[first.id] == first,
        before.insert(first.id, first).insert(second.id, second).contains_key(first.id),
        second.id != first.id ==> before.insert(first.id, first).insert(second.id, second)[first.id]
            == first,
        second.id == first.id ==> before.insert(first.id, first).insert(second.id, second)[first.id]
            == second,
{
}

} // verus!
