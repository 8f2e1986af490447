//! The sharded map behind the store, and what is taken on trust about it.
//!
//! The map is `dashmap::DashMap`. Verus does not read its code: each function
//! below that calls it states what the call does to the map's entries, and
//! that statement is believed, not proved. The functions that change the map
//! take it by `&mut`, although the map's own methods take `&self`: the
//! statements are about one caller at a time. The map documents that a
//! change made while a guard into it is held may deadlock. A guard borrows
//! the map, so none is in scope where the map is borrowed exclusively; a
//! guard that was leaked, not dropped, still holds its lock, and a caller
//! that leaks one must not change the map afterwards.
use crate::state::datastate::DataWrapper;
use crate::state::datastate::EntryView;
use dashmap::mapref::one::Ref;
use dashmap::DashMap;
use vstd::prelude::*;

verus! {

/// Declares `dashmap::DashMap`, of which nothing is known but what the
/// functions below state.
#[verifier::external_type_specification]
#[verifier::external_body]
#[verifier::reject_recursive_types(K)]
#[verifier::reject_recursive_types(V)]
#[verifier::reject_recursive_types(S)]
pub struct ExDashMap<K, V, S>(DashMap<K, V, S>);

/// Declares `dashmap::mapref::one::Ref`, the guard through which an entry
/// of the map is read.
#[verifier::external_type_specification]
#[verifier::external_body]
#[verifier::reject_recursive_types(K)]
#[verifier::reject_recursive_types(V)]
#[verifier::reject_recursive_types(S)]
pub struct ExRef<'a, K, V, S>(Ref<'a, K, V, S>);

/// The entries of a map: each key that is present, with what is stored under
/// it.
pub uninterp spec fn entries_of(table: DashMap<String, DataWrapper>) -> Map<Seq<char>, EntryView>;

/// The entry that a guard gives access to.
pub uninterp spec fn guarded_by(guard: Ref<'_, String, DataWrapper>) -> EntryView;

/// Calls `DashMap::new`. Trusted: the new map has no entries.
#[verifier::external_body]
pub(crate) fn table_new() -> (table: DashMap<String, DataWrapper>)
    ensures
        entries_of(table).dom().finite(),
        forall|k: Seq<char>| !entries_of(table).contains_key(k),
{
    DashMap::new()
}

/// Calls `DashMap::insert`. Trusted: afterwards the key holds the value, and
/// every other key holds what it held.
#[verifier::external_body]
pub(crate) fn table_insert(
    table: &mut DashMap<String, DataWrapper>,
    key: String,
    value: DataWrapper,
)
    ensures
        entries_of(*final(table)) == entries_of(*old(table)).insert(key@, value@),
{
    table.insert(key, value);
}

/// Calls `DashMap::remove`. Trusted: afterwards the key is absent and every
/// other key holds what it held; the result is what the key held, or `None`
/// where it was absent.
#[verifier::external_body]
pub(crate) fn table_remove(table: &mut DashMap<String, DataWrapper>, key: &str) -> (r: Option<
    DataWrapper,
>)
    ensures
        entries_of(*final(table)) == entries_of(*old(table)).remove(key@),
        r is Some <==> entries_of(*old(table)).contains_key(key@),
        r matches Some(w) ==> w@ == entries_of(*old(table))[key@],
{
    table.remove(key).map(|kv| kv.1)
}

/// Calls `DashMap::get`. Trusted: the result is a guard for the key's entry,
/// or `None` where the key is absent.
#[verifier::external_body]
pub(crate) fn table_get<'a>(table: &'a DashMap<String, DataWrapper>, key: &str) -> (r: Option<
    Ref<'a, String, DataWrapper>,
>)
    ensures
        r is Some <==> entries_of(*table).contains_key(key@),
        r matches Some(g) ==> guarded_by(g) == entries_of(*table)[key@],
{
    table.get(key)
}

/// Calls `Ref::value`. Trusted: the result is the entry that the guard is
/// for.
#[verifier::external_body]
pub(crate) fn guarded<'a, 'b>(guard: &'b Ref<'a, String, DataWrapper>) -> (w: &'b DataWrapper)
    ensures
        w@ == guarded_by(*guard),
{
    guard.value()
}

/// Calls `DashMap::len`. Trusted: the result is the number of entries.
#[verifier::external_body]
pub(crate) fn table_len(table: &DashMap<String, DataWrapper>) -> (n: usize)
    ensures
        n == entries_of(*table).len(),
{
    table.len()
}

/// Calls `DashMap::shrink_to_fit`. Trusted: the entries stay as they are.
#[verifier::external_body]
pub(crate) fn table_shrink(table: &mut DashMap<String, DataWrapper>)
    ensures
        entries_of(*final(table)) == entries_of(*old(table)),
{
    table.shrink_to_fit();
}

/// Calls `DashMap::iter` and hands out each entry's key and expiry. Trusted:
/// every pair of the result is a key of the map with its entry's expiry, and
/// every key of the map is in some pair.
#[verifier::external_body]
pub(crate) fn table_expiries(table: &DashMap<String, DataWrapper>) -> (r: Vec<(String, u64)>)
    ensures
        forall|i: int|
            0 <= i < r@.len() ==> entries_of(*table).contains_key((#[trigger] r@[i]).0@)
                && entries_of(*table)[r@[i].0@].expire == r@[i].1,
        forall|k: Seq<char>|
            entries_of(*table).contains_key(k) ==> exists|i: int|
                0 <= i < r@.len() && (#[trigger] r@[i]).0@ == k,
{
    table.iter().map(|kv| (kv.key().clone(), kv.value().expire_raw())).collect()
}

} // verus!
