//! Trusted declarations for the outside crates this collector builds on:
//! dashmap's concurrent sets (generation membership), num_cpus (pool sizing),
//! rayon (the worker pool), and std's `TypeId` (the header's type tag).
use vstd::prelude::*;

verus! {

#[verifier::external_type_specification]
#[verifier::external_body]
#[verifier::reject_recursive_types(K)]
#[verifier::reject_recursive_types(S)]
pub struct ExDashSet<K, S>(dashmap::DashSet<K, S>);

#[verifier::external_type_specification]
#[verifier::external_body]
pub struct ExThreadPool(rayon::ThreadPool);

#[verifier::external_type_specification]
#[verifier::external_body]
pub struct ExTypeId(core::any::TypeId);

/// A concurrent set of object identities; each generation's membership
/// lists are kept in these.
pub type IdSet = dashmap::DashSet<usize, std::collections::hash_map::RandomState>;

/// The mathematical contents of an identity set.
pub uninterp spec fn id_set_view(s: IdSet) -> Set<usize>;

/// Relies on dashmap's `DashSet::new`: creates an empty set.
#[verifier::external_body]
pub(crate) fn new_id_set() -> (s: IdSet)
    ensures
        id_set_view(s) == Set::<usize>::empty(),
        id_set_view(s).finite(),
{
    dashmap::DashSet::new()
}

/// Relies on dashmap's `DashSet::insert`: inserts the value and returns true
/// exactly when it was not yet present.
#[verifier::external_body]
pub(crate) fn id_set_insert(s: &mut IdSet, v: usize) -> (r: bool)
    ensures
        id_set_view(*final(s)) == id_set_view(*old(s)).insert(v),
        r == !id_set_view(*old(s)).contains(v),
        id_set_view(*old(s)).finite() ==> id_set_view(*final(s)).finite(),
{
    s.insert(v)
}

/// Relies on dashmap's `DashSet::remove`: removes the value, returning `Some`
/// exactly when it was present.
#[verifier::external_body]
pub(crate) fn id_set_remove(s: &mut IdSet, v: usize) -> (r: bool)
    ensures
        id_set_view(*final(s)) == id_set_view(*old(s)).remove(v),
        r == id_set_view(*old(s)).contains(v),
        id_set_view(*old(s)).finite() ==> id_set_view(*final(s)).finite(),
{
    s.remove(&v).is_some()
}

/// Relies on dashmap's `DashSet::contains`.
#[verifier::external_body]
pub(crate) fn id_set_contains(s: &IdSet, v: usize) -> (r: bool)
    ensures
        r == id_set_view(*s).contains(v),
{
    s.contains(&v)
}

/// Relies on dashmap's `DashSet::clear`: removes every value.
#[verifier::external_body]
pub(crate) fn id_set_clear(s: &mut IdSet)
    ensures
        id_set_view(*final(s)) == Set::<usize>::empty(),
        id_set_view(*final(s)).finite(),
{
    s.clear()
}

/// Relies on dashmap's `DashSet::iter`: yields each element of the set exactly
/// once, in no particular order.
#[verifier::external_body]
pub(crate) fn id_set_to_vec(s: &IdSet) -> (r: Vec<usize>)
    ensures
        r@.to_set() == id_set_view(*s),
        r@.no_duplicates(),
{
    s.iter().map(|x| *x).collect()
}

/// Relies on dashmap's `DashSet::is_empty`.
#[verifier::external_body]
pub(crate) fn id_set_is_empty(s: &IdSet) -> (r: bool)
    ensures
        r == (id_set_view(*s) == Set::<usize>::empty()),
{
    s.is_empty()
}

/// Relies on num_cpus's `get`: the number of logical cores, always at least 1.
#[verifier::external_body]
pub(crate) fn num_cpus_get() -> (r: usize)
    ensures
        r >= 1,
{
    num_cpus::get()
}

/// Relies on rayon's `ThreadPoolBuilder`: builds a pool with the requested
/// number of worker threads (0 asks rayon for its default). `None` when the
/// pool could not be built.
#[verifier::external_body]
pub(crate) fn build_thread_pool(n: usize) -> (r: Option<rayon::ThreadPool>)
{
    match rayon::ThreadPoolBuilder::new().num_threads(n).build() {
        Ok(p) => Some(p),
        Err(_) => None,
    }
}

/// Relies on std's `TypeId::of`: the opaque identity of a managed type, stored
/// in each object header as its type tag.
pub assume_specification<T: ?Sized + 'static>[ core::any::TypeId::of::<T> ]() -> core::any::TypeId;

} // verus!
