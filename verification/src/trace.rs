//! The tracing capability: the contract a managed type implements so the
//! marking phases can discover the managed references it owns.
use vstd::prelude::*;

verus! {

/// A managed type exposes every managed object it directly owns, as the
/// identities of their allocations (a handle's `id`). The sequence may be
/// empty (a leaf object) and should be complete: omitting a reachable
/// reference can cause premature reclamation, while a stale identity only
/// causes over-retention — the collector ignores identities that do not name
/// a live object of the generation being scanned.
pub trait Trace: 'static {
    fn trace(&self) -> Vec<usize>;
}

} // verus!
