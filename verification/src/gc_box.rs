//! Object headers and the three handle flavors: owning (`GCBox`), read-only
//! (`GCRef`), and write-barriered (`GCMut`). A handle names its object by the
//! stable identity its allocation got from the arena; two handles are equal
//! exactly when they name the same allocation.
use vstd::prelude::*;

use crate::frame::{alloc_fits, block_size, GCFrame};
use crate::shim::{id_set_insert, id_set_view};
use crate::state::{GCError, GCStage, MinorGCStage, Monitoring, State};
use crate::trace::Trace;
use vstd::std_specs::cmp::PartialEqSpec;

verus! {

/// Which generation an object currently belongs to.
#[derive(Clone, Copy, PartialEq, Eq, Structural, Debug)]
pub enum Generation {
    Minor,
    Major,
    Immortal,
}

/// Per-object metadata, one header per managed allocation.
pub struct GCHeader {
    /// Completed collection cycles the object has survived; starts at 1.
    pub liveness: usize,
    /// Set while a mark phase has found the object reachable.
    pub marked: bool,
    /// Excludes the object from future relocation decisions; defensive only.
    pub pined: bool,
    /// The generation whose live set currently holds the object.
    pub generation: Generation,
    /// Opaque tag identifying the concrete managed type.
    pub type_id: core::any::TypeId,
}

impl GCHeader {
    /// Resets the header for a freshly obtained block holding a `T`: type tag
    /// set, liveness back to 1, mark cleared. Called exactly once, before any
    /// handle to the object is published.
    pub fn init<T: Trace>(&mut self)
        ensures
            final(self).liveness == 1,
            !final(self).marked,
            final(self).pined == old(self).pined,
            final(self).generation == old(self).generation,
    {
        self.type_id = core::any::TypeId::of::<T>();
        self.liveness = 1;
        self.marked = false;
    }
}

/// The identity of one managed allocation: a typed view over the arena slot
/// that holds the object's header and data.
pub struct GCCell<T: Trace> {
    pub id: usize,
    pub phantom: core::marker::PhantomData<T>,
}

impl<T: Trace> GCCell<T> {
    pub open spec fn same_object<U: Trace>(self, other: GCCell<U>) -> bool {
        self.id == other.id
    }

    /// Whether two handles, possibly of different typed views, refer to the
    /// same allocation.
    pub fn same_allocation<U: Trace>(&self, other: &GCCell<U>) -> (r: bool)
        ensures
            r == self.same_object(*other),
    {
        self.id == other.id
    }
}

impl<T: Trace> Clone for GCCell<T> {
    fn clone(&self) -> (r: Self)
        ensures
            r == *self,
    {
        GCCell { id: self.id, phantom: core::marker::PhantomData }
    }
}

impl<T: Trace> Copy for GCCell<T> {}

/// Handle equality is identity of the underlying allocation, never equality
/// of the data it holds.
impl<T: Trace> PartialEq for GCCell<T> {
    fn eq(&self, other: &Self) -> (r: bool) {
        self.id == other.id
    }
}

impl<T: Trace> Eq for GCCell<T> {}

impl<T: Trace> vstd::std_specs::cmp::PartialEqSpecImpl for GCCell<T> {
    open spec fn obeys_eq_spec() -> bool {
        true
    }

    open spec fn eq_spec(&self, other: &Self) -> bool {
        self.id == other.id
    }
}

/// Handles compare by allocation identity alone: handles to separately
/// allocated objects are unequal, and any two handles derived from one
/// allocation are equal, whatever the data holds.
pub proof fn lemma_handle_identity<T: Trace>(a: GCCell<T>, b: GCCell<T>)
    ensures
        a.eq_spec(&b) <==> a.id == b.id,
        a.id != b.id ==> !a.eq_spec(&b),
        a.id == b.id ==> a.eq_spec(&b),
{
}

/// The owning handle: the binding through which new reads and barriered
/// writes of the object should be obtained.
pub struct GCBox<T: Trace> {
    pub cell: GCCell<T>,
    pub value: T,
}

/// A read-only handle: dereferences to immutable data and performs no
/// barrier bookkeeping.
pub struct GCRef<'a, T: Trace> {
    pub cell: GCCell<T>,
    pub data: &'a T,
}

impl<'a, T: Trace> GCRef<'a, T> {
    pub fn get(&self) -> (r: &'a T)
        ensures
            r == self.data,
    {
        self.data
    }
}

/// The write barrier: a scoped acquisition of write access. Releasing it
/// re-queues the object for rescan when the data changed under it, or when
/// the collector was marking concurrently while it was held.
pub struct GCMut<T: Trace> {
    pub cell: GCCell<T>,
    /// Whether the data was written through this guard; the analogue of the
    /// recorded acquisition pointer differing from the release pointer.
    pub dirty: bool,
}

impl<T: Trace> GCBox<T> {
    /// Allocates `value` through `frame` and binds the owning handle to the
    /// fresh identity.
    pub fn new<M: Monitoring>(frame: &mut GCFrame, state: &mut State<M>, value: T) -> (r: Result<
        GCBox<T>,
        GCError,
    >)
        requires
            old(state).wf(),
            old(frame).wf_for(*old(state)),
            !old(state).stw,
            old(state).minor_stage == MinorGCStage::Ready,
        ensures
            final(state).wf(),
            final(frame).wf_for(*final(state)),
            r is Ok <==> alloc_fits(*old(state), block_size::<T>()),
            r is Err ==> *final(state) == *old(state),
            r matches Ok(b) ==> {
                &&& b.cell.id == old(state).objects@.len()
                &&& b.value == value
                &&& final(state).objects@.len() == old(state).objects@.len() + 1
                &&& final(state).objects@[b.cell.id as int].header.liveness == 1
                &&& !final(state).objects@[b.cell.id as int].header.marked
                &&& final(state).objects@[b.cell.id as int].header.generation == Generation::Minor
                &&& final(state).minor_heap_size == old(state).minor_heap_size + block_size::<T>()
                &&& id_set_view(final(state).minor_heap_gen) == id_set_view(
                    old(state).minor_heap_gen,
                ).insert(b.cell.id)
            },
    {
        match frame.allocate_gc_cell(state, &value) {
            Ok(cell) => Ok(GCBox { cell, value }),
            Err(e) => Err(e),
        }
    }

    /// A read-only view of the object; no barrier bookkeeping.
    pub fn read(&self) -> (r: GCRef<'_, T>)
        ensures
            r.cell == self.cell,
            r.data == &self.value,
    {
        GCRef { cell: self.cell, data: &self.value }
    }

    pub fn get(&self) -> (r: &T)
        ensures
            r == &self.value,
    {
        &self.value
    }

    /// Acquires scoped write access, recording the state of the data at
    /// acquisition time.
    pub fn acquire_write(&self) -> (g: GCMut<T>)
        ensures
            g.cell == self.cell,
            !g.dirty,
    {
        GCMut { cell: self.cell, dirty: false }
    }

    /// Writes through the guard; the guard remembers that the data changed.
    pub fn set(&mut self, guard: &mut GCMut<T>, value: T)
        requires
            old(guard).cell == old(self).cell,
        ensures
            final(self).cell == old(self).cell,
            final(self).value == value,
            final(guard).cell == old(guard).cell,
            final(guard).dirty,
    {
        self.value = value;
        guard.dirty = true;
    }

    /// Releases the write guard. Runs the incremental-update barrier: if the
    /// data changed while the guard was held, or the collector is currently
    /// in its concurrent marking stage, the object's recorded references are
    /// refreshed and its identity is appended to the major rescan list, so
    /// the final scan is guaranteed to revisit mutations made during
    /// concurrent marking.
    pub fn release_write<M: Monitoring>(&self, guard: GCMut<T>, state: &mut State<M>)
        requires
            guard.cell == self.cell,
            self.cell.id < old(state).objects@.len(),
            old(state).wf(),
            !old(state).stw,
        ensures
            final(state).wf(),
            (guard.dirty || old(state).gc_stage == GCStage::ParallelScan) ==> id_set_view(
                final(state).major_heap_rescan_list,
            ) == id_set_view(old(state).major_heap_rescan_list).insert(self.cell.id),
            !(guard.dirty || old(state).gc_stage == GCStage::ParallelScan) ==> *final(state)
                == *old(state),
            final(state).objects@.len() == old(state).objects@.len(),
            forall|i: int|
                0 <= i < old(state).objects@.len() && i != self.cell.id
                    ==> final(state).objects@[i] == old(state).objects@[i],
            final(state).objects@[self.cell.id as int].header
                == old(state).objects@[self.cell.id as int].header,
            final(state).objects@[self.cell.id as int].size
                == old(state).objects@[self.cell.id as int].size,
            final(state).objects@[self.cell.id as int].freed
                == old(state).objects@[self.cell.id as int].freed,
            *final(state) == (State {
                objects: final(state).objects,
                major_heap_rescan_list: final(state).major_heap_rescan_list,
                ..*old(state)
            }),
    {
        let concurrent = match state.gc_stage {
            GCStage::ParallelScan => true,
            _ => false,
        };
        if guard.dirty || concurrent {
            let id = self.cell.id;
            let edges = self.value.trace();
            let ghost old_objects = state.objects@;
            let ghost old_slot = state.objects@[id as int];
            state.objects[id].edges = edges;
            proof {
                let new_slot = state.objects@[id as int];
                crate::arena::lemma_slots_sum_update(
                    old_objects,
                    crate::arena::w_bytes(Generation::Minor),
                    id as int,
                    new_slot,
                );
                crate::arena::lemma_slots_sum_update(
                    old_objects,
                    crate::arena::w_bytes(Generation::Major),
                    id as int,
                    new_slot,
                );
                crate::arena::lemma_slots_sum_update(
                    old_objects,
                    crate::arena::w_bytes(Generation::Immortal),
                    id as int,
                    new_slot,
                );
            }
            id_set_insert(&mut state.major_heap_rescan_list, id);
        }
    }
}

} // verus!
