//! The allocation frame: a scope-bound allocation context. It creates
//! header+data blocks in the arena, registers them with the minor
//! generation, and at teardown reparents the objects that escaped the scope
//! into the global roots.
use vstd::prelude::*;

use crate::arena::{gen_bytes, live_in_gen, lemma_slots_sum_push, w_bytes, ObjectSlot};
use crate::gc_box::{GCCell, GCHeader, Generation};
use crate::shim::{id_set_insert, id_set_view, new_id_set, IdSet};
use crate::state::{GCError, GCStage, MinorGCStage, Monitoring, State};
use crate::trace::Trace;

verus! {

/// The byte size of one managed block: the header and the data of a `T`,
/// laid out together in a single allocation.
pub open spec fn block_size<T: Trace>() -> nat {
    vstd::layout::size_of::<GCHeader>() + vstd::layout::size_of::<T>()
}

/// Whether an allocation of `b` more minor-heap bytes is within bounds: it
/// must stay inside the configured minor heap limit, and the process-wide
/// byte counter must still fit a machine word.
pub open spec fn alloc_fits<M: Monitoring>(s: State<M>, b: nat) -> bool {
    &&& s.minor_heap_size + b <= s.config.minor_heap_size_limit
    &&& s.total_size + b <= usize::MAX
}

/// A thread- or scope-bound allocation context.
pub struct GCFrame {
    /// Identities of the objects allocated through this frame.
    pub registered_gc_objects: IdSet,
    /// Objects that outlived the frame and must be reparented at teardown.
    pub escaped_gc_objects: Vec<usize>,
}

impl GCFrame {
    /// The frame's identities all name arena slots of the collector.
    pub open spec fn wf_for<M: Monitoring>(&self, s: State<M>) -> bool {
        &&& id_set_view(self.registered_gc_objects).finite()
        &&& (forall|id: usize|
            id_set_view(self.registered_gc_objects).contains(id) ==> id < s.objects@.len())
    }

    /// Allocates a header+data block for `value`, charges the minor byte
    /// counter, initializes the header, and registers the new identity with
    /// both this frame and the minor generation. Allocating past the minor
    /// heap limit is the out-of-memory condition; a registration collision
    /// is the fatal double-allocation condition, and the contract shows it
    /// cannot arise from a well-formed frame.
    pub fn allocate_gc_cell<T: Trace, M: Monitoring>(
        &mut self,
        state: &mut State<M>,
        value: &T,
    ) -> (r: Result<GCCell<T>, GCError>)
        requires
            old(state).wf(),
            old(self).wf_for(*old(state)),
            !old(state).stw,
            old(state).minor_stage == MinorGCStage::Ready,
        ensures
            final(state).wf(),
            final(self).wf_for(*final(state)),
            r is Ok <==> alloc_fits(*old(state), block_size::<T>()),
            r is Err ==> *final(state) == *old(state) && id_set_view(
                final(self).registered_gc_objects,
            ) == id_set_view(old(self).registered_gc_objects),
            r is Err ==> (r == Err::<GCCell<T>, GCError>(GCError::MinorHeapOverflow) <==> old(
                state,
            ).minor_heap_size + block_size::<T>() > old(state).config.minor_heap_size_limit),
            r matches Ok(c) ==> {
                &&& c.id == old(state).objects@.len()
                &&& final(state).objects@.len() == old(state).objects@.len() + 1
                &&& (forall|i: int|
                    0 <= i < old(state).objects@.len() ==> final(state).objects@[i] == old(
                        state,
                    ).objects@[i])
                &&& final(state).objects@[c.id as int].header.liveness == 1
                &&& !final(state).objects@[c.id as int].header.marked
                &&& final(state).objects@[c.id as int].header.generation == Generation::Minor
                &&& !final(state).objects@[c.id as int].freed
                &&& final(state).objects@[c.id as int].size == block_size::<T>()
                &&& final(state).minor_heap_size == old(state).minor_heap_size + block_size::<T>()
                &&& final(state).total_size == old(state).total_size + block_size::<T>()
                &&& final(state).major_heap_size == old(state).major_heap_size
                &&& final(state).imm_size == old(state).imm_size
                &&& id_set_view(final(state).minor_heap_gen) == id_set_view(
                    old(state).minor_heap_gen,
                ).insert(c.id)
                &&& id_set_view(final(self).registered_gc_objects) == id_set_view(
                    old(self).registered_gc_objects,
                ).insert(c.id)
                &&& final(state).start_minor_gc_flag == (old(state).start_minor_gc_flag || old(
                    state,
                ).minor_heap_size + block_size::<T>() >= old(state).config.minor_gc_trigger_size)
                &&& final(state).stw == old(state).stw
                &&& final(state).gc_stage == old(state).gc_stage
                &&& final(state).minor_stage == old(state).minor_stage
                &&& id_set_view(final(state).minor_heap_roots) == id_set_view(
                    old(state).minor_heap_roots,
                )
                &&& id_set_view(final(state).major_heap_gen) == id_set_view(
                    old(state).major_heap_gen,
                )
                &&& id_set_view(final(state).major_heap_rescan_list) == id_set_view(
                    old(state).major_heap_rescan_list,
                )
                &&& id_set_view(final(state).minor_heap_dead) == id_set_view(
                    old(state).minor_heap_dead,
                )
            },
    {
        let header_bytes: usize = core::mem::size_of::<GCHeader>();
        let data_bytes: usize = core::mem::size_of::<T>();
        if data_bytes > usize::MAX - header_bytes {
            // The block itself cannot fit a machine word, so it cannot fit
            // the minor heap limit either.
            return Err(GCError::MinorHeapOverflow);
        }
        let bsize: usize = header_bytes + data_bytes;
        if bsize > state.config.minor_heap_size_limit || state.minor_heap_size
            > state.config.minor_heap_size_limit - bsize {
            return Err(GCError::MinorHeapOverflow);
        }
        if state.total_size > usize::MAX - bsize {
            return Err(GCError::CounterOverflow);
        }
        let id: usize = state.objects.len();
        let mut header = GCHeader {
            liveness: 0,
            marked: true,
            pined: false,
            generation: Generation::Minor,
            type_id: core::any::TypeId::of::<T>(),
        };
        header.init::<T>();
        let registered_new = id_set_insert(&mut self.registered_gc_objects, id);
        if !registered_new {
            // A collision would mean a corrupted frame; a well-formed frame
            // only holds identities below the arena's length, so the fresh
            // identity cannot collide.
            proof {
                assert(false);
            }
            return Err(GCError::DoubleRegistration);
        }
        let edges = value.trace();
        let slot = ObjectSlot { header, size: bsize, edges, freed: false };
        proof {
            lemma_slots_sum_push(state.objects@, w_bytes(Generation::Minor), slot);
            lemma_slots_sum_push(state.objects@, w_bytes(Generation::Major), slot);
            lemma_slots_sum_push(state.objects@, w_bytes(Generation::Immortal), slot);
        }
        state.objects.push(slot);
        state.minor_heap_size = state.minor_heap_size + bsize;
        state.total_size = state.total_size + bsize;
        id_set_insert(&mut state.minor_heap_gen, id);
        if state.minor_heap_size >= state.config.minor_gc_trigger_size {
            state.start_minor_gc_flag = true;
        }
        Ok(GCCell { id, phantom: core::marker::PhantomData })
    }

    /// Records that an object allocated here outlived this frame and must
    /// survive its teardown.
    pub fn mark_escaped(&mut self, id: usize)
        ensures
            final(self).escaped_gc_objects@ == old(self).escaped_gc_objects@.push(id),
            final(self).registered_gc_objects == old(self).registered_gc_objects,
    {
        self.escaped_gc_objects.push(id);
    }

    /// Tears the frame down: every escaped object is reparented into the
    /// global minor roots, never leaked or freed.
    pub fn close<M: Monitoring>(self, state: &mut State<M>)
        requires
            old(state).wf(),
        ensures
            final(state).wf(),
            forall|id: usize|
                id_set_view(old(state).minor_heap_roots).contains(id) ==> id_set_view(
                    final(state).minor_heap_roots,
                ).contains(id),
            forall|k: int|
                0 <= k < self.escaped_gc_objects@.len() && self.escaped_gc_objects@[k]
                    < old(state).objects@.len() ==> id_set_view(
                    final(state).minor_heap_roots,
                ).contains(self.escaped_gc_objects@[k]),
            final(state).current_frame_count == (if old(state).current_frame_count > 0 {
                (old(state).current_frame_count - 1) as usize
            } else {
                0
            }),
            *final(state) == (State {
                minor_heap_roots: final(state).minor_heap_roots,
                current_frame_count: final(state).current_frame_count,
                ..*old(state)
            }),
    {
        let escaped = self.escaped_gc_objects;
        let n = escaped.len();
        let mut k: usize = 0;
        while k < n
            invariant
                n == escaped@.len(),
                k <= n,
                state.wf(),
                forall|id: usize|
                    id_set_view(old(state).minor_heap_roots).contains(id) ==> id_set_view(
                        state.minor_heap_roots,
                    ).contains(id),
                forall|j: int|
                    0 <= j < k && escaped@[j] < old(state).objects@.len() ==> id_set_view(
                        state.minor_heap_roots,
                    ).contains(escaped@[j]),
                *state == (State {
                    minor_heap_roots: state.minor_heap_roots,
                    ..*old(state)
                }),
            decreases n - k,
        {
            let id = escaped[k];
            if id < state.objects.len() {
                id_set_insert(&mut state.minor_heap_roots, id);
            }
            k = k + 1;
        }
        if state.current_frame_count > 0 {
            state.current_frame_count = state.current_frame_count - 1;
        }
    }
}

impl<M: Monitoring> State<M> {
    /// Opens a new allocation scope.
    pub fn new_frame(&mut self) -> (f: GCFrame)
        requires
            old(self).wf(),
        ensures
            final(self).wf(),
            f.wf_for(*final(self)),
            id_set_view(f.registered_gc_objects) == Set::<usize>::empty(),
            f.escaped_gc_objects@.len() == 0,
            *final(self) == (State {
                current_frame_count: final(self).current_frame_count,
                ..*old(self)
            }),
            old(self).current_frame_count < usize::MAX ==> final(self).current_frame_count == old(
                self,
            ).current_frame_count + 1,
            old(self).current_frame_count == usize::MAX ==> final(self).current_frame_count
                == usize::MAX,
    {
        if self.current_frame_count < usize::MAX {
            self.current_frame_count = self.current_frame_count + 1;
        }
        GCFrame { registered_gc_objects: new_id_set(), escaped_gc_objects: Vec::new() }
    }
}

} // verus!
