//! The process-wide collector state: generation sets, byte accounting, the
//! stop-the-world flag, configuration, monitoring hook, worker pool, and the
//! two collection stage machines.
use vstd::prelude::*;

use crate::arena::{
    gen_bytes, lemma_drop_last_contains, lemma_push_contains, lemma_slots_sum_bound,
    lemma_slots_sum_pointwise, lemma_slots_sum_update, live_in_gen, slots_sum, w_bytes, w_unmarked,
    w_unmarked_bytes, ObjectSlot,
};
use crate::gc_box::{GCHeader, Generation};
use crate::shim::{
    build_thread_pool, id_set_clear, id_set_contains, id_set_insert, id_set_remove, id_set_to_vec,
    id_set_is_empty, id_set_view, new_id_set, num_cpus_get, IdSet,
};

verus! {

/// Observability callbacks around each collection phase. Purely a seam: the
/// collector calls these and promises nothing about them.
pub trait Monitoring {
    fn start_minor_gc(&self, minor_heap_size: usize);

    fn end_minor_gc(&self, minor_heap_size: usize);

    fn start_major_gc(&self, major_heap_size: usize);

    fn end_major_gc(&self, major_heap_size: usize);

    fn start_stw(&self);

    fn end_stw(&self);

    fn record_memory_usage(&self, major_heap_size: usize, minor_heap_size: usize);
}

/// The inert default monitoring backend.
pub struct DummyMonitoring {}

impl Monitoring for DummyMonitoring {
    fn start_minor_gc(&self, _minor_heap_size: usize) {
    }

    fn end_minor_gc(&self, _minor_heap_size: usize) {
    }

    fn start_major_gc(&self, _major_heap_size: usize) {
    }

    fn end_major_gc(&self, _major_heap_size: usize) {
    }

    fn start_stw(&self) {
    }

    fn end_stw(&self) {
    }

    fn record_memory_usage(&self, _major_heap_size: usize, _minor_heap_size: usize) {
    }
}

/// The major cycle's stage machine.
#[derive(Clone, Copy, PartialEq, Eq, Structural, Debug)]
pub enum GCStage {
    /// Starting stage; the concurrent sweep returns here.
    Ready,
    /// The initial root scan has finished and released the world; marking
    /// continues on the worker pool while the write barrier records mutation.
    ParallelScan,
    /// The world is stopped again and the rescan list has been drained.
    FinalScan,
    /// Everything reachable is marked; unmarked objects are being reclaimed.
    ConcurrentSweep,
}

/// The minor cycle's stage machine.
#[derive(Clone, Copy, PartialEq, Eq, Structural, Debug)]
pub enum MinorGCStage {
    Ready,
    Scan,
    Sweep,
}

/// The fatal conditions the collector detects. Every one of them signals a
/// broken invariant or a resource ceiling; the host is expected to treat any
/// of them as non-recoverable for the process.
#[derive(Clone, Copy, PartialEq, Eq, Structural, Debug)]
pub enum GCError {
    /// Stop-the-world was requested while the world was already stopped.
    StwReentry,
    /// Continue-the-world was requested while the world was running.
    CtwWithoutStw,
    /// An allocation would push the minor heap past its configured limit.
    MinorHeapOverflow,
    /// The major heap passed its configured limit.
    MajorHeapOverflow,
    /// A byte counter would no longer fit in a machine word.
    CounterOverflow,
    /// A header identity was registered twice with a frame.
    DoubleRegistration,
}

/// The collector's tunables.
pub struct GCConfig {
    /// Worker pool size; default one quarter of the logical cores.
    pub thread_pool_size: usize,
    /// Minor collection is requested once the minor heap reaches this size;
    /// default 10 MiB.
    pub minor_gc_trigger_size: usize,
    /// Allocating past this minor heap size is fatal; default 100 MiB.
    pub minor_heap_size_limit: usize,
    /// A minor object whose liveness passes this value is promoted to the
    /// major heap; default 3.
    pub major_heap_liveness: usize,
    /// Major collection is requested once the major heap reaches this many
    /// hundredths of its size at the last major collection start; default 200
    /// (a factor of two).
    pub major_gc_pacer_rate_percent: usize,
    /// A major heap above this size is fatal; default 0 for no limit.
    pub major_heap_size_limit: usize,
    /// Whether long-lived major objects move to the immortal generation;
    /// default off.
    pub enable_imm_gen: bool,
    /// A major object whose liveness passes this value becomes immortal;
    /// default 100.
    pub imm_liveness: usize,
}

impl Default for GCConfig {
    fn default() -> (c: Self)
        ensures
            c.minor_gc_trigger_size == 10 * 1024 * 1024,
            c.minor_heap_size_limit == 100 * 1024 * 1024,
            c.major_heap_liveness == 3,
            c.major_gc_pacer_rate_percent == 200,
            c.major_heap_size_limit == 0,
            !c.enable_imm_gen,
            c.imm_liveness == 100,
    {
        GCConfig {
            thread_pool_size: num_cpus_get() / 4,
            minor_gc_trigger_size: 10 * 1024 * 1024,
            minor_heap_size_limit: 100 * 1024 * 1024,
            major_heap_liveness: 3,
            major_gc_pacer_rate_percent: 200,
            major_heap_size_limit: 0,
            enable_imm_gen: false,
            imm_liveness: 100,
        }
    }
}

/// The one collector context. Created once at process start and passed into
/// every allocation and collection entry point.
pub struct State<M: Monitoring> {
    pub config: GCConfig,
    /// The worker pool marking runs on; `None` when no pool could be built.
    pub rayon_pool: Option<rayon::ThreadPool>,
    /// The stop-the-world flag.
    pub stw: bool,
    pub start_minor_gc_flag: bool,
    pub start_major_gc_flag: bool,
    /// Bytes live in the minor generation.
    pub minor_heap_size: usize,
    /// Bytes live in the major generation.
    pub major_heap_size: usize,
    /// Bytes live in the immortal generation.
    pub imm_size: usize,
    /// Bytes live over all generations.
    pub total_size: usize,
    /// The major heap size recorded when the last major collection started;
    /// the pacer compares against it.
    pub major_size_at_last_gc: usize,
    pub monitoring: M,
    pub current_frame_count: usize,
    /// Every allocation ever made, at its stable identity.
    pub objects: Vec<ObjectSlot>,
    /// Marking work pending for the major cycle.
    pub major_work: Vec<usize>,
    pub minor_heap_roots: IdSet,
    pub minor_heap_gen: IdSet,
    pub minor_heap_marked: IdSet,
    pub minor_heap_dead: IdSet,
    pub major_heap_roots: IdSet,
    pub major_heap_gen: IdSet,
    pub major_heap_marked: IdSet,
    pub major_heap_rescan_list: IdSet,
    pub imm_gen: IdSet,
    pub gc_stage: GCStage,
    pub minor_stage: MinorGCStage,
}

impl<M: Monitoring> State<M> {
    /// Every mark phase has visited each reachable marked object, except that
    /// an object on the rescan list, or one whose edges still sit in the
    /// pending work list, may not have had its references visited yet.
    pub open spec fn major_mark_closure_except_pending(&self) -> bool {
        forall|id: usize, k: int|
            #![trigger self.objects@[id as int].edges@[k]]
            id < self.objects@.len() && live_in_gen(self.objects@[id as int], Generation::Major)
                && self.objects@[id as int].header.marked && !id_set_view(
                self.major_heap_rescan_list,
            ).contains(id) && 0 <= k < self.objects@[id as int].edges@.len()
                && self.objects@[id as int].edges@[k] < self.objects@.len() && live_in_gen(
                self.objects@[self.objects@[id as int].edges@[k] as int],
                Generation::Major,
            ) ==> (self.objects@[self.objects@[id as int].edges@[k] as int].header.marked
                || self.major_work@.contains(self.objects@[id as int].edges@[k]))
    }

    /// The same closure, with references to one further identity excused: the
    /// object about to be marked by the step in progress.
    pub open spec fn major_mark_closure_except_id(&self, ex: usize) -> bool {
        forall|id: usize, k: int|
            #![trigger self.objects@[id as int].edges@[k]]
            id < self.objects@.len() && live_in_gen(self.objects@[id as int], Generation::Major)
                && self.objects@[id as int].header.marked && !id_set_view(
                self.major_heap_rescan_list,
            ).contains(id) && 0 <= k < self.objects@[id as int].edges@.len()
                && self.objects@[id as int].edges@[k] < self.objects@.len() && live_in_gen(
                self.objects@[self.objects@[id as int].edges@[k] as int],
                Generation::Major,
            ) ==> (self.objects@[self.objects@[id as int].edges@[k] as int].header.marked
                || self.major_work@.contains(self.objects@[id as int].edges@[k])
                || self.objects@[id as int].edges@[k] == ex)
    }

    /// The collector's well-formedness: set views are finite and name valid
    /// identities, generation membership agrees with the headers, the marked
    /// sets agree with the mark bits, the byte counters equal the live bytes
    /// of their generations, and outside a cycle nothing is marked.
    pub open spec fn wf(&self) -> bool {
        &&& self.wf_but_closure()
        &&& ((self.gc_stage == GCStage::ParallelScan || self.gc_stage == GCStage::FinalScan)
            ==> self.major_mark_closure_except_pending())
    }

    /// Everything `wf` holds of the collector except the mark-closure clause.
    pub open spec fn wf_but_closure(&self) -> bool {
        &&& id_set_view(self.minor_heap_roots).finite()
        &&& id_set_view(self.minor_heap_gen).finite()
        &&& id_set_view(self.minor_heap_marked).finite()
        &&& id_set_view(self.minor_heap_dead).finite()
        &&& id_set_view(self.major_heap_roots).finite()
        &&& id_set_view(self.major_heap_gen).finite()
        &&& id_set_view(self.major_heap_marked).finite()
        &&& id_set_view(self.major_heap_rescan_list).finite()
        &&& id_set_view(self.imm_gen).finite()
        &&& (forall|id: usize|
            id_set_view(self.minor_heap_roots).contains(id) ==> id < self.objects@.len())
        &&& (forall|id: usize|
            id_set_view(self.major_heap_roots).contains(id) ==> id < self.objects@.len())
        &&& (forall|id: usize|
            id_set_view(self.minor_heap_dead).contains(id) ==> id < self.objects@.len()
                && self.objects@[id as int].freed)
        &&& (forall|id: usize|
            id_set_view(self.major_heap_rescan_list).contains(id) ==> id < self.objects@.len())
        &&& (forall|id: usize|
            id_set_view(self.minor_heap_gen).contains(id) ==> id < self.objects@.len())
        &&& (forall|id: usize|
            id_set_view(self.major_heap_gen).contains(id) ==> id < self.objects@.len())
        &&& (forall|id: usize| id_set_view(self.imm_gen).contains(id) ==> id < self.objects@.len())
        &&& (forall|id: usize|
            id_set_view(self.minor_heap_marked).contains(id) ==> id < self.objects@.len())
        &&& (forall|id: usize|
            id_set_view(self.major_heap_marked).contains(id) ==> id < self.objects@.len())
        &&& (forall|id: usize|
            #![trigger self.objects@[id as int]]
            id < self.objects@.len() ==> {
                let o = self.objects@[id as int];
                &&& (live_in_gen(o, Generation::Minor) <==> id_set_view(
                    self.minor_heap_gen,
                ).contains(id))
                &&& (live_in_gen(o, Generation::Major) <==> id_set_view(
                    self.major_heap_gen,
                ).contains(id))
                &&& (live_in_gen(o, Generation::Immortal) <==> id_set_view(self.imm_gen).contains(
                    id,
                ))
                &&& (id_set_view(self.minor_heap_marked).contains(id) <==> (live_in_gen(
                    o,
                    Generation::Minor,
                ) && o.header.marked))
                &&& (id_set_view(self.major_heap_marked).contains(id) <==> (live_in_gen(
                    o,
                    Generation::Major,
                ) && o.header.marked))
            })
        &&& self.minor_heap_size == gen_bytes(self.objects@, Generation::Minor)
        &&& self.major_heap_size == gen_bytes(self.objects@, Generation::Major)
        &&& self.imm_size == gen_bytes(self.objects@, Generation::Immortal)
        &&& self.total_size == self.minor_heap_size + self.major_heap_size + self.imm_size
        &&& (self.minor_stage == MinorGCStage::Ready ==> (forall|id: usize|
            #![trigger self.objects@[id as int]]
            id < self.objects@.len() && live_in_gen(self.objects@[id as int], Generation::Minor)
                ==> !self.objects@[id as int].header.marked))
        &&& (self.gc_stage == GCStage::Ready ==> (forall|id: usize|
            #![trigger self.objects@[id as int]]
            id < self.objects@.len() && live_in_gen(self.objects@[id as int], Generation::Major)
                ==> !self.objects@[id as int].header.marked))
    }

    /// Builds the collector context around the given configuration and
    /// monitoring backend.
    pub fn new_with(config: GCConfig, monitoring: M) -> (s: State<M>)
        ensures
            s.wf(),
            s.config == config,
            !s.stw,
            !s.start_minor_gc_flag,
            !s.start_major_gc_flag,
            s.minor_heap_size == 0,
            s.major_heap_size == 0,
            s.imm_size == 0,
            s.total_size == 0,
            s.major_size_at_last_gc == 0,
            s.current_frame_count == 0,
            s.objects@.len() == 0,
            s.gc_stage == GCStage::Ready,
            s.minor_stage == MinorGCStage::Ready,
            id_set_view(s.minor_heap_gen) == Set::<usize>::empty(),
            id_set_view(s.minor_heap_roots) == Set::<usize>::empty(),
            id_set_view(s.minor_heap_dead) == Set::<usize>::empty(),
            id_set_view(s.major_heap_gen) == Set::<usize>::empty(),
            id_set_view(s.major_heap_rescan_list) == Set::<usize>::empty(),
            id_set_view(s.imm_gen) == Set::<usize>::empty(),
    {
        let pool = build_thread_pool(config.thread_pool_size);
        State {
            config,
            rayon_pool: pool,
            stw: false,
            start_minor_gc_flag: false,
            start_major_gc_flag: false,
            minor_heap_size: 0,
            major_heap_size: 0,
            imm_size: 0,
            total_size: 0,
            major_size_at_last_gc: 0,
            monitoring,
            current_frame_count: 0,
            objects: Vec::new(),
            major_work: Vec::new(),
            minor_heap_roots: new_id_set(),
            minor_heap_gen: new_id_set(),
            minor_heap_marked: new_id_set(),
            minor_heap_dead: new_id_set(),
            major_heap_roots: new_id_set(),
            major_heap_gen: new_id_set(),
            major_heap_marked: new_id_set(),
            major_heap_rescan_list: new_id_set(),
            imm_gen: new_id_set(),
            gc_stage: GCStage::Ready,
            minor_stage: MinorGCStage::Ready,
        }
    }

    /// Stops the world. Requesting the stop while the world is already
    /// stopped is the fatal reentry condition.
    pub fn stw(&mut self) -> (r: Result<(), GCError>)
        ensures
            r is Ok <==> !old(self).stw,
            !old(self).stw ==> *final(self) == (State { stw: true, ..*old(self) }),
            old(self).stw ==> r == Err::<(), GCError>(GCError::StwReentry) && *final(self) == *old(self),
    {
        self.monitoring.start_stw();
        if self.stw {
            Err(GCError::StwReentry)
        } else {
            self.stw = true;
            Ok(())
        }
    }

    /// Resumes the world. Releasing it while it is running is the fatal
    /// counterpart of `stw`'s reentry condition.
    pub fn ctw(&mut self) -> (r: Result<(), GCError>)
        ensures
            r is Ok <==> old(self).stw,
            old(self).stw ==> *final(self) == (State { stw: false, ..*old(self) }),
            !old(self).stw ==> r == Err::<(), GCError>(GCError::CtwWithoutStw) && *final(self)
                == *old(self),
    {
        self.monitoring.end_stw();
        if self.stw {
            self.stw = false;
            Ok(())
        } else {
            Err(GCError::CtwWithoutStw)
        }
    }
}

/// A liveness counter after surviving one more scan; it saturates rather
/// than wrap.
pub open spec fn bumped(l: usize) -> usize {
    if l < usize::MAX {
        (l + 1) as usize
    } else {
        usize::MAX
    }
}

/// What the minor scan left of a slot it visited: a visited object is either
/// marked minor-live or promoted to the major generation.
pub open spec fn minor_processed(post: ObjectSlot) -> bool {
    post.header.marked || post.header.generation == Generation::Major
}

/// How the minor scan may transform one slot that was live in the minor
/// generation: untouched if the scan never reached it; otherwise its
/// liveness is incremented, and it is promoted exactly when the new liveness
/// passes the configured threshold, else marked and kept minor.
pub open spec fn minor_scan_outcome(threshold: usize, pre: ObjectSlot, post: ObjectSlot) -> bool {
    &&& post.size == pre.size
    &&& post.edges == pre.edges
    &&& !post.freed
    &&& post.header.pined == pre.header.pined
    &&& post.header.type_id == pre.header.type_id
    &&& (minor_processed(post) ==> {
        &&& post.header.liveness == bumped(pre.header.liveness)
        &&& (post.header.generation == Generation::Major <==> bumped(pre.header.liveness)
            > threshold)
        &&& (bumped(pre.header.liveness) <= threshold ==> post.header.generation
            == Generation::Minor && post.header.marked)
        &&& (bumped(pre.header.liveness) > threshold ==> !post.header.marked)
    })
    &&& (!minor_processed(post) ==> post == pre)
}

/// How the minor sweep transforms one slot that entered it live in the
/// minor generation: an unmarked object is reclaimed, a marked survivor
/// stays with its mark cleared; nothing else about the slot changes.
pub open spec fn minor_sweep_outcome(pre: ObjectSlot, post: ObjectSlot) -> bool {
    &&& post.size == pre.size
    &&& post.edges == pre.edges
    &&& post.header.liveness == pre.header.liveness
    &&& post.header.pined == pre.header.pined
    &&& post.header.generation == pre.header.generation
    &&& post.header.type_id == pre.header.type_id
    &&& !post.header.marked
    &&& (post.freed <==> !pre.header.marked)
}

/// What one whole minor collection leaves of an object that entered it live
/// in the minor generation: reclaimed untouched if the scan never reached
/// it; otherwise it survived one more scan, promoted to the major heap
/// exactly when its new liveness passes the threshold, unmarked either way.
pub open spec fn minor_gc_outcome(threshold: usize, pre: ObjectSlot, post: ObjectSlot) -> bool {
    &&& post.size == pre.size
    &&& post.edges == pre.edges
    &&& post.header.pined == pre.header.pined
    &&& post.header.type_id == pre.header.type_id
    &&& !post.header.marked
    &&& (post.freed ==> post.header == pre.header)
    &&& (!post.freed ==> {
        &&& post.header.liveness == bumped(pre.header.liveness)
        &&& (live_in_gen(post, Generation::Major) <==> bumped(pre.header.liveness) > threshold)
        &&& (live_in_gen(post, Generation::Minor) <==> bumped(pre.header.liveness) <= threshold)
    })
}

impl<M: Monitoring> State<M> {
    /// The minor scan: walks everything reachable from the minor roots
    /// through the recorded references. Every object it reaches has survived
    /// one more scan; one whose liveness then exceeds the promotion
    /// threshold moves to the major live set, every other reached object is
    /// marked and stays minor. Unreached minor objects are left untouched
    /// for the sweep.
    pub fn minor_scan(&mut self)
        requires
            old(self).wf(),
            old(self).minor_stage == MinorGCStage::Ready,
            old(self).gc_stage == GCStage::Ready,
        ensures
            final(self).wf(),
            final(self).minor_stage == MinorGCStage::Sweep,
            final(self).objects@.len() == old(self).objects@.len(),
            forall|i: int|
                0 <= i < old(self).objects@.len() && live_in_gen(
                    old(self).objects@[i],
                    Generation::Minor,
                ) ==> minor_scan_outcome(
                    old(self).config.major_heap_liveness,
                    old(self).objects@[i],
                    #[trigger] final(self).objects@[i],
                ),
            forall|i: int|
                0 <= i < old(self).objects@.len() && !live_in_gen(
                    old(self).objects@[i],
                    Generation::Minor,
                ) ==> final(self).objects@[i] == old(self).objects@[i],
            forall|id: usize|
                id_set_view(old(self).minor_heap_roots).contains(id) && id
                    < old(self).objects@.len() && live_in_gen(
                    old(self).objects@[id as int],
                    Generation::Minor,
                ) ==> minor_processed(#[trigger] final(self).objects@[id as int]),
            forall|i: int, k: int|
                #![trigger old(self).objects@[i].edges@[k]]
                0 <= i < old(self).objects@.len() && live_in_gen(
                    old(self).objects@[i],
                    Generation::Minor,
                ) && minor_processed(final(self).objects@[i]) && 0 <= k
                    < old(self).objects@[i].edges@.len() && old(self).objects@[i].edges@[k]
                    < old(self).objects@.len() && live_in_gen(
                    old(self).objects@[old(self).objects@[i].edges@[k] as int],
                    Generation::Minor,
                ) ==> minor_processed(
                    final(self).objects@[old(self).objects@[i].edges@[k] as int],
                ),
            final(self).total_size == old(self).total_size,
            final(self).imm_size == old(self).imm_size,
            *final(self) == (State {
                objects: final(self).objects,
                minor_heap_size: final(self).minor_heap_size,
                major_heap_size: final(self).major_heap_size,
                minor_heap_gen: final(self).minor_heap_gen,
                major_heap_gen: final(self).major_heap_gen,
                minor_heap_marked: final(self).minor_heap_marked,
                minor_heap_roots: final(self).minor_heap_roots,
                major_heap_roots: final(self).major_heap_roots,
                minor_stage: final(self).minor_stage,
                ..*old(self)
            }),
    {
        self.minor_stage = MinorGCStage::Scan;
        let threshold = self.config.major_heap_liveness;
        let n_now: usize = self.objects.len();
        let ghost n = n_now as int;
        let mut work: Vec<usize> = id_set_to_vec(&self.minor_heap_roots);
        proof {
            assert forall|i: int|
                0 <= i < n && live_in_gen(old(self).objects@[i], Generation::Minor)
                    implies !minor_processed(self.objects@[i]) by {
                let idu: usize = i as usize;
                assert(live_in_gen(old(self).objects@[idu as int], Generation::Minor));
                assert(!old(self).objects@[idu as int].header.marked);
                assert(self.objects@[i] == old(self).objects@[i]);
            }
        }
        while work.len() > 0
            invariant
                self.wf(),
                self.minor_stage == MinorGCStage::Scan,
                self.gc_stage == GCStage::Ready,
                threshold == old(self).config.major_heap_liveness,
                n == old(self).objects@.len(),
                self.objects@.len() == n,
                forall|i: int|
                    0 <= i < n && live_in_gen(old(self).objects@[i], Generation::Minor)
                        ==> minor_scan_outcome(
                        threshold,
                        old(self).objects@[i],
                        #[trigger] self.objects@[i],
                    ),
                forall|i: int|
                    0 <= i < n && !live_in_gen(old(self).objects@[i], Generation::Minor)
                        ==> self.objects@[i] == old(self).objects@[i],
                forall|id: usize|
                    id_set_view(old(self).minor_heap_roots).contains(id) && id < n && live_in_gen(
                        old(self).objects@[id as int],
                        Generation::Minor,
                    ) ==> (minor_processed(#[trigger] self.objects@[id as int])
                        || work@.contains(id)),
                forall|i: int, k: int|
                    #![trigger old(self).objects@[i].edges@[k]]
                    0 <= i < n && live_in_gen(old(self).objects@[i], Generation::Minor)
                        && minor_processed(self.objects@[i]) && 0 <= k
                        < old(self).objects@[i].edges@.len() && old(self).objects@[i].edges@[k] < n
                        && live_in_gen(
                        old(self).objects@[old(self).objects@[i].edges@[k] as int],
                        Generation::Minor,
                    ) ==> (minor_processed(
                        self.objects@[old(self).objects@[i].edges@[k] as int],
                    ) || work@.contains(old(self).objects@[i].edges@[k])),
                self.total_size == old(self).total_size,
                self.imm_size == old(self).imm_size,
                *self == (State {
                    objects: self.objects,
                    minor_heap_size: self.minor_heap_size,
                    major_heap_size: self.major_heap_size,
                    minor_heap_gen: self.minor_heap_gen,
                    major_heap_gen: self.major_heap_gen,
                    minor_heap_marked: self.minor_heap_marked,
                    minor_heap_roots: self.minor_heap_roots,
                    major_heap_roots: self.major_heap_roots,
                    minor_stage: self.minor_stage,
                    ..*old(self)
                }),
            decreases slots_sum(self.objects@, w_unmarked(Generation::Minor)), work@.len(),
        {
            let ghost w0 = work@;
            let id_opt = work.pop();
            let id = match id_opt {
                Some(v) => v,
                None => 0,
            };
            proof {
                assert(id == w0.last());
                assert(work@ == w0.drop_last());
            }
            let ghost w1 = work@;
            let ghost s0 = self.objects@;
            if id < self.objects.len() {
                let is_minor = id_set_contains(&self.minor_heap_gen, id);
                let marked_now = self.objects[id].header.marked;
                if is_minor && !marked_now {
                    proof {
                        assert(live_in_gen(self.objects@[id as int], Generation::Minor));
                        if !live_in_gen(old(self).objects@[id as int], Generation::Minor) {
                            assert(self.objects@[id as int] == old(self).objects@[id as int]);
                            assert(false);
                        }
                        assert(!minor_processed(self.objects@[id as int]));
                        assert(self.objects@[id as int] == old(self).objects@[id as int]);
                    }
                    let l = self.objects[id].header.liveness;
                    let new_l: usize = if l < usize::MAX {
                        l + 1
                    } else {
                        l
                    };
                    let ghost before = self.objects@;
                    self.objects[id].header.liveness = new_l;
                    if new_l > threshold {
                        self.objects[id].header.generation = Generation::Major;
                        let sz = self.objects[id].size;
                        proof {
                            let cur = self.objects@;
                            assert(cur =~= before.update(id as int, cur[id as int]));
                            lemma_slots_sum_bound(before, w_bytes(Generation::Minor), id as int);
                            lemma_slots_sum_update(
                                before,
                                w_bytes(Generation::Minor),
                                id as int,
                                cur[id as int],
                            );
                            lemma_slots_sum_update(
                                before,
                                w_bytes(Generation::Major),
                                id as int,
                                cur[id as int],
                            );
                            lemma_slots_sum_update(
                                before,
                                w_bytes(Generation::Immortal),
                                id as int,
                                cur[id as int],
                            );
                            lemma_slots_sum_update(
                                before,
                                w_unmarked(Generation::Minor),
                                id as int,
                                cur[id as int],
                            );
                        }
                        self.minor_heap_size = self.minor_heap_size - sz;
                        self.major_heap_size = self.major_heap_size + sz;
                        id_set_remove(&mut self.minor_heap_gen, id);
                        id_set_insert(&mut self.major_heap_gen, id);
                        if id_set_contains(&self.minor_heap_roots, id) {
                            id_set_remove(&mut self.minor_heap_roots, id);
                            id_set_insert(&mut self.major_heap_roots, id);
                        }
                    } else {
                        self.objects[id].header.marked = true;
                        proof {
                            let cur = self.objects@;
                            assert(cur =~= before.update(id as int, cur[id as int]));
                            lemma_slots_sum_update(
                                before,
                                w_bytes(Generation::Minor),
                                id as int,
                                cur[id as int],
                            );
                            lemma_slots_sum_update(
                                before,
                                w_bytes(Generation::Major),
                                id as int,
                                cur[id as int],
                            );
                            lemma_slots_sum_update(
                                before,
                                w_bytes(Generation::Immortal),
                                id as int,
                                cur[id as int],
                            );
                            lemma_slots_sum_update(
                                before,
                                w_unmarked(Generation::Minor),
                                id as int,
                                cur[id as int],
                            );
                        }
                        id_set_insert(&mut self.minor_heap_marked, id);
                    }
                    let elen = self.objects[id].edges.len();
                    let mut k: usize = 0;
                    while k < elen
                        invariant
                            k <= elen,
                            id < self.objects@.len(),
                            elen == self.objects@[id as int].edges@.len(),
                            forall|j: int|
                                0 <= j < k ==> work@.contains(
                                    #[trigger] self.objects@[id as int].edges@[j],
                                ),
                            forall|e: usize| w1.contains(e) ==> work@.contains(e),
                        decreases elen - k,
                    {
                        let e = self.objects[id].edges[k];
                        proof {
                            assert forall|x: usize| w1.contains(x) || x == e implies work@.push(
                                e,
                            ).contains(x) by {
                                if work@.contains(x) || x == e {
                                    lemma_push_contains(work@, e, x);
                                }
                            }
                            assert forall|j: int| 0 <= j < k + 1 implies work@.push(e).contains(
                                self.objects@[id as int].edges@[j],
                            ) by {
                                lemma_push_contains(work@, e, self.objects@[id as int].edges@[j]);
                            }
                        }
                        work.push(e);
                        k = k + 1;
                    }
                    proof {
                        let pre = old(self).objects@;
                        let cur = self.objects@;
                        assert(minor_processed(cur[id as int]));
                        assert(cur[id as int].edges == pre[id as int].edges);
                        assert forall|x: usize|
                            id_set_view(old(self).minor_heap_roots).contains(x) && x < n
                                && live_in_gen(pre[x as int], Generation::Minor)
                                && !minor_processed(cur[x as int]) implies work@.contains(x) by {
                            assert(x != id);
                            assert(cur[x as int] == s0[x as int]);
                            lemma_drop_last_contains(w0, x);
                            assert(w1.contains(x));
                        }
                        assert forall|i: int, k2: int|
                            0 <= i < n && live_in_gen(pre[i], Generation::Minor)
                                && minor_processed(cur[i]) && 0 <= k2 < pre[i].edges@.len()
                                && #[trigger] pre[i].edges@[k2] < n
                                && live_in_gen(pre[pre[i].edges@[k2] as int], Generation::Minor)
                                && !minor_processed(cur[pre[i].edges@[k2] as int])
                                implies work@.contains(pre[i].edges@[k2]) by {
                            let e = pre[i].edges@[k2];
                            if i == id as int {
                                assert(cur[id as int].edges@[k2] == e);
                                assert(work@.contains(e));
                            } else if e == id {
                                assert(false);
                            } else {
                                assert(cur[i] == s0[i]);
                                assert(cur[e as int] == s0[e as int]);
                                lemma_drop_last_contains(w0, e);
                                assert(w1.contains(e));
                            }
                        }
                    }
                } else {
                    proof {
                        let pre = old(self).objects@;
                        let cur = self.objects@;
                        assert(cur == s0);
                        assert forall|x: usize|
                            id_set_view(old(self).minor_heap_roots).contains(x) && x < n
                                && live_in_gen(pre[x as int], Generation::Minor)
                                && !minor_processed(cur[x as int]) implies work@.contains(x) by {
                            if x == id {
                                assert(cur[id as int] == pre[id as int]);
                                assert(live_in_gen(cur[id as int], Generation::Minor));
                                assert(id_set_view(self.minor_heap_gen).contains(id));
                                assert(!cur[id as int].header.marked);
                                assert(false);
                            } else {
                                lemma_drop_last_contains(w0, x);
                                assert(w1.contains(x));
                            }
                        }
                        assert forall|i: int, k2: int|
                            0 <= i < n && live_in_gen(pre[i], Generation::Minor)
                                && minor_processed(cur[i]) && 0 <= k2 < pre[i].edges@.len()
                                && #[trigger] pre[i].edges@[k2] < n
                                && live_in_gen(pre[pre[i].edges@[k2] as int], Generation::Minor)
                                && !minor_processed(cur[pre[i].edges@[k2] as int])
                                implies work@.contains(pre[i].edges@[k2]) by {
                            let e = pre[i].edges@[k2];
                            if e == id {
                                assert(cur[id as int] == pre[id as int]);
                                assert(live_in_gen(cur[id as int], Generation::Minor));
                                assert(id_set_view(self.minor_heap_gen).contains(id));
                                assert(!cur[id as int].header.marked);
                                assert(false);
                            } else {
                                lemma_drop_last_contains(w0, e);
                                assert(w1.contains(e));
                            }
                        }
                    }
                }
            } else {
                proof {
                    let pre = old(self).objects@;
                    let cur = self.objects@;
                    assert forall|x: usize|
                        id_set_view(old(self).minor_heap_roots).contains(x) && x < n
                            && live_in_gen(pre[x as int], Generation::Minor)
                            && !minor_processed(cur[x as int]) implies work@.contains(x) by {
                        if x == id {
                            assert(false);
                        } else {
                            lemma_drop_last_contains(w0, x);
                            assert(w1.contains(x));
                        }
                    }
                    assert forall|i: int, k2: int|
                        0 <= i < n && live_in_gen(pre[i], Generation::Minor)
                            && minor_processed(cur[i]) && 0 <= k2 < pre[i].edges@.len()
                            && #[trigger] pre[i].edges@[k2] < n
                            && live_in_gen(pre[pre[i].edges@[k2] as int], Generation::Minor)
                            && !minor_processed(cur[pre[i].edges@[k2] as int])
                            implies work@.contains(pre[i].edges@[k2]) by {
                        let e = pre[i].edges@[k2];
                        if e == id {
                            assert(false);
                        } else {
                            lemma_drop_last_contains(w0, e);
                            assert(w1.contains(e));
                        }
                    }
                }
            }
        }
        self.minor_stage = MinorGCStage::Sweep;
    }

    /// The minor sweep: every minor object the scan left unmarked moves to
    /// the dead set and its memory is released; the byte counters fall by
    /// exactly the reclaimed bytes; survivors keep their liveness and get
    /// their mark cleared for the next cycle.
    pub fn minor_sweep(&mut self)
        requires
            old(self).wf(),
            old(self).minor_stage == MinorGCStage::Sweep,
        ensures
            final(self).wf(),
            final(self).minor_stage == MinorGCStage::Ready,
            final(self).objects@.len() == old(self).objects@.len(),
            forall|i: int|
                0 <= i < old(self).objects@.len() && live_in_gen(
                    old(self).objects@[i],
                    Generation::Minor,
                ) ==> minor_sweep_outcome(old(self).objects@[i], #[trigger] final(self).objects@[i]),
            forall|i: int|
                0 <= i < old(self).objects@.len() && !live_in_gen(
                    old(self).objects@[i],
                    Generation::Minor,
                ) ==> final(self).objects@[i] == old(self).objects@[i],
            final(self).minor_heap_size + slots_sum(
                old(self).objects@,
                w_unmarked_bytes(Generation::Minor),
            ) == old(self).minor_heap_size,
            final(self).total_size + slots_sum(
                old(self).objects@,
                w_unmarked_bytes(Generation::Minor),
            ) == old(self).total_size,
            forall|id: usize|
                id_set_view(final(self).minor_heap_dead).contains(id) <==> (id_set_view(
                    old(self).minor_heap_dead,
                ).contains(id) || (id < old(self).objects@.len() && live_in_gen(
                    old(self).objects@[id as int],
                    Generation::Minor,
                ) && !old(self).objects@[id as int].header.marked)),
            id_set_view(final(self).minor_heap_marked) == Set::<usize>::empty(),
            final(self).major_heap_size == old(self).major_heap_size,
            final(self).imm_size == old(self).imm_size,
            *final(self) == (State {
                objects: final(self).objects,
                minor_heap_size: final(self).minor_heap_size,
                total_size: final(self).total_size,
                minor_heap_gen: final(self).minor_heap_gen,
                minor_heap_marked: final(self).minor_heap_marked,
                minor_heap_dead: final(self).minor_heap_dead,
                minor_stage: final(self).minor_stage,
                ..*old(self)
            }),
    {
        let n_now: usize = self.objects.len();
        let ghost n = n_now as int;
        let gen_vec = id_set_to_vec(&self.minor_heap_gen);
        let glen = gen_vec.len();
        proof {
            assert forall|j: int|
                0 <= j < gen_vec@.len() implies #[trigger] gen_vec@[j] < n && live_in_gen(
                self.objects@[gen_vec@[j] as int],
                Generation::Minor,
            ) by {
                assert(gen_vec@.contains(gen_vec@[j]));
                assert(gen_vec@.to_set().contains(gen_vec@[j]));
                let idu = gen_vec@[j];
                assert(id_set_view(self.minor_heap_gen).contains(idu));
                assert(idu < self.objects@.len());
                assert(live_in_gen(self.objects@[idu as int], Generation::Minor));
            }
        }
        let mut idx: usize = 0;
        while idx < glen
            invariant
                self.wf(),
                self.minor_stage == MinorGCStage::Sweep,
                idx <= glen,
                glen == gen_vec@.len(),
                gen_vec@.no_duplicates(),
                gen_vec@.to_set() == id_set_view(old(self).minor_heap_gen),
                n == old(self).objects@.len(),
                self.objects@.len() == n,
                forall|j: int| #![trigger gen_vec@[j]] 0 <= j < glen ==> gen_vec@[j] < n,
                forall|j: int|
                    #![trigger gen_vec@[j]]
                    0 <= j < glen ==> live_in_gen(
                        old(self).objects@[gen_vec@[j] as int],
                        Generation::Minor,
                    ),
                forall|j: int|
                    #![trigger gen_vec@[j]]
                    idx <= j < glen ==> self.objects@[gen_vec@[j] as int] == old(self).objects@[gen_vec@[j] as int],
                forall|j: int|
                    #![trigger gen_vec@[j]]
                    0 <= j < idx ==> minor_sweep_outcome(
                        old(self).objects@[gen_vec@[j] as int],
                        self.objects@[gen_vec@[j] as int],
                    ),
                forall|j: int|
                    #![trigger gen_vec@[j]]
                    0 <= j < idx && !old(self).objects@[gen_vec@[j] as int].header.marked
                        ==> id_set_view(self.minor_heap_dead).contains(gen_vec@[j]),
                forall|i: int|
                    0 <= i < n && !live_in_gen(old(self).objects@[i], Generation::Minor)
                        ==> self.objects@[i] == old(self).objects@[i],
                forall|id: usize|
                    id_set_view(self.minor_heap_dead).contains(id) ==> (id_set_view(
                        old(self).minor_heap_dead,
                    ).contains(id) || (id < n && live_in_gen(
                        old(self).objects@[id as int],
                        Generation::Minor,
                    ) && !old(self).objects@[id as int].header.marked)),
                forall|id: usize|
                    id_set_view(old(self).minor_heap_dead).contains(id) ==> id_set_view(
                        self.minor_heap_dead,
                    ).contains(id),
                self.major_heap_size == old(self).major_heap_size,
                self.imm_size == old(self).imm_size,
                *self == (State {
                    objects: self.objects,
                    minor_heap_size: self.minor_heap_size,
                    total_size: self.total_size,
                    minor_heap_gen: self.minor_heap_gen,
                    minor_heap_marked: self.minor_heap_marked,
                    minor_heap_dead: self.minor_heap_dead,
                    minor_stage: self.minor_stage,
                    ..*old(self)
                }),
            decreases glen - idx,
        {
            let id = gen_vec[idx];
            proof {
                assert(gen_vec@[idx as int] == id);
                assert(id < n);
                assert(self.objects@[id as int] == old(self).objects@[id as int]);
                assert(gen_vec@.contains(id));
                assert(gen_vec@.to_set().contains(id));
                assert(id_set_view(old(self).minor_heap_gen).contains(id));
            }
            let sz = self.objects[id].size;
            let ghost before = self.objects@;
            if !self.objects[id].header.marked {
                proof {
                    lemma_slots_sum_bound(before, w_bytes(Generation::Minor), id as int);
                }
                self.objects[id].freed = true;
                proof {
                    let cur = self.objects@;
                    assert(cur =~= before.update(id as int, cur[id as int]));
                    lemma_slots_sum_update(
                        before,
                        w_bytes(Generation::Minor),
                        id as int,
                        cur[id as int],
                    );
                    lemma_slots_sum_update(
                        before,
                        w_bytes(Generation::Major),
                        id as int,
                        cur[id as int],
                    );
                    lemma_slots_sum_update(
                        before,
                        w_bytes(Generation::Immortal),
                        id as int,
                        cur[id as int],
                    );
                }
                self.minor_heap_size = self.minor_heap_size - sz;
                self.total_size = self.total_size - sz;
                id_set_remove(&mut self.minor_heap_gen, id);
                id_set_insert(&mut self.minor_heap_dead, id);
            } else {
                self.objects[id].header.marked = false;
                proof {
                    let cur = self.objects@;
                    assert(cur =~= before.update(id as int, cur[id as int]));
                    lemma_slots_sum_update(
                        before,
                        w_bytes(Generation::Minor),
                        id as int,
                        cur[id as int],
                    );
                    lemma_slots_sum_update(
                        before,
                        w_bytes(Generation::Major),
                        id as int,
                        cur[id as int],
                    );
                    lemma_slots_sum_update(
                        before,
                        w_bytes(Generation::Immortal),
                        id as int,
                        cur[id as int],
                    );
                }
                id_set_remove(&mut self.minor_heap_marked, id);
            }
            proof {
                assert(self.objects@ =~= before.update(id as int, self.objects@[id as int]));
                assert(gen_vec@[idx as int] == id);
                assert(minor_sweep_outcome(old(self).objects@[id as int], self.objects@[id as int]));
                assert forall|j: int|
                    idx + 1 <= j < glen implies #[trigger] self.objects@[gen_vec@[j] as int] == old(self).objects@[gen_vec@[j] as int] by {
                    assert(gen_vec@[j] != gen_vec@[idx as int]);
                }
                assert forall|j: int|
                    0 <= j < idx + 1 implies minor_sweep_outcome(
                    old(self).objects@[gen_vec@[j] as int],
                    #[trigger] self.objects@[gen_vec@[j] as int],
                ) by {
                    if j < idx {
                        assert(gen_vec@[j] != gen_vec@[idx as int]);
                    }
                }
            }
            idx = idx + 1;
        }
        proof {
            let pre = old(self).objects@;
            let cur = self.objects@;
            assert forall|i: int|
                0 <= i < n && live_in_gen(pre[i], Generation::Minor) implies minor_sweep_outcome(
                pre[i],
                #[trigger] cur[i],
            ) by {
                let idu: usize = i as usize;
                assert(live_in_gen(old(self).objects@[idu as int], Generation::Minor));
                assert(id_set_view(old(self).minor_heap_gen).contains(idu));
                assert(gen_vec@.to_set().contains(idu));
                assert(gen_vec@.contains(idu));
                let j = choose|j: int| 0 <= j < gen_vec@.len() && gen_vec@[j] == idu;
                assert(minor_sweep_outcome(pre[gen_vec@[j] as int], cur[gen_vec@[j] as int]));
            }
            assert forall|i: int| 0 <= i < n implies w_bytes(Generation::Minor)(#[trigger] cur[i])
                + w_unmarked_bytes(Generation::Minor)(pre[i]) == w_bytes(Generation::Minor)(
                pre[i],
            ) by {
                if live_in_gen(pre[i], Generation::Minor) {
                    assert(minor_sweep_outcome(pre[i], cur[i]));
                } else {
                    assert(cur[i] == pre[i]);
                }
            }
            lemma_slots_sum_pointwise(
                pre,
                cur,
                w_bytes(Generation::Minor),
                w_unmarked_bytes(Generation::Minor),
            );
            assert forall|id: usize|
                (id < n && live_in_gen(pre[id as int], Generation::Minor) && !pre[
                    id as int
                ].header.marked) implies id_set_view(self.minor_heap_dead).contains(id) by {
                assert(id_set_view(old(self).minor_heap_gen).contains(id));
                assert(gen_vec@.to_set().contains(id));
                assert(gen_vec@.contains(id));
                let j = choose|j: int| 0 <= j < gen_vec@.len() && gen_vec@[j] == id;
                assert(gen_vec@[j] == id);
            }
            assert(id_set_view(self.minor_heap_marked) =~= Set::<usize>::empty()) by {
                assert forall|id: usize|
                    !id_set_view(self.minor_heap_marked).contains(id) by {
                    if id_set_view(self.minor_heap_marked).contains(id) {
                        assert(id < n);
                        assert(live_in_gen(cur[id as int], Generation::Minor));
                        assert(cur[id as int].header.marked);
                        if live_in_gen(pre[id as int], Generation::Minor) {
                            assert(minor_sweep_outcome(pre[id as int], cur[id as int]));
                        }
                    }
                }
            }
        }
        self.minor_stage = MinorGCStage::Ready;
    }

    /// Whether the pacer asks for a major collection: the major heap has
    /// reached the configured ratio of its size when the last major
    /// collection started.
    pub fn major_gc_should_trigger(&self) -> (r: bool)
        ensures
            r == (self.major_heap_size * 100 >= self.config.major_gc_pacer_rate_percent
                * self.major_size_at_last_gc),
    {
        let a: u128 = self.major_heap_size as u128;
        let b: u128 = self.config.major_gc_pacer_rate_percent as u128;
        let c: u128 = self.major_size_at_last_gc as u128;
        proof {
            assert(a * 100 <= u128::MAX && b * c <= u128::MAX) by (nonlinear_arith)
                requires
                    a <= u64::MAX,
                    b <= u64::MAX,
                    c <= u64::MAX,
            ;
        }
        a * 100 >= b * c
    }

    /// One full minor collection: scan, then sweep, with the major-heap
    /// ceiling checked in between, since promotion may have grown the major
    /// heap past a configured hard limit — a fatal condition that aborts the
    /// cycle before the sweep. Afterwards the minor-collection request flag
    /// is cleared and the pacer may request a major collection.
    pub fn minor_heap_gen_gc(&mut self) -> (r: Result<(), GCError>)
        requires
            old(self).wf(),
            old(self).minor_stage == MinorGCStage::Ready,
            old(self).gc_stage == GCStage::Ready,
        ensures
            final(self).wf(),
            final(self).objects@.len() == old(self).objects@.len(),
            (r is Err) <==> (old(self).config.major_heap_size_limit != 0 && final(self).major_heap_size > old(self).config.major_heap_size_limit),
            r is Err ==> r == Err::<(), GCError>(GCError::MajorHeapOverflow) && final(self).minor_stage == MinorGCStage::Sweep,
            r is Ok ==> final(self).minor_stage == MinorGCStage::Ready,
            final(self).gc_stage == old(self).gc_stage,
            final(self).stw == old(self).stw,
            r is Ok ==> !final(self).start_minor_gc_flag,
            r is Ok ==> forall|i: int|
                0 <= i < old(self).objects@.len() && live_in_gen(
                    old(self).objects@[i],
                    Generation::Minor,
                ) ==> minor_gc_outcome(
                    old(self).config.major_heap_liveness,
                    old(self).objects@[i],
                    #[trigger] final(self).objects@[i],
                ),
            r is Ok ==> forall|i: int|
                0 <= i < old(self).objects@.len() && !live_in_gen(
                    old(self).objects@[i],
                    Generation::Minor,
                ) ==> final(self).objects@[i] == old(self).objects@[i],
            r is Ok ==> forall|id: usize|
                id_set_view(old(self).minor_heap_roots).contains(id) && id
                    < old(self).objects@.len() && live_in_gen(
                    old(self).objects@[id as int],
                    Generation::Minor,
                ) ==> !(#[trigger] final(self).objects@[id as int]).freed,
            r is Ok ==> forall|i: int, k: int|
                #![trigger old(self).objects@[i].edges@[k]]
                0 <= i < old(self).objects@.len() && live_in_gen(
                    old(self).objects@[i],
                    Generation::Minor,
                ) && !final(self).objects@[i].freed && 0 <= k < old(self).objects@[i].edges@.len()
                    && old(self).objects@[i].edges@[k] < old(self).objects@.len() && live_in_gen(
                    old(self).objects@[old(self).objects@[i].edges@[k] as int],
                    Generation::Minor,
                ) ==> !final(self).objects@[old(self).objects@[i].edges@[k] as int].freed,
            r is Ok ==> forall|id: usize|
                id < old(self).objects@.len() && live_in_gen(
                    old(self).objects@[id as int],
                    Generation::Minor,
                ) && (#[trigger] final(self).objects@[id as int]).freed ==> id_set_view(
                    final(self).minor_heap_dead,
                ).contains(id),
    {
        let m0 = self.minor_heap_size;
        self.monitoring.start_minor_gc(m0);
        let ghost pre = *self;
        self.minor_scan();
        let ghost mid = *self;
        if self.config.major_heap_size_limit != 0 && self.major_heap_size
            > self.config.major_heap_size_limit {
            return Err(GCError::MajorHeapOverflow);
        }
        self.minor_sweep();
        proof {
            let thr = pre.config.major_heap_liveness;
            assert forall|i: int|
                0 <= i < pre.objects@.len() && live_in_gen(pre.objects@[i], Generation::Minor)
                    implies minor_gc_outcome(
                thr,
                pre.objects@[i],
                #[trigger] self.objects@[i],
            ) by {
                assert(minor_scan_outcome(thr, pre.objects@[i], mid.objects@[i]));
                if minor_processed(mid.objects@[i]) {
                    if mid.objects@[i].header.generation == Generation::Major {
                        assert(!live_in_gen(mid.objects@[i], Generation::Minor));
                        assert(self.objects@[i] == mid.objects@[i]);
                    } else {
                        assert(live_in_gen(mid.objects@[i], Generation::Minor));
                        assert(minor_sweep_outcome(mid.objects@[i], self.objects@[i]));
                    }
                } else {
                    assert(mid.objects@[i] == pre.objects@[i]);
                    assert(live_in_gen(mid.objects@[i], Generation::Minor));
                    assert(minor_sweep_outcome(mid.objects@[i], self.objects@[i]));
                }
            }
            assert forall|i: int, k: int|
                #![trigger pre.objects@[i].edges@[k]]
                0 <= i < pre.objects@.len() && live_in_gen(pre.objects@[i], Generation::Minor)
                    && !self.objects@[i].freed && 0 <= k < pre.objects@[i].edges@.len()
                    && pre.objects@[i].edges@[k] < pre.objects@.len() && live_in_gen(
                    pre.objects@[pre.objects@[i].edges@[k] as int],
                    Generation::Minor,
                ) implies !self.objects@[pre.objects@[i].edges@[k] as int].freed by {
                let e = pre.objects@[i].edges@[k];
                assert(minor_scan_outcome(thr, pre.objects@[i], mid.objects@[i]));
                if !minor_processed(mid.objects@[i]) {
                    assert(mid.objects@[i] == pre.objects@[i]);
                    assert(live_in_gen(mid.objects@[i], Generation::Minor));
                    assert(minor_sweep_outcome(mid.objects@[i], self.objects@[i]));
                    assert(self.objects@[i].freed);
                }
                assert(minor_processed(mid.objects@[e as int]));
                assert(minor_scan_outcome(thr, pre.objects@[e as int], mid.objects@[e as int]));
                if mid.objects@[e as int].header.generation == Generation::Major {
                    assert(self.objects@[e as int] == mid.objects@[e as int]);
                } else {
                    assert(minor_sweep_outcome(mid.objects@[e as int], self.objects@[e as int]));
                }
            }
            assert forall|id: usize|
                id_set_view(pre.minor_heap_roots).contains(id) && id < pre.objects@.len()
                    && live_in_gen(pre.objects@[id as int], Generation::Minor) implies !(#[trigger] self.objects@[id as int]).freed by {
                assert(minor_processed(mid.objects@[id as int]));
                assert(minor_scan_outcome(
                    pre.config.major_heap_liveness,
                    pre.objects@[id as int],
                    mid.objects@[id as int],
                ));
                if mid.objects@[id as int].header.generation == Generation::Major {
                    assert(self.objects@[id as int] == mid.objects@[id as int]);
                } else {
                    assert(minor_sweep_outcome(mid.objects@[id as int], self.objects@[id as int]));
                }
            }
            assert forall|id: usize|
                id < pre.objects@.len() && live_in_gen(pre.objects@[id as int], Generation::Minor)
                    && (#[trigger] self.objects@[id as int]).freed implies id_set_view(
                self.minor_heap_dead,
            ).contains(id) by {
                if minor_processed(mid.objects@[id as int]) {
                    if mid.objects@[id as int].header.generation == Generation::Major {
                        assert(self.objects@[id as int] == mid.objects@[id as int]);
                    } else {
                        assert(minor_sweep_outcome(
                            mid.objects@[id as int],
                            self.objects@[id as int],
                        ));
                    }
                } else {
                    assert(mid.objects@[id as int] == pre.objects@[id as int]);
                    assert(!mid.objects@[id as int].header.marked);
                }
            }
        }
        self.start_minor_gc_flag = false;
        if self.major_gc_should_trigger() {
            self.start_major_gc_flag = true;
        }
        let m1 = self.minor_heap_size;
        let ma = self.major_heap_size;
        self.monitoring.end_minor_gc(m1);
        self.monitoring.record_memory_usage(ma, m1);
        Ok(())
    }
}

/// A slot with its mark bit set and nothing else changed.
pub open spec fn marked_version(o: ObjectSlot) -> ObjectSlot {
    ObjectSlot { header: GCHeader { marked: true, ..o.header }, ..o }
}

/// What a mark phase may do to the arena: set the mark bit of live,
/// unmarked major objects, and touch nothing else.
pub open spec fn mark_step_slots(pre: Seq<ObjectSlot>, post: Seq<ObjectSlot>) -> bool {
    &&& post.len() == pre.len()
    &&& forall|i: int|
        0 <= i < pre.len() ==> ((#[trigger] post[i]) == pre[i] || (live_in_gen(
            pre[i],
            Generation::Major,
        ) && !pre[i].header.marked && post[i] == marked_version(pre[i])))
}

/// How the concurrent sweep transforms one slot that entered it live in the
/// major generation: an object left unmarked by the final scan is reclaimed;
/// a marked survivor has its mark cleared, survives one more cycle, and
/// moves to the immortal generation exactly when that is enabled and its new
/// liveness passes the immortal threshold.
pub open spec fn major_sweep_outcome(
    enable_imm: bool,
    imm_threshold: usize,
    pre: ObjectSlot,
    post: ObjectSlot,
) -> bool {
    &&& post.size == pre.size
    &&& post.edges == pre.edges
    &&& post.header.pined == pre.header.pined
    &&& post.header.type_id == pre.header.type_id
    &&& !post.header.marked
    &&& (post.freed <==> !pre.header.marked)
    &&& (post.freed ==> post.header == pre.header)
    &&& (!post.freed ==> {
        &&& post.header.liveness == bumped(pre.header.liveness)
        &&& (live_in_gen(post, Generation::Immortal) <==> (enable_imm && bumped(
            pre.header.liveness,
        ) > imm_threshold))
        &&& (live_in_gen(post, Generation::Major) <==> !(enable_imm && bumped(
            pre.header.liveness,
        ) > imm_threshold))
    })
}

impl<M: Monitoring> State<M> {
    /// Checks-and-sets the mark of one object during a major mark phase. The
    /// first call on a live, unmarked major object marks it and queues its
    /// references for tracing; any further call on the same object finds it
    /// marked, leaves the marked set with that single entry, and queues
    /// nothing again.
    pub fn mark_major_object(&mut self, id: usize) -> (newly: bool)
        requires
            old(self).wf() || (old(self).wf_but_closure() && old(self).major_mark_closure_except_id(id)),
            old(self).gc_stage == GCStage::ParallelScan || old(self).gc_stage
                == GCStage::FinalScan,
        ensures
            final(self).wf(),
            newly <==> (id < old(self).objects@.len() && live_in_gen(
                old(self).objects@[id as int],
                Generation::Major,
            ) && !old(self).objects@[id as int].header.marked),
            !newly ==> *final(self) == *old(self),
            newly ==> final(self).objects@ == old(self).objects@.update(
                id as int,
                marked_version(old(self).objects@[id as int]),
            ),
            newly ==> id_set_view(final(self).major_heap_marked) == id_set_view(
                old(self).major_heap_marked,
            ).insert(id),
            newly ==> final(self).major_work@ == old(self).major_work@
                + old(self).objects@[id as int].edges@,
            newly ==> (*final(self) == (State {
                objects: final(self).objects,
                major_heap_marked: final(self).major_heap_marked,
                major_work: final(self).major_work,
                ..*old(self)
            })),
    {
        if id >= self.objects.len() {
            proof {
                assert(self.major_mark_closure_except_pending());
            }
            return false;
        }
        let live_major = !self.objects[id].freed && self.objects[id].header.generation
            == Generation::Major;
        if !live_major || self.objects[id].header.marked {
            proof {
                assert(self.major_mark_closure_except_pending());
            }
            return false;
        }
        let ghost before = self.objects@;
        self.objects[id].header.marked = true;
        proof {
            assert(self.objects@ =~= before.update(id as int, self.objects@[id as int]));
            assert(self.objects@[id as int] == marked_version(before[id as int]));
            lemma_slots_sum_update(
                before,
                w_bytes(Generation::Minor),
                id as int,
                self.objects@[id as int],
            );
            lemma_slots_sum_update(
                before,
                w_bytes(Generation::Major),
                id as int,
                self.objects@[id as int],
            );
            lemma_slots_sum_update(
                before,
                w_bytes(Generation::Immortal),
                id as int,
                self.objects@[id as int],
            );
        }
        id_set_insert(&mut self.major_heap_marked, id);
        let ghost snap = *self;
        let ghost work0 = self.major_work@;
        let elen = self.objects[id].edges.len();
        let mut k: usize = 0;
        while k < elen
            invariant
                k <= elen,
                id < self.objects@.len(),
                elen == self.objects@[id as int].edges@.len(),
                self.major_work@ == work0 + self.objects@[id as int].edges@.subrange(0, k as int),
                *self == (State { major_work: self.major_work, ..snap }),
            decreases elen - k,
        {
            let e = self.objects[id].edges[k];
            self.major_work.push(e);
            k = k + 1;
            proof {
                assert(self.major_work@ =~= work0 + self.objects@[id as int].edges@.subrange(
                    0,
                    k as int,
                ));
            }
        }
        proof {
            assert(self.objects@[id as int].edges@.subrange(0, elen as int) =~= self.objects@[
                id as int
            ].edges@);
            assert forall|x: usize| work0.contains(x) implies self.major_work@.contains(x) by {
                let i = choose|i: int| 0 <= i < work0.len() && work0[i] == x;
                assert(self.major_work@[i] == x);
            }
            assert forall|k2: int|
                0 <= k2 < elen implies self.major_work@.contains(
                #[trigger] self.objects@[id as int].edges@[k2],
            ) by {
                assert(self.major_work@[work0.len() + k2] == self.objects@[id as int].edges@[k2]);
            }
        }
        true
    }

    /// Traces the pending mark work to exhaustion: every queued identity
    /// that names a live, unmarked major object is marked and its references
    /// queued in turn, until no work remains.
    pub fn mark_major_drain(&mut self)
        requires
            old(self).wf(),
            old(self).gc_stage == GCStage::ParallelScan || old(self).gc_stage
                == GCStage::FinalScan,
        ensures
            final(self).wf(),
            final(self).major_work@.len() == 0,
            mark_step_slots(old(self).objects@, final(self).objects@),
            forall|id: usize|
                id_set_view(old(self).major_heap_marked).contains(id) ==> id_set_view(
                    final(self).major_heap_marked,
                ).contains(id),
            *final(self) == (State {
                objects: final(self).objects,
                major_heap_marked: final(self).major_heap_marked,
                major_work: final(self).major_work,
                ..*old(self)
            }),
    {
        while self.major_work.len() > 0
            invariant
                self.wf(),
                self.gc_stage == old(self).gc_stage,
                self.gc_stage == GCStage::ParallelScan || self.gc_stage == GCStage::FinalScan,
                mark_step_slots(old(self).objects@, self.objects@),
                forall|id: usize|
                    id_set_view(old(self).major_heap_marked).contains(id) ==> id_set_view(
                        self.major_heap_marked,
                    ).contains(id),
                *self == (State {
                    objects: self.objects,
                    major_heap_marked: self.major_heap_marked,
                    major_work: self.major_work,
                    ..*old(self)
                }),
            decreases slots_sum(self.objects@, w_unmarked(Generation::Major)),
                self.major_work@.len(),
        {
            let ghost w0 = self.major_work@;
            let id_opt = self.major_work.pop();
            let id = match id_opt {
                Some(v) => v,
                None => 0,
            };
            proof {
                assert(id == w0.last());
                assert(self.major_work@ == w0.drop_last());
                assert forall|m: usize, k: int|
                    m < self.objects@.len() && live_in_gen(
                        self.objects@[m as int],
                        Generation::Major,
                    ) && self.objects@[m as int].header.marked && !id_set_view(
                        self.major_heap_rescan_list,
                    ).contains(m) && 0 <= k < self.objects@[m as int].edges@.len() && (
                    #[trigger] self.objects@[m as int].edges@[k]) < self.objects@.len()
                        && live_in_gen(
                        self.objects@[self.objects@[m as int].edges@[k] as int],
                        Generation::Major,
                    ) && !self.objects@[self.objects@[m as int].edges@[k] as int].header.marked
                        && self.objects@[m as int].edges@[k] != id implies self.major_work@.contains(
                    self.objects@[m as int].edges@[k],
                ) by {
                    let e = self.objects@[m as int].edges@[k];
                    assert(w0.contains(e));
                    lemma_drop_last_contains(w0, e);
                }
                assert(self.major_mark_closure_except_id(id));
            }
            let ghost mid = *self;
            let newly = self.mark_major_object(id);
            proof {
                if newly {
                    let pre = old(self).objects@;
                    assert forall|i: int|
                        0 <= i < pre.len() implies ((#[trigger] self.objects@[i]) == pre[i] || (
                    live_in_gen(pre[i], Generation::Major) && !pre[i].header.marked
                        && self.objects@[i] == marked_version(pre[i]))) by {
                        if i == id as int {
                            assert(mid.objects@[i] == pre[i] || mid.objects@[i] == marked_version(
                                pre[i],
                            ));
                            assert(!mid.objects@[i].header.marked);
                            assert(mid.objects@[i] == pre[i]);
                        } else {
                            assert(self.objects@[i] == mid.objects@[i]);
                        }
                    }
                    lemma_slots_sum_update(
                        mid.objects@,
                        w_unmarked(Generation::Major),
                        id as int,
                        marked_version(mid.objects@[id as int]),
                    );
                }
            }
        }
    }

    /// Begins a major collection: stops the world, records the pacer's
    /// baseline, performs the initial root scan, then releases the world
    /// with the stage set to the concurrent parallel scan. Stopping an
    /// already stopped world is the fatal reentry condition.
    pub fn major_collection_start(&mut self) -> (r: Result<(), GCError>)
        requires
            old(self).wf(),
            old(self).gc_stage == GCStage::Ready,
        ensures
            final(self).wf(),
            r is Ok <==> !old(self).stw,
            old(self).stw ==> r == Err::<(), GCError>(GCError::StwReentry) && *final(self) == *old(self),
            r is Ok ==> {
                &&& final(self).gc_stage == GCStage::ParallelScan
                &&& !final(self).stw
                &&& final(self).major_size_at_last_gc == old(self).major_heap_size
                &&& mark_step_slots(old(self).objects@, final(self).objects@)
                &&& (forall|id: usize|
                    id_set_view(old(self).major_heap_roots).contains(id) && id < old(self).objects@.len() && live_in_gen(old(self).objects@[id as int], Generation::Major)
                        ==> (#[trigger] final(self).objects@[id as int]).header.marked)
                &&& (*final(self) == (State {
                    objects: final(self).objects,
                    major_heap_marked: final(self).major_heap_marked,
                    major_work: final(self).major_work,
                    major_size_at_last_gc: final(self).major_size_at_last_gc,
                    gc_stage: final(self).gc_stage,
                    ..*old(self)
                }))
            },
    {
        let m0 = self.major_heap_size;
        self.monitoring.start_major_gc(m0);
        match self.stw() {
            Err(e) => {
                return Err(e);
            },
            Ok(()) => {},
        }
        self.major_size_at_last_gc = self.major_heap_size;
        self.gc_stage = GCStage::ParallelScan;
        let roots = id_set_to_vec(&self.major_heap_roots);
        let rlen = roots.len();
        let mut i: usize = 0;
        while i < rlen
            invariant
                self.wf(),
                self.gc_stage == GCStage::ParallelScan,
                self.stw,
                i <= rlen,
                rlen == roots@.len(),
                self.major_size_at_last_gc == old(self).major_heap_size,
                id_set_view(self.major_heap_roots) == id_set_view(old(self).major_heap_roots),
                roots@.to_set() == id_set_view(old(self).major_heap_roots),
                mark_step_slots(old(self).objects@, self.objects@),
                forall|j: int|
                    #![trigger roots@[j]]
                    0 <= j < i && roots@[j] < old(self).objects@.len() && live_in_gen(
                        old(self).objects@[roots@[j] as int],
                        Generation::Major,
                    ) ==> self.objects@[roots@[j] as int].header.marked,
                *self == (State {
                    objects: self.objects,
                    major_heap_marked: self.major_heap_marked,
                    major_work: self.major_work,
                    major_size_at_last_gc: self.major_size_at_last_gc,
                    gc_stage: self.gc_stage,
                    stw: self.stw,
                    ..*old(self)
                }),
            decreases rlen - i,
        {
            let rid = roots[i];
            let ghost mid = *self;
            let newly = self.mark_major_object(rid);
            proof {
                let pre = old(self).objects@;
                if newly {
                    assert forall|ix: int|
                        0 <= ix < pre.len() implies ((#[trigger] self.objects@[ix]) == pre[ix] || (
                    live_in_gen(pre[ix], Generation::Major) && !pre[ix].header.marked
                        && self.objects@[ix] == marked_version(pre[ix]))) by {
                        if ix == rid as int {
                            assert(!mid.objects@[ix].header.marked);
                            assert(mid.objects@[ix] == pre[ix]);
                        } else {
                            assert(self.objects@[ix] == mid.objects@[ix]);
                        }
                    }
                }
                assert forall|j: int|
                    0 <= j < i + 1 && #[trigger] roots@[j] < pre.len() && live_in_gen(
                        pre[roots@[j] as int],
                        Generation::Major,
                    ) implies self.objects@[roots@[j] as int].header.marked by {
                    let x = roots@[j];
                    if j == i as int {
                        assert(mid.objects@[x as int] == pre[x as int] || mid.objects@[x as int]
                            == marked_version(pre[x as int]));
                        assert(live_in_gen(mid.objects@[x as int], Generation::Major));
                        if newly {
                            if x == rid {
                                assert(self.objects@[x as int].header.marked);
                            } else {
                                assert(self.objects@[x as int] == mid.objects@[x as int]);
                                assert(mid.objects@[x as int].header.marked);
                            }
                        } else {
                            assert(*self == mid);
                            assert(mid.objects@[x as int].header.marked);
                        }
                    } else {
                        assert(mid.objects@[x as int].header.marked);
                        if newly {
                            assert(self.objects@ == mid.objects@.update(
                                rid as int,
                                marked_version(mid.objects@[rid as int]),
                            ));
                        }
                    }
                }
            }
            i = i + 1;
        }
        proof {
            assert forall|id: usize|
                id_set_view(old(self).major_heap_roots).contains(id) && id < old(self).objects@.len() && live_in_gen(old(self).objects@[id as int], Generation::Major)
                    implies (#[trigger] self.objects@[id as int]).header.marked by {
                assert(roots@.to_set().contains(id));
                assert(roots@.contains(id));
                let j = choose|j: int| 0 <= j < roots@.len() && roots@[j] == id;
                assert(roots@[j] == id);
            }
        }
        match self.ctw() {
            Err(_) => {
                proof {
                    assert(false);
                }
            },
            Ok(()) => {},
        }
        Ok(())
    }
}

impl<M: Monitoring> State<M> {
    /// Stops the world again, drains the rescan list by re-queuing the
    /// references of every mutated marked object, and marks to the fixed
    /// point: when it returns successfully the rescan list is empty, no mark
    /// work is pending, and every marked object's live major references are
    /// marked — no mutation made during the concurrent window is lost.
    pub fn major_final_scan(&mut self) -> (r: Result<(), GCError>)
        requires
            old(self).wf(),
            old(self).gc_stage == GCStage::ParallelScan,
        ensures
            final(self).wf(),
            r is Ok <==> !old(self).stw,
            old(self).stw ==> r == Err::<(), GCError>(GCError::StwReentry) && *final(self) == *old(self),
            r is Ok ==> {
                &&& final(self).gc_stage == GCStage::FinalScan
                &&& final(self).stw
                &&& id_set_view(final(self).major_heap_rescan_list) == Set::<usize>::empty()
                &&& final(self).major_work@.len() == 0
                &&& final(self).major_mark_closure_except_pending()
                &&& mark_step_slots(old(self).objects@, final(self).objects@)
                &&& (forall|id: usize|
                    id_set_view(old(self).major_heap_marked).contains(id) ==> id_set_view(
                        final(self).major_heap_marked,
                    ).contains(id))
                &&& (*final(self) == (State {
                    objects: final(self).objects,
                    major_heap_marked: final(self).major_heap_marked,
                    major_heap_rescan_list: final(self).major_heap_rescan_list,
                    major_work: final(self).major_work,
                    gc_stage: final(self).gc_stage,
                    stw: final(self).stw,
                    ..*old(self)
                }))
            },
    {
        match self.stw() {
            Err(e) => {
                return Err(e);
            },
            Ok(()) => {},
        }
        self.gc_stage = GCStage::FinalScan;
        let rvec = id_set_to_vec(&self.major_heap_rescan_list);
        let rlen = rvec.len();
        let mut i: usize = 0;
        while i < rlen
            invariant
                self.wf(),
                self.gc_stage == GCStage::FinalScan,
                self.stw,
                i <= rlen,
                rlen == rvec@.len(),
                rvec@.to_set() == id_set_view(self.major_heap_rescan_list),
                id_set_view(self.major_heap_rescan_list) == id_set_view(
                    old(self).major_heap_rescan_list,
                ),
                forall|j: int, k: int|
                    #![trigger self.objects@[rvec@[j] as int].edges@[k]]
                    0 <= j < i && rvec@[j] < self.objects@.len() && live_in_gen(
                        self.objects@[rvec@[j] as int],
                        Generation::Major,
                    ) && self.objects@[rvec@[j] as int].header.marked && 0 <= k < self.objects@[
                        rvec@[j] as int
                    ].edges@.len() ==> self.major_work@.contains(
                        self.objects@[rvec@[j] as int].edges@[k],
                    ),
                *self == (State {
                    major_work: self.major_work,
                    gc_stage: self.gc_stage,
                    stw: self.stw,
                    ..*old(self)
                }),
            decreases rlen - i,
        {
            let rid = rvec[i];
            let ghost w_iter = self.major_work@;
            if rid < self.objects.len() {
                let is_marked_major = !self.objects[rid].freed && self.objects[rid].header.generation
                    == Generation::Major && self.objects[rid].header.marked;
                if is_marked_major {
                    let ghost snap = *self;
                    let ghost wstart = self.major_work@;
                    let elen = self.objects[rid].edges.len();
                    let mut k: usize = 0;
                    while k < elen
                        invariant
                            k <= elen,
                            rid < self.objects@.len(),
                            elen == self.objects@[rid as int].edges@.len(),
                            self.major_work@ == wstart + self.objects@[rid as int].edges@.subrange(
                                0,
                                k as int,
                            ),
                            *self == (State { major_work: self.major_work, ..snap }),
                        decreases elen - k,
                    {
                        let e = self.objects[rid].edges[k];
                        self.major_work.push(e);
                        k = k + 1;
                        proof {
                            assert(self.major_work@ =~= wstart + self.objects@[
                                rid as int
                            ].edges@.subrange(0, k as int));
                        }
                    }
                    proof {
                        assert(self.objects@[rid as int].edges@.subrange(0, elen as int)
                            =~= self.objects@[rid as int].edges@);
                        assert forall|x: usize| wstart.contains(x) implies self.major_work@.contains(
                            x,
                        ) by {
                            let ix = choose|ix: int| 0 <= ix < wstart.len() && wstart[ix] == x;
                            assert(self.major_work@[ix] == x);
                        }
                        assert forall|k2: int|
                            0 <= k2 < elen implies self.major_work@.contains(
                            #[trigger] self.objects@[rid as int].edges@[k2],
                        ) by {
                            assert(self.major_work@[wstart.len() + k2] == self.objects@[
                                rid as int
                            ].edges@[k2]);
                        }
                        assert(self.wf()) by {
                            assert forall|m: usize, k2: int|
                                m < self.objects@.len() && live_in_gen(
                                    self.objects@[m as int],
                                    Generation::Major,
                                ) && self.objects@[m as int].header.marked && !id_set_view(
                                    self.major_heap_rescan_list,
                                ).contains(m) && 0 <= k2 < self.objects@[m as int].edges@.len() && (
                                #[trigger] self.objects@[m as int].edges@[k2])
                                    < self.objects@.len() && live_in_gen(
                                    self.objects@[self.objects@[m as int].edges@[k2] as int],
                                    Generation::Major,
                                ) && !self.objects@[self.objects@[m as int].edges@[
                                    k2
                                ] as int].header.marked implies self.major_work@.contains(
                                self.objects@[m as int].edges@[k2],
                            ) by {
                                assert(wstart.contains(self.objects@[m as int].edges@[k2]));
                            }
                        }
                    }
                }
            }
            i = i + 1;
            proof {
                assert forall|j: int, k: int|
                    0 <= j < i && rvec@[j] < self.objects@.len() && live_in_gen(
                        self.objects@[rvec@[j] as int],
                        Generation::Major,
                    ) && self.objects@[rvec@[j] as int].header.marked && 0 <= k < self.objects@[
                        rvec@[j] as int
                    ].edges@.len() implies self.major_work@.contains(
                    #[trigger] self.objects@[rvec@[j] as int].edges@[k],
                ) by {
                    if j < i - 1 {
                        assert(w_iter.contains(self.objects@[rvec@[j] as int].edges@[k]));
                        let ix = choose|ix: int|
                            0 <= ix < w_iter.len() && w_iter[ix] == self.objects@[
                                rvec@[j] as int
                            ].edges@[k];
                        assert(self.major_work@.len() >= w_iter.len());
                        assert(self.major_work@[ix] == self.objects@[rvec@[j] as int].edges@[k]);
                    }
                }
            }
        }
        let ghost before_clear = *self;
        id_set_clear(&mut self.major_heap_rescan_list);
        proof {
            assert(self.wf()) by {
                assert forall|m: usize, k2: int|
                    m < self.objects@.len() && live_in_gen(
                        self.objects@[m as int],
                        Generation::Major,
                    ) && self.objects@[m as int].header.marked && !id_set_view(
                        self.major_heap_rescan_list,
                    ).contains(m) && 0 <= k2 < self.objects@[m as int].edges@.len() && (
                    #[trigger] self.objects@[m as int].edges@[k2]) < self.objects@.len()
                        && live_in_gen(
                        self.objects@[self.objects@[m as int].edges@[k2] as int],
                        Generation::Major,
                    ) && !self.objects@[self.objects@[m as int].edges@[k2] as int].header.marked
                        implies self.major_work@.contains(self.objects@[m as int].edges@[k2]) by {
                    if id_set_view(before_clear.major_heap_rescan_list).contains(m) {
                        assert(rvec@.to_set().contains(m));
                        assert(rvec@.contains(m));
                        let j = choose|j: int| 0 <= j < rvec@.len() && rvec@[j] == m;
                        assert(rvec@[j] == m);
                    }
                }
            }
        }
        self.mark_major_drain();
        Ok(())
    }

    /// The concurrent sweep: releases the world, reclaims every major object
    /// the final scan left unmarked — and only those: no object marked at the
    /// end of the final scan is reclaimed — clears the survivors' marks,
    /// credits them one survived cycle, and, when the immortal generation is
    /// enabled, retires the long-lived ones to it.
    pub fn major_concurrent_sweep(&mut self)
        requires
            old(self).wf(),
            old(self).gc_stage == GCStage::FinalScan,
            old(self).stw,
        ensures
            final(self).wf(),
            final(self).gc_stage == GCStage::Ready,
            !final(self).stw,
            !final(self).start_major_gc_flag,
            final(self).objects@.len() == old(self).objects@.len(),
            forall|i: int|
                0 <= i < old(self).objects@.len() && live_in_gen(
                    old(self).objects@[i],
                    Generation::Major,
                ) ==> major_sweep_outcome(
                    old(self).config.enable_imm_gen,
                    old(self).config.imm_liveness,
                    old(self).objects@[i],
                    #[trigger] final(self).objects@[i],
                ),
            forall|i: int|
                0 <= i < old(self).objects@.len() && !live_in_gen(
                    old(self).objects@[i],
                    Generation::Major,
                ) ==> final(self).objects@[i] == old(self).objects@[i],
            forall|id: usize|
                id < old(self).objects@.len() && live_in_gen(
                    old(self).objects@[id as int],
                    Generation::Major,
                ) && old(self).objects@[id as int].header.marked ==> !(#[trigger] final(self).objects@[id as int]).freed,
            id_set_view(final(self).major_heap_marked) == Set::<usize>::empty(),
            final(self).minor_heap_size == old(self).minor_heap_size,
            !old(self).config.enable_imm_gen ==> final(self).major_heap_size + slots_sum(
                old(self).objects@,
                w_unmarked_bytes(Generation::Major),
            ) == old(self).major_heap_size && final(self).imm_size == old(self).imm_size && final(self).total_size + slots_sum(old(self).objects@, w_unmarked_bytes(Generation::Major))
                == old(self).total_size,
            *final(self) == (State {
                objects: final(self).objects,
                major_heap_size: final(self).major_heap_size,
                imm_size: final(self).imm_size,
                total_size: final(self).total_size,
                major_heap_gen: final(self).major_heap_gen,
                major_heap_marked: final(self).major_heap_marked,
                imm_gen: final(self).imm_gen,
                gc_stage: final(self).gc_stage,
                stw: final(self).stw,
                start_major_gc_flag: final(self).start_major_gc_flag,
                ..*old(self)
            }),
    {
        match self.ctw() {
            Err(_) => {
                proof {
                    assert(false);
                }
            },
            Ok(()) => {},
        }
        self.gc_stage = GCStage::ConcurrentSweep;
        let n_now: usize = self.objects.len();
        let ghost n = n_now as int;
        let gen_vec = id_set_to_vec(&self.major_heap_gen);
        let glen = gen_vec.len();
        proof {
            assert forall|j: int|
                0 <= j < gen_vec@.len() implies #[trigger] gen_vec@[j] < n && live_in_gen(
                self.objects@[gen_vec@[j] as int],
                Generation::Major,
            ) by {
                assert(gen_vec@.contains(gen_vec@[j]));
                assert(gen_vec@.to_set().contains(gen_vec@[j]));
                let idu = gen_vec@[j];
                assert(id_set_view(self.major_heap_gen).contains(idu));
                assert(idu < self.objects@.len());
                assert(live_in_gen(self.objects@[idu as int], Generation::Major));
            }
        }
        let enable_imm = self.config.enable_imm_gen;
        let imm_thr = self.config.imm_liveness;
        let mut idx: usize = 0;
        while idx < glen
            invariant
                self.wf(),
                self.gc_stage == GCStage::ConcurrentSweep,
                !self.stw,
                idx <= glen,
                glen == gen_vec@.len(),
                gen_vec@.no_duplicates(),
                gen_vec@.to_set() == id_set_view(old(self).major_heap_gen),
                enable_imm == old(self).config.enable_imm_gen,
                imm_thr == old(self).config.imm_liveness,
                n == old(self).objects@.len(),
                self.objects@.len() == n,
                forall|j: int| #![trigger gen_vec@[j]] 0 <= j < glen ==> gen_vec@[j] < n,
                forall|j: int|
                    #![trigger gen_vec@[j]]
                    0 <= j < glen ==> live_in_gen(
                        old(self).objects@[gen_vec@[j] as int],
                        Generation::Major,
                    ),
                forall|j: int|
                    #![trigger gen_vec@[j]]
                    idx <= j < glen ==> self.objects@[gen_vec@[j] as int] == old(self).objects@[gen_vec@[j] as int],
                forall|j: int|
                    #![trigger gen_vec@[j]]
                    0 <= j < idx ==> major_sweep_outcome(
                        enable_imm,
                        imm_thr,
                        old(self).objects@[gen_vec@[j] as int],
                        self.objects@[gen_vec@[j] as int],
                    ),
                forall|i: int|
                    0 <= i < n && !live_in_gen(old(self).objects@[i], Generation::Major)
                        ==> self.objects@[i] == old(self).objects@[i],
                self.minor_heap_size == old(self).minor_heap_size,
                !enable_imm ==> self.imm_size == old(self).imm_size,
                *self == (State {
                    objects: self.objects,
                    major_heap_size: self.major_heap_size,
                    imm_size: self.imm_size,
                    total_size: self.total_size,
                    major_heap_gen: self.major_heap_gen,
                    major_heap_marked: self.major_heap_marked,
                    imm_gen: self.imm_gen,
                    gc_stage: self.gc_stage,
                    stw: self.stw,
                    ..*old(self)
                }),
            decreases glen - idx,
        {
            let id = gen_vec[idx];
            proof {
                assert(gen_vec@[idx as int] == id);
                assert(id < n);
                assert(self.objects@[id as int] == old(self).objects@[id as int]);
                assert(live_in_gen(old(self).objects@[id as int], Generation::Major));
            }
            let sz = self.objects[id].size;
            let ghost before = self.objects@;
            if !self.objects[id].header.marked {
                proof {
                    lemma_slots_sum_bound(before, w_bytes(Generation::Major), id as int);
                }
                self.objects[id].freed = true;
                proof {
                    let cur = self.objects@;
                    assert(cur =~= before.update(id as int, cur[id as int]));
                    lemma_slots_sum_update(
                        before,
                        w_bytes(Generation::Minor),
                        id as int,
                        cur[id as int],
                    );
                    lemma_slots_sum_update(
                        before,
                        w_bytes(Generation::Major),
                        id as int,
                        cur[id as int],
                    );
                    lemma_slots_sum_update(
                        before,
                        w_bytes(Generation::Immortal),
                        id as int,
                        cur[id as int],
                    );
                }
                self.major_heap_size = self.major_heap_size - sz;
                self.total_size = self.total_size - sz;
                id_set_remove(&mut self.major_heap_gen, id);
            } else {
                let l = self.objects[id].header.liveness;
                let new_l: usize = if l < usize::MAX {
                    l + 1
                } else {
                    l
                };
                self.objects[id].header.marked = false;
                self.objects[id].header.liveness = new_l;
                id_set_remove(&mut self.major_heap_marked, id);
                if enable_imm && new_l > imm_thr {
                    proof {
                        lemma_slots_sum_bound(before, w_bytes(Generation::Major), id as int);
                    }
                    self.objects[id].header.generation = Generation::Immortal;
                    proof {
                        let cur = self.objects@;
                        assert(cur =~= before.update(id as int, cur[id as int]));
                        lemma_slots_sum_update(
                            before,
                            w_bytes(Generation::Minor),
                            id as int,
                            cur[id as int],
                        );
                        lemma_slots_sum_update(
                            before,
                            w_bytes(Generation::Major),
                            id as int,
                            cur[id as int],
                        );
                        lemma_slots_sum_update(
                            before,
                            w_bytes(Generation::Immortal),
                            id as int,
                            cur[id as int],
                        );
                    }
                    self.major_heap_size = self.major_heap_size - sz;
                    self.imm_size = self.imm_size + sz;
                    id_set_remove(&mut self.major_heap_gen, id);
                    id_set_insert(&mut self.imm_gen, id);
                } else {
                    proof {
                        let cur = self.objects@;
                        assert(cur =~= before.update(id as int, cur[id as int]));
                        lemma_slots_sum_update(
                            before,
                            w_bytes(Generation::Minor),
                            id as int,
                            cur[id as int],
                        );
                        lemma_slots_sum_update(
                            before,
                            w_bytes(Generation::Major),
                            id as int,
                            cur[id as int],
                        );
                        lemma_slots_sum_update(
                            before,
                            w_bytes(Generation::Immortal),
                            id as int,
                            cur[id as int],
                        );
                    }
                }
            }
            proof {
                assert(self.objects@ =~= before.update(id as int, self.objects@[id as int]));
                assert(gen_vec@[idx as int] == id);
                assert(major_sweep_outcome(
                    enable_imm,
                    imm_thr,
                    old(self).objects@[id as int],
                    self.objects@[id as int],
                ));
                assert forall|j: int|
                    idx + 1 <= j < glen implies #[trigger] self.objects@[gen_vec@[j] as int] == old(self).objects@[gen_vec@[j] as int] by {
                    assert(gen_vec@[j] != gen_vec@[idx as int]);
                }
                assert forall|j: int|
                    0 <= j < idx + 1 implies major_sweep_outcome(
                    enable_imm,
                    imm_thr,
                    old(self).objects@[gen_vec@[j] as int],
                    #[trigger] self.objects@[gen_vec@[j] as int],
                ) by {
                    if j < idx {
                        assert(gen_vec@[j] != gen_vec@[idx as int]);
                    }
                }
            }
            idx = idx + 1;
        }
        proof {
            let pre = old(self).objects@;
            let cur = self.objects@;
            assert forall|i: int|
                0 <= i < n && live_in_gen(pre[i], Generation::Major) implies major_sweep_outcome(
                old(self).config.enable_imm_gen,
                old(self).config.imm_liveness,
                pre[i],
                #[trigger] cur[i],
            ) by {
                let idu: usize = i as usize;
                assert(live_in_gen(old(self).objects@[idu as int], Generation::Major));
                assert(id_set_view(old(self).major_heap_gen).contains(idu));
                assert(gen_vec@.to_set().contains(idu));
                assert(gen_vec@.contains(idu));
                let j = choose|j: int| 0 <= j < gen_vec@.len() && gen_vec@[j] == idu;
                assert(gen_vec@[j] == idu);
            }
            if !old(self).config.enable_imm_gen {
                assert forall|i: int|
                    0 <= i < n implies w_bytes(Generation::Major)(#[trigger] cur[i])
                    + w_unmarked_bytes(Generation::Major)(pre[i]) == w_bytes(Generation::Major)(
                    pre[i],
                ) by {
                    if live_in_gen(pre[i], Generation::Major) {
                        assert(major_sweep_outcome(
                            old(self).config.enable_imm_gen,
                            old(self).config.imm_liveness,
                            pre[i],
                            cur[i],
                        ));
                    } else {
                        assert(cur[i] == pre[i]);
                    }
                }
                lemma_slots_sum_pointwise(
                    pre,
                    cur,
                    w_bytes(Generation::Major),
                    w_unmarked_bytes(Generation::Major),
                );
            }
            assert(id_set_view(self.major_heap_marked) =~= Set::<usize>::empty()) by {
                assert forall|id: usize|
                    !id_set_view(self.major_heap_marked).contains(id) by {
                    if id_set_view(self.major_heap_marked).contains(id) {
                        assert(id < n);
                        assert(live_in_gen(cur[id as int], Generation::Major));
                        assert(cur[id as int].header.marked);
                        if live_in_gen(pre[id as int], Generation::Major) {
                            assert(major_sweep_outcome(
                                old(self).config.enable_imm_gen,
                                old(self).config.imm_liveness,
                                pre[id as int],
                                cur[id as int],
                            ));
                        }
                    }
                }
            }
        }
        self.gc_stage = GCStage::Ready;
        self.start_major_gc_flag = false;
        let m1 = self.major_heap_size;
        let mi = self.minor_heap_size;
        self.monitoring.end_major_gc(m1);
        self.monitoring.record_memory_usage(m1, mi);
    }
}

/// Relies on rayon's `ThreadPool::install`: runs the closure inside the
/// worker pool and returns its result once it completes. The closure only
/// calls the library's own `mark_major_drain`, whose contract this mirrors.
#[verifier::external_body]
fn drain_marking_on_pool<M: Monitoring + Send>(pool: &rayon::ThreadPool, state: &mut State<M>)
    requires
        old(state).wf(),
        old(state).gc_stage == GCStage::ParallelScan || old(state).gc_stage == GCStage::FinalScan,
    ensures
        final(state).wf(),
        final(state).major_work@.len() == 0,
        mark_step_slots(old(state).objects@, final(state).objects@),
        forall|id: usize|
            id_set_view(old(state).major_heap_marked).contains(id) ==> id_set_view(
                final(state).major_heap_marked,
            ).contains(id),
        *final(state) == (State {
            objects: final(state).objects,
            major_heap_marked: final(state).major_heap_marked,
            major_work: final(state).major_work,
            ..*old(state)
        }),
{
    pool.install(|| state.mark_major_drain())
}

impl<M: Monitoring + Send> State<M> {
    /// Continues marking on the worker pool while the stage stays at the
    /// concurrent parallel scan, until the pending mark work is exhausted.
    /// Without a pool the calling thread does the work itself.
    pub fn major_parallel_scan(&mut self)
        requires
            old(self).wf(),
            old(self).gc_stage == GCStage::ParallelScan,
        ensures
            final(self).wf(),
            final(self).gc_stage == GCStage::ParallelScan,
            final(self).major_work@.len() == 0,
            mark_step_slots(old(self).objects@, final(self).objects@),
            forall|id: usize|
                id_set_view(old(self).major_heap_marked).contains(id) ==> id_set_view(
                    final(self).major_heap_marked,
                ).contains(id),
            *final(self) == (State {
                objects: final(self).objects,
                major_heap_marked: final(self).major_heap_marked,
                major_work: final(self).major_work,
                rayon_pool: final(self).rayon_pool,
                ..*old(self)
            }),
            final(self).rayon_pool == old(self).rayon_pool,
    {
        let pool_opt = self.rayon_pool.take();
        match &pool_opt {
            Some(pool) => {
                drain_marking_on_pool(pool, self);
            },
            None => {
                self.mark_major_drain();
            },
        }
        self.rayon_pool = pool_opt;
    }

    /// One full major collection: the stop-the-world start with its root
    /// scan, parallel marking on the worker pool, the final scan that drains
    /// the rescan list to its fixed point, and the concurrent sweep. A major
    /// heap still above a configured nonzero limit afterwards is the fatal
    /// out-of-memory condition.
    pub fn major_heap_gen_gc(&mut self) -> (r: Result<(), GCError>)
        requires
            old(self).wf(),
            old(self).gc_stage == GCStage::Ready,
            !old(self).stw,
        ensures
            final(self).wf(),
            final(self).gc_stage == GCStage::Ready,
            !final(self).stw,
            final(self).objects@.len() == old(self).objects@.len(),
            (r is Err) <==> (old(self).config.major_heap_size_limit != 0 && final(self).major_heap_size > old(self).config.major_heap_size_limit),
            r is Err ==> r == Err::<(), GCError>(GCError::MajorHeapOverflow),
            final(self).major_size_at_last_gc == old(self).major_heap_size,
            !final(self).start_major_gc_flag,
            forall|id: usize|
                id_set_view(old(self).major_heap_roots).contains(id) && id < old(self).objects@.len() && live_in_gen(old(self).objects@[id as int], Generation::Major)
                    ==> !(#[trigger] final(self).objects@[id as int]).freed,
            forall|i: int|
                0 <= i < old(self).objects@.len() && live_in_gen(
                    old(self).objects@[i],
                    Generation::Major,
                ) ==> {
                    let post = #[trigger] final(self).objects@[i];
                    &&& (post.freed ==> post.header == old(self).objects@[i].header)
                    &&& (!post.freed ==> post.header.liveness == bumped(
                        old(self).objects@[i].header.liveness,
                    ) && !post.header.marked && (live_in_gen(post, Generation::Major)
                        || live_in_gen(post, Generation::Immortal)))
                },
    {
        let n_now: usize = self.objects.len();
        let ghost n = n_now as int;
        let ghost pre = *self;
        match self.major_collection_start() {
            Err(e) => {
                proof {
                    assert(false);
                }
                return Err(e);
            },
            Ok(()) => {},
        }
        let ghost s1 = *self;
        self.major_parallel_scan();
        let ghost s2 = *self;
        match self.major_final_scan() {
            Err(e) => {
                proof {
                    assert(false);
                }
                return Err(e);
            },
            Ok(()) => {},
        }
        let ghost s3 = *self;
        self.major_concurrent_sweep();
        proof {
            assert forall|id: usize|
                id_set_view(pre.major_heap_roots).contains(id) && id < pre.objects@.len()
                    && live_in_gen(pre.objects@[id as int], Generation::Major) implies !(#[trigger] self.objects@[id as int]).freed by {
                assert(s1.objects@[id as int].header.marked);
                assert(live_in_gen(s1.objects@[id as int], Generation::Major));
                assert(s2.objects@[id as int] == s1.objects@[id as int] || s2.objects@[id as int]
                    == marked_version(s1.objects@[id as int]));
                assert(s2.objects@[id as int].header.marked);
                assert(live_in_gen(s2.objects@[id as int], Generation::Major));
                assert(s3.objects@[id as int] == s2.objects@[id as int] || s3.objects@[id as int]
                    == marked_version(s2.objects@[id as int]));
                assert(s3.objects@[id as int].header.marked);
                assert(live_in_gen(s3.objects@[id as int], Generation::Major));
            }
        }
        proof {
            assert forall|i: int|
                0 <= i < pre.objects@.len() && live_in_gen(pre.objects@[i], Generation::Major)
                    implies {
                let post = #[trigger] self.objects@[i];
                &&& (post.freed ==> post.header == pre.objects@[i].header)
                &&& (!post.freed ==> post.header.liveness == bumped(
                    pre.objects@[i].header.liveness,
                ) && !post.header.marked && (live_in_gen(post, Generation::Major) || live_in_gen(
                    post,
                    Generation::Immortal,
                )))
            } by {
                assert(s1.objects@[i] == pre.objects@[i] || s1.objects@[i] == marked_version(
                    pre.objects@[i],
                ));
                assert(s2.objects@[i] == s1.objects@[i] || s2.objects@[i] == marked_version(
                    s1.objects@[i],
                ));
                assert(s3.objects@[i] == s2.objects@[i] || s3.objects@[i] == marked_version(
                    s2.objects@[i],
                ));
                assert(live_in_gen(s3.objects@[i], Generation::Major));
                assert(major_sweep_outcome(
                    s3.config.enable_imm_gen,
                    s3.config.imm_liveness,
                    s3.objects@[i],
                    self.objects@[i],
                ));
                let idu: usize = i as usize;
                assert(live_in_gen(pre.objects@[idu as int], Generation::Major));
                assert(!pre.objects@[idu as int].header.marked);
                if !s3.objects@[i].header.marked {
                    assert(s3.objects@[i] == pre.objects@[i]);
                }
            }
        }
        if self.config.major_heap_size_limit != 0 && self.major_heap_size
            > self.config.major_heap_size_limit {
            return Err(GCError::MajorHeapOverflow);
        }
        Ok(())
    }
}

impl<M: Monitoring> State<M> {
    /// Registers an object as a root of the minor generation; an identity
    /// that names no allocation is refused.
    pub fn add_minor_root(&mut self, id: usize) -> (added: bool)
        requires
            old(self).wf(),
        ensures
            final(self).wf(),
            added == (id < old(self).objects@.len()),
            added ==> id_set_view(final(self).minor_heap_roots) == id_set_view(
                old(self).minor_heap_roots,
            ).insert(id),
            !added ==> *final(self) == *old(self),
            *final(self) == (State { minor_heap_roots: final(self).minor_heap_roots, ..*old(self) }),
    {
        if id < self.objects.len() {
            id_set_insert(&mut self.minor_heap_roots, id);
            true
        } else {
            false
        }
    }

    /// Registers an object as a root of the major generation.
    pub fn add_major_root(&mut self, id: usize) -> (added: bool)
        requires
            old(self).wf(),
        ensures
            final(self).wf(),
            added == (id < old(self).objects@.len()),
            added ==> id_set_view(final(self).major_heap_roots) == id_set_view(
                old(self).major_heap_roots,
            ).insert(id),
            !added ==> *final(self) == *old(self),
            *final(self) == (State { major_heap_roots: final(self).major_heap_roots, ..*old(self) }),
    {
        if id < self.objects.len() {
            id_set_insert(&mut self.major_heap_roots, id);
            true
        } else {
            false
        }
    }

    /// Unregisters a minor root, as a host does when a binding's scope ends.
    pub fn remove_minor_root(&mut self, id: usize)
        requires
            old(self).wf(),
        ensures
            final(self).wf(),
            id_set_view(final(self).minor_heap_roots) == id_set_view(
                old(self).minor_heap_roots,
            ).remove(id),
            *final(self) == (State { minor_heap_roots: final(self).minor_heap_roots, ..*old(self) }),
    {
        id_set_remove(&mut self.minor_heap_roots, id);
    }

    /// Unregisters a major root.
    pub fn remove_major_root(&mut self, id: usize)
        requires
            old(self).wf(),
        ensures
            final(self).wf(),
            id_set_view(final(self).major_heap_roots) == id_set_view(
                old(self).major_heap_roots,
            ).remove(id),
            *final(self) == (State { major_heap_roots: final(self).major_heap_roots, ..*old(self) }),
    {
        id_set_remove(&mut self.major_heap_roots, id);
    }

    /// Whether the identity is in the minor generation's live set.
    pub fn is_minor_live(&self, id: usize) -> (r: bool)
        ensures
            r == id_set_view(self.minor_heap_gen).contains(id),
    {
        id_set_contains(&self.minor_heap_gen, id)
    }

    /// Whether the identity is in the major generation's live set.
    pub fn is_major_live(&self, id: usize) -> (r: bool)
        ensures
            r == id_set_view(self.major_heap_gen).contains(id),
    {
        id_set_contains(&self.major_heap_gen, id)
    }

    /// Whether the identity is in the immortal generation's live set.
    pub fn is_immortal(&self, id: usize) -> (r: bool)
        ensures
            r == id_set_view(self.imm_gen).contains(id),
    {
        id_set_contains(&self.imm_gen, id)
    }

    /// Whether the identity sits in the minor dead set.
    pub fn in_minor_dead(&self, id: usize) -> (r: bool)
        ensures
            r == id_set_view(self.minor_heap_dead).contains(id),
    {
        id_set_contains(&self.minor_heap_dead, id)
    }

    /// Whether the identity sits on the major rescan list.
    pub fn in_rescan_list(&self, id: usize) -> (r: bool)
        ensures
            r == id_set_view(self.major_heap_rescan_list).contains(id),
    {
        id_set_contains(&self.major_heap_rescan_list, id)
    }

    /// Whether the major rescan list is empty.
    pub fn rescan_list_is_empty(&self) -> (r: bool)
        ensures
            r == (id_set_view(self.major_heap_rescan_list) == Set::<usize>::empty()),
    {
        id_set_is_empty(&self.major_heap_rescan_list)
    }

    /// Whether the identity is in the major generation's marked set.
    pub fn is_major_marked(&self, id: usize) -> (r: bool)
        ensures
            r == id_set_view(self.major_heap_marked).contains(id),
    {
        id_set_contains(&self.major_heap_marked, id)
    }

    /// The mark bit of an allocation's header.
    pub fn object_marked(&self, id: usize) -> (r: bool)
        requires
            id < self.objects@.len(),
        ensures
            r == self.objects@[id as int].header.marked,
    {
        self.objects[id].header.marked
    }

    /// The liveness counter of an allocation's header.
    pub fn object_liveness(&self, id: usize) -> (r: usize)
        requires
            id < self.objects@.len(),
        ensures
            r == self.objects@[id as int].header.liveness,
    {
        self.objects[id].header.liveness
    }

    /// Whether the allocation has been reclaimed.
    pub fn object_freed(&self, id: usize) -> (r: bool)
        requires
            id < self.objects@.len(),
        ensures
            r == self.objects@[id as int].freed,
    {
        self.objects[id].freed
    }

    /// How many identities wait in the pending major mark work.
    pub fn pending_mark_work(&self) -> (r: usize)
        ensures
            r == self.major_work@.len(),
    {
        self.major_work.len()
    }
}

impl State<DummyMonitoring> {
    /// The collector with the default configuration and the inert monitoring
    /// backend.
    pub fn new() -> (s: State<DummyMonitoring>)
        ensures
            s.wf(),
            !s.stw,
            s.objects@.len() == 0,
            s.gc_stage == GCStage::Ready,
            s.minor_stage == MinorGCStage::Ready,
    {
        Self::new_with(GCConfig::default(), DummyMonitoring {  })
    }
}

} // verus!
