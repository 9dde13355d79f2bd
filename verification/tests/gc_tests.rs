use gen_gc::{DummyMonitoring, GCBox, GCConfig, GCError, GCHeader, Monitoring, State, Trace};

struct Node {
    children: Vec<usize>,
}

impl Trace for Node {
    fn trace(&self) -> Vec<usize> {
        self.children.clone()
    }
}

fn block_size() -> usize {
    core::mem::size_of::<GCHeader>() + core::mem::size_of::<Node>()
}

fn small_config() -> GCConfig {
    GCConfig {
        thread_pool_size: 1,
        minor_gc_trigger_size: 1 << 20,
        minor_heap_size_limit: 1 << 30,
        major_heap_liveness: 3,
        major_gc_pacer_rate_percent: 200,
        major_heap_size_limit: 0,
        enable_imm_gen: false,
        imm_liveness: 100,
    }
}

fn fresh_state() -> State<DummyMonitoring> {
    State::new_with(small_config(), DummyMonitoring {})
}

fn leaf() -> Node {
    Node { children: Vec::new() }
}

#[test]
fn header_identity_separate_allocations_unequal() {
    let mut st = fresh_state();
    let mut frame = st.new_frame();
    let a = GCBox::new(&mut frame, &mut st, leaf()).unwrap();
    let b = GCBox::new(&mut frame, &mut st, leaf()).unwrap();
    assert!(a.cell != b.cell);
    assert!(b.cell != a.cell);
}

#[test]
fn header_identity_same_allocation_equal() {
    let mut st = fresh_state();
    let mut frame = st.new_frame();
    let a = GCBox::new(&mut frame, &mut st, Node { children: vec![7] }).unwrap();
    let r = a.read();
    assert!(r.cell == a.cell);
    let g = a.acquire_write();
    assert!(g.cell == a.cell);
    assert_eq!(r.get().children, vec![7]);
    assert_eq!(a.get().children, vec![7]);
}

#[test]
fn allocation_accounting_counter_rises_by_block_size() {
    let mut st = fresh_state();
    let mut frame = st.new_frame();
    assert_eq!(st.minor_heap_size, 0);
    let _a = GCBox::new(&mut frame, &mut st, leaf()).unwrap();
    assert_eq!(st.minor_heap_size, block_size());
    assert_eq!(st.total_size, block_size());
    let _b = GCBox::new(&mut frame, &mut st, leaf()).unwrap();
    assert_eq!(st.minor_heap_size, 2 * block_size());
}

#[test]
fn allocation_accounting_sweep_reclaims_exact_bytes() {
    let mut st = fresh_state();
    let mut frame = st.new_frame();
    let a = GCBox::new(&mut frame, &mut st, leaf()).unwrap();
    let _b = GCBox::new(&mut frame, &mut st, leaf()).unwrap();
    st.add_minor_root(a.cell.id);
    st.minor_heap_gen_gc().unwrap();
    // only the unrooted object is reclaimed: the counter falls by one block
    assert_eq!(st.minor_heap_size, block_size());
    assert_eq!(st.total_size, block_size());
}

#[test]
fn minor_gc_on_empty_heap_is_a_no_op() {
    let mut st = fresh_state();
    st.minor_heap_gen_gc().unwrap();
    assert_eq!(st.minor_heap_size, 0);
    assert_eq!(st.total_size, 0);
}

#[test]
fn promotion_after_exactly_threshold_scans() {
    let mut cfg = small_config();
    cfg.major_heap_liveness = 2;
    let mut st = State::new_with(cfg, DummyMonitoring {});
    let mut frame = st.new_frame();
    let a = GCBox::new(&mut frame, &mut st, leaf()).unwrap();
    let id = a.cell.id;
    st.add_minor_root(id);
    // one scan fewer than the threshold: still minor
    st.minor_heap_gen_gc().unwrap();
    assert!(st.is_minor_live(id));
    assert!(!st.is_major_live(id));
    assert_eq!(st.object_liveness(id), 2);
    // the scan that tips it over: present in major, absent from minor
    st.minor_heap_gen_gc().unwrap();
    assert!(st.is_major_live(id));
    assert!(!st.is_minor_live(id));
    assert_eq!(st.object_liveness(id), 3);
    assert_eq!(st.major_heap_size, block_size());
    assert_eq!(st.minor_heap_size, 0);
}

#[test]
fn reachability_follows_traced_edges() {
    let mut st = fresh_state();
    let mut frame = st.new_frame();
    let b = GCBox::new(&mut frame, &mut st, leaf()).unwrap();
    let a = GCBox::new(&mut frame, &mut st, Node { children: vec![b.cell.id] }).unwrap();
    let c = GCBox::new(&mut frame, &mut st, leaf()).unwrap();
    st.add_minor_root(a.cell.id);
    st.minor_heap_gen_gc().unwrap();
    assert!(st.is_minor_live(a.cell.id));
    assert!(st.is_minor_live(b.cell.id));
    assert!(!st.is_minor_live(c.cell.id));
    assert!(st.object_freed(c.cell.id));
    assert!(st.in_minor_dead(c.cell.id));
}

#[test]
fn write_barrier_queues_rescan_during_parallel_scan() {
    let mut st = fresh_state();
    let mut frame = st.new_frame();
    let mut a = GCBox::new(&mut frame, &mut st, leaf()).unwrap();
    let id = a.cell.id;
    // a clean acquire/release outside the concurrent stage queues nothing
    let g = a.acquire_write();
    a.release_write(g, &mut st);
    assert!(!st.in_rescan_list(id));
    // during the concurrent stage the mutated object lands on the rescan list
    st.major_collection_start().unwrap();
    let mut g = a.acquire_write();
    a.set(&mut g, Node { children: vec![] });
    a.release_write(g, &mut st);
    assert!(st.in_rescan_list(id));
    // the final scan drains the list to its fixed point
    st.major_parallel_scan();
    st.major_final_scan().unwrap();
    assert!(st.rescan_list_is_empty());
    st.major_concurrent_sweep();
}

#[test]
fn write_barrier_queues_dirty_release_in_any_stage() {
    let mut st = fresh_state();
    let mut frame = st.new_frame();
    let mut a = GCBox::new(&mut frame, &mut st, leaf()).unwrap();
    let id = a.cell.id;
    let mut g = a.acquire_write();
    a.set(&mut g, leaf());
    a.release_write(g, &mut st);
    assert!(st.in_rescan_list(id));
}

#[test]
fn write_barrier_refreshes_recorded_edges() {
    let mut st = fresh_state();
    let mut frame = st.new_frame();
    let b = GCBox::new(&mut frame, &mut st, leaf()).unwrap();
    let mut a = GCBox::new(&mut frame, &mut st, leaf()).unwrap();
    st.add_minor_root(a.cell.id);
    // the mutation makes a point at b; the barrier re-traces a
    let mut g = a.acquire_write();
    a.set(&mut g, Node { children: vec![b.cell.id] });
    a.release_write(g, &mut st);
    st.minor_heap_gen_gc().unwrap();
    assert!(st.is_minor_live(b.cell.id));
}

fn setup_two_major() -> (State<DummyMonitoring>, usize, usize) {
    let mut cfg = small_config();
    cfg.major_heap_liveness = 1;
    let mut st = State::new_with(cfg, DummyMonitoring {});
    let mut frame = st.new_frame();
    let a = GCBox::new(&mut frame, &mut st, leaf()).unwrap();
    let b = GCBox::new(&mut frame, &mut st, leaf()).unwrap();
    st.add_minor_root(a.cell.id);
    st.add_minor_root(b.cell.id);
    st.minor_heap_gen_gc().unwrap();
    assert!(st.is_major_live(a.cell.id));
    assert!(st.is_major_live(b.cell.id));
    (st, a.cell.id, b.cell.id)
}

#[test]
fn sweep_safety_marked_objects_survive_concurrent_sweep() {
    let (mut st, a, b) = setup_two_major();
    st.remove_major_root(b);
    st.major_collection_start().unwrap();
    st.major_parallel_scan();
    st.major_final_scan().unwrap();
    // a is marked at the end of the final scan, b is not
    assert!(st.object_marked(a));
    assert!(!st.object_marked(b));
    st.major_concurrent_sweep();
    assert!(!st.object_freed(a));
    assert!(st.is_major_live(a));
    assert!(st.object_freed(b));
    assert!(!st.is_major_live(b));
    assert_eq!(st.major_heap_size, block_size());
}

#[test]
fn full_major_cycle_keeps_roots() {
    let (mut st, a, b) = setup_two_major();
    st.remove_major_root(b);
    st.major_heap_gen_gc().unwrap();
    assert!(st.is_major_live(a));
    assert!(st.object_freed(b));
}

#[test]
fn stw_invariant_double_stop_is_fatal() {
    let mut st = fresh_state();
    assert!(st.stw().is_ok());
    assert_eq!(st.stw(), Err(GCError::StwReentry));
    assert!(st.ctw().is_ok());
    assert_eq!(st.ctw(), Err(GCError::CtwWithoutStw));
}

#[test]
fn oom_boundary_exactly_at_limit_succeeds() {
    let mut cfg = small_config();
    cfg.minor_heap_size_limit = 2 * block_size();
    let mut st = State::new_with(cfg, DummyMonitoring {});
    let mut frame = st.new_frame();
    let _a = GCBox::new(&mut frame, &mut st, leaf()).unwrap();
    let _b = GCBox::new(&mut frame, &mut st, leaf()).unwrap();
    assert_eq!(st.minor_heap_size, 2 * block_size());
    match GCBox::new(&mut frame, &mut st, leaf()) {
        Err(GCError::MinorHeapOverflow) => {}
        other => panic!("expected the minor heap overflow, got {:?}", other.is_ok()),
    }
    // the failed allocation charged nothing
    assert_eq!(st.minor_heap_size, 2 * block_size());
}

#[test]
fn idempotent_marking_marks_once_and_requeues_nothing() {
    let (mut st, _a, b) = setup_two_major();
    st.remove_major_root(b);
    st.major_collection_start().unwrap();
    assert!(!st.object_marked(b));
    let first = st.mark_major_object(b);
    assert!(first);
    assert!(st.object_marked(b));
    assert!(st.is_major_marked(b));
    let pending = st.pending_mark_work();
    let second = st.mark_major_object(b);
    assert!(!second);
    assert!(st.is_major_marked(b));
    assert_eq!(st.pending_mark_work(), pending);
    st.major_parallel_scan();
    st.major_final_scan().unwrap();
    st.major_concurrent_sweep();
}

#[test]
fn major_limit_overflow_after_promotion_is_fatal() {
    let mut cfg = small_config();
    cfg.major_heap_liveness = 1;
    cfg.major_heap_size_limit = 1;
    let mut st = State::new_with(cfg, DummyMonitoring {});
    let mut frame = st.new_frame();
    let a = GCBox::new(&mut frame, &mut st, leaf()).unwrap();
    st.add_minor_root(a.cell.id);
    assert_eq!(st.minor_heap_gen_gc(), Err(GCError::MajorHeapOverflow));
}

#[test]
fn immortal_promotion_when_enabled() {
    let mut cfg = small_config();
    cfg.major_heap_liveness = 1;
    cfg.enable_imm_gen = true;
    cfg.imm_liveness = 2;
    let mut st = State::new_with(cfg, DummyMonitoring {});
    let mut frame = st.new_frame();
    let a = GCBox::new(&mut frame, &mut st, leaf()).unwrap();
    let id = a.cell.id;
    st.add_minor_root(id);
    st.minor_heap_gen_gc().unwrap();
    assert!(st.is_major_live(id));
    assert_eq!(st.object_liveness(id), 2);
    st.major_heap_gen_gc().unwrap();
    // the survivor's liveness passes the immortal threshold
    assert!(st.is_immortal(id));
    assert!(!st.is_major_live(id));
    assert_eq!(st.imm_size, block_size());
    assert_eq!(st.major_heap_size, 0);
}

#[test]
fn frame_close_reparents_escaped_objects() {
    let mut st = fresh_state();
    let mut frame = st.new_frame();
    let a = GCBox::new(&mut frame, &mut st, leaf()).unwrap();
    let b = GCBox::new(&mut frame, &mut st, leaf()).unwrap();
    frame.mark_escaped(a.cell.id);
    frame.close(&mut st);
    st.minor_heap_gen_gc().unwrap();
    // the escaped object became a global root; the other was reclaimed
    assert!(st.is_minor_live(a.cell.id));
    assert!(st.object_freed(b.cell.id));
}

#[test]
fn minor_trigger_flag_set_once_threshold_reached() {
    let mut cfg = small_config();
    cfg.minor_gc_trigger_size = block_size();
    let mut st = State::new_with(cfg, DummyMonitoring {});
    let mut frame = st.new_frame();
    assert!(!st.start_minor_gc_flag);
    let _a = GCBox::new(&mut frame, &mut st, leaf()).unwrap();
    assert!(st.start_minor_gc_flag);
    st.minor_heap_gen_gc().unwrap();
    assert!(!st.start_minor_gc_flag);
}

#[test]
fn default_config_values() {
    let c = GCConfig::default();
    assert_eq!(c.minor_gc_trigger_size, 10 * 1024 * 1024);
    assert_eq!(c.minor_heap_size_limit, 100 * 1024 * 1024);
    assert_eq!(c.major_heap_liveness, 3);
    assert_eq!(c.major_gc_pacer_rate_percent, 200);
    assert_eq!(c.major_heap_size_limit, 0);
    assert!(!c.enable_imm_gen);
    assert_eq!(c.imm_liveness, 100);
    assert!(c.thread_pool_size <= 1 << 16);
}

#[test]
fn header_init_resets_liveness_and_mark() {
    let mut h = GCHeader {
        liveness: 9,
        marked: true,
        pined: false,
        generation: gen_gc::Generation::Minor,
        type_id: core::any::TypeId::of::<u32>(),
    };
    h.init::<Node>();
    assert_eq!(h.liveness, 1);
    assert!(!h.marked);
}

struct CountingMonitoring {
    stw_starts: core::cell::Cell<usize>,
    stw_ends: core::cell::Cell<usize>,
}

impl Monitoring for CountingMonitoring {
    fn start_minor_gc(&self, _m: usize) {}
    fn end_minor_gc(&self, _m: usize) {}
    fn start_major_gc(&self, _m: usize) {}
    fn end_major_gc(&self, _m: usize) {}
    fn start_stw(&self) {
        self.stw_starts.set(self.stw_starts.get() + 1);
    }
    fn end_stw(&self) {
        self.stw_ends.set(self.stw_ends.get() + 1);
    }
    fn record_memory_usage(&self, _ma: usize, _mi: usize) {}
}

#[test]
fn monitoring_hooks_fire_around_stw_windows() {
    let m = CountingMonitoring {
        stw_starts: core::cell::Cell::new(0),
        stw_ends: core::cell::Cell::new(0),
    };
    let mut st = State::new_with(small_config(), m);
    st.stw().unwrap();
    st.ctw().unwrap();
    assert_eq!(st.monitoring.stw_starts.get(), 1);
    assert_eq!(st.monitoring.stw_ends.get(), 1);
}

#[test]
fn pacer_formula_on_fresh_state() {
    let st = State::new();
    // with no major collection recorded the pacer is trivially due
    assert!(st.major_gc_should_trigger());
    assert_eq!(st.minor_heap_size, 0);
}

#[test]
fn cross_typed_handles_compare_by_allocation() {
    let mut st = fresh_state();
    let mut frame = st.new_frame();
    let a = GCBox::new(&mut frame, &mut st, leaf()).unwrap();
    let b = GCBox::new(&mut frame, &mut st, leaf()).unwrap();
    assert!(a.cell.same_allocation(&a.read().cell));
    assert!(!a.cell.same_allocation(&b.cell));
}
