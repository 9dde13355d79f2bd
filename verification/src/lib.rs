//! A generational, partially-concurrent, tracing garbage collector meant to
//! be embedded in a host runtime. The host allocates through frames, reads
//! and writes objects through handles, and drives the two collection stage
//! machines; the collector keeps the generation sets, the byte accounting,
//! and the incremental write-barrier protocol that keeps concurrent marking
//! from losing mutations.
pub mod arena;
pub mod frame;
pub mod gc_box;
pub mod shim;
pub mod state;
pub mod trace;

pub use arena::ObjectSlot;
pub use frame::GCFrame;
pub use gc_box::{GCBox, GCCell, GCHeader, GCMut, GCRef, Generation};
pub use state::{DummyMonitoring, GCConfig, GCError, GCStage, MinorGCStage, Monitoring, State};
pub use trace::Trace;
