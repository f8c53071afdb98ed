//! Span-scoped hardware-counter profiling: the record layout shared with the
//! in-kernel probe program, its filtering rules, the correlation of enter and
//! exit records in user space, and the arithmetic of the report.

pub mod correlator;
pub mod emitter;
pub mod events;
pub mod histogram;
pub mod names;
pub mod probe;
pub mod record;
pub mod report;
pub mod startup;

pub use emitter::{PerfspanLayer, PerfspanSubscriber};
pub use names::max_name_size_string;
