//! The probe emitter: what the `perfspan` enter and exit probes carry when an
//! instrumented span is entered or left. Firing the probes themselves is done
//! by the instrumentation layer that wraps these types.
use vstd::prelude::*;
use vstd::string::StringSliceAdditionalSpecFns;

verus! {

/// The arguments of one `perfspan` probe. The name's address is added by the
/// code that fires the probe; the kernel reads at most 128 bytes of it.
#[derive(Clone, Copy, Debug, PartialEq, Eq, Structural)]
pub struct SpanProbe {
    pub span_id: u64,
    /// Length in bytes of the span's name; 0 when the probe carries no name.
    pub name_len: usize,
}

/// Emitter whose exit probe carries only the span id.
#[derive(Clone, Copy, Debug, PartialEq, Eq, Structural)]
pub struct PerfspanSubscriber {}

/// Emitter whose exit probe carries the span's name as its enter probe does.
#[derive(Clone, Copy, Debug, PartialEq, Eq, Structural)]
pub struct PerfspanLayer {}

impl PerfspanSubscriber {
    pub fn new() -> (r: PerfspanSubscriber) {
        PerfspanSubscriber {}
    }

    pub fn enter_probe(&self, span_id: u64, name: &str) -> (r: SpanProbe)
        ensures
            r == (SpanProbe { span_id, name_len: name.spec_bytes().len() as usize }),
    {
        SpanProbe { span_id, name_len: name.as_bytes().len() }
    }

    pub fn exit_probe(&self, span_id: u64) -> (r: SpanProbe)
        ensures
            r == (SpanProbe { span_id, name_len: 0 }),
    {
        SpanProbe { span_id, name_len: 0 }
    }
}

impl PerfspanLayer {
    pub fn new() -> (r: PerfspanLayer) {
        PerfspanLayer {}
    }

    pub fn enter_probe(&self, span_id: u64, name: &str) -> (r: SpanProbe)
        ensures
            r == (SpanProbe { span_id, name_len: name.spec_bytes().len() as usize }),
    {
        SpanProbe { span_id, name_len: name.as_bytes().len() }
    }

    pub fn exit_probe(&self, span_id: u64, name: &str) -> (r: SpanProbe)
        ensures
            r == (SpanProbe { span_id, name_len: name.spec_bytes().len() as usize }),
    {
        SpanProbe { span_id, name_len: name.as_bytes().len() }
    }
}

} // verus!
