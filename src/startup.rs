//! What the observer decides before it touches the kernel: the probe
//! program's configuration, the span name table, the process the counters
//! are opened for, and the counter slots. Every check that can fail startup
//! happens here, before any counter is opened.
use vstd::prelude::*;
use vstd::utf8::encode_utf8;

use crate::events::PerfEventSpec;
use crate::names::{padded, NameError, SpanNameTable, MAX_NAME_SIZE, MAX_SPANS};
use crate::probe::ProbeConfig;
use crate::record::MAX_COUNTERS;

verus! {

/// Why the observer cannot start.
#[derive(Clone, Copy, Debug, PartialEq, Eq, Structural)]
pub enum StartupError {
    /// More events were requested than a record has counter slots.
    TooManyEvents { requested: usize, max: usize },
    /// The distribution would have no bucket.
    NoBuckets,
    /// The span names cannot be watched.
    Names(NameError),
}

/// The process filter of the probe program: the thread group to observe, or
/// 0 for every process.
pub open spec fn filter_tgid_of(pid: Option<i32>) -> u32 {
    match pid {
        Some(p) => p as u32,
        None => 0,
    }
}

/// The process the counters are opened for: -1 for every process.
pub open spec fn perf_pid_of(pid: Option<i32>) -> i32 {
    match pid {
        Some(p) => p,
        None => -1i32,
    }
}

/// Whether every span name fits the name buffer.
pub open spec fn names_fit(spans: Seq<String>) -> bool {
    forall|i: int| 0 <= i < spans.len() ==> (#[trigger] encode_utf8(spans[i]@)).len() <= MAX_NAME_SIZE
}

/// A checked startup: everything the loader installs.
pub struct StartupPlan {
    config: ProbeConfig,
    names: SpanNameTable,
    perf_pid: i32,
    events: Vec<PerfEventSpec>,
    buckets: u64,
}

impl StartupPlan {
    pub closed spec fn spec_config(self) -> ProbeConfig {
        self.config
    }

    pub closed spec fn spec_names(self) -> SpanNameTable {
        self.names
    }

    pub closed spec fn spec_perf_pid(self) -> i32 {
        self.perf_pid
    }

    /// The counted events; the event at index `i` is counted in slot `i`.
    pub closed spec fn spec_events(self) -> Seq<PerfEventSpec> {
        self.events@
    }

    pub closed spec fn spec_buckets(self) -> u64 {
        self.buckets
    }

    /// Checks a request to watch `spans` of process `pid` (every process when
    /// `None`), counting `events` and reporting in `buckets` buckets. Fails
    /// when more events are requested than a record has counter slots, when
    /// there are no buckets, or when the names cannot be watched (in that
    /// order of precedence).
    pub fn new(spans: &Vec<String>, pid: Option<i32>, events: &Vec<PerfEventSpec>, buckets: u64) -> (r:
        Result<StartupPlan, StartupError>)
        ensures
            r is Ok <==> events@.len() <= MAX_COUNTERS && buckets > 0 && spans@.len() <= MAX_SPANS
                && names_fit(spans@),
            r matches Err(StartupError::TooManyEvents { requested, max }) ==> requested
                == events@.len() && max == MAX_COUNTERS,
            (r matches Err(StartupError::TooManyEvents { .. })) <==> events@.len() > MAX_COUNTERS,
            r == Err::<StartupPlan, StartupError>(StartupError::NoBuckets) <==> events@.len()
                <= MAX_COUNTERS && buckets == 0,
            r matches Ok(p) ==> {
                &&& p.spec_names().wf()
                &&& p.spec_config() == (ProbeConfig {
                    filter_tgid: filter_tgid_of(pid),
                    enabled_events: events@.len() as u32,
                })
                &&& p.spec_perf_pid() == perf_pid_of(pid)
                &&& p.spec_events() == events@
                &&& p.spec_buckets() == buckets
                &&& p.spec_names().names().len() == spans@.len()
                &&& forall|i: int|
                    0 <= i < spans@.len() ==> #[trigger] p.spec_names().names()[i] == padded(
                        encode_utf8(spans@[i]@),
                    )
            },
    {
        if events.len() > MAX_COUNTERS {
            return Err(StartupError::TooManyEvents { requested: events.len(), max: MAX_COUNTERS });
        }
        if buckets == 0 {
            return Err(StartupError::NoBuckets);
        }
        let names = match SpanNameTable::new(spans) {
            Ok(t) => t,
            Err(e) => return Err(StartupError::Names(e)),
        };
        let filter_tgid: u32 = match pid {
            Some(p) => p as u32,
            None => 0,
        };
        let perf_pid: i32 = match pid {
            Some(p) => p,
            None => -1,
        };
        let config = ProbeConfig { filter_tgid, enabled_events: events.len() as u32 };
        Ok(StartupPlan { config, names, perf_pid, events: events.clone(), buckets })
    }

    pub fn config(&self) -> (r: ProbeConfig)
        ensures
            r == self.spec_config(),
    {
        self.config
    }

    pub fn names(&self) -> (r: &SpanNameTable)
        ensures
            *r == self.spec_names(),
    {
        &self.names
    }

    pub fn perf_pid(&self) -> (r: i32)
        ensures
            r == self.spec_perf_pid(),
    {
        self.perf_pid
    }

    pub fn events(&self) -> (r: &Vec<PerfEventSpec>)
        ensures
            r@ == self.spec_events(),
    {
        &self.events
    }

    pub fn buckets(&self) -> (r: u64)
        ensures
            r == self.spec_buckets(),
    {
        self.buckets
    }
}

} // verus!
