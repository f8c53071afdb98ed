//! The decisions of the in-kernel probe program, which runs when a span's
//! enter or exit probe fires and when a hardware counter overflows: which
//! probe hits become records, and what those records hold.
use vstd::prelude::*;

use crate::names::{padded, pad_name, SpanNameTable, MAX_NAME_SIZE};
use crate::record::{Event, MAX_COUNTERS};

verus! {

/// The read-only configuration the probe program consults.
#[derive(Clone, Copy, Debug, PartialEq, Eq, Structural)]
pub struct ProbeConfig {
    /// Only this thread group is observed; 0 observes every process.
    pub filter_tgid: u32,
    /// Number of counter slots that are populated.
    pub enabled_events: u32,
}

/// What the probe program learns when a probe fires, besides the span name.
#[derive(Clone, Copy, Debug, PartialEq, Eq, Structural)]
pub struct ProbeFire {
    pub event_type: u32,
    pub pid_tgid: u64,
    pub span_id: u64,
    pub cpu: u32,
    pub timestamp: u64,
}

/// Whether the thread group of `pid_tgid` passes the process filter.
pub open spec fn passes_filter(cfg: ProbeConfig, pid_tgid: u64) -> bool {
    cfg.filter_tgid == 0 || (pid_tgid >> 32u64) as u32 == cfg.filter_tgid
}

/// Whether some watched span has the padded form of `name`.
pub open spec fn is_watched(table: SpanNameTable, name: Seq<u8>) -> bool {
    exists|i: int| 0 <= i < table.names().len() && #[trigger] table.names()[i] == padded(name)
}

/// Stores the value read by the overflow handler of counter slot `cookie`
/// into the snapshot of the CPU it ran on. A cookie out of range changes
/// nothing.
pub fn record_counter_sample(snapshot: &mut [u64; 8], cookie: u64, value: u64)
    ensures
        cookie < MAX_COUNTERS ==> final(snapshot)@ == old(snapshot)@.update(cookie as int, value),
        cookie >= MAX_COUNTERS ==> final(snapshot)@ == old(snapshot)@,
{
    if cookie < MAX_COUNTERS as u64 {
        snapshot[cookie as usize] = value;
    }
}

/// The record the probe program emits for a probe hit, or `None` when it
/// drops the hit: the thread group is filtered out, the name is longer than
/// the name buffer or not watched, or the ring buffer has no room. A record
/// carries the index of the span's name and the CPU's latest counter
/// snapshots in its enabled slots, zeros in the others.
pub fn emit_event(
    cfg: &ProbeConfig,
    table: &SpanNameTable,
    fire: &ProbeFire,
    name: &[u8],
    snapshot: &[u64; 8],
    ring_full: bool,
) -> (r: Option<Event>)
    requires
        table.wf(),
    ensures
        r is Some <==> passes_filter(*cfg, fire.pid_tgid) && name@.len() <= MAX_NAME_SIZE
            && is_watched(*table, name@) && !ring_full,
        r matches Some(e) ==> {
            &&& e.event_type == fire.event_type
            &&& e.pid_tgid == fire.pid_tgid
            &&& e.span_id == fire.span_id
            &&& e.cpu == fire.cpu
            &&& e.timestamp == fire.timestamp
            &&& (e.name_id as int) < table.names().len()
            &&& table.names()[e.name_id as int] == padded(name@)
            &&& forall|i: int|
                0 <= i < MAX_COUNTERS ==> #[trigger] e.counters[i] == if i < cfg.enabled_events {
                    snapshot[i]
                } else {
                    0
                }
        },
{
    if cfg.filter_tgid != 0 && (fire.pid_tgid >> 32u64) as u32 != cfg.filter_tgid {
        return None;
    }
    if name.len() > MAX_NAME_SIZE {
        return None;
    }
    let key = pad_name(name);
    let name_id = match table.lookup(&key) {
        Some(n) => n,
        None => return None,
    };
    if ring_full {
        return None;
    }
    let mut counters: [u64; 8] = [0u64; 8];
    let mut i: usize = 0;
    while i < MAX_COUNTERS
        invariant
            i <= MAX_COUNTERS,
            forall|j: int| 0 <= j < i ==> #[trigger] counters[j] == if j < cfg.enabled_events {
                snapshot[j]
            } else {
                0
            },
            forall|j: int| i <= j < MAX_COUNTERS ==> #[trigger] counters[j] == 0,
        decreases MAX_COUNTERS - i,
    {
        if (i as u64) < cfg.enabled_events as u64 {
            counters[i] = snapshot[i];
        }
        i = i + 1;
    }
    Some(Event {
        event_type: fire.event_type,
        pid_tgid: fire.pid_tgid,
        span_id: fire.span_id,
        name_id: name_id as u32,
        cpu: fire.cpu,
        timestamp: fire.timestamp,
        counters,
    })
}

/// A span name of exactly `MAX_NAME_SIZE` bytes is its own padded form, so it
/// is watched exactly when some watched span's padded name equals it byte for
/// byte. (A longer name is never watched: `emit_event` drops it.)
pub proof fn lemma_full_width_name(table: SpanNameTable, name: Seq<u8>)
    requires
        name.len() == MAX_NAME_SIZE,
    ensures
        padded(name) == name,
        is_watched(table, name) <==> exists|i: int|
            0 <= i < table.names().len() && #[trigger] table.names()[i] == name,
{
    assert(padded(name) =~= name);
}

} // verus!
