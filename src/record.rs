//! The fixed-layout event record streamed from the kernel through the ring
//! buffer, and its decoding from (and encoding to) bytes.
use vstd::bytes::{
    spec_u32_from_le_bytes, spec_u64_from_le_bytes, u32_from_le_bytes, u64_from_le_bytes,
};
use vstd::prelude::*;
use vstd::slice::slice_subrange;

verus! {

/// Number of counter slots carried by every record.
pub const MAX_COUNTERS: usize = 8;

/// Size in bytes of one encoded record.
pub const EVENT_SIZE: usize = 104;

/// Record type of a span entry.
pub const EVENT_ENTER: u32 = 0;

/// Record type of a span exit.
pub const EVENT_EXIT: u32 = 1;

/// One event record. The kernel writes it in the host's byte order; this
/// library reads it as little-endian, the order of the hosts the probe
/// program runs on (x86-64 and aarch64), so it does not serve big-endian
/// hosts. Layout, naturally aligned:
/// `event_type: u32` at 0, 4 bytes of padding, `pid_tgid: u64` at 8,
/// `span_id: u64` at 16, `name_id: u32` at 24, `cpu: u32` at 28,
/// `timestamp: u64` at 32 and `counters: [u64; 8]` at 40.
#[derive(Clone, Copy, Debug)]
pub struct Event {
    pub event_type: u32,
    pub pid_tgid: u64,
    pub span_id: u64,
    pub name_id: u32,
    pub cpu: u32,
    pub timestamp: u64,
    pub counters: [u64; 8],
}

pub open spec fn u64_at(b: Seq<u8>, off: int) -> u64 {
    spec_u64_from_le_bytes(b.subrange(off, off + 8))
}

pub open spec fn u32_at(b: Seq<u8>, off: int) -> u32 {
    spec_u32_from_le_bytes(b.subrange(off, off + 4))
}

/// Offset of counter slot `i`.
pub open spec fn counter_offset(i: int) -> int {
    40 + 8 * i
}

/// Whether `e` is what the bytes `b` (at least `EVENT_SIZE` of them) encode.
pub open spec fn decodes_to(b: Seq<u8>, e: Event) -> bool {
    &&& e.event_type == u32_at(b, 0)
    &&& e.pid_tgid == u64_at(b, 8)
    &&& e.span_id == u64_at(b, 16)
    &&& e.name_id == u32_at(b, 24)
    &&& e.cpu == u32_at(b, 28)
    &&& e.timestamp == u64_at(b, 32)
    &&& forall|i: int| 0 <= i < MAX_COUNTERS ==> #[trigger] e.counters[i] == u64_at(b, counter_offset(i))
}

fn read_u64(b: &[u8], off: usize) -> (r: u64)
    requires
        off + 8 <= b@.len(),
        off <= EVENT_SIZE,
    ensures
        r == u64_at(b@, off as int),
{
    u64_from_le_bytes(slice_subrange(b, off, off + 8))
}

fn read_u32(b: &[u8], off: usize) -> (r: u32)
    requires
        off + 4 <= b@.len(),
        off <= EVENT_SIZE,
    ensures
        r == u32_at(b@, off as int),
{
    u32_from_le_bytes(slice_subrange(b, off, off + 4))
}

impl Event {
    /// Decodes a record from the bytes of one ring-buffer entry. Fails exactly
    /// when the entry is shorter than a record; bytes past the record are ignored.
    pub fn from_bytes(b: &[u8]) -> (r: Option<Event>)
        ensures
            r is None <==> b@.len() < EVENT_SIZE,
            r matches Some(e) ==> decodes_to(b@, e),
    {
        if b.len() < EVENT_SIZE {
            return None;
        }
        let mut counters: [u64; 8] = [0u64; 8];
        let mut i: usize = 0;
        while i < MAX_COUNTERS
            invariant
                i <= MAX_COUNTERS,
                b@.len() >= EVENT_SIZE,
                forall|j: int| 0 <= j < i ==> #[trigger] counters[j] == u64_at(b@, counter_offset(j)),
            decreases MAX_COUNTERS - i,
        {
            counters[i] = read_u64(b, 40 + 8 * i);
            i = i + 1;
        }
        Some(Event {
            event_type: read_u32(b, 0),
            pid_tgid: read_u64(b, 8),
            span_id: read_u64(b, 16),
            name_id: read_u32(b, 24),
            cpu: read_u32(b, 28),
            timestamp: read_u64(b, 32),
            counters,
        })
    }
}

} // verus!
