//! Pairing of enter and exit records in user space. The correlator keeps the
//! enter record of every open span, keyed by thread and span id, and records
//! into the span's histograms when the matching exit arrives.
//!
//! Its state is described by the sequence of records it has accepted: the
//! spec functions below fold that sequence, and the correlator's observable
//! state is proved equal to their value on its history.
use hashbrown::HashMap;
use vstd::multiset::Multiset;
use vstd::prelude::*;

use crate::events::PerfEventSpec;
use crate::histogram::{counter_delta_valid, stored_value, SpanHistograms};
use crate::record::{decodes_to, u32_at, Event, EVENT_ENTER, EVENT_EXIT, EVENT_SIZE, MAX_COUNTERS};

verus! {

/// The table of open spans, a `hashbrown` map from `(pid_tgid, span_id)` to the
/// enter record. It is held here and reached only through the functions below.
#[verifier::external_body]
pub struct OpenSpanTable {
    map: HashMap<(u64, u64), Event>,
}

/// What the table of open spans holds.
pub uninterp spec fn open_entries(t: OpenSpanTable) -> Map<(u64, u64), Event>;

/// Relies on `hashbrown::HashMap::new`: the map is empty.
#[verifier::external_body]
fn table_new() -> (r: OpenSpanTable)
    ensures
        open_entries(r) =~= Map::empty(),
{
    OpenSpanTable { map: HashMap::new() }
}

/// Relies on `hashbrown::HashMap::insert`: afterwards the key maps to the new
/// value, replacing an earlier one, and nothing else changes.
#[verifier::external_body]
fn table_insert(t: &mut OpenSpanTable, key: (u64, u64), e: Event)
    ensures
        open_entries(*final(t)) == open_entries(*old(t)).insert(key, e),
{
    t.map.insert(key, e);
}

/// Relies on `hashbrown::HashMap::remove`: it returns the value of the key, if
/// any, and removes the key.
#[verifier::external_body]
fn table_remove(t: &mut OpenSpanTable, key: &(u64, u64)) -> (r: Option<Event>)
    ensures
        r == (if open_entries(*old(t)).contains_key(*key) {
            Some(open_entries(*old(t))[*key])
        } else {
            None
        }),
        open_entries(*final(t)) == open_entries(*old(t)).remove(*key),
{
    t.map.remove(key)
}

pub open spec fn key_of(e: Event) -> (u64, u64) {
    (e.pid_tgid, e.span_id)
}

/// The open spans after the records `evs`: an enter opens (or reopens) its
/// key, an exit closes it.
pub open spec fn open_after(evs: Seq<Event>) -> Map<(u64, u64), Event>
    decreases evs.len(),
{
    if evs.len() == 0 {
        Map::empty()
    } else {
        let e = evs.last();
        let before = open_after(evs.drop_last());
        if e.event_type == EVENT_ENTER {
            before.insert(key_of(e), e)
        } else {
            before.remove(key_of(e))
        }
    }
}

/// Whether the last record of `evs` is an exit that closes an open span of
/// `name_id` with a timestamp not before the enter's.
pub open spec fn closes_pair(evs: Seq<Event>, name_id: int) -> bool {
    let e = evs.last();
    let open = open_after(evs.drop_last());
    &&& e.event_type == EVENT_EXIT
    &&& open.contains_key(key_of(e))
    &&& e.name_id == name_id
    &&& e.timestamp >= open[key_of(e)].timestamp
}

/// The latency samples of span `name_id` after the records `evs`.
pub open spec fn latency_after(evs: Seq<Event>, name_id: int) -> Multiset<u64>
    decreases evs.len(),
{
    if evs.len() == 0 {
        Multiset::empty()
    } else {
        let before = latency_after(evs.drop_last(), name_id);
        if closes_pair(evs, name_id) {
            let e = evs.last();
            let p = open_after(evs.drop_last())[key_of(e)];
            before.insert(stored_value((e.timestamp - p.timestamp) as u64))
        } else {
            before
        }
    }
}

/// The samples of counter slot `slot` of span `name_id` after the records `evs`.
pub open spec fn counter_after(evs: Seq<Event>, name_id: int, slot: int) -> Multiset<u64>
    decreases evs.len(),
{
    if evs.len() == 0 {
        Multiset::empty()
    } else {
        let before = counter_after(evs.drop_last(), name_id, slot);
        let e = evs.last();
        let p = open_after(evs.drop_last())[key_of(e)];
        if closes_pair(evs, name_id) && counter_delta_valid(e, p, slot) {
            before.insert(stored_value((e.counters[slot] - p.counters[slot]) as u64))
        } else {
            before
        }
    }
}

/// The number of exits in `evs` that found no open span.
pub open spec fn missed_after(evs: Seq<Event>) -> nat
    decreases evs.len(),
{
    if evs.len() == 0 {
        0
    } else {
        let e = evs.last();
        let before = missed_after(evs.drop_last());
        if e.event_type == EVENT_EXIT && !open_after(evs.drop_last()).contains_key(key_of(e)) {
            before + 1
        } else {
            before
        }
    }
}

/// The number of exits in `evs` that found an open span with a later
/// timestamp than their own: a fault of the clock, recorded nowhere.
pub open spec fn clock_faults_after(evs: Seq<Event>) -> nat
    decreases evs.len(),
{
    if evs.len() == 0 {
        0
    } else {
        let e = evs.last();
        let open = open_after(evs.drop_last());
        let before = clock_faults_after(evs.drop_last());
        if e.event_type == EVENT_EXIT && open.contains_key(key_of(e)) && e.timestamp
            < open[key_of(e)].timestamp {
            before + 1
        } else {
            before
        }
    }
}

/// `n`, saturating at `u64::MAX`.
pub open spec fn saturated(n: nat) -> nat {
    if n < u64::MAX {
        n
    } else {
        u64::MAX as nat
    }
}

/// Whether a ring-buffer entry is a record the correlator accepts: long
/// enough, of a known type and naming one of the `n_spans` watched spans.
pub open spec fn accepted(b: Seq<u8>, n_spans: int) -> bool {
    &&& b.len() >= EVENT_SIZE
    &&& (u32_at(b, 0) == EVENT_ENTER || u32_at(b, 0) == EVENT_EXIT)
    &&& u32_at(b, 24) < n_spans
}

/// Why the correlator stopped consuming the ring buffer.
#[derive(Clone, Copy, Debug, PartialEq, Eq, Structural)]
pub enum RecordError {
    /// The entry is shorter than a record.
    Truncated,
    /// The record's type is neither enter nor exit.
    UnknownType(u32),
    /// The record names no watched span.
    UnknownSpan(u32),
    /// `u64::MAX` records were accepted already; no count could take more.
    Saturated,
}

/// What an accepted record did.
#[derive(Clone, Copy, Debug)]
pub enum RecordEffect {
    /// An enter opened (or reopened) its span.
    Opened,
    /// An exit found no open span: the enter was lost.
    MissedOpening,
    /// An exit found an open span that began after it ended; nothing was
    /// recorded.
    ClockFault { previous: Event },
    /// An exit closed the span opened by `previous`: the latency was recorded,
    /// and the delta of each enabled counter slot unless the span migrated
    /// between CPUs or the slot's counter went back (`regressed`).
    Closed { previous: Event, migrated: bool, regressed: [bool; 8] },
}

/// What a wait on the ring buffer ended with.
#[derive(Clone, Copy, Debug, PartialEq, Eq, Structural)]
pub enum PollOutcome {
    /// Records were consumed (or none arrived).
    Ready,
    /// The wait was interrupted by a signal.
    Interrupted,
    /// The wait failed otherwise, or a record was refused.
    Failed,
}

/// What the consumer does after a wait on the ring buffer.
#[derive(Clone, Copy, Debug, PartialEq, Eq, Structural)]
pub enum PollStep {
    /// Wait again.
    Continue,
    /// Stop consuming and print the report: the normal way to shut down.
    Report,
    /// Stop with an error.
    Fail,
}

/// An interrupted wait ends consumption normally, a failed one with an
/// error; otherwise the consumer keeps waiting.
pub fn next_poll_step(outcome: PollOutcome) -> (r: PollStep)
    ensures
        r == match outcome {
            PollOutcome::Ready => PollStep::Continue,
            PollOutcome::Interrupted => PollStep::Report,
            PollOutcome::Failed => PollStep::Fail,
        },
{
    match outcome {
        PollOutcome::Ready => PollStep::Continue,
        PollOutcome::Interrupted => PollStep::Report,
        PollOutcome::Failed => PollStep::Fail,
    }
}

/// The correlator: open spans and the histograms of each watched span.
pub struct Correlator {
    open_spans: OpenSpanTable,
    spans: Vec<SpanHistograms>,
    n_counters: Ghost<nat>,
    missed_openings: u64,
    clock_faults: u64,
    accepted: u64,
    history: Ghost<Seq<Event>>,
}

impl Correlator {
    /// The records accepted so far, in order.
    pub closed spec fn history(self) -> Seq<Event> {
        self.history@
    }

    pub closed spec fn span_count(self) -> nat {
        self.spans@.len()
    }

    /// The number of enabled counter slots.
    pub closed spec fn counter_count(self) -> nat {
        self.n_counters@
    }

    pub closed spec fn span(self, name_id: int) -> SpanHistograms {
        self.spans@[name_id]
    }

    pub closed spec fn open_spans(self) -> Map<(u64, u64), Event> {
        open_entries(self.open_spans)
    }

    pub closed spec fn wf(self) -> bool {
        &&& self.n_counters@ <= MAX_COUNTERS
        &&& enters_and_exits(self.history@)
        &&& self.accepted as nat == self.history@.len()
        &&& open_entries(self.open_spans) == open_after(self.history@)
        &&& self.missed_openings as nat == saturated(missed_after(self.history@))
        &&& self.clock_faults as nat == saturated(clock_faults_after(self.history@))
        &&& forall|s: int|
            0 <= s < self.spans@.len() ==> (#[trigger] self.spans@[s]).events().len()
                == self.n_counters@
        &&& forall|s: int| 0 <= s < self.spans@.len() ==> (#[trigger] self.spans@[s]).wf()
        &&& forall|s: int|
            0 <= s < self.spans@.len() ==> (#[trigger] self.spans@[s]).latency_samples()
                =~= latency_after(self.history@, s)
        &&& forall|s: int, i: int|
            0 <= s < self.spans@.len() && 0 <= i < self.n_counters@ ==> (
            #[trigger] self.spans@[s].counter_samples(i)) =~= counter_after(self.history@, s, i)
    }

    /// What a well-formed correlator holds, as a function of the records it
    /// accepted: its open spans, and in the histograms of each span the
    /// samples of `latency_after` and `counter_after`.
    pub proof fn lemma_state(self)
        requires
            self.wf(),
        ensures
            enters_and_exits(self.history()),
            self.counter_count() <= MAX_COUNTERS,
            self.open_spans() == open_after(self.history()),
            forall|s: int|
                0 <= s < self.span_count() ==> {
                    &&& (#[trigger] self.span(s)).wf()
                    &&& self.span(s).events().len() == self.counter_count()
                    &&& self.span(s).latency_samples() == latency_after(self.history(), s)
                },
            forall|s: int, i: int|
                0 <= s < self.span_count() && 0 <= i < self.counter_count() ==> (#[trigger] self.span(
                    s,
                ).counter_samples(i)) == counter_after(self.history(), s, i),
    {
        assert forall|s: int| 0 <= s < self.span_count() implies (#[trigger] self.span(s)).latency_samples()
            == latency_after(self.history(), s) by {
            assert(self.spans@[s].latency_samples() =~= latency_after(self.history@, s));
        }
        assert forall|s: int, i: int|
            0 <= s < self.span_count() && 0 <= i < self.counter_count() implies (#[trigger] self.span(
                s,
            ).counter_samples(i)) == counter_after(self.history(), s, i) by {
            assert(self.spans@[s].counter_samples(i) =~= counter_after(self.history@, s, i));
        }
    }

    pub fn spans(&self) -> (r: &Vec<SpanHistograms>)
        ensures
            r@.len() == self.span_count(),
            forall|s: int| 0 <= s < r@.len() ==> #[trigger] r@[s] == self.span(s),
    {
        &self.spans
    }

    /// The number of exits that found no open span, saturating at `u64::MAX`.
    pub fn missed_openings(&self) -> (r: u64)
        requires
            self.wf(),
        ensures
            r as nat == saturated(missed_after(self.history())),
    {
        self.missed_openings
    }

    /// The number of exits that ended before their span began, saturating at
    /// `u64::MAX`.
    pub fn clock_faults(&self) -> (r: u64)
        requires
            self.wf(),
        ensures
            r as nat == saturated(clock_faults_after(self.history())),
    {
        self.clock_faults
    }

    /// A correlator with no open span and empty histograms for each of the
    /// `spans`, counting the `events`.
    pub fn new(spans: &Vec<String>, events: &Vec<PerfEventSpec>) -> (c: Correlator)
        requires
            events@.len() <= MAX_COUNTERS,
        ensures
            c.wf(),
            c.history() == Seq::<Event>::empty(),
            c.span_count() == spans@.len(),
            c.counter_count() == events@.len(),
            forall|s: int|
                0 <= s < spans@.len() ==> {
                    &&& (#[trigger] c.span(s)).name() == spans@[s]@
                    &&& c.span(s).events() == events@
                },
    {
        let mut hists: Vec<SpanHistograms> = Vec::new();
        let mut i: usize = 0;
        while i < spans.len()
            invariant
                i <= spans@.len(),
                hists@.len() == i,
                forall|s: int|
                    0 <= s < i ==> {
                        &&& (#[trigger] hists@[s]).name() == spans@[s]@
                        &&& hists@[s].events() == events@
                        &&& hists@[s].wf()
                        &&& hists@[s].latency_samples() =~= Multiset::empty()
                        &&& forall|j: int|
                            0 <= j < events@.len() ==> #[trigger] hists@[s].counter_samples(j)
                                =~= Multiset::empty()
                    },
            decreases spans@.len() - i,
        {
            hists.push(SpanHistograms::new(spans[i].clone(), events));
            i = i + 1;
        }
        Correlator {
            open_spans: table_new(),
            spans: hists,
            n_counters: Ghost(events@.len()),
            missed_openings: 0,
            clock_faults: 0,
            accepted: 0,
            history: Ghost(Seq::empty()),
        }
    }

    /// Consumes one ring-buffer entry. An accepted record is appended to the
    /// history: an enter opens its span (replacing an earlier enter of the same
    /// key), an exit closes it and records the latency and the meaningful
    /// counter deltas into the histograms of the exit's span; an exit without
    /// an open span counts as a missed opening, and one that ends before its
    /// span began as a clock fault. The result says which of these happened.
    /// Any other entry is refused with the reason, and nothing changes.
    pub fn handle_record(&mut self, buf: &[u8]) -> (r: Result<RecordEffect, RecordError>)
        requires
            old(self).wf(),
        ensures
            final(self).wf(),
            final(self).span_count() == old(self).span_count(),
            final(self).counter_count() == old(self).counter_count(),
            forall|s: int|
                0 <= s < old(self).span_count() ==> {
                    &&& (#[trigger] final(self).span(s)).name() == old(self).span(s).name()
                    &&& final(self).span(s).events() == old(self).span(s).events()
                },
            r is Ok <==> accepted(buf@, old(self).span_count() as int) && old(self).history().len()
                < u64::MAX,
            r is Ok ==> exists|e: Event|
                decodes_to(buf@, e) && final(self).history() == old(self).history().push(e),
            r is Err ==> final(self).history() == old(self).history(),
            r == Err::<RecordEffect, RecordError>(RecordError::Truncated) <==> buf@.len() < EVENT_SIZE,
            r matches Err(RecordError::UnknownType(t)) ==> t == u32_at(buf@, 0),
            r matches Err(RecordError::UnknownSpan(n)) ==> n == u32_at(buf@, 24),
            r is Err && buf@.len() >= EVENT_SIZE ==> (r matches Err(RecordError::UnknownType(_))
                <==> u32_at(buf@, 0) != EVENT_ENTER && u32_at(buf@, 0) != EVENT_EXIT),
            r == Err::<RecordEffect, RecordError>(RecordError::Saturated) ==> old(self).history().len()
                == u64::MAX,
            r matches Ok(effect) ==> {
                let e = final(self).history().last();
                let open = old(self).open_spans();
                match effect {
                    RecordEffect::Opened => e.event_type == EVENT_ENTER,
                    RecordEffect::MissedOpening => e.event_type == EVENT_EXIT && !open.contains_key(
                        key_of(e),
                    ),
                    RecordEffect::ClockFault { previous } => {
                        &&& e.event_type == EVENT_EXIT
                        &&& open.contains_key(key_of(e))
                        &&& previous == open[key_of(e)]
                        &&& e.timestamp < previous.timestamp
                    },
                    RecordEffect::Closed { previous, migrated, regressed } => {
                        &&& e.event_type == EVENT_EXIT
                        &&& open.contains_key(key_of(e))
                        &&& previous == open[key_of(e)]
                        &&& e.timestamp >= previous.timestamp
                        &&& migrated == (e.cpu != previous.cpu)
                        &&& forall|i: int|
                            0 <= i < MAX_COUNTERS ==> #[trigger] regressed[i] == (i
                                < old(self).counter_count() && e.cpu == previous.cpu
                                && e.counters[i] < previous.counters[i])
                    },
                }
            },
    {
        let ev = match Event::from_bytes(buf) {
            Some(e) => e,
            None => return Err(RecordError::Truncated),
        };
        if ev.event_type != EVENT_ENTER && ev.event_type != EVENT_EXIT {
            return Err(RecordError::UnknownType(ev.event_type));
        }
        if ev.name_id as usize >= self.spans.len() {
            return Err(RecordError::UnknownSpan(ev.name_id));
        }
        if self.accepted == u64::MAX {
            return Err(RecordError::Saturated);
        }
        let ghost h0 = self.history@;
        let ghost h1 = h0.push(ev);
        let ghost spans0 = self.spans@;
        assert(h1.drop_last() =~= h0);
        assert(h1.last() == ev);
        proof {
            let s = ev.name_id as int;
            lemma_samples_bounded(h0, s);
            assert forall|i: int| 0 <= i < self.spans@[s].events().len() implies #[trigger] self.spans@[s].counter_samples(i).len() < u64::MAX by {
                lemma_counter_samples_bounded(h0, s, i);
            }
        }
        let key = (ev.pid_tgid, ev.span_id);
        let effect;
        if ev.event_type == EVENT_ENTER {
            table_insert(&mut self.open_spans, key, ev);
            effect = RecordEffect::Opened;
        } else {
            match table_remove(&mut self.open_spans, &key) {
                Some(previous) => {
                    if ev.timestamp >= previous.timestamp {
                        self.spans[ev.name_id as usize].record_event(&ev, &previous);
                        let n = self.spans[ev.name_id as usize].counters().len();
                        let mut regressed: [bool; 8] = [false; 8];
                        let mut i: usize = 0;
                        while i < MAX_COUNTERS
                            invariant
                                i <= MAX_COUNTERS,
                                n == self.n_counters@,
                                forall|j: int| 0 <= j < i ==> #[trigger] regressed[j] == (j < n
                                    && ev.cpu == previous.cpu && ev.counters[j] < previous.counters[j]),
                                forall|j: int| i <= j < MAX_COUNTERS ==> !(#[trigger] regressed[j]),
                            decreases MAX_COUNTERS - i,
                        {
                            if i < n && ev.cpu == previous.cpu && ev.counters[i] < previous.counters[i] {
                                regressed[i] = true;
                            }
                            i = i + 1;
                        }
                        effect = RecordEffect::Closed {
                            previous,
                            migrated: ev.cpu != previous.cpu,
                            regressed,
                        };
                    } else {
                        self.clock_faults = self.clock_faults.saturating_add(1);
                        effect = RecordEffect::ClockFault { previous };
                    }
                },
                None => {
                    self.missed_openings = self.missed_openings.saturating_add(1);
                    effect = RecordEffect::MissedOpening;
                },
            }
        }
        self.history = Ghost(h1);
        self.accepted = self.accepted + 1;
        proof {
            assert forall|s: int| 0 <= s < self.spans@.len() implies (#[trigger] self.spans@[s]).latency_samples()
                =~= latency_after(h1, s) by {
                if s != ev.name_id as int {
                    assert(self.spans@[s] == spans0[s]);
                }
            }
            assert forall|s: int, i: int|
                0 <= s < self.spans@.len() && 0 <= i < self.n_counters@ implies (
                #[trigger] self.spans@[s].counter_samples(i)) =~= counter_after(h1, s, i) by {
                if s != ev.name_id as int {
                    assert(self.spans@[s] == spans0[s]);
                }
            }
            assert forall|s: int| 0 <= s < self.spans@.len() implies (#[trigger] self.spans@[s]).wf() by {
                if s != ev.name_id as int {
                    assert(self.spans@[s] == spans0[s]);
                }
            }
        }
        Ok(effect)
    }
}

/// A span never holds more latency samples than records were accepted.
pub proof fn lemma_samples_bounded(evs: Seq<Event>, name_id: int)
    ensures
        latency_after(evs, name_id).len() <= evs.len(),
    decreases evs.len(),
{
    if evs.len() > 0 {
        lemma_samples_bounded(evs.drop_last(), name_id);
    }
}

/// An exit that finds no open span changes no histogram.
pub proof fn lemma_missed_opening_records_nothing(evs: Seq<Event>, name_id: int, slot: int)
    requires
        evs.len() > 0,
        evs.last().event_type == EVENT_EXIT,
        !open_after(evs.drop_last()).contains_key(key_of(evs.last())),
    ensures
        latency_after(evs, name_id) == latency_after(evs.drop_last(), name_id),
        counter_after(evs, name_id, slot) == counter_after(evs.drop_last(), name_id, slot),
        missed_after(evs) == missed_after(evs.drop_last()) + 1,
{
}

/// Whether the record at `i` is the enter that the last record of `evs` closes:
/// an enter of the same key, with no record of that key in between.
pub open spec fn pairs_with_last(evs: Seq<Event>, i: int) -> bool {
    let j = evs.len() - 1;
    &&& 0 <= i < j
    &&& evs[i].event_type == EVENT_ENTER
    &&& evs[j].event_type == EVENT_EXIT
    &&& key_of(evs[i]) == key_of(evs[j])
    &&& forall|k: int| i < k < j ==> key_of(#[trigger] evs[k]) != key_of(evs[j])
}

/// Whether the last record of `evs` is an exit of span `name_id` that pairs
/// with an earlier enter and does not end before it.
pub open spec fn last_is_pair(evs: Seq<Event>, name_id: int) -> bool {
    exists|i: int|
        #[trigger] pairs_with_last(evs, i) && evs.last().name_id == name_id && evs.last().timestamp
            >= evs[i].timestamp
}

/// The number of exits of span `name_id` in `evs` that pair with an enter.
pub open spec fn paired_count(evs: Seq<Event>, name_id: int) -> nat
    decreases evs.len(),
{
    if evs.len() == 0 {
        0
    } else if last_is_pair(evs, name_id) {
        paired_count(evs.drop_last(), name_id) + 1
    } else {
        paired_count(evs.drop_last(), name_id)
    }
}

/// Whether the record at `i` of `evs` is an enter of key `k` that no later
/// record of `evs` has the key of.
pub open spec fn last_opening(evs: Seq<Event>, i: int, k: (u64, u64)) -> bool {
    &&& 0 <= i < evs.len()
    &&& evs[i].event_type == EVENT_ENTER
    &&& key_of(evs[i]) == k
    &&& forall|m: int| i < m < evs.len() ==> key_of(#[trigger] evs[m]) != k
}

/// A key is open after `evs` exactly when some enter of it has not been
/// followed by another record of that key; it then maps to that enter.
pub proof fn lemma_open_after(evs: Seq<Event>, k: (u64, u64))
    requires
        forall|m: int| 0 <= m < evs.len() ==> (#[trigger] evs[m]).event_type == EVENT_ENTER
            || evs[m].event_type == EVENT_EXIT,
    ensures
        open_after(evs).contains_key(k) ==> exists|i: int|
            #[trigger] last_opening(evs, i, k) && open_after(evs)[k] == evs[i],
        forall|i: int|
            #[trigger] last_opening(evs, i, k) ==> open_after(evs).contains_key(k) && open_after(evs)[k]
                == evs[i],
    decreases evs.len(),
{
    if evs.len() > 0 {
        let rest = evs.drop_last();
        let e = evs.last();
        let j = evs.len() - 1;
        lemma_open_after(rest, k);
        assert(forall|m: int| 0 <= m < rest.len() ==> rest[m] == evs[m]);
        if key_of(e) == k {
            if e.event_type == EVENT_ENTER {
                assert(last_opening(evs, j, k));
            }
            assert forall|i: int| #[trigger] last_opening(evs, i, k) implies i == j by {
                if i < j {
                    assert(key_of(evs[j]) != k);
                }
            }
        } else {
            assert forall|i: int| #[trigger] last_opening(evs, i, k) implies last_opening(rest, i, k) by {
            }
            if open_after(evs).contains_key(k) {
                let i = choose|i: int| #[trigger] last_opening(rest, i, k) && open_after(rest)[k] == rest[i];
                assert(last_opening(evs, i, k));
            }
        }
    }
}

/// The records of `evs` are all enters or exits.
pub open spec fn enters_and_exits(evs: Seq<Event>) -> bool {
    forall|m: int| 0 <= m < evs.len() ==> (#[trigger] evs[m]).event_type == EVENT_ENTER
        || evs[m].event_type == EVENT_EXIT
}

/// The last record of `evs` closes a pair of span `name_id` exactly when it is
/// an exit that pairs with an enter of the same key, with no record of that key
/// in between, and does not end before it.
pub proof fn lemma_closes_pair(evs: Seq<Event>, name_id: int)
    requires
        evs.len() > 0,
        enters_and_exits(evs),
    ensures
        closes_pair(evs, name_id) <==> last_is_pair(evs, name_id),
        closes_pair(evs, name_id) ==> forall|i: int| #[trigger]
            pairs_with_last(evs, i) ==> open_after(evs.drop_last())[key_of(evs.last())] == evs[i],
{
    let rest = evs.drop_last();
    let e = evs.last();
    let k = key_of(e);
    assert(forall|m: int| 0 <= m < rest.len() ==> rest[m] == evs[m]);
    lemma_open_after(rest, k);
    assert forall|i: int| #[trigger] pairs_with_last(evs, i) <==> (last_opening(rest, i, k)
        && e.event_type == EVENT_EXIT) by {
    }
    if closes_pair(evs, name_id) {
        let i = choose|i: int| #[trigger] last_opening(rest, i, k) && open_after(rest)[k] == rest[i];
        assert(pairs_with_last(evs, i));
    }
}

/// The number of latency samples of a span equals the number of its exits that
/// pair with an enter (same thread and span id, no record of that key in
/// between) and do not end before it.
pub proof fn lemma_latency_count(evs: Seq<Event>, name_id: int)
    requires
        enters_and_exits(evs),
    ensures
        latency_after(evs, name_id).len() == paired_count(evs, name_id),
    decreases evs.len(),
{
    if evs.len() > 0 {
        let rest = evs.drop_last();
        assert(enters_and_exits(rest)) by {
            assert(forall|m: int| 0 <= m < rest.len() ==> rest[m] == evs[m]);
        }
        lemma_latency_count(rest, name_id);
        lemma_closes_pair(evs, name_id);
    }
}

/// In a correlator, the number of samples in the latency histogram of each
/// span equals the number of successfully paired enter and exit records of
/// that span among the records it accepted.
pub proof fn lemma_correlator_latency_count(c: Correlator, name_id: int)
    requires
        c.wf(),
        0 <= name_id < c.span_count(),
    ensures
        c.span(name_id).latency_samples().len() == paired_count(c.history(), name_id),
{
    c.lemma_state();
    lemma_latency_count(c.history(), name_id);
}

/// The exit record that closes `enter` after `duration` nanoseconds, on the
/// same thread and CPU and with the same counters.
pub open spec fn exit_after(enter: Event, duration: u64) -> Event {
    Event { event_type: EVENT_EXIT, timestamp: (enter.timestamp + duration) as u64, ..enter }
}

/// The first `n` spans of a run on which each span opens with `enters[k]`
/// and, when `keep[k]`, closes `durations[k]` later before the next one
/// opens; when not `keep[k]` its exit record is lost.
pub open spec fn span_run(enters: Seq<Event>, durations: Seq<u64>, keep: Seq<bool>, n: nat) -> Seq<
    Event,
>
    decreases n,
{
    if n == 0 {
        Seq::empty()
    } else {
        let before = span_run(enters, durations, keep, (n - 1) as nat);
        let e = enters[n - 1];
        if keep[n - 1] {
            before.push(e).push(exit_after(e, durations[n - 1]))
        } else {
            before.push(e)
        }
    }
}

/// The durations of the first `n` spans whose exit was kept.
pub open spec fn kept_durations(durations: Seq<u64>, keep: Seq<bool>, n: nat) -> Multiset<u64>
    decreases n,
{
    if n == 0 {
        Multiset::empty()
    } else if keep[n - 1] {
        kept_durations(durations, keep, (n - 1) as nat).insert(stored_value(durations[n - 1]))
    } else {
        kept_durations(durations, keep, (n - 1) as nat)
    }
}

/// Whether `enters` are enter records of span `name_id` whose spans, lasting
/// `durations`, end within the range of a timestamp.
pub open spec fn valid_run(enters: Seq<Event>, durations: Seq<u64>, name_id: int) -> bool {
    &&& durations.len() == enters.len()
    &&& forall|k: int|
        0 <= k < enters.len() ==> {
            &&& (#[trigger] enters[k]).event_type == EVENT_ENTER
            &&& enters[k].name_id == name_id
            &&& enters[k].timestamp + durations[k] <= u64::MAX
        }
}

/// When some exit records of a run of spans are lost, the latency histogram
/// holds exactly the durations (at the histogram's precision) of the spans
/// whose exit arrived, and no exit is counted as a missed opening.
pub proof fn lemma_lost_exits(
    enters: Seq<Event>,
    durations: Seq<u64>,
    keep: Seq<bool>,
    n: nat,
    name_id: int,
)
    requires
        valid_run(enters, durations, name_id),
        keep.len() == enters.len(),
        n <= enters.len(),
    ensures
        latency_after(span_run(enters, durations, keep, n), name_id) =~= kept_durations(
            durations,
            keep,
            n,
        ),
        missed_after(span_run(enters, durations, keep, n)) == 0,
    decreases n,
{
    if n > 0 {
        lemma_lost_exits(enters, durations, keep, (n - 1) as nat, name_id);
        let before = span_run(enters, durations, keep, (n - 1) as nat);
        let e = enters[n - 1];
        let with_enter = before.push(e);
        assert(with_enter.drop_last() =~= before);
        assert(e.event_type == EVENT_ENTER && e.name_id == name_id);
        assert(with_enter.last() == e);
        assert(!closes_pair(with_enter, name_id));
        assert(latency_after(with_enter, name_id) == latency_after(before, name_id));
        assert(missed_after(with_enter) == 0);
        if keep[n - 1] {
            let d = durations[n - 1];
            let x = exit_after(e, d);
            let evs = with_enter.push(x);
            assert(evs.drop_last() =~= with_enter);
            assert(evs.last() == x);
            assert(key_of(x) == key_of(e));
            assert(open_after(with_enter) == open_after(before).insert(key_of(e), e));
            assert(open_after(with_enter)[key_of(x)] == e);
            assert(x.timestamp == e.timestamp + d);
            assert(closes_pair(evs, name_id));
            assert((x.timestamp - e.timestamp) as u64 == d);
            assert(latency_after(evs, name_id) == latency_after(with_enter, name_id).insert(
                stored_value(d),
            ));
            assert(evs == span_run(enters, durations, keep, n));
        } else {
            assert(with_enter == span_run(enters, durations, keep, n));
        }
    }
}

/// A run of spans on one thread, each closed after a known duration, leaves
/// exactly those durations in the latency histogram, each at the histogram's
/// precision.
pub proof fn lemma_known_durations(enters: Seq<Event>, durations: Seq<u64>, name_id: int)
    requires
        valid_run(enters, durations, name_id),
    ensures
        latency_after(
            span_run(enters, durations, Seq::new(enters.len(), |k: int| true), enters.len()),
            name_id,
        ) =~= durations.map_values(|d: u64| stored_value(d)).to_multiset(),
{
    let keep = Seq::new(enters.len(), |k: int| true);
    lemma_lost_exits(enters, durations, keep, enters.len(), name_id);
    lemma_all_kept(durations, keep, enters.len());
    assert(durations.take(enters.len() as int) =~= durations);
}

proof fn lemma_all_kept(durations: Seq<u64>, keep: Seq<bool>, n: nat)
    requires
        n <= durations.len(),
        n <= keep.len(),
        forall|k: int| 0 <= k < keep.len() ==> #[trigger] keep[k],
    ensures
        kept_durations(durations, keep, n) =~= durations.take(n as int).map_values(
            |d: u64| stored_value(d),
        ).to_multiset(),
    decreases n,
{
    broadcast use vstd::seq_lib::group_to_multiset_ensures;

    if n > 0 {
        lemma_all_kept(durations, keep, (n - 1) as nat);
        assert(durations.take(n as int).map_values(|d: u64| stored_value(d)) =~= durations.take(
            n - 1,
        ).map_values(|d: u64| stored_value(d)).push(stored_value(durations[n - 1])));
    }
}

/// A correlator that accepted a run of spans with known durations holds
/// exactly those durations, at the histogram's precision, in the span's
/// latency histogram.
pub proof fn lemma_correlator_known_durations(
    c: Correlator,
    enters: Seq<Event>,
    durations: Seq<u64>,
    name_id: int,
)
    requires
        c.wf(),
        valid_run(enters, durations, name_id),
        c.history() == span_run(
            enters,
            durations,
            Seq::new(enters.len(), |k: int| true),
            enters.len(),
        ),
        0 <= name_id < c.span_count(),
    ensures
        c.span(name_id).latency_samples() =~= durations.map_values(|d: u64| stored_value(d)).to_multiset(),
{
    c.lemma_state();
    lemma_known_durations(enters, durations, name_id);
}

/// A correlator that accepted a run of spans some of whose exits were lost
/// holds the durations of the spans that closed, at the histogram's
/// precision, and counts no missed opening.
pub proof fn lemma_correlator_lost_exits(
    c: Correlator,
    enters: Seq<Event>,
    durations: Seq<u64>,
    keep: Seq<bool>,
    name_id: int,
)
    requires
        c.wf(),
        valid_run(enters, durations, name_id),
        keep.len() == enters.len(),
        c.history() == span_run(enters, durations, keep, enters.len()),
        0 <= name_id < c.span_count(),
    ensures
        c.span(name_id).latency_samples() =~= kept_durations(durations, keep, enters.len()),
        missed_after(c.history()) == 0,
{
    c.lemma_state();
    lemma_lost_exits(enters, durations, keep, enters.len(), name_id);
}

/// A counter histogram of a span never holds more samples than its latency
/// histogram: a counter delta is recorded only for a recorded pair.
pub proof fn lemma_counter_samples_bounded(evs: Seq<Event>, name_id: int, slot: int)
    ensures
        counter_after(evs, name_id, slot).len() <= latency_after(evs, name_id).len(),
    decreases evs.len(),
{
    if evs.len() > 0 {
        lemma_counter_samples_bounded(evs.drop_last(), name_id, slot);
    }
}

/// Two correlators that accepted the same records hold the same samples in
/// every histogram and the same open spans: what they report depends on the
/// records alone.
pub proof fn lemma_same_records_same_samples(a: Correlator, b: Correlator)
    requires
        a.wf(),
        b.wf(),
        a.history() == b.history(),
        a.span_count() == b.span_count(),
        a.counter_count() == b.counter_count(),
    ensures
        a.open_spans() == b.open_spans(),
        forall|s: int|
            0 <= s < a.span_count() ==> (#[trigger] a.span(s)).latency_samples() == b.span(
                s,
            ).latency_samples(),
        forall|s: int, i: int|
            0 <= s < a.span_count() && 0 <= i < a.counter_count() ==> (#[trigger] a.span(
                s,
            ).counter_samples(i)) == b.span(s).counter_samples(i),
{
}

} // verus!
