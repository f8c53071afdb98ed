//! Per-span histograms: one for latency and one per enabled counter slot,
//! kept in `hdrhistogram` histograms.
use hdrhistogram::{CreationError, Histogram};
use vstd::multiset::Multiset;
use vstd::arithmetic::power2::pow2;
use vstd::prelude::*;

use crate::events::PerfEventSpec;
use crate::record::{Event, MAX_COUNTERS};


verus! {

/// An `hdrhistogram` histogram of `u64` samples, reached only through the
/// functions below.
#[verifier::external_body]
pub struct SampleHistogram {
    pub inner: Histogram<u64>,
}

#[verifier::external_type_specification]
#[verifier::external_body]
pub struct ExCreationError(CreationError);

/// The samples that a histogram holds: for each recording, the lowest value
/// of the bucket the recorded value fell in (see `stored_value`).
pub uninterp spec fn samples(h: SampleHistogram) -> Multiset<u64>;

/// The lowest discernible value, the highest trackable value and the
/// significant digits a histogram was made with.
pub uninterp spec fn settings(h: SampleHistogram) -> (u64, u64, u8);

/// Lowest value the histograms discern.
pub const HISTOGRAM_LOW: u64 = 1;

/// Significant decimal digits the histograms keep.
pub const HISTOGRAM_SIGFIG: u8 = 3;

/// The settings every histogram of this library is made with: values from 1
/// to `u64::MAX`, three significant digits.
pub open spec fn standard_settings() -> (u64, u64, u8) {
    (HISTOGRAM_LOW, u64::MAX, HISTOGRAM_SIGFIG)
}

/// The number of binary digits of `v`.
pub open spec fn bit_length(v: nat) -> nat
    decreases v,
{
    if v == 0 {
        0
    } else {
        1 + bit_length(v / 2)
    }
}

/// The value a histogram with the standard settings keeps for `v`: values
/// below 2048 exactly; larger ones with their binary digits beyond the
/// leading eleven cleared (the lowest value of their bucket).
pub open spec fn stored_value(v: u64) -> u64 {
    if v < 2048 {
        v
    } else {
        let shift = (bit_length(v as nat) - 11) as nat;
        ((v as nat / pow2(shift)) * pow2(shift)) as u64
    }
}

/// Relies on `Histogram::new_with_bounds`: a histogram it returns holds no
/// sample and has the settings it was asked for. With the standard settings
/// every check on the arguments passes, so it returns a histogram.
#[verifier::external_body]
fn new_histogram(low: u64, high: u64, sigfig: u8) -> (r: Result<SampleHistogram, CreationError>)
    ensures
        r matches Ok(h) ==> samples(h) =~= Multiset::empty() && settings(h) == (low, high, sigfig),
        (low, high, sigfig) == standard_settings() ==> r is Ok,
{
    Histogram::new_with_bounds(low, high, sigfig).map(|inner| SampleHistogram { inner })
}

/// Relies on `Histogram::saturating_record`: with the standard settings every
/// value is in range and lands in the bucket whose lowest value is
/// `stored_value(value)`; the bucket's count grows by one unless the total
/// count has reached `u64::MAX`.
#[verifier::external_body]
fn record_sample(h: &mut SampleHistogram, value: u64)
    requires
        settings(*old(h)) == standard_settings(),
    ensures
        settings(*final(h)) == settings(*old(h)),
        samples(*old(h)).len() < u64::MAX ==> samples(*final(h)) =~= samples(*old(h)).insert(
            stored_value(value),
        ),
{
    h.inner.saturating_record(value)
}

/// Relies on `Histogram::len`: the total count, which saturates at `u64::MAX`.
#[verifier::external_body]
fn histogram_len(h: &SampleHistogram) -> (r: u64)
    ensures
        r as nat == if samples(*h).len() < u64::MAX { samples(*h).len() } else { u64::MAX as nat },
{
    h.inner.len()
}

impl SampleHistogram {
    /// The number of samples, saturating at `u64::MAX`.
    pub fn len(&self) -> (r: u64)
        ensures
            r as nat == if samples(*self).len() < u64::MAX {
                samples(*self).len()
            } else {
                u64::MAX as nat
            },
    {
        histogram_len(self)
    }
}

/// Whether the delta of counter slot `i` between `previous` and `current` is
/// meaningful: both were read on one CPU and the counter did not go back.
pub open spec fn counter_delta_valid(current: Event, previous: Event, i: int) -> bool {
    current.cpu == previous.cpu && current.counters[i] >= previous.counters[i]
}

/// The latency and counter histograms of one watched span.
pub struct SpanHistograms {
    span_name: String,
    latency: SampleHistogram,
    counters: Vec<(PerfEventSpec, SampleHistogram)>,
}

fn fresh_histogram() -> (r: SampleHistogram)
    ensures
        samples(r) =~= Multiset::empty(),
        settings(r) == standard_settings(),
{
    new_histogram(HISTOGRAM_LOW, u64::MAX, HISTOGRAM_SIGFIG).unwrap()
}

impl SpanHistograms {
    pub closed spec fn name(self) -> Seq<char> {
        self.span_name@
    }

    pub closed spec fn latency_histogram(self) -> SampleHistogram {
        self.latency
    }

    /// The events counted, one per counter slot.
    pub closed spec fn events(self) -> Seq<PerfEventSpec> {
        self.counters@.map_values(|c: (PerfEventSpec, SampleHistogram)| c.0)
    }

    pub closed spec fn counter_histogram(self, i: int) -> SampleHistogram {
        self.counters@[i].1
    }

    pub open spec fn latency_samples(self) -> Multiset<u64> {
        samples(self.latency_histogram())
    }

    pub open spec fn counter_samples(self, i: int) -> Multiset<u64> {
        samples(self.counter_histogram(i))
    }

    /// Every histogram has the standard settings.
    pub open spec fn wf(self) -> bool {
        &&& settings(self.latency_histogram()) == standard_settings()
        &&& forall|i: int|
            0 <= i < self.events().len() ==> #[trigger] settings(self.counter_histogram(i))
                == standard_settings()
    }

    /// No histogram's total count has reached `u64::MAX`.
    pub open spec fn below_saturation(self) -> bool {
        &&& self.latency_samples().len() < u64::MAX
        &&& forall|i: int|
            0 <= i < self.events().len() ==> #[trigger] self.counter_samples(i).len() < u64::MAX
    }

    /// Empty histograms with the standard settings for the span `span_name`,
    /// one per event in `events`.
    pub fn new(span_name: String, events: &Vec<PerfEventSpec>) -> (r: SpanHistograms)
        ensures
            r.name() == span_name@,
            r.events() == events@,
            r.wf(),
            r.latency_samples() =~= Multiset::empty(),
            forall|i: int|
                0 <= i < events@.len() ==> #[trigger] r.counter_samples(i) =~= Multiset::empty(),
    {
        let latency = fresh_histogram();
        let mut counters: Vec<(PerfEventSpec, SampleHistogram)> = Vec::new();
        let mut i: usize = 0;
        while i < events.len()
            invariant
                i <= events@.len(),
                counters@.len() == i,
                forall|j: int| 0 <= j < i ==> (#[trigger] counters@[j]).0 == events@[j],
                forall|j: int| 0 <= j < i ==> samples((#[trigger] counters@[j]).1) =~= Multiset::empty(),
                forall|j: int| 0 <= j < i ==> settings((#[trigger] counters@[j]).1) == standard_settings(),
            decreases events@.len() - i,
        {
            counters.push((events[i], fresh_histogram()));
            i = i + 1;
        }
        let r = SpanHistograms { span_name, latency, counters };
        assert(r.events() =~= events@);
        r
    }

    pub fn span_name(&self) -> (r: &String)
        ensures
            r@ == self.name(),
    {
        &self.span_name
    }

    pub fn latency(&self) -> (r: &SampleHistogram)
        ensures
            *r == self.latency_histogram(),
    {
        &self.latency
    }

    pub fn counters(&self) -> (r: &Vec<(PerfEventSpec, SampleHistogram)>)
        ensures
            r@.len() == self.events().len(),
            forall|i: int| 0 <= i < r@.len() ==> (#[trigger] r@[i]).0 == self.events()[i],
            forall|i: int| 0 <= i < r@.len() ==> (#[trigger] r@[i]).1 == self.counter_histogram(i),
    {
        &self.counters
    }

    /// Records one matched pair: the latency always, and for each counter slot
    /// the delta when it is meaningful (see `counter_delta_valid`), each at the
    /// histogram's precision.
    pub fn record_event(&mut self, current: &Event, previous: &Event)
        requires
            current.timestamp >= previous.timestamp,
            old(self).events().len() <= MAX_COUNTERS,
            old(self).wf(),
            old(self).below_saturation(),
        ensures
            final(self).wf(),
            final(self).name() == old(self).name(),
            final(self).events() == old(self).events(),
            final(self).latency_samples() =~= old(self).latency_samples().insert(
                stored_value((current.timestamp - previous.timestamp) as u64),
            ),
            forall|i: int|
                0 <= i < old(self).events().len() ==> #[trigger] final(self).counter_samples(i) =~= if counter_delta_valid(*current, *previous, i) {
                    old(self).counter_samples(i).insert(stored_value((current.counters[i] - previous.counters[i]) as u64))
                } else {
                    old(self).counter_samples(i)
                },
    {
        record_sample(&mut self.latency, current.timestamp - previous.timestamp);
        let ghost old_counters = self.counters@;
        let ghost latency_now = samples(self.latency);
        let ghost latency_settings = settings(self.latency);
        assert(old_counters.len() == old(self).events().len());
        assert forall|j: int| 0 <= j < old_counters.len() implies settings(#[trigger] old_counters[j].1)
            == standard_settings() && samples(old_counters[j].1).len() < u64::MAX by {
            assert(settings(old(self).counter_histogram(j)) == standard_settings());
            assert(old(self).counter_samples(j).len() < u64::MAX);
        }
        let mut i: usize = 0;
        while i < self.counters.len()
            invariant
                self.span_name@ == old(self).span_name@,
                samples(self.latency) == latency_now,
                settings(self.latency) == latency_settings,
                i <= self.counters@.len(),
                self.counters@.len() == old_counters.len(),
                old_counters.len() <= MAX_COUNTERS,
                forall|j: int| 0 <= j < old_counters.len() ==> settings(#[trigger] old_counters[j].1) == standard_settings(),
                forall|j: int| 0 <= j < old_counters.len() ==> samples(#[trigger] old_counters[j].1).len() < u64::MAX,
                forall|j: int| 0 <= j < old_counters.len() ==> (#[trigger] self.counters@[j]).0 == old_counters[j].0,
                forall|j: int| 0 <= j < old_counters.len() ==> settings((#[trigger] self.counters@[j]).1) == standard_settings(),
                forall|j: int| i <= j < old_counters.len() ==> #[trigger] self.counters@[j] == old_counters[j],
                forall|j: int|
                    0 <= j < i ==> #[trigger] samples(self.counters@[j].1) =~= if counter_delta_valid(*current, *previous, j) {
                        samples(old_counters[j].1).insert(stored_value((current.counters[j] - previous.counters[j]) as u64))
                    } else {
                        samples(old_counters[j].1)
                    },
            decreases old_counters.len() - i,
        {
            if current.cpu == previous.cpu && current.counters[i] >= previous.counters[i] {
                record_sample(&mut self.counters[i].1, current.counters[i] - previous.counters[i]);
            }
            i = i + 1;
        }
        assert(self.events() =~= old(self).events());
    }
}

} // verus!
