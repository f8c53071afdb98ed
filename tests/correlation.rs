use perfspan::correlator::{
    next_poll_step, Correlator, PollOutcome, PollStep, RecordEffect, RecordError,
};
use perfspan::events::{HwEvent, PerfEventSpec};
use perfspan::record::{Event, EVENT_ENTER, EVENT_EXIT, EVENT_SIZE};

fn encode(e: &Event) -> Vec<u8> {
    let mut b = Vec::new();
    b.extend_from_slice(&e.event_type.to_le_bytes());
    b.extend_from_slice(&[0u8; 4]);
    b.extend_from_slice(&e.pid_tgid.to_le_bytes());
    b.extend_from_slice(&e.span_id.to_le_bytes());
    b.extend_from_slice(&e.name_id.to_le_bytes());
    b.extend_from_slice(&e.cpu.to_le_bytes());
    b.extend_from_slice(&e.timestamp.to_le_bytes());
    for c in e.counters.iter() {
        b.extend_from_slice(&c.to_le_bytes());
    }
    b
}

fn ev(event_type: u32, span_id: u64, name_id: u32, cpu: u32, timestamp: u64, c0: u64) -> Vec<u8> {
    let mut counters = [0u64; 8];
    counters[0] = c0;
    encode(&Event {
        event_type,
        pid_tgid: (42u64 << 32) | 43,
        span_id,
        name_id,
        cpu,
        timestamp,
        counters,
    })
}

fn cycles() -> Vec<PerfEventSpec> {
    vec![PerfEventSpec { event: HwEvent::Cycles, sample_period: 10_000_000 }]
}

fn correlator(spans: &[&str]) -> Correlator {
    let spans: Vec<String> = spans.iter().map(|s| s.to_string()).collect();
    Correlator::new(&spans, &cycles())
}

#[test]
fn decode_reads_every_field() {
    let mut counters = [0u64; 8];
    for (i, c) in counters.iter_mut().enumerate() {
        *c = 1000 + i as u64;
    }
    let e = Event {
        event_type: EVENT_EXIT,
        pid_tgid: 0x0102_0304_0506_0708,
        span_id: 99,
        name_id: 3,
        cpu: 7,
        timestamp: 123_456_789,
        counters,
    };
    let mut bytes = encode(&e);
    assert_eq!(bytes.len(), EVENT_SIZE);
    bytes.push(0xff);
    let d = Event::from_bytes(&bytes).unwrap();
    assert_eq!(d.event_type, EVENT_EXIT);
    assert_eq!(d.pid_tgid, 0x0102_0304_0506_0708);
    assert_eq!(d.span_id, 99);
    assert_eq!(d.name_id, 3);
    assert_eq!(d.cpu, 7);
    assert_eq!(d.timestamp, 123_456_789);
    assert_eq!(d.counters, counters);
}

#[test]
fn decode_refuses_short_entry() {
    let bytes = ev(EVENT_ENTER, 1, 0, 0, 0, 0);
    assert!(Event::from_bytes(&bytes[..EVENT_SIZE - 1]).is_none());
    assert!(Event::from_bytes(&[]).is_none());
}

#[test]
fn pair_records_latency_and_counter_delta() {
    let mut c = correlator(&["work"]);
    assert!(matches!(
        c.handle_record(&ev(EVENT_ENTER, 1, 0, 2, 1_000, 500)),
        Ok(RecordEffect::Opened)
    ));
    match c.handle_record(&ev(EVENT_EXIT, 1, 0, 2, 11_000, 800)) {
        Ok(RecordEffect::Closed { previous, migrated, regressed }) => {
            assert_eq!(previous.timestamp, 1_000);
            assert!(!migrated);
            assert_eq!(regressed, [false; 8]);
        }
        other => panic!("unexpected {:?}", other),
    }
    let span = &c.spans()[0];
    assert_eq!(span.span_name(), "work");
    assert_eq!(span.latency().len(), 1);
    assert_eq!(span.latency().inner.min(), 10_000);
    let counters = span.counters();
    assert_eq!(counters.len(), 1);
    assert_eq!(counters[0].1.len(), 1);
    assert_eq!(counters[0].1.inner.max(), 300);
    assert_eq!(c.missed_openings(), 0);
}

#[test]
fn cpu_migration_drops_counter_sample_only() {
    let mut c = correlator(&["work"]);
    c.handle_record(&ev(EVENT_ENTER, 1, 0, 2, 1_000, 500)).unwrap();
    match c.handle_record(&ev(EVENT_EXIT, 1, 0, 3, 2_000, 900)) {
        Ok(RecordEffect::Closed { migrated, regressed, .. }) => {
            assert!(migrated);
            assert_eq!(regressed, [false; 8]);
        }
        other => panic!("unexpected {:?}", other),
    }
    let span = &c.spans()[0];
    assert_eq!(span.latency().len(), 1);
    assert_eq!(span.counters()[0].1.len(), 0);
}

#[test]
fn counter_regression_drops_counter_sample_only() {
    let mut c = correlator(&["work"]);
    c.handle_record(&ev(EVENT_ENTER, 1, 0, 2, 1_000, 900)).unwrap();
    match c.handle_record(&ev(EVENT_EXIT, 1, 0, 2, 2_000, 500)) {
        Ok(RecordEffect::Closed { migrated, regressed, .. }) => {
            assert!(!migrated);
            assert!(regressed[0]);
            assert!(!regressed[1]);
        }
        other => panic!("unexpected {:?}", other),
    }
    let span = &c.spans()[0];
    assert_eq!(span.latency().len(), 1);
    assert_eq!(span.counters()[0].1.len(), 0);
}

#[test]
fn exit_without_enter_is_missed_opening() {
    let mut c = correlator(&["work"]);
    assert!(matches!(
        c.handle_record(&ev(EVENT_EXIT, 5, 0, 0, 2_000, 0)),
        Ok(RecordEffect::MissedOpening)
    ));
    assert_eq!(c.missed_openings(), 1);
    assert_eq!(c.spans()[0].latency().len(), 0);
}

#[test]
fn second_enter_replaces_first() {
    let mut c = correlator(&["work"]);
    c.handle_record(&ev(EVENT_ENTER, 1, 0, 0, 1_000, 0)).unwrap();
    c.handle_record(&ev(EVENT_ENTER, 1, 0, 0, 5_000, 0)).unwrap();
    c.handle_record(&ev(EVENT_EXIT, 1, 0, 0, 6_000, 0)).unwrap();
    let lat = c.spans()[0].latency();
    assert_eq!(lat.len(), 1);
    assert_eq!(lat.inner.max(), 1_000);
    c.handle_record(&ev(EVENT_EXIT, 1, 0, 0, 7_000, 0)).unwrap();
    assert_eq!(c.missed_openings(), 1);
}

#[test]
fn exit_before_enter_records_nothing() {
    let mut c = correlator(&["work"]);
    c.handle_record(&ev(EVENT_ENTER, 1, 0, 0, 5_000, 0)).unwrap();
    match c.handle_record(&ev(EVENT_EXIT, 1, 0, 0, 4_000, 0)) {
        Ok(RecordEffect::ClockFault { previous }) => assert_eq!(previous.timestamp, 5_000),
        other => panic!("unexpected {:?}", other),
    }
    assert_eq!(c.spans()[0].latency().len(), 0);
    assert_eq!(c.missed_openings(), 0);
    assert_eq!(c.clock_faults(), 1);
}

#[test]
fn latency_goes_to_exit_span() {
    let mut c = correlator(&["a", "b"]);
    c.handle_record(&ev(EVENT_ENTER, 1, 0, 0, 0, 0)).unwrap();
    c.handle_record(&ev(EVENT_EXIT, 1, 1, 0, 10, 0)).unwrap();
    assert_eq!(c.spans()[0].latency().len(), 0);
    assert_eq!(c.spans()[1].latency().len(), 1);
}

#[test]
fn refused_records() {
    let mut c = correlator(&["work"]);
    let short = ev(EVENT_ENTER, 1, 0, 0, 0, 0);
    assert!(matches!(c.handle_record(&short[..10]), Err(RecordError::Truncated)));
    assert!(matches!(c.handle_record(&ev(7, 1, 0, 0, 0, 0)), Err(RecordError::UnknownType(7))));
    assert!(matches!(
        c.handle_record(&ev(EVENT_ENTER, 1, 4, 0, 0, 0)),
        Err(RecordError::UnknownSpan(4))
    ));
    c.handle_record(&ev(EVENT_EXIT, 1, 0, 0, 10, 0)).unwrap();
    assert_eq!(c.missed_openings(), 1);
}

#[test]
fn paired_count_equals_samples() {
    let mut c = correlator(&["work"]);
    let mut pairs = 0u64;
    for i in 0..20u64 {
        c.handle_record(&ev(EVENT_ENTER, i, 0, 0, i * 100, 0)).unwrap();
        if i % 3 != 0 {
            c.handle_record(&ev(EVENT_EXIT, i, 0, 0, i * 100 + 50, 0)).unwrap();
            pairs += 1;
        }
    }
    assert_eq!(c.spans()[0].latency().len(), pairs);
}

#[test]
fn known_durations_are_recorded() {
    let mut c = correlator(&["work"]);
    let durations = [1_000u64, 2_000, 3_000, 4_000];
    let mut t = 10_000u64;
    for (i, d) in durations.iter().enumerate() {
        c.handle_record(&ev(EVENT_ENTER, i as u64, 0, 0, t, 0)).unwrap();
        c.handle_record(&ev(EVENT_EXIT, i as u64, 0, 0, t + d, 0)).unwrap();
        t += 2 * d;
    }
    let lat = c.spans()[0].latency();
    assert_eq!(lat.len(), 4);
    assert_eq!(lat.inner.min(), 1_000);
    assert!(lat.inner.equivalent(lat.inner.max(), 4_000));
    assert_eq!(lat.inner.count_at(1_000), 1);
    assert_eq!(lat.inner.count_at(2_000), 1);
    assert_eq!(lat.inner.count_at(3_000), 1);
    assert_eq!(lat.inner.count_at(4_000), 1);
}

#[test]
fn every_second_exit_lost() {
    let mut c = correlator(&["work"]);
    for i in 0..10u64 {
        c.handle_record(&ev(EVENT_ENTER, i, 0, 0, i * 1_000, 0)).unwrap();
        if i % 2 == 0 {
            c.handle_record(&ev(EVENT_EXIT, i, 0, 0, i * 1_000 + 100, 0)).unwrap();
        }
    }
    assert_eq!(c.spans()[0].latency().len(), 5);
    assert_eq!(c.missed_openings(), 0);
}

#[test]
fn identical_runs_give_identical_histograms() {
    let run = || {
        let mut c = correlator(&["work"]);
        for i in 0..50u64 {
            c.handle_record(&ev(EVENT_ENTER, i, 0, 0, i * 1_000, i)).unwrap();
            c.handle_record(&ev(EVENT_EXIT, i, 0, 0, i * 1_000 + 10 * i, 3 * i)).unwrap();
        }
        let s = &c.spans()[0];
        (s.latency().len(), s.latency().inner.mean(), s.counters()[0].1.inner.mean())
    };
    assert_eq!(run(), run());
}

#[test]
fn poll_steps() {
    assert_eq!(next_poll_step(PollOutcome::Ready), PollStep::Continue);
    assert_eq!(next_poll_step(PollOutcome::Interrupted), PollStep::Report);
    assert_eq!(next_poll_step(PollOutcome::Failed), PollStep::Fail);
}

#[test]
fn counter_samples_match_latency_on_one_cpu() {
    let mut c = correlator(&["work"]);
    for i in 0..10u64 {
        let cpu = if i % 4 == 0 { 1 } else { 0 };
        c.handle_record(&ev(EVENT_ENTER, i, 0, 0, i * 1_000, i)).unwrap();
        c.handle_record(&ev(EVENT_EXIT, i, 0, cpu, i * 1_000 + 10, i + 5)).unwrap();
    }
    let s = &c.spans()[0];
    assert_eq!(s.latency().len(), 10);
    assert_eq!(s.counters()[0].1.len(), 7);
}

#[test]
fn large_latencies_kept_at_three_digits() {
    let mut c = correlator(&["work"]);
    for (i, d) in [2_047u64, 2_048, 2_049, 1_000_000].iter().enumerate() {
        c.handle_record(&ev(EVENT_ENTER, i as u64, 0, 0, 0, 0)).unwrap();
        c.handle_record(&ev(EVENT_EXIT, i as u64, 0, 0, *d, 0)).unwrap();
    }
    let lat = &c.spans()[0].latency().inner;
    assert_eq!(lat.count_at(2_047), 1);
    assert_eq!(lat.count_at(2_048), 2);
    assert_eq!(lat.lowest_equivalent(2_049), 2_048);
    assert_eq!(lat.lowest_equivalent(1_000_000), 999_936);
    assert_eq!(lat.count_at(999_936), 1);
}
