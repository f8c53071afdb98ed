use perfspan::names::{pad_name, SpanNameTable, MAX_NAME_SIZE};
use perfspan::probe::{emit_event, record_counter_sample, ProbeConfig, ProbeFire};
use perfspan::record::EVENT_ENTER;
use perfspan::{max_name_size_string, PerfspanLayer, PerfspanSubscriber};

fn table(names: &[&str]) -> SpanNameTable {
    let spans: Vec<String> = names.iter().map(|s| s.to_string()).collect();
    SpanNameTable::new(&spans).unwrap()
}

fn fire(pid: u32) -> ProbeFire {
    ProbeFire {
        event_type: EVENT_ENTER,
        pid_tgid: ((pid as u64) << 32) | 77,
        span_id: 9,
        cpu: 1,
        timestamp: 555,
    }
}

#[test]
fn padding() {
    let b = max_name_size_string("abc");
    assert_eq!(&b[..3], b"abc");
    assert!(b[3..].iter().all(|x| *x == 0));
    let exact = "y".repeat(MAX_NAME_SIZE);
    assert_eq!(max_name_size_string(&exact).to_vec(), exact.as_bytes().to_vec());
}

#[test]
fn lookup_returns_last_index() {
    let t = table(&["a", "b", "a"]);
    assert_eq!(t.lookup(&pad_name(b"a")), Some(2));
    assert_eq!(t.lookup(&pad_name(b"b")), Some(1));
    assert_eq!(t.lookup(&pad_name(b"c")), None);
    assert_eq!(t.entry(1).to_vec(), pad_name(b"b").to_vec());
}

#[test]
fn emitted_record_fields() {
    let t = table(&["x", "work"]);
    let cfg = ProbeConfig { filter_tgid: 0, enabled_events: 2 };
    let snap = [11, 22, 33, 44, 55, 66, 77, 88];
    let e = emit_event(&cfg, &t, &fire(5), b"work", &snap, false).unwrap();
    assert_eq!(e.name_id, 1);
    assert_eq!(e.event_type, EVENT_ENTER);
    assert_eq!(e.span_id, 9);
    assert_eq!(e.cpu, 1);
    assert_eq!(e.timestamp, 555);
    assert_eq!(e.counters, [11, 22, 0, 0, 0, 0, 0, 0]);
}

#[test]
fn process_filter() {
    let t = table(&["work"]);
    let cfg = ProbeConfig { filter_tgid: 100, enabled_events: 0 };
    let snap = [0; 8];
    assert!(emit_event(&cfg, &t, &fire(100), b"work", &snap, false).is_some());
    assert!(emit_event(&cfg, &t, &fire(101), b"work", &snap, false).is_none());
}

#[test]
fn unwatched_name_and_full_ring_drop() {
    let t = table(&["work"]);
    let cfg = ProbeConfig { filter_tgid: 0, enabled_events: 0 };
    let snap = [0; 8];
    assert!(emit_event(&cfg, &t, &fire(1), b"other", &snap, false).is_none());
    assert!(emit_event(&cfg, &t, &fire(1), b"work", &snap, true).is_none());
}

#[test]
fn name_length_boundary() {
    let n128 = "z".repeat(128);
    let t = table(&[&n128]);
    let cfg = ProbeConfig { filter_tgid: 0, enabled_events: 0 };
    let snap = [0; 8];
    assert!(emit_event(&cfg, &t, &fire(1), n128.as_bytes(), &snap, false).is_some());
    let n129 = "z".repeat(129);
    assert!(emit_event(&cfg, &t, &fire(1), n129.as_bytes(), &snap, false).is_none());
    let n127 = "z".repeat(127);
    assert!(emit_event(&cfg, &t, &fire(1), n127.as_bytes(), &snap, false).is_none());
}

#[test]
fn counter_snapshot_slots() {
    let mut snap = [0u64; 8];
    record_counter_sample(&mut snap, 3, 42);
    assert_eq!(snap, [0, 0, 0, 42, 0, 0, 0, 0]);
    record_counter_sample(&mut snap, 8, 7);
    assert_eq!(snap, [0, 0, 0, 42, 0, 0, 0, 0]);
}

#[test]
fn probe_arguments() {
    let s = PerfspanSubscriber::new();
    assert_eq!(s.enter_probe(4, "héllo").name_len, 6);
    assert_eq!(s.exit_probe(4).name_len, 0);
    let l = PerfspanLayer::new();
    assert_eq!(l.exit_probe(5, "ab").name_len, 2);
    assert_eq!(l.enter_probe(5, "ab").span_id, 5);
}
