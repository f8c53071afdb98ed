use perfspan::events::{supported_events, EventSpecError, HwEvent, PerfEventSpec};
use perfspan::report::{bar_length, bucket_width, latency_micros};
use perfspan::startup::{StartupError, StartupPlan};
use perfspan::names::NameError;

#[test]
fn parse_default_period() {
    let s = PerfEventSpec::parse("cycles").unwrap();
    assert_eq!(s, PerfEventSpec { event: HwEvent::Cycles, sample_period: 10_000_000 });
    assert_eq!(s.name(), "cycles");
    let s = PerfEventSpec::parse("cache_misses").unwrap();
    assert_eq!(s.sample_period, 1_000);
}

#[test]
fn parse_given_period() {
    let s = PerfEventSpec::parse("branch_misses=5000").unwrap();
    assert_eq!(s, PerfEventSpec { event: HwEvent::BranchMisses, sample_period: 5000 });
    assert_eq!(PerfEventSpec::parse("instructions=+7").unwrap().sample_period, 7);
    assert_eq!(PerfEventSpec::parse("cycles=100=5").unwrap().sample_period, 100);
    assert_eq!(
        PerfEventSpec::parse("cycles=18446744073709551615").unwrap().sample_period,
        u64::MAX
    );
}

#[test]
fn parse_unknown_event() {
    assert_eq!(
        PerfEventSpec::parse("widgets"),
        Err(EventSpecError::UnknownEvent("widgets".to_string()))
    );
    assert_eq!(
        PerfEventSpec::parse("widgets=10"),
        Err(EventSpecError::UnknownEvent("widgets".to_string()))
    );
    assert_eq!(PerfEventSpec::parse(""), Err(EventSpecError::UnknownEvent(String::new())));
}

#[test]
fn parse_invalid_period() {
    for p in ["", "abc", "+", "-5", "18446744073709551616", "1x"] {
        let text = format!("cycles={}", p);
        assert_eq!(
            PerfEventSpec::parse(&text),
            Err(EventSpecError::InvalidPeriod(p.to_string()))
        );
    }
}

#[test]
fn supported_list() {
    let all = supported_events();
    assert_eq!(all.len(), 10);
    let names: Vec<&str> = all.iter().map(|s| s.name()).collect();
    assert_eq!(
        names,
        vec![
            "cycles",
            "instructions",
            "cache_references",
            "cache_misses",
            "branch_instructions",
            "branch_misses",
            "bus_cycles",
            "stalled_cycles_frontend",
            "stalled_cycles_backend",
            "ref_cpu_cycles"
        ]
    );
    let periods: Vec<u64> = all.iter().map(|s| s.sample_period).collect();
    assert_eq!(
        periods,
        vec![
            10_000_000, 10_000_000, 1_000, 1_000, 1_000_000, 1_000_000, 1_000_000, 1_000_000,
            1_000_000, 1_000_000
        ]
    );
}

fn spans(names: &[&str]) -> Vec<String> {
    names.iter().map(|s| s.to_string()).collect()
}

#[test]
fn too_many_events_fail_startup() {
    let events = vec![PerfEventSpec { event: HwEvent::Cycles, sample_period: 1 }; 9];
    match StartupPlan::new(&spans(&["work"]), None, &events, 10) {
        Err(e) => assert_eq!(e, StartupError::TooManyEvents { requested: 9, max: 8 }),
        Ok(_) => panic!("nine events accepted"),
    }
    let events = vec![PerfEventSpec { event: HwEvent::Cycles, sample_period: 1 }; 8];
    assert!(StartupPlan::new(&spans(&["work"]), None, &events, 10).is_ok());
}

#[test]
fn startup_plan_values() {
    let events = vec![PerfEventSpec { event: HwEvent::Instructions, sample_period: 3 }];
    let plan = StartupPlan::new(&spans(&["a", "b"]), Some(1234), &events, 10).unwrap();
    assert_eq!(plan.config().filter_tgid, 1234);
    assert_eq!(plan.config().enabled_events, 1);
    assert_eq!(plan.perf_pid(), 1234);
    assert_eq!(plan.events().len(), 1);
    assert_eq!(plan.buckets(), 10);
    assert_eq!(plan.names().len(), 2);
    let plan = StartupPlan::new(&spans(&["a"]), None, &vec![], 10).unwrap();
    assert_eq!(plan.config().filter_tgid, 0);
    assert_eq!(plan.perf_pid(), -1);
}

#[test]
fn startup_refusals() {
    match StartupPlan::new(&spans(&["a"]), None, &vec![], 0) {
        Err(e) => assert_eq!(e, StartupError::NoBuckets),
        Ok(_) => panic!("no buckets accepted"),
    }
    let long = "x".repeat(129);
    match StartupPlan::new(&spans(&["a", &long]), None, &vec![], 10) {
        Err(e) => assert_eq!(e, StartupError::Names(NameError::NameTooLong(1))),
        Ok(_) => panic!("long name accepted"),
    }
    let many: Vec<String> = (0..257).map(|i| format!("s{}", i)).collect();
    match StartupPlan::new(&many, None, &vec![], 10) {
        Err(e) => assert_eq!(e, StartupError::Names(NameError::TooManySpans)),
        Ok(_) => panic!("too many spans accepted"),
    }
}

#[test]
fn report_arithmetic() {
    assert_eq!(bar_length(1, 3), 17);
    assert_eq!(bar_length(3, 3), 50);
    assert_eq!(bar_length(0, 3), 0);
    assert_eq!(bar_length(1, 1000), 1);
    assert_eq!(bucket_width(100, 200, 10), 10);
    assert_eq!(bucket_width(100, 205, 10), 11);
    assert_eq!(bucket_width(5, 5, 10), 1);
    assert_eq!(bucket_width(0, u64::MAX, 1), u64::MAX);
    assert_eq!(latency_micros(999), 1);
    assert_eq!(latency_micros(1_998), 1);
    assert_eq!(latency_micros(u64::MAX), 18_446_744_073_709_551);
}
