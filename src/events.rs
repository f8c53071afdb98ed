//! The closed set of hardware events that can be counted, and the parsing of
//! an event selection `name` or `name=period`.
use vstd::prelude::*;
use vstd::string::StrSliceExecFns;

verus! {

/// A supported hardware event. Variants differ only in the kernel's event
/// configuration and in their default sample period.
#[derive(Clone, Copy, Debug, PartialEq, Eq, Structural)]
pub enum HwEvent {
    Cycles,
    Instructions,
    CacheReferences,
    CacheMisses,
    BranchInstructions,
    BranchMisses,
    BusCycles,
    StalledCyclesFrontend,
    StalledCyclesBackend,
    RefCpuCycles,
}

/// A hardware event together with the sample period to open it with.
#[derive(Clone, Copy, Debug, PartialEq, Eq, Structural)]
pub struct PerfEventSpec {
    pub event: HwEvent,
    pub sample_period: u64,
}

/// The mnemonic of each event.
pub open spec fn event_name(e: HwEvent) -> Seq<char> {
    match e {
        HwEvent::Cycles => "cycles"@,
        HwEvent::Instructions => "instructions"@,
        HwEvent::CacheReferences => "cache_references"@,
        HwEvent::CacheMisses => "cache_misses"@,
        HwEvent::BranchInstructions => "branch_instructions"@,
        HwEvent::BranchMisses => "branch_misses"@,
        HwEvent::BusCycles => "bus_cycles"@,
        HwEvent::StalledCyclesFrontend => "stalled_cycles_frontend"@,
        HwEvent::StalledCyclesBackend => "stalled_cycles_backend"@,
        HwEvent::RefCpuCycles => "ref_cpu_cycles"@,
    }
}

/// The sample period each event is opened with unless one is given.
pub open spec fn default_period(e: HwEvent) -> u64 {
    match e {
        HwEvent::Cycles => 10_000_000,
        HwEvent::Instructions => 10_000_000,
        HwEvent::CacheReferences => 1_000,
        HwEvent::CacheMisses => 1_000,
        HwEvent::BranchInstructions => 1_000_000,
        HwEvent::BranchMisses => 1_000_000,
        HwEvent::BusCycles => 1_000_000,
        HwEvent::StalledCyclesFrontend => 1_000_000,
        HwEvent::StalledCyclesBackend => 1_000_000,
        HwEvent::RefCpuCycles => 1_000_000,
    }
}

/// Every supported event, in the order they are listed to the user.
pub open spec fn all_events() -> Seq<HwEvent> {
    seq![
        HwEvent::Cycles,
        HwEvent::Instructions,
        HwEvent::CacheReferences,
        HwEvent::CacheMisses,
        HwEvent::BranchInstructions,
        HwEvent::BranchMisses,
        HwEvent::BusCycles,
        HwEvent::StalledCyclesFrontend,
        HwEvent::StalledCyclesBackend,
        HwEvent::RefCpuCycles,
    ]
}

/// Every event appears in `all_events`.
pub proof fn lemma_all_events_complete(e: HwEvent)
    ensures
        all_events().contains(e),
{
    let all = all_events();
    match e {
        HwEvent::Cycles => assert(all[0] == e),
        HwEvent::Instructions => assert(all[1] == e),
        HwEvent::CacheReferences => assert(all[2] == e),
        HwEvent::CacheMisses => assert(all[3] == e),
        HwEvent::BranchInstructions => assert(all[4] == e),
        HwEvent::BranchMisses => assert(all[5] == e),
        HwEvent::BusCycles => assert(all[6] == e),
        HwEvent::StalledCyclesFrontend => assert(all[7] == e),
        HwEvent::StalledCyclesBackend => assert(all[8] == e),
        HwEvent::RefCpuCycles => assert(all[9] == e),
    }
}

impl HwEvent {
    pub fn name(&self) -> (r: &'static str)
        ensures
            r@ == event_name(*self),
    {
        match self {
            HwEvent::Cycles => "cycles",
            HwEvent::Instructions => "instructions",
            HwEvent::CacheReferences => "cache_references",
            HwEvent::CacheMisses => "cache_misses",
            HwEvent::BranchInstructions => "branch_instructions",
            HwEvent::BranchMisses => "branch_misses",
            HwEvent::BusCycles => "bus_cycles",
            HwEvent::StalledCyclesFrontend => "stalled_cycles_frontend",
            HwEvent::StalledCyclesBackend => "stalled_cycles_backend",
            HwEvent::RefCpuCycles => "ref_cpu_cycles",
        }
    }

    pub fn default_period(&self) -> (r: u64)
        ensures
            r == default_period(*self),
    {
        match self {
            HwEvent::Cycles => 10_000_000,
            HwEvent::Instructions => 10_000_000,
            HwEvent::CacheReferences => 1_000,
            HwEvent::CacheMisses => 1_000,
            HwEvent::BranchInstructions => 1_000_000,
            HwEvent::BranchMisses => 1_000_000,
            HwEvent::BusCycles => 1_000_000,
            HwEvent::StalledCyclesFrontend => 1_000_000,
            HwEvent::StalledCyclesBackend => 1_000_000,
            HwEvent::RefCpuCycles => 1_000_000,
        }
    }

    /// Every supported event, in the order they are listed to the user.
    pub fn all() -> (r: Vec<HwEvent>)
        ensures
            r@ == all_events(),
    {
        let r = vec![
            HwEvent::Cycles,
            HwEvent::Instructions,
            HwEvent::CacheReferences,
            HwEvent::CacheMisses,
            HwEvent::BranchInstructions,
            HwEvent::BranchMisses,
            HwEvent::BusCycles,
            HwEvent::StalledCyclesFrontend,
            HwEvent::StalledCyclesBackend,
            HwEvent::RefCpuCycles,
        ];
        assert(r@ =~= all_events());
        r
    }
}

/// Each supported event with its default sample period, in listing order.
pub fn supported_events() -> (r: Vec<PerfEventSpec>)
    ensures
        r@.len() == all_events().len(),
        forall|i: int|
            0 <= i < r@.len() ==> #[trigger] r@[i] == (PerfEventSpec {
                event: all_events()[i],
                sample_period: default_period(all_events()[i]),
            }),
{
    let all = HwEvent::all();
    let mut r: Vec<PerfEventSpec> = Vec::new();
    let mut i: usize = 0;
    while i < all.len()
        invariant
            all@ == all_events(),
            i <= all@.len(),
            r@.len() == i,
            forall|j: int|
                0 <= j < i ==> #[trigger] r@[j] == (PerfEventSpec {
                    event: all_events()[j],
                    sample_period: default_period(all_events()[j]),
                }),
        decreases all@.len() - i,
    {
        let e = all[i];
        r.push(PerfEventSpec { event: e, sample_period: e.default_period() });
        i = i + 1;
    }
    r
}

/// The index at which the field of `s` starting at `from` ends: the first
/// `=` at or after `from`, or the end of `s`.
pub open spec fn field_end(s: Seq<char>, from: int) -> int
    decreases s.len() - from,
{
    if from < 0 || from >= s.len() || s[from] == '=' {
        from
    } else {
        field_end(s, from + 1)
    }
}

pub open spec fn is_digit(c: char) -> bool {
    '0' <= c && c <= '9'
}

/// The number that the decimal digits `d` spell.
pub open spec fn digits_value(d: Seq<char>) -> nat
    decreases d.len(),
{
    if d.len() == 0 {
        0
    } else {
        digits_value(d.drop_last()) * 10 + (d.last() as nat - '0' as nat) as nat
    }
}

/// `t` without a leading `+`.
pub open spec fn without_plus(t: Seq<char>) -> Seq<char> {
    if t.len() > 0 && t[0] == '+' {
        t.subrange(1, t.len() as int)
    } else {
        t
    }
}

pub open spec fn all_digits(d: Seq<char>) -> bool {
    forall|i: int| 0 <= i < d.len() ==> is_digit(#[trigger] d[i])
}

/// The unsigned 64-bit integer that `t` spells in decimal: optionally a `+`,
/// then one or more digits, of a value that fits.
pub open spec fn decimal_u64(t: Seq<char>) -> Option<u64> {
    let d = without_plus(t);
    if d.len() > 0 && all_digits(d) && digits_value(d) <= u64::MAX {
        Some(digits_value(d) as u64)
    } else {
        None
    }
}

/// The event name of a selection: the text before the first `=`.
pub open spec fn selection_name(s: Seq<char>) -> Seq<char> {
    s.subrange(0, field_end(s, 0))
}

/// Whether the selection gives a sample period.
pub open spec fn has_period(s: Seq<char>) -> bool {
    field_end(s, 0) < s.len()
}

/// The sample period text of a selection: what follows the first `=`, up to
/// a second `=` if there is one.
pub open spec fn selection_period(s: Seq<char>) -> Seq<char> {
    s.subrange(field_end(s, 0) + 1, field_end(s, field_end(s, 0) + 1))
}

/// Why an event selection cannot be used.
#[derive(Debug, PartialEq, Eq)]
pub enum EventSpecError {
    /// No supported event has this name.
    UnknownEvent(String),
    /// This sample period is not an unsigned 64-bit decimal integer.
    InvalidPeriod(String),
}

proof fn lemma_field_end_bounds(s: Seq<char>, from: int)
    requires
        0 <= from <= s.len(),
    ensures
        from <= field_end(s, from) <= s.len(),
        field_end(s, from) < s.len() ==> s[field_end(s, from)] == '=',
    decreases s.len() - from,
{
    if from < s.len() && s[from] != '=' {
        lemma_field_end_bounds(s, from + 1);
    }
}

/// The end of the field of `s` that starts at `from`.
fn find_field_end(s: &str, n: usize, from: usize) -> (r: usize)
    requires
        n == s@.len(),
        from <= n,
    ensures
        r == field_end(s@, from as int),
{
    let mut i = from;
    while i < n && s.get_char(i) != '='
        invariant
            from <= i <= n,
            n == s@.len(),
            field_end(s@, from as int) == field_end(s@, i as int),
        decreases n - i,
    {
        i = i + 1;
    }
    i
}

/// Whether the characters of `s` from `from` to `to` are those of `lit`.
fn chars_match(s: &str, from: usize, to: usize, lit: &str) -> (r: bool)
    requires
        from <= to <= s@.len(),
    ensures
        r == (s@.subrange(from as int, to as int) == lit@),
{
    let n = lit.unicode_len();
    if to - from != n {
        return false;
    }
    let mut i: usize = 0;
    while i < n
        invariant
            n == lit@.len(),
            to - from == n,
            from <= to <= s@.len(),
            i <= n,
            forall|j: int| 0 <= j < i ==> s@[from + j] == lit@[j],
        decreases n - i,
    {
        if s.get_char(from + i) != lit.get_char(i) {
            assert(s@.subrange(from as int, to as int)[i as int] != lit@[i as int]);
            return false;
        }
        i = i + 1;
    }
    assert(s@.subrange(from as int, to as int) =~= lit@);
    true
}

/// The decimal value of the characters of `s` from `from` to `to`.
fn parse_decimal(s: &str, from: usize, to: usize) -> (r: Option<u64>)
    requires
        from <= to <= s@.len(),
    ensures
        r == decimal_u64(s@.subrange(from as int, to as int)),
{
    let ghost t = s@.subrange(from as int, to as int);
    let mut start = from;
    if from < to && s.get_char(from) == '+' {
        start = from + 1;
    }
    let ghost d = s@.subrange(start as int, to as int);
    assert(d =~= without_plus(t));
    if start == to {
        return None;
    }
    let mut value: u64 = 0;
    let mut i = start;
    while i < to
        invariant
            start <= i <= to,
            to <= s@.len(),
            d == s@.subrange(start as int, to as int),
            t == s@.subrange(from as int, to as int),
            d == without_plus(t),
            d.len() > 0,
            forall|j: int| 0 <= j < i - start ==> is_digit(#[trigger] d[j]),
            value as nat == digits_value(d.subrange(0, i - start)),
        decreases to - i,
    {
        let c = s.get_char(i);
        assert(d[i - start] == c);
        if c < '0' || c > '9' {
            assert(!is_digit(d[i - start]));
            assert(!all_digits(d));
            return None;
        }
        let digit = (c as u32 - '0' as u32) as u64;
        let ghost k = i + 1 - start;
        assert(d.subrange(0, k).drop_last() =~= d.subrange(0, i - start));
        assert(d.subrange(0, k).last() == c);
        assert(digits_value(d.subrange(0, k)) == value as nat * 10 + digit as nat);
        let next = match value.checked_mul(10) {
            Some(v) => v.checked_add(digit),
            None => None,
        };
        match next {
            Some(v) => {
                value = v;
            },
            None => {
                proof {
                    assert(value as nat * 10 + digit as nat > u64::MAX) by (nonlinear_arith)
                        requires
                            value.checked_mul(10) is None || (value * 10) as nat + digit as nat > u64::MAX,
                            value.checked_mul(10) is None ==> value as nat * 10 > u64::MAX,
                            value.checked_mul(10) is Some ==> value * 10 == value as nat * 10,
                    ;
                    lemma_digits_grow(d, k);
                }
                return None;
            },
        }
        i = i + 1;
    }
    assert(d.subrange(0, d.len() as int) =~= d);
    Some(value)
}

/// A longer run of digits is worth at least as much as its prefix.
proof fn lemma_digits_grow(d: Seq<char>, k: int)
    requires
        0 <= k <= d.len(),
        forall|j: int| 0 <= j < k ==> is_digit(#[trigger] d[j]),
    ensures
        digits_value(d) >= digits_value(d.subrange(0, k)) || exists|j: int|
            0 <= j < d.len() && !is_digit(#[trigger] d[j]),
    decreases d.len() - k,
{
    if k < d.len() {
        if forall|j: int| 0 <= j < d.len() ==> is_digit(#[trigger] d[j]) {
            lemma_digits_grow(d, k + 1);
            assert(d.subrange(0, k + 1).drop_last() =~= d.subrange(0, k));
        }
    } else {
        assert(d.subrange(0, k) =~= d);
    }
}

impl PerfEventSpec {
    /// Parses an event selection, `name` or `name=period`: `name` must be the
    /// mnemonic of a supported event, and `period`, when given, a decimal
    /// unsigned 64-bit integer that replaces the event's default period. Text
    /// after a second `=` is ignored.
    pub fn parse(s: &str) -> (r: Result<PerfEventSpec, EventSpecError>)
        ensures
            r is Ok <==> (exists|e: HwEvent| event_name(e) == selection_name(s@)) && (!has_period(
                s@,
            ) || decimal_u64(selection_period(s@)) is Some),
            r matches Ok(spec) ==> {
                &&& event_name(spec.event) == selection_name(s@)
                &&& spec.sample_period == if has_period(s@) {
                    decimal_u64(selection_period(s@))->Some_0
                } else {
                    default_period(spec.event)
                }
            },
            r matches Err(EventSpecError::UnknownEvent(n)) ==> n@ == selection_name(s@) && forall|
                e: HwEvent,
            | event_name(e) != selection_name(s@),
            r matches Err(EventSpecError::InvalidPeriod(p)) ==> {
                &&& exists|e: HwEvent| event_name(e) == selection_name(s@)
                &&& has_period(s@)
                &&& p@ == selection_period(s@)
                &&& decimal_u64(selection_period(s@)) is None
            },
    {
        let n = s.unicode_len();
        let name_end = find_field_end(s, n, 0);
        proof {
            lemma_field_end_bounds(s@, 0);
        }
        let all = HwEvent::all();
        let mut found: Option<HwEvent> = None;
        let mut i: usize = 0;
        while i < all.len()
            invariant
                all@ == all_events(),
                i <= all@.len(),
                name_end <= s@.len(),
                name_end == field_end(s@, 0),
                found matches Some(e) ==> event_name(e) == selection_name(s@),
                found is None ==> forall|j: int| 0 <= j < i ==> event_name(#[trigger] all@[j]) != selection_name(s@),
            decreases all@.len() - i,
        {
            if found.is_none() && chars_match(s, 0, name_end, all[i].name()) {
                found = Some(all[i]);
            }
            i = i + 1;
        }
        let event = match found {
            Some(e) => e,
            None => {
                proof {
                    assert forall|e: HwEvent| event_name(e) != selection_name(s@) by {
                        lemma_all_events_complete(e);
                    }
                }
                return Err(EventSpecError::UnknownEvent(s.substring_char(0, name_end).to_owned()));
            },
        };
        if name_end == n {
            return Ok(PerfEventSpec { event, sample_period: event.default_period() });
        }
        let period_end = find_field_end(s, n, name_end + 1);
        proof {
            lemma_field_end_bounds(s@, name_end + 1);
        }
        match parse_decimal(s, name_end + 1, period_end) {
            Some(p) => Ok(PerfEventSpec { event, sample_period: p }),
            None => Err(EventSpecError::InvalidPeriod(s.substring_char(name_end + 1, period_end).to_owned())),
        }
    }

    pub fn name(&self) -> (r: &'static str)
        ensures
            r@ == event_name(self.event),
    {
        self.event.name()
    }
}

} // verus!
