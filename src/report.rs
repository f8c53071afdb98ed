//! The integer arithmetic of the report: bucket width, bar length and the
//! microsecond label of a latency bucket.
use vstd::prelude::*;

verus! {

/// Width in asterisks of a full bar.
pub const BAR_WIDTH: u64 = 50;

pub open spec fn ceil_div(a: int, b: int) -> int
    recommends
        b > 0,
{
    (a + b - 1) / b
}

/// The width of one of `buckets` equal buckets spanning `min` to `max`,
/// rounded up, and at least 1.
pub fn bucket_width(min: u64, max: u64, buckets: u64) -> (r: u64)
    requires
        min <= max,
        buckets > 0,
    ensures
        r as int == if ceil_div(max - min, buckets as int) > 0 {
            ceil_div(max - min, buckets as int)
        } else {
            1
        },
{
    let span = (max - min) as u128;
    let b = buckets as u128;
    let w = (span + b - 1) / b;
    assert(w <= span) by (nonlinear_arith)
        requires
            w as int == (span + b - 1) as int / b as int,
            b >= 1,
    ;
    if w == 0 {
        1
    } else {
        w as u64
    }
}

/// The length of the bar of a bucket holding `count` of `total` samples:
/// `count * 50 / total`, rounded up.
pub fn bar_length(count: u64, total: u64) -> (r: u64)
    requires
        total > 0,
        count <= total,
    ensures
        r as int == ceil_div(count * BAR_WIDTH, total as int),
        r <= BAR_WIDTH,
{
    let c = count as u128;
    assert(c * 50 <= 50 * 0xffff_ffff_ffff_ffffu128) by (nonlinear_arith)
        requires
            c <= 0xffff_ffff_ffff_ffffu128,
    ;
    let n = c * BAR_WIDTH as u128;
    let t = total as u128;
    let r = (n + t - 1) / t;
    assert(r <= 50) by (nonlinear_arith)
        requires
            r as int == (n + t - 1) as int / t as int,
            n == count * 50,
            count <= t,
            t >= 1,
    ;
    r as u64
}

/// The label of a latency bucket whose values reach `value` nanoseconds, in
/// microseconds: `(value + 1) / 1000`.
pub fn latency_micros(value: u64) -> (r: u64)
    ensures
        r as int == (value + 1) / 1000,
{
    ((value as u128 + 1) / 1000) as u64
}

} // verus!
