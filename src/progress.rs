//! Progress telemetry: when to print, the rate, the estimate of the time
//! left, and durations as text. None of it steers the run.
use vstd::prelude::*;
use crate::text::{dec, dec_padded, push_char, push_decimal};

verus! {

/// The least time between two progress lines, in milliseconds.
pub const EMIT_INTERVAL_MILLIS: u64 = 1000;

/// The least elapsed time that the rate is computed over, in microseconds,
/// so that the rate at the very start is finite.
pub const MIN_ELAPSED_MICROS: u64 = 100;

/// Whether to print a progress line: at most one per interval, and always
/// the one at which the run is complete.
pub fn should_emit(millis_since_last: u64, done: usize, total: usize) -> (r: bool)
    ensures
        r == (millis_since_last >= EMIT_INTERVAL_MILLIS || done == total),
{
    millis_since_last >= EMIT_INTERVAL_MILLIS || done == total
}

/// The elapsed time that rates are computed over.
pub open spec fn floored(elapsed_micros: u64) -> int {
    if elapsed_micros < MIN_ELAPSED_MICROS { MIN_ELAPSED_MICROS as int } else { elapsed_micros as int }
}

/// The tasks done per second, in tenths, rounded to the nearest.
pub open spec fn rate_tenths_of(done: nat, elapsed_micros: u64) -> int {
    ((2 * done * 10_000_000) as int + floored(elapsed_micros)) / (2 * floored(elapsed_micros))
}

/// The seconds left at the current rate: `(total - done) / rate`, rounded
/// down; zero while nothing is done.
pub open spec fn eta_secs_of(done: nat, total: nat, elapsed_micros: u64) -> int {
    if done == 0 || total <= done {
        0
    } else {
        ((total - done) * floored(elapsed_micros)) / ((done * 1_000_000) as int)
    }
}

/// The rate of a run, in tenths of a task per second.
pub fn rate_tenths(done: usize, elapsed_micros: u64) -> (r: u128)
    ensures
        r == rate_tenths_of(done as nat, elapsed_micros),
{
    let e: u128 = if elapsed_micros < MIN_ELAPSED_MICROS {
        MIN_ELAPSED_MICROS as u128
    } else {
        elapsed_micros as u128
    };
    let d = done as u128;
    assert(2 * d * 10_000_000 + e <= u128::MAX) by (nonlinear_arith)
        requires d <= u64::MAX, e <= u64::MAX;
    (2 * d * 10_000_000 + e) / (2 * e)
}

/// The estimated seconds left, at most `u64::MAX`.
pub fn eta_secs(done: usize, total: usize, elapsed_micros: u64) -> (r: u64)
    ensures
        r == if eta_secs_of(done as nat, total as nat, elapsed_micros) > u64::MAX {
            u64::MAX as int
        } else {
            eta_secs_of(done as nat, total as nat, elapsed_micros)
        },
{
    if done == 0 || total <= done {
        return 0;
    }
    let e: u128 = if elapsed_micros < MIN_ELAPSED_MICROS {
        MIN_ELAPSED_MICROS as u128
    } else {
        elapsed_micros as u128
    };
    let left = (total - done) as u128;
    assert(left * e <= u128::MAX) by (nonlinear_arith)
        requires left <= u64::MAX, e <= u64::MAX;
    assert(done as u128 * 1_000_000 <= u128::MAX) by (nonlinear_arith)
        requires done <= u64::MAX;
    let q = (left * e) / (done as u128 * 1_000_000);
    if q > u64::MAX as u128 {
        u64::MAX
    } else {
        q as u64
    }
}

/// A duration of `secs` seconds as text: `MmSSs` from a minute on, else `Ss`.
pub open spec fn dur_text(secs: nat) -> Seq<char> {
    if secs / 60 > 0 {
        dec(secs / 60) + seq!['m'] + dec_padded(secs % 60, 2) + seq!['s']
    } else {
        dec(secs) + seq!['s']
    }
}

/// A duration of `secs` whole seconds as text, such as `2m05s` or `42s`.
pub fn fmt_dur(secs: u64) -> (r: String)
    ensures
        r@ == dur_text(secs as nat),
{
    let m = secs / 60;
    let s = secs % 60;
    let mut r = String::new();
    if m > 0 {
        push_decimal(&mut r, m);
        push_char(&mut r, 'm');
        if s < 10 {
            push_char(&mut r, '0');
        }
        push_decimal(&mut r, s);
        push_char(&mut r, 's');
        proof {
            if s < 10 {
                assert(dec(s as nat).len() == 1);
                assert(crate::text::zeros(1) =~= seq!['0']);
            } else {
                assert(dec(s as nat) == dec((s / 10) as nat).push(crate::text::digit_char((s % 10) as nat)));
                assert(dec((s / 10) as nat).len() == 1);
            }
        }
    } else {
        push_decimal(&mut r, s);
        push_char(&mut r, 's');
    }
    assert(r@ =~= dur_text(secs as nat));
    r
}

} // verus!
