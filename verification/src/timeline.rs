//! Evenly spaced instants: the time grid of a ground track and of a pass
//! scan.

use vstd::prelude::*;
use vstd::arithmetic::div_mod::lemma_fundamental_div_mod_converse;
use crate::units::{SECONDS_PER_HOUR, SECONDS_PER_MINUTE};

verus! {

/// How many of the instants `start`, `start + step`, `start + 2 * step`, ...
/// lie at or before `last`.
pub open spec fn run_length(start: int, last: int, step: int) -> nat {
    if last < start {
        0
    } else {
        ((last - start) / step + 1) as nat
    }
}

/// Whether `instants` are the first `count` instants of the run that
/// starts at `start` and advances by `step`.
pub open spec fn is_run(instants: Seq<i64>, start: int, step: int, count: nat) -> bool {
    &&& instants.len() == count
    &&& forall|i: int| 0 <= i < instants.len() ==> #[trigger] instants[i] == start + i * step
}

/// The instants from `start` through `last`, `step` seconds apart.
pub fn instants_through(start: i64, last: i64, step: i64) -> (instants: Vec<i64>)
    requires
        step > 0,
    ensures
        is_run(instants@, start as int, step as int, run_length(start as int, last as int, step as int)),
{
    let mut instants: Vec<i64> = Vec::new();
    if last < start {
        return instants;
    }
    let mut t: i64 = start;
    let ghost mut n: int = 0;
    loop
        invariant_except_break
            step > 0,
            start <= t <= last,
            n >= 0,
            t == start + n * step,
            is_run(instants@, start as int, step as int, n as nat),
        ensures
            is_run(
                instants@,
                start as int,
                step as int,
                run_length(start as int, last as int, step as int),
            ),
        decreases last - t,
    {
        instants.push(t);
        proof {
            assert((n + 1) * step == n * step + step) by (nonlinear_arith);
        }
        if last as i128 - (t as i128) < step as i128 {
            proof {
                assert(n * step == step * n) by (nonlinear_arith);
                lemma_fundamental_div_mod_converse(
                    last - start,
                    step as int,
                    n,
                    last - start - n * step,
                );
            }
            break ;
        }
        t = t + step;
        proof {
            n = n + 1;
        }
    }
    instants
}

/// The instant at which a window of `duration_minutes` that starts at
/// `start` ends.
pub open spec fn track_end(start: int, duration_minutes: int) -> int {
    start + duration_minutes * (SECONDS_PER_MINUTE as int)
}

/// The instant at which a scan of `hours_ahead` hours that starts at `now`
/// ends.
pub open spec fn scan_end(now: int, hours_ahead: int) -> int {
    now + hours_ahead * (SECONDS_PER_HOUR as int)
}

/// The instants at which a ground track is sampled: from `start` through
/// the end of the window, both included, `step_seconds` apart. A window of
/// negative duration holds none.
pub fn sample_instants(start: i64, duration_minutes: i64, step_seconds: i64) -> (instants: Vec<i64>)
    requires
        step_seconds > 0,
        i64::MIN <= track_end(start as int, duration_minutes as int) <= i64::MAX,
    ensures
        is_run(
            instants@,
            start as int,
            step_seconds as int,
            run_length(
                start as int,
                track_end(start as int, duration_minutes as int),
                step_seconds as int,
            ),
        ),
{
    let last: i128 = start as i128 + duration_minutes as i128 * (SECONDS_PER_MINUTE as i128);
    instants_through(start, last as i64, step_seconds)
}

/// The end of a scan window, where it can be held: `now` plus
/// `hours_ahead` hours.
pub fn window_end(now: i64, hours_ahead: i64) -> (end: Option<i64>)
    ensures
        end == (if i64::MIN <= scan_end(now as int, hours_ahead as int) <= i64::MAX {
            Some(scan_end(now as int, hours_ahead as int) as i64)
        } else {
            None
        }),
{
    let end: i128 = now as i128 + hours_ahead as i128 * (SECONDS_PER_HOUR as i128);
    if end < i64::MIN as i128 || end > i64::MAX as i128 {
        None
    } else {
        Some(end as i64)
    }
}

/// The instants at which a pass scan looks: from `now` on, `step_seconds`
/// apart, as long as they lie before `window_end`.
pub fn scan_instants(now: i64, window_end: i64, step_seconds: i64) -> (instants: Vec<i64>)
    requires
        step_seconds > 0,
    ensures
        is_run(
            instants@,
            now as int,
            step_seconds as int,
            run_length(now as int, window_end - 1, step_seconds as int),
        ),
        forall|i: int| 0 <= i < instants@.len() ==> now <= #[trigger] instants@[i] < window_end,
        forall|i: int, j: int|
            0 <= i < j < instants@.len() ==> #[trigger] instants@[i] < #[trigger] instants@[j],
{
    if window_end <= now {
        return Vec::new();
    }
    let instants = instants_through(now, window_end - 1, step_seconds);
    proof {
        lemma_run_increases(instants@, now as int, window_end - 1, step_seconds as int);
    }
    instants
}

/// The instants of a run increase, start at `start` and end at or before
/// `last`.
pub proof fn lemma_run_increases(instants: Seq<i64>, start: int, last: int, step: int)
    requires
        step > 0,
        is_run(instants, start, step, run_length(start, last, step)),
    ensures
        forall|i: int| 0 <= i < instants.len() ==> start <= #[trigger] instants[i] <= last,
        forall|i: int, j: int|
            0 <= i < j < instants.len() ==> #[trigger] instants[i] < #[trigger] instants[j],
{
    assert forall|i: int| 0 <= i < instants.len() implies start <= #[trigger] instants[i]
        <= last by {
        let q = (last - start) / step;
        vstd::arithmetic::div_mod::lemma_fundamental_div_mod(last - start, step);
        assert(i * step <= q * step) by (nonlinear_arith)
            requires
                0 <= i <= q,
                step > 0,
        ;
        assert(0 <= i * step) by (nonlinear_arith)
            requires
                0 <= i,
                step > 0,
        ;
        assert(step * q == q * step) by (nonlinear_arith);
    }
    assert forall|i: int, j: int| 0 <= i < j < instants.len() implies #[trigger] instants[i]
        < #[trigger] instants[j] by {
        assert(i * step < j * step) by (nonlinear_arith)
            requires
                0 <= i < j,
                step > 0,
        ;
    }
}

} // verus!
