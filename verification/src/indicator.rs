//! LED status schedules. The firmware steps through a schedule one entry at
//! a time: it lights or darkens the LED, or busy-waits for a number of
//! cycles, as the entry says. The schedules themselves are computed here.

use vstd::prelude::*;

verus! {

/// Busy-wait cycles for about one second at the 16 MHz reset clock
/// (a delay loop costs about four cycles per iteration).
pub const DELAY_1S: u32 = 4_000_000;

/// Busy-wait cycles for a quarter of `DELAY_1S`, the on and off time of one
/// blink.
pub const DELAY_SHORT: u32 = 1_000_000;

/// Busy-wait cycles for each half period of the endless failure blink.
pub const FAILURE_HALF_PERIOD: u32 = 1_500_000;

/// Number of blinks in each burst that reports a failed self-test.
pub const FAIL_BLINKS: u32 = 5;

/// One entry of an LED schedule.
#[derive(PartialEq, Eq, Structural, Clone, Copy, Debug)]
pub enum LedStep {
    /// Light (`true`) or darken (`false`) the LED.
    Light(bool),
    /// Busy-wait for this many cycles.
    Wait(u32),
    /// Stay as is for good (sleep, or keep servicing USB).
    Hold,
}

/// Entry `k` of the schedule that blinks `times` times: on, short wait,
/// off, short wait for each blink, then one long wait; nothing after that.
pub open spec fn blink_entry(times: u32, k: int) -> Option<LedStep> {
    if 0 <= k < 4 * times {
        Some(
            if k % 4 == 0 {
                LedStep::Light(true)
            } else if k % 4 == 2 {
                LedStep::Light(false)
            } else {
                LedStep::Wait(DELAY_SHORT)
            },
        )
    } else if k == 4 * times {
        Some(LedStep::Wait(DELAY_1S))
    } else {
        None
    }
}

/// Number of entries in the schedule that blinks `times` times.
pub open spec fn blink_len(times: u32) -> int {
    4 * times + 1
}

/// Entry `k` of the schedule that blinks `times` times, or `None` once the
/// schedule is over.
pub fn blink_step(times: u32, k: u64) -> (r: Option<LedStep>)
    ensures
        r == blink_entry(times, k as int),
        k < 4 * times && k % 4 == 0 ==> r == Some(LedStep::Light(true)),
        k < 4 * times && k % 4 == 2 ==> r == Some(LedStep::Light(false)),
        k < 4 * times && k % 2 == 1 ==> r == Some(LedStep::Wait(1_000_000u32)),
        k == 4 * times ==> r == Some(LedStep::Wait(4_000_000u32)),
        k > 4 * times ==> r is None,
{
    proof {
        lemma_blink_schedule(times, k as int);
    }
    let len: u64 = 4 * (times as u64);
    if k < len {
        let phase: u64 = k % 4;
        if phase == 0 {
            Some(LedStep::Light(true))
        } else if phase == 2 {
            Some(LedStep::Light(false))
        } else {
            Some(LedStep::Wait(DELAY_SHORT))
        }
    } else if k == len {
        Some(LedStep::Wait(DELAY_1S))
    } else {
        None
    }
}

/// Entry `k` of the endless failure blink: on, wait, off, wait, repeated.
pub open spec fn failure_entry(k: int) -> LedStep {
    if k % 4 == 0 {
        LedStep::Light(true)
    } else if k % 4 == 2 {
        LedStep::Light(false)
    } else {
        LedStep::Wait(FAILURE_HALF_PERIOD)
    }
}

/// Entry `k` of the endless failure blink.
pub fn failure_step(k: u64) -> (r: LedStep)
    ensures
        r == failure_entry(k as int),
        k % 4 == 0 ==> r == LedStep::Light(true),
        k % 4 == 2 ==> r == LedStep::Light(false),
        k % 2 == 1 ==> r == LedStep::Wait(1_500_000u32),
{
    proof {
        lemma_failure_schedule(k as int);
    }
    let phase: u64 = k % 4;
    if phase == 0 {
        LedStep::Light(true)
    } else if phase == 2 {
        LedStep::Light(false)
    } else {
        LedStep::Wait(FAILURE_HALF_PERIOD)
    }
}

/// Entry `k` of the indicator for a self-test outcome: a pass lights the LED
/// once and holds it; a failure repeats bursts of `FAIL_BLINKS` blinks.
pub open spec fn verdict_entry(passed: bool, k: int) -> LedStep {
    if passed {
        if k == 0 {
            LedStep::Light(true)
        } else {
            LedStep::Hold
        }
    } else {
        blink_entry(FAIL_BLINKS, k % blink_len(FAIL_BLINKS)).unwrap()
    }
}

/// Entry `k` of the indicator for a self-test outcome.
pub fn verdict_step(passed: bool, k: u64) -> (r: LedStep)
    ensures
        r == verdict_entry(passed, k as int),
        passed && k == 0 ==> r == LedStep::Light(true),
        passed && k > 0 ==> r == LedStep::Hold,
        !passed && k % 21 < 20 && (k % 21) % 4 == 0 ==> r == LedStep::Light(true),
        !passed && k % 21 < 20 && (k % 21) % 4 == 2 ==> r == LedStep::Light(false),
        !passed && k % 21 < 20 && (k % 21) % 2 == 1 ==> r == LedStep::Wait(1_000_000u32),
        !passed && k % 21 == 20 ==> r == LedStep::Wait(4_000_000u32),
{
    proof {
        lemma_verdict_schedule(passed, k as int);
    }
    if passed {
        if k == 0 {
            LedStep::Light(true)
        } else {
            LedStep::Hold
        }
    } else {
        let burst_len: u64 = 4 * (FAIL_BLINKS as u64) + 1;
        match blink_step(FAIL_BLINKS, k % burst_len) {
            Some(step) => step,
            None => LedStep::Hold,
        }
    }
}

/// A blink schedule is finite: after its last entry it yields nothing more.
pub proof fn lemma_blink_schedule_ends(times: u32, k: int)
    requires
        k >= blink_len(times),
    ensures
        blink_entry(times, k) is None,
{
}

/// A burst of blinks leaves the LED dark: its last light change darkens the
/// LED, and only waits follow it.
pub proof fn lemma_blink_ends_dark(times: u32, k: int)
    requires
        times > 0,
        4 * times - 2 < k < blink_len(times),
    ensures
        blink_entry(times, 4 * times - 2) == Some(LedStep::Light(false)),
        blink_entry(times, k) matches Some(LedStep::Wait(_)),
{
}

/// A passed self-test lights the LED first and never darkens it.
pub proof fn lemma_pass_stays_lit(k: int)
    requires
        k >= 0,
    ensures
        verdict_entry(true, 0) == LedStep::Light(true),
        verdict_entry(true, k) != LedStep::Light(false),
{
}

/// A failed self-test repeats the same burst of `FAIL_BLINKS` blinks forever,
/// and each burst lights the LED once per blink.
pub proof fn lemma_fail_repeats(k: int, j: int)
    requires
        k >= 0,
        0 <= j < FAIL_BLINKS,
    ensures
        verdict_entry(false, k + blink_len(FAIL_BLINKS)) == verdict_entry(false, k),
        verdict_entry(false, k * blink_len(FAIL_BLINKS) + 4 * j) == LedStep::Light(true),
{
    assert((k + 21) % 21 == k % 21) by (nonlinear_arith)
        requires
            k >= 0,
    ;
    assert(blink_len(FAIL_BLINKS) == 21);
    assert((k * 21 + 4 * j) % 21 == 4 * j) by (nonlinear_arith)
        requires
            k >= 0,
            0 <= j < 5,
    ;
}

/// The endless failure blink has a period of four entries.
pub proof fn lemma_failure_blink_period(k: int)
    requires
        k >= 0,
    ensures
        failure_entry(k + 4) == failure_entry(k),
{
}

/// The blink schedule, entry by entry: each of the `times` blinks lights
/// the LED, waits a quarter second, darkens it and waits again; one second
/// of waiting ends the burst, and nothing follows.
pub proof fn lemma_blink_schedule(times: u32, k: int)
    requires
        k >= 0,
    ensures
        k < 4 * times && k % 4 == 0 ==> blink_entry(times, k) == Some(LedStep::Light(true)),
        k < 4 * times && k % 4 == 2 ==> blink_entry(times, k) == Some(LedStep::Light(false)),
        k < 4 * times && k % 2 == 1 ==> blink_entry(times, k) == Some(LedStep::Wait(1_000_000u32)),
        k == 4 * times ==> blink_entry(times, k) == Some(LedStep::Wait(4_000_000u32)),
        k > 4 * times ==> blink_entry(times, k) is None,
{
}

/// The endless failure blink, entry by entry: light, wait 1.5 M cycles,
/// darken, wait 1.5 M cycles.
pub proof fn lemma_failure_schedule(k: int)
    requires
        k >= 0,
    ensures
        k % 4 == 0 ==> failure_entry(k) == LedStep::Light(true),
        k % 4 == 2 ==> failure_entry(k) == LedStep::Light(false),
        k % 2 == 1 ==> failure_entry(k) == LedStep::Wait(1_500_000u32),
{
}

/// The self-test verdict on the LED, entry by entry. A pass lights the LED
/// and holds. A failure repeats a burst of 21 entries: five blinks, each
/// lighting the LED, waiting, darkening it and waiting, then one second of
/// waiting.
pub proof fn lemma_verdict_schedule(passed: bool, k: int)
    requires
        k >= 0,
    ensures
        passed && k == 0 ==> verdict_entry(passed, k) == LedStep::Light(true),
        passed && k > 0 ==> verdict_entry(passed, k) == LedStep::Hold,
        !passed && k % 21 < 20 && (k % 21) % 4 == 0 ==> verdict_entry(passed, k) == LedStep::Light(
            true,
        ),
        !passed && k % 21 < 20 && (k % 21) % 4 == 2 ==> verdict_entry(passed, k) == LedStep::Light(
            false,
        ),
        !passed && k % 21 < 20 && (k % 21) % 2 == 1 ==> verdict_entry(passed, k) == LedStep::Wait(
            1_000_000u32,
        ),
        !passed && k % 21 == 20 ==> verdict_entry(passed, k) == LedStep::Wait(4_000_000u32),
{
    if !passed {
        lemma_blink_schedule(FAIL_BLINKS, k % 21);
    }
}

} // verus!
