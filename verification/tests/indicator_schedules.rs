use payjoin_blackpill_test::indicator::{
    blink_step, failure_step, verdict_step, LedStep, DELAY_1S, DELAY_SHORT, FAILURE_HALF_PERIOD,
    FAIL_BLINKS,
};

#[test]
fn blink_schedule_of_two() {
    let steps: Vec<Option<LedStep>> = (0..11).map(|k| blink_step(2, k)).collect();
    assert_eq!(
        steps,
        vec![
            Some(LedStep::Light(true)),
            Some(LedStep::Wait(DELAY_SHORT)),
            Some(LedStep::Light(false)),
            Some(LedStep::Wait(DELAY_SHORT)),
            Some(LedStep::Light(true)),
            Some(LedStep::Wait(DELAY_SHORT)),
            Some(LedStep::Light(false)),
            Some(LedStep::Wait(DELAY_SHORT)),
            Some(LedStep::Wait(DELAY_1S)),
            None,
            None,
        ]
    );
}

#[test]
fn blink_zero_times_only_waits() {
    assert_eq!(blink_step(0, 0), Some(LedStep::Wait(DELAY_1S)));
    assert_eq!(blink_step(0, 1), None);
}

#[test]
fn blink_large_counts() {
    assert_eq!(blink_step(u32::MAX, 4 * (u32::MAX as u64)), Some(LedStep::Wait(DELAY_1S)));
    assert_eq!(blink_step(u32::MAX, 4 * (u32::MAX as u64) + 1), None);
    assert_eq!(blink_step(u32::MAX, u64::MAX), None);
}

#[test]
fn delay_constants() {
    assert_eq!(DELAY_1S, 16_000_000 / 4);
    assert_eq!(DELAY_SHORT, DELAY_1S / 4);
    assert_eq!(FAILURE_HALF_PERIOD, 1_500_000);
    assert_eq!(FAIL_BLINKS, 5);
}

#[test]
fn failure_blink_repeats_every_four() {
    assert_eq!(failure_step(0), LedStep::Light(true));
    assert_eq!(failure_step(1), LedStep::Wait(FAILURE_HALF_PERIOD));
    assert_eq!(failure_step(2), LedStep::Light(false));
    assert_eq!(failure_step(3), LedStep::Wait(FAILURE_HALF_PERIOD));
    for k in 0..40u64 {
        assert_eq!(failure_step(k + 4), failure_step(k));
    }
    assert_eq!(failure_step(u64::MAX), LedStep::Wait(FAILURE_HALF_PERIOD));
}

#[test]
fn pass_is_solid_on() {
    assert_eq!(verdict_step(true, 0), LedStep::Light(true));
    for k in 1..100u64 {
        assert_eq!(verdict_step(true, k), LedStep::Hold);
    }
}

#[test]
fn fail_is_five_blinks_repeating() {
    let lit: usize = (0..21u64)
        .filter(|&k| verdict_step(false, k) == LedStep::Light(true))
        .count();
    assert_eq!(lit, 5);
    assert_eq!(verdict_step(false, 20), LedStep::Wait(DELAY_1S));
    for k in 0..63u64 {
        assert_eq!(verdict_step(false, k + 21), verdict_step(false, k));
    }
}
