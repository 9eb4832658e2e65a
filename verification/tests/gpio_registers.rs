use payjoin_blackpill_test::gpio::{
    clear_bit, enable_gpioc_clock, led_output, set_bit, set_output_mode, GPIOC_CLOCK_BIT, LED_PIN,
    MODE_OUTPUT,
};

#[test]
fn clock_enable_sets_only_bit_two() {
    assert_eq!(enable_gpioc_clock(0), 0b100);
    assert_eq!(enable_gpioc_clock(0x0010_0001), 0x0010_0005);
    assert_eq!(enable_gpioc_clock(0xffff_ffff), 0xffff_ffff);
    assert_eq!(GPIOC_CLOCK_BIT, 2);
}

#[test]
fn set_and_clear_bits() {
    assert_eq!(set_bit(0, 31), 0x8000_0000);
    assert_eq!(set_bit(0x8000_0000, 31), 0x8000_0000);
    assert_eq!(clear_bit(0xffff_ffff, 0), 0xffff_fffe);
    assert_eq!(clear_bit(0, 7), 0);
}

#[test]
fn pc13_output_mode_field() {
    // Field of pin 13 is bits 26..27; output mode is 0b01.
    assert_eq!(set_output_mode(0, LED_PIN), 0x0400_0000);
    assert_eq!(set_output_mode(0xffff_ffff, LED_PIN), 0xf7ff_ffff);
    assert_eq!(set_output_mode(0x0800_0000, LED_PIN), 0x0400_0000);
    assert_eq!(set_output_mode(0x1234_5678, 0), 0x1234_5679);
    assert_eq!(MODE_OUTPUT, 1);
}

#[test]
fn led_is_active_low() {
    // Lighting clears bit 13, darkening sets it.
    assert_eq!(led_output(0xffff_ffff, LED_PIN, true), 0xffff_dfff);
    assert_eq!(led_output(0, LED_PIN, false), 0x2000);
    assert_eq!(led_output(0x2000, LED_PIN, true), 0);
    assert_eq!(led_output(0x0000_00ff, LED_PIN, true), 0x0000_00ff);
}

#[test]
fn led_last_write_wins() {
    let odr = 0x1357_9bdf;
    for first in [false, true] {
        for second in [false, true] {
            let twice = led_output(led_output(odr, LED_PIN, first), LED_PIN, second);
            assert_eq!(twice, led_output(odr, LED_PIN, second));
        }
    }
}

#[test]
fn init_is_idempotent() {
    let enr = enable_gpioc_clock(0x0000_0081);
    assert_eq!(enable_gpioc_clock(enr), enr);
    let moder = set_output_mode(0xabcd_ef01, LED_PIN);
    assert_eq!(set_output_mode(moder, LED_PIN), moder);
}
