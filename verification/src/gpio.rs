//! Read-modify-write arithmetic for the STM32F411 registers that drive the
//! on-board LED on PC13. The volatile accesses themselves live with the
//! firmware; here each new register value is computed from the old one.

use vstd::prelude::*;

verus! {

/// Bit of `RCC_AHB1ENR` that enables the GPIOC peripheral clock.
pub const GPIOC_CLOCK_BIT: u32 = 2;

/// The LED pin on GPIO port C (active low on the Black Pill).
pub const LED_PIN: u32 = 13;

/// Two-bit `MODER` field value that selects general-purpose output.
pub const MODE_OUTPUT: u32 = 0b01;

/// Whether bit `i` of the 32-bit register value `x` is set.
pub open spec fn bit_set(x: u32, i: u32) -> bool {
    (x >> i) & 1u32 == 1u32
}

/// The two-bit `MODER` field of pin `pin` in `moder`.
pub open spec fn mode_field(moder: u32, pin: u32) -> u32 {
    (moder >> (2 * pin) as u32) & 0b11u32
}

/// Whether an active-low LED on `pin` is lit by the output data value `odr`.
pub open spec fn led_lit(odr: u32, pin: u32) -> bool {
    !bit_set(odr, pin)
}

/// Sets bit `bit` of `reg`, leaving every other bit as it was.
pub fn set_bit(reg: u32, bit: u32) -> (r: u32)
    requires
        bit < 32,
    ensures
        r == reg | (1u32 << bit),
        bit_set(r, bit),
        forall|i: u32| i < 32 && i != bit ==> bit_set(r, i) == bit_set(reg, i),
{
    let r = reg | (1u32 << bit);
    assert(bit_set(r, bit)) by (bit_vector)
        requires
            bit < 32,
            r == reg | (1u32 << bit),
    ;
    assert forall|i: u32| i < 32 && i != bit implies bit_set(r, i) == bit_set(reg, i) by {
        assert(bit_set(r, i) == bit_set(reg, i)) by (bit_vector)
            requires
                bit < 32,
                i < 32,
                i != bit,
                r == reg | (1u32 << bit),
        ;
    }
    r
}

/// Clears bit `bit` of `reg`, leaving every other bit as it was.
pub fn clear_bit(reg: u32, bit: u32) -> (r: u32)
    requires
        bit < 32,
    ensures
        r == reg & !(1u32 << bit),
        !bit_set(r, bit),
        forall|i: u32| i < 32 && i != bit ==> bit_set(r, i) == bit_set(reg, i),
{
    let r = reg & !(1u32 << bit);
    assert(!bit_set(r, bit)) by (bit_vector)
        requires
            bit < 32,
            r == reg & !(1u32 << bit),
    ;
    assert forall|i: u32| i < 32 && i != bit implies bit_set(r, i) == bit_set(reg, i) by {
        assert(bit_set(r, i) == bit_set(reg, i)) by (bit_vector)
            requires
                bit < 32,
                i < 32,
                i != bit,
                r == reg & !(1u32 << bit),
        ;
    }
    r
}

/// New `RCC_AHB1ENR` value with the GPIOC clock enabled.
pub fn enable_gpioc_clock(enr: u32) -> (r: u32)
    ensures
        r == enr | (1u32 << GPIOC_CLOCK_BIT),
        bit_set(r, GPIOC_CLOCK_BIT),
        forall|i: u32| i < 32 && i != GPIOC_CLOCK_BIT ==> bit_set(r, i) == bit_set(enr, i),
{
    set_bit(enr, GPIOC_CLOCK_BIT)
}

/// New `GPIOx_MODER` value with pin `pin` switched to general-purpose
/// output: the pin's two-bit field becomes `0b01`, all other bits stay.
pub fn set_output_mode(moder: u32, pin: u32) -> (r: u32)
    requires
        pin < 16,
    ensures
        r == (moder & !(0b11u32 << (2 * pin))) | (MODE_OUTPUT << (2 * pin)),
        mode_field(r, pin) == MODE_OUTPUT,
        forall|i: u32| i < 32 && i != 2 * pin && i != 2 * pin + 1 ==> bit_set(r, i) == bit_set(moder, i),
{
    let shift: u32 = 2 * pin;
    let r = (moder & !(0b11u32 << shift)) | (MODE_OUTPUT << shift);
    assert(((r >> shift) & 0b11u32) == 0b01u32) by (bit_vector)
        requires
            shift < 32,
            shift % 2 == 0,
            r == (moder & !(0b11u32 << shift)) | (0b01u32 << shift),
    ;
    assert forall|i: u32| i < 32 && i != shift && i != shift + 1 implies bit_set(r, i) == bit_set(moder, i) by {
        assert(bit_set(r, i) == bit_set(moder, i)) by (bit_vector)
            requires
                shift < 32,
                shift % 2 == 0,
                i < 32,
                i != shift,
                i != shift + 1,
                r == (moder & !(0b11u32 << shift)) | (0b01u32 << shift),
        ;
    }
    r
}

/// The output data value that lights (`on`) or darkens an active-low LED on
/// pin `pin`.
pub open spec fn led_output_value(odr: u32, pin: u32, on: bool) -> u32 {
    if on {
        odr & !(1u32 << pin)
    } else {
        odr | (1u32 << pin)
    }
}

/// New `GPIOx_ODR` value that lights (`on`) or darkens an active-low LED on
/// pin `pin`: lighting clears the pin's output bit, darkening sets it.
pub fn led_output(odr: u32, pin: u32, on: bool) -> (r: u32)
    requires
        pin < 32,
    ensures
        r == led_output_value(odr, pin, on),
        on ==> r == odr & !(1u32 << pin),
        !on ==> r == odr | (1u32 << pin),
        led_lit(r, pin) == on,
        forall|i: u32| i < 32 && i != pin ==> bit_set(r, i) == bit_set(odr, i),
{
    if on {
        clear_bit(odr, pin)
    } else {
        set_bit(odr, pin)
    }
}

/// Driving the LED twice keeps only the second request: whatever the first
/// write chose, the register ends as if only the last one had been made.
pub proof fn lemma_led_last_write_wins(odr: u32, pin: u32, first: bool, second: bool)
    requires
        pin < 32,
    ensures
        led_output_value(led_output_value(odr, pin, first), pin, second) == led_output_value(
            odr,
            pin,
            second,
        ),
{
    assert((odr & !(1u32 << pin)) & !(1u32 << pin) == odr & !(1u32 << pin)) by (bit_vector);
    assert((odr | (1u32 << pin)) & !(1u32 << pin) == odr & !(1u32 << pin)) by (bit_vector);
    assert((odr & !(1u32 << pin)) | (1u32 << pin) == odr | (1u32 << pin)) by (bit_vector);
    assert((odr | (1u32 << pin)) | (1u32 << pin) == odr | (1u32 << pin)) by (bit_vector);
}

/// Writing the register value read back after a write changes nothing:
/// enabling the clock, or selecting output mode, a second time is harmless.
pub proof fn lemma_init_idempotent(enr: u32, moder: u32, pin: u32)
    requires
        pin < 16,
    ensures
        (enr | (1u32 << GPIOC_CLOCK_BIT)) | (1u32 << GPIOC_CLOCK_BIT) == enr | (1u32
            << GPIOC_CLOCK_BIT),
        ({
            let once = (moder & !(0b11u32 << (2 * pin))) | (MODE_OUTPUT << (2 * pin));
            (once & !(0b11u32 << (2 * pin))) | (MODE_OUTPUT << (2 * pin)) == once
        }),
{
    let shift: u32 = (2 * pin) as u32;
    assert((enr | (1u32 << 2u32)) | (1u32 << 2u32) == enr | (1u32 << 2u32)) by (bit_vector);
    assert(((((moder & !(0b11u32 << shift)) | (0b01u32 << shift)) & !(0b11u32 << shift)) | (0b01u32
        << shift)) == (moder & !(0b11u32 << shift)) | (0b01u32 << shift)) by (bit_vector)
        requires
            shift < 32,
    ;
}

} // verus!
