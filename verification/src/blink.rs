//! The light that bounces along the board's four LEDs at each logic tick.
//!
//! The LED register holds one bit per LED; a direction word remembers which
//! way the light travels (1: towards the higher LEDs). At the lowest LED the
//! light turns up, at LED 3 it turns down.
use vstd::prelude::*;

verus! {

/// The LED register's value with the lowest LED lit.
pub const LED_LOWEST: u32 = 0b0001;

/// The LED register's value with LED 3 lit.
pub const LED_HIGHEST: u32 = 0b1000;

/// The light on the board's LEDs: the LED register's value and the
/// direction word.
pub struct LedLight {
    pub leds: u32,
    pub going_up: u32,
}

/// The LED register's value and direction word after one step from `leds`
/// and `going_up`: from the lowest LED up, at LED 3 the direction turns
/// down, else the light moves the way the direction word says.
pub open spec fn blink_next(leds: u32, going_up: u32) -> (u32, u32) {
    if leds == LED_LOWEST {
        (leds << 1u32, 1u32)
    } else {
        let up = if leds == LED_HIGHEST {
            0u32
        } else {
            going_up
        };
        if up == 1 {
            (leds << 1u32, up)
        } else {
            (leds >> 1u32, up)
        }
    }
}

/// One step of the bouncing light: the new LED register value and the new
/// direction word.
pub fn blinker_step(leds: u32, going_up: u32) -> (r: (u32, u32))
    ensures
        r == blink_next(leds, going_up),
{
    if leds == LED_LOWEST {
        (leds << 1u32, 1u32)
    } else {
        let mut up = going_up;
        if leds == LED_HIGHEST {
            up = 0;
        }
        if up == 1 {
            (leds << 1u32, up)
        } else {
            (leds >> 1u32, up)
        }
    }
}

proof fn lemma_one_hot_shifts()
    by (bit_vector)
    ensures
        1u32 << 1u32 == 2u32,
        2u32 << 1u32 == 4u32,
        4u32 << 1u32 == 8u32,
        2u32 >> 1u32 == 1u32,
        4u32 >> 1u32 == 2u32,
        8u32 >> 1u32 == 4u32,
{
}

/// The light stays on the four LEDs: from one lit LED of the four, one
/// step lights one of the four, going up from the lowest and down from LED
/// 3, whatever the direction word held.
pub proof fn lemma_light_stays_on_four_leds(leds: u32, going_up: u32)
    requires
        leds == 1 || leds == 2 || leds == 4 || leds == 8,
    ensures
        ({
            let n = blink_next(leds, going_up).0;
            n == 1 || n == 2 || n == 4 || n == 8
        }),
        leds == LED_LOWEST ==> blink_next(leds, going_up) == (2u32, 1u32),
        leds == LED_HIGHEST ==> blink_next(leds, going_up) == (4u32, 0u32),
        (leds == 2 || leds == 4) && going_up == 1 ==> blink_next(leds, going_up).0 == leds * 2
            && blink_next(leds, going_up).1 == going_up,
        (leds == 2 || leds == 4) && going_up != 1 ==> blink_next(leds, going_up).0 == leds / 2
            && blink_next(leds, going_up).1 == going_up,
{
    lemma_one_hot_shifts();
}

} // verus!
