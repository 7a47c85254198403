//! An LED whose color can be set but not read back by its fields.

use vstd::prelude::*;

verus! {

/// The color of an LED that is switched off.
pub const LED_OFF: (u8, u8, u8) = (0, 0, 0);

/// Struct representing the kilobot LED.
#[allow(non_camel_case_types)]
#[derive(Clone, Copy, Debug, PartialEq, Eq)]
pub struct Led_t {
    r: u8,
    g: u8,
    b: u8,
}

impl Led_t {
    /// The color as (red, green, blue).
    pub closed spec fn spec_color(&self) -> (u8, u8, u8) {
        (self.r, self.g, self.b)
    }

    /// Set the value of an LED.
    pub fn set(&mut self, red: u8, green: u8, blue: u8)
        ensures
            final(self).spec_color() == (red, green, blue),
    {
        self.r = red;
        self.g = green;
        self.b = blue;
    }

    /// The color as (red, green, blue).
    pub fn color(&self) -> (color: (u8, u8, u8))
        ensures
            color == self.spec_color(),
    {
        (self.r, self.g, self.b)
    }
}

/// Create a new LED.
pub fn new_led(r: u8, g: u8, b: u8) -> (led: Led_t)
    ensures
        led.spec_color() == (r, g, b),
{
    Led_t { r, g, b }
}

} // verus!
