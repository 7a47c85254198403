//! The color of the kilobot's LED.

use vstd::prelude::*;

verus! {

/// The color of an LED that is switched off.
pub const LED_OFF: (u8, u8, u8) = (0, 0, 0);

/// Struct representing the kilobot LED.
#[derive(Clone, Copy, Debug, PartialEq, Eq, Structural)]
pub struct RGB {
    pub r: u8,
    pub g: u8,
    pub b: u8,
}

impl RGB {
    /// Set the value of an LED.
    /// # Arguments
    /// * 'color' - RGB values to set LED to
    pub fn set(&mut self, color: RGB)
        ensures
            *final(self) == color,
    {
        self.r = color.r;
        self.g = color.g;
        self.b = color.b;
    }

    /// Returns reference to itself.
    pub fn get(&self) -> (color: &RGB)
        ensures
            color == self,
    {
        self
    }
}

/// Create a new LED.
pub fn new_led(r: u8, g: u8, b: u8) -> (led: RGB)
    ensures
        led == (RGB { r, g, b }),
{
    RGB { r, g, b }
}

} // verus!
