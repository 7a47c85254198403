//! The bot itself: two motors, an LED and an identity.
//!
//! A kilobot turns by spinning one motor and moves straight by spinning
//! both. The motor values are the duty cycles of the signals to the motors.

use vstd::prelude::*;
use crate::kilobot::rgb::RGB;

pub mod led_t;
pub mod messages;
pub mod rgb;

verus! {

/// Max PWM frequency of the kilobot.
pub const MOTOR_MAX_VAL: u8 = 255;

/// Speed that the bot rotates at in degrees/sec.
pub const ROTATION_SPEED: u16 = 45;

/// A kilobot.
#[derive(Debug, PartialEq, Eq)]
pub struct Kilobot {
    left_motor: u8,
    right_motor: u8,
    led: RGB,
    uid: u16,
    message_received: bool,
}

impl Kilobot {
    /// The identity of the bot.
    pub closed spec fn spec_uid(&self) -> u16 {
        self.uid
    }

    /// The raw motor values as (left_motor, right_motor).
    pub closed spec fn spec_motor_values(&self) -> (u8, u8) {
        (self.left_motor, self.right_motor)
    }

    /// The color of the LED.
    pub closed spec fn spec_led(&self) -> RGB {
        self.led
    }

    /// Whether a message has been received.
    pub closed spec fn spec_message_received(&self) -> bool {
        self.message_received
    }

    /// Whether `other` is this bot with nothing but its motor values
    /// changed.
    pub open spec fn same_but_motors(&self, other: &Kilobot) -> bool {
        &&& other.spec_uid() == self.spec_uid()
        &&& other.spec_led() == self.spec_led()
        &&& other.spec_message_received() == self.spec_message_received()
    }

    /// Turn the kilobot left: only the right motor spins.
    pub fn turn_left(&mut self)
        ensures
            final(self).spec_motor_values() == (0u8, MOTOR_MAX_VAL),
            old(self).same_but_motors(final(self)),
    {
        self.set_motors(0, MOTOR_MAX_VAL);
    }

    /// Turn the kilobot right: only the left motor spins.
    pub fn turn_right(&mut self)
        ensures
            final(self).spec_motor_values() == (MOTOR_MAX_VAL, 0u8),
            old(self).same_but_motors(final(self)),
    {
        self.set_motors(MOTOR_MAX_VAL, 0);
    }

    /// Move straight forward: both motors spin.
    pub fn move_forward(&mut self)
        ensures
            final(self).spec_motor_values() == (MOTOR_MAX_VAL, MOTOR_MAX_VAL),
            old(self).same_but_motors(final(self)),
    {
        self.set_motors(MOTOR_MAX_VAL, MOTOR_MAX_VAL);
    }

    /// Stop moving.
    pub fn stop(&mut self)
        ensures
            final(self).spec_motor_values() == (0u8, 0u8),
            old(self).same_but_motors(final(self)),
    {
        self.set_motors(0, 0);
    }

    /// Sets the motors.
    pub fn set_motors(&mut self, left_m: u8, right_m: u8)
        ensures
            final(self).spec_motor_values() == (left_m, right_m),
            old(self).same_but_motors(final(self)),
    {
        self.left_motor = left_m;
        self.right_motor = right_m;
    }

    /// Set the color of the LED.
    pub fn set_led(&mut self, r: u8, g: u8, b: u8)
        ensures
            final(self).spec_led() == (RGB { r, g, b }),
            final(self).spec_uid() == old(self).spec_uid(),
            final(self).spec_motor_values() == old(self).spec_motor_values(),
            final(self).spec_message_received() == old(self).spec_message_received(),
    {
        self.led.set(RGB { r, g, b });
    }

    /// Returns the raw motor values formatted as (left_motor, right_motor).
    pub fn get_motor_values(&self) -> (values: (u8, u8))
        ensures
            values == self.spec_motor_values(),
    {
        (self.left_motor, self.right_motor)
    }

    /// Return the uid of the bot.
    pub fn get_uid(&self) -> (uid: u16)
        ensures
            uid == self.spec_uid(),
    {
        self.uid
    }

    /// Return the color of the LED.
    pub fn get_led(&self) -> (led: &RGB)
        ensures
            *led == self.spec_led(),
    {
        &self.led
    }

    /// Return whether a message has been received.
    pub fn get_message_received(&self) -> (received: bool)
        ensures
            received == self.spec_message_received(),
    {
        self.message_received
    }
}

/// Create a new kilobot: at rest, its LED off, no message received.
pub fn new_kilobot(uid: u16) -> (bot: Kilobot)
    ensures
        bot.spec_uid() == uid,
        bot.spec_motor_values() == (0u8, 0u8),
        bot.spec_led() == (RGB { r: 0, g: 0, b: 0 }),
        !bot.spec_message_received(),
{
    Kilobot {
        left_motor: 0,
        right_motor: 0,
        led: rgb::new_led(0, 0, 0),
        uid,
        message_received: false,
    }
}

} // verus!
