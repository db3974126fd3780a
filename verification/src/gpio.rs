//! The configuration of a pin.

use vstd::prelude::*;

verus! {

/// Pin configuration.
#[derive(Debug, Clone, Copy, PartialEq, Eq)]
pub enum Configuration {
    Unused,
    Input((State, Pull)),
    Output(State),
    Pwm(Pwm),
}

/// Pin state.
#[derive(Debug, Clone, Copy, PartialEq, Eq, Structural)]
pub enum State {
    Low,
    High,
}

/// Pin pull resistor state.
#[derive(Debug, Clone, Copy, PartialEq, Eq, Structural)]
pub enum Pull {
    Down,
    Up,
}

/// PWM setting
#[derive(Debug, Clone, Copy, PartialEq, Eq, Structural)]
pub struct Pwm {
    pub period_ms: u16,
    pub ratio_percent: u8,
}

} // verus!
