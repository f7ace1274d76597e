//! The values that the device names by small numbers, and spans of time.

use crate::text::{chars_of, parse_decimal, parse_number};
use vstd::prelude::*;

verus! {

/// Time units for use with converting from string.
#[derive(Debug, Copy, Clone, PartialEq, Eq, Structural)]
pub enum TimeUnit {
    Milliseconds,
    Seconds,
}

/// A span of time: whole seconds and the nanoseconds of the second begun.
#[derive(Debug, Copy, Clone, PartialEq, Eq, Structural)]
pub struct Duration {
    /// The whole seconds.
    pub secs: u64,
    /// The nanoseconds beyond them, below one thousand million.
    pub nanos: u32,
}

impl Duration {
    /// The span of `millis` milliseconds.
    pub fn from_millis(millis: u64) -> (d: Duration)
        ensures
            d.secs == millis / 1000,
            d.nanos == (millis % 1000) * 1_000_000,
    {
        Duration { secs: millis / 1000, nanos: ((millis % 1000) as u32) * 1_000_000 }
    }

    /// The span of `secs` seconds.
    pub fn from_secs(secs: u64) -> (d: Duration)
        ensures
            d.secs == secs,
            d.nanos == 0,
    {
        Duration { secs, nanos: 0 }
    }

    /// The whole milliseconds in the span.
    pub open spec fn millis(self) -> nat {
        (self.secs * 1000 + self.nanos / 1_000_000) as nat
    }

    /// The whole milliseconds in the span.
    pub fn as_millis(&self) -> (millis: u128)
        ensures
            millis == self.millis(),
    {
        self.secs as u128 * 1000 + (self.nanos / 1_000_000) as u128
    }

    /// The whole seconds in the span.
    pub fn as_secs(&self) -> (secs: u64)
        ensures
            secs == self.secs,
    {
        self.secs
    }
}

/// The LED mode states.
#[derive(Debug, Copy, Clone, PartialEq, Eq, Structural)]
pub enum LedMode {
    /// The default mode. The LEDs will be set to the color of the layer you are on.
    PerLayer,
    /// Multi-colored rainbow effect.
    RainbowMulti,
    /// Single-colored rainbow effect.
    RainbowSingle,
    /// All LEDs will be off until pressed, they will light up when pressed and cycle colors back to off.
    Stalker,
    /// All LEDs to red.
    Red,
    /// All LEDs to green.
    Green,
    /// All LEDs to blue.
    Blue,
    /// All LEDs to white.
    White,
    /// All LEDs to off.
    Off,
    /// The inner three LEDs on both sides will be green, the rest will be off.
    GreenInner,
    /// Emulates the bluetooth connect sequence.
    Bluetooth,
}

/// Why a text names no LED mode.
#[derive(Debug, Clone, PartialEq, Eq)]
pub enum LedModeError {
    /// The text is no number of at most 255.
    InvalidString(String),
    /// The number names no mode.
    InvalidValue(u8),
}

/// The wireless power mode states.
#[derive(Debug, Copy, Clone, PartialEq, Eq, Structural)]
pub enum WirelessPowerMode {
    /// Low power mode. The battery will last longer but the wireless range will be shorter.
    Low,
    /// Medium power mode. The battery will last a bit less but the wireless range will be longer.
    Medium,
    /// High power mode. The battery will last the least but the wireless range will be the longest.
    High,
}

/// Why a text names no wireless power mode.
#[derive(Debug, Clone, PartialEq, Eq)]
pub enum WirelessPowerModeError {
    /// The text is no number of at most 255.
    InvalidString(String),
    /// The number names no mode.
    InvalidValue(u8),
}

/// The device side.
#[derive(Debug, Copy, Clone, PartialEq, Eq, Structural)]
pub enum Side {
    Right,
    Left,
}

/// The LED mode that a number names.
pub open spec fn led_mode_of(n: nat) -> Option<LedMode> {
    if n == 0 {
        Some(LedMode::PerLayer)
    } else if n == 1 {
        Some(LedMode::RainbowMulti)
    } else if n == 2 {
        Some(LedMode::RainbowSingle)
    } else if n == 3 {
        Some(LedMode::Stalker)
    } else if n == 4 {
        Some(LedMode::Red)
    } else if n == 5 {
        Some(LedMode::Green)
    } else if n == 6 {
        Some(LedMode::Blue)
    } else if n == 7 {
        Some(LedMode::White)
    } else if n == 8 {
        Some(LedMode::Off)
    } else if n == 9 {
        Some(LedMode::GreenInner)
    } else if n == 10 {
        Some(LedMode::Bluetooth)
    } else {
        None
    }
}

/// The wireless power mode that a number names.
pub open spec fn power_mode_of(n: nat) -> Option<WirelessPowerMode> {
    if n == 0 {
        Some(WirelessPowerMode::Low)
    } else if n == 1 {
        Some(WirelessPowerMode::Medium)
    } else if n == 2 {
        Some(WirelessPowerMode::High)
    } else {
        None
    }
}

impl LedMode {
    /// The number that names the mode.
    pub open spec fn number(self) -> nat {
        match self {
            LedMode::PerLayer => 0,
            LedMode::RainbowMulti => 1,
            LedMode::RainbowSingle => 2,
            LedMode::Stalker => 3,
            LedMode::Red => 4,
            LedMode::Green => 5,
            LedMode::Blue => 6,
            LedMode::White => 7,
            LedMode::Off => 8,
            LedMode::GreenInner => 9,
            LedMode::Bluetooth => 10,
        }
    }

    /// The number that names the mode.
    pub fn value(&self) -> (n: u8)
        ensures
            n == self.number(),
            led_mode_of(n as nat) == Some(*self),
    {
        match self {
            LedMode::PerLayer => 0,
            LedMode::RainbowMulti => 1,
            LedMode::RainbowSingle => 2,
            LedMode::Stalker => 3,
            LedMode::Red => 4,
            LedMode::Green => 5,
            LedMode::Blue => 6,
            LedMode::White => 7,
            LedMode::Off => 8,
            LedMode::GreenInner => 9,
            LedMode::Bluetooth => 10,
        }
    }

    /// The mode that a number names.
    pub fn from_value(n: u8) -> (mode: Option<LedMode>)
        ensures
            mode == led_mode_of(n as nat),
    {
        match n {
            0 => Some(LedMode::PerLayer),
            1 => Some(LedMode::RainbowMulti),
            2 => Some(LedMode::RainbowSingle),
            3 => Some(LedMode::Stalker),
            4 => Some(LedMode::Red),
            5 => Some(LedMode::Green),
            6 => Some(LedMode::Blue),
            7 => Some(LedMode::White),
            8 => Some(LedMode::Off),
            9 => Some(LedMode::GreenInner),
            10 => Some(LedMode::Bluetooth),
            _ => None,
        }
    }

    /// Reads a mode from its number in decimal.
    pub fn from_str(s: &str) -> (mode: Result<LedMode, LedModeError>)
        ensures
            match parse_decimal(s@, 255) {
                Some(n) => match led_mode_of(n) {
                    Some(m) => mode == Ok::<LedMode, LedModeError>(m),
                    None => mode matches Err(LedModeError::InvalidValue(v)) && v == n,
                },
                None => mode matches Err(LedModeError::InvalidString(text)) && text@ == s@,
            },
    {
        let chars = chars_of(s);
        match parse_number(&chars, 255) {
            Some(n) => match LedMode::from_value(n as u8) {
                Some(m) => Ok(m),
                None => Err(LedModeError::InvalidValue(n as u8)),
            },
            None => Err(LedModeError::InvalidString(s.to_owned())),
        }
    }
}

impl WirelessPowerMode {
    /// The number that names the mode.
    pub open spec fn number(self) -> nat {
        match self {
            WirelessPowerMode::Low => 0,
            WirelessPowerMode::Medium => 1,
            WirelessPowerMode::High => 2,
        }
    }

    /// The number that names the mode.
    pub fn value(&self) -> (n: u8)
        ensures
            n == self.number(),
            power_mode_of(n as nat) == Some(*self),
    {
        match self {
            WirelessPowerMode::Low => 0,
            WirelessPowerMode::Medium => 1,
            WirelessPowerMode::High => 2,
        }
    }

    /// The mode that a number names.
    pub fn from_value(n: u8) -> (mode: Option<WirelessPowerMode>)
        ensures
            mode == power_mode_of(n as nat),
    {
        match n {
            0 => Some(WirelessPowerMode::Low),
            1 => Some(WirelessPowerMode::Medium),
            2 => Some(WirelessPowerMode::High),
            _ => None,
        }
    }

    /// Reads a mode from its number in decimal.
    pub fn from_str(s: &str) -> (mode: Result<WirelessPowerMode, WirelessPowerModeError>)
        ensures
            match parse_decimal(s@, 255) {
                Some(n) => match power_mode_of(n) {
                    Some(m) => mode == Ok::<WirelessPowerMode, WirelessPowerModeError>(m),
                    None => mode matches Err(WirelessPowerModeError::InvalidValue(v)) && v == n,
                },
                None => mode matches Err(WirelessPowerModeError::InvalidString(text)) && text@
                    == s@,
            },
    {
        let chars = chars_of(s);
        match parse_number(&chars, 255) {
            Some(n) => match WirelessPowerMode::from_value(n as u8) {
                Some(m) => Ok(m),
                None => Err(WirelessPowerModeError::InvalidValue(n as u8)),
            },
            None => Err(WirelessPowerModeError::InvalidString(s.to_owned())),
        }
    }
}

impl Side {
    /// The number that names the side.
    pub open spec fn number(self) -> nat {
        match self {
            Side::Right => 0,
            Side::Left => 1,
        }
    }

    /// The number that names the side.
    pub fn value(&self) -> (n: u8)
        ensures
            n == self.number(),
    {
        match self {
            Side::Right => 0,
            Side::Left => 1,
        }
    }
}

} // verus!
