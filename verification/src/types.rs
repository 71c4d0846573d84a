//! Domain values used by feature-level callers of the bus driver, and
//! their raw EC register encodings.

use vstd::prelude::*;

verus! {

/// The colour of a status or fan LED.
#[derive(Debug, Clone, Copy, PartialEq, Eq, Structural)]
pub enum LedColor {
    Green,
    Red,
    Auto,
}

impl LedColor {
    /// What the raw EC encoding of each colour is.
    pub open spec fn raw_spec(self) -> u8 {
        match self {
            LedColor::Green => 0,
            LedColor::Red => 1,
            LedColor::Auto => 2,
        }
    }
}

impl From<LedColor> for u8 {
    /// The raw EC encoding of the colour.
    fn from(color: LedColor) -> (r: u8) {
        match color {
            LedColor::Green => 0,
            LedColor::Red => 1,
            LedColor::Auto => 2,
        }
    }
}

impl vstd::std_specs::convert::FromSpecImpl<LedColor> for u8 {
    open spec fn obeys_from_spec() -> bool {
        true
    }

    open spec fn from_spec(color: LedColor) -> u8 {
        color.raw_spec()
    }
}

/// How a fan is driven.
#[derive(Debug, Clone, Copy, PartialEq)]
pub enum FanMode {
    Auto,
    Manual,
    Custom(Option<u32>, Option<u32>),
}

/// What an LED does.
#[derive(Debug, Clone, Copy, PartialEq, Eq, Structural)]
pub enum LedMode {
    Off,
    On,
    Blink,
}

/// What the machine does when external power returns after a loss.
#[derive(Debug, Clone, Copy, PartialEq, Eq, Structural)]
pub enum PowerRecoveryMode {
    /// Keep the state from before the power loss.
    Last,
    /// Start up when power recovers.
    On,
    /// Stay shut down when power recovers.
    Off,
}

impl PowerRecoveryMode {
    /// What the raw EC encoding of each mode is.
    pub open spec fn raw_spec(self) -> u8 {
        match self {
            PowerRecoveryMode::Last => 2,
            PowerRecoveryMode::On => 1,
            PowerRecoveryMode::Off => 0,
        }
    }

    /// Decode a raw EC register value; values above 2 are not a mode.
    pub fn from_raw(v: u8) -> (r: Option<PowerRecoveryMode>)
        ensures
            match r {
                Some(m) => m.raw_spec() == v,
                None => v > 2,
            },
    {
        match v {
            2 => Some(PowerRecoveryMode::Last),
            1 => Some(PowerRecoveryMode::On),
            0 => Some(PowerRecoveryMode::Off),
            _ => None,
        }
    }

    /// A short explanation of the mode.
    pub fn desc(&self) -> (r: String)
        ensures
            self is Last ==> r@ == "restore previous NAS power state"@,
            self is On ==> r@ == "turn on the NAS automatically"@,
            self is Off ==> r@ == "keep the NAS turned off"@,
    {
        match self {
            PowerRecoveryMode::Last => "restore previous NAS power state".to_string(),
            PowerRecoveryMode::On => "turn on the NAS automatically".to_string(),
            PowerRecoveryMode::Off => "keep the NAS turned off".to_string(),
        }
    }
}

impl From<PowerRecoveryMode> for u8 {
    /// The raw EC encoding of the mode.
    fn from(mode: PowerRecoveryMode) -> (r: u8) {
        match mode {
            PowerRecoveryMode::Last => 2,
            PowerRecoveryMode::On => 1,
            PowerRecoveryMode::Off => 0,
        }
    }
}

impl vstd::std_specs::convert::FromSpecImpl<PowerRecoveryMode> for u8 {
    open spec fn obeys_from_spec() -> bool {
        true
    }

    open spec fn from_spec(mode: PowerRecoveryMode) -> u8 {
        mode.raw_spec()
    }
}

/// A two-state switch.
#[derive(Debug, Clone, Copy, PartialEq, Eq, Structural)]
pub enum SwitchState {
    Off,
    On,
}

impl SwitchState {
    /// Whether the switch is on.
    pub fn is_on(&self) -> (r: bool)
        ensures
            r == (self is On),
    {
        match self {
            SwitchState::On => true,
            _ => false,
        }
    }
}

impl From<bool> for SwitchState {
    /// `true` is on, `false` is off.
    fn from(v: bool) -> (r: SwitchState) {
        if v {
            SwitchState::On
        } else {
            SwitchState::Off
        }
    }
}

impl vstd::std_specs::convert::FromSpecImpl<bool> for SwitchState {
    open spec fn obeys_from_spec() -> bool {
        true
    }

    open spec fn from_spec(v: bool) -> SwitchState {
        if v {
            SwitchState::On
        } else {
            SwitchState::Off
        }
    }
}

/// How a forced shutdown ends.
#[derive(Debug, Clone, Copy, PartialEq, Eq, Structural)]
pub enum ShutdownMode {
    Shutdown,
    Reboot,
}

impl ShutdownMode {
    /// What the raw EC encoding of each mode is.
    pub open spec fn raw_spec(self) -> u8 {
        match self {
            ShutdownMode::Shutdown => 0x20,
            ShutdownMode::Reboot => 0x40,
        }
    }
}

impl From<ShutdownMode> for u8 {
    /// The raw EC encoding of the mode.
    fn from(mode: ShutdownMode) -> (r: u8) {
        match mode {
            ShutdownMode::Shutdown => 0x20,
            ShutdownMode::Reboot => 0x40,
        }
    }
}

impl vstd::std_specs::convert::FromSpecImpl<ShutdownMode> for u8 {
    open spec fn obeys_from_spec() -> bool {
        true
    }

    open spec fn from_spec(mode: ShutdownMode) -> u8 {
        mode.raw_spec()
    }
}

/// Memory occupancy, in kilobytes.
#[derive(Debug, Clone, Copy, PartialEq, Eq, Structural)]
pub struct MemInfo {
    pub total: u32,
    pub free: u32,
    pub used: u32,
}

} // verus!
