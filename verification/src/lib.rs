//! Driver core for the embedded controller (EC) of a NAS appliance.
//!
//! The crate is organised leaf-first: byte-port abstractions and the
//! operation log they produce, the EC command/data handshake protocol,
//! the Super I/O identification protocol, the cross-process resource
//! lock, and the platform composition root that gates everything behind
//! a chip-identity check.

use vstd::prelude::*;

pub mod ctx;
pub mod device;
pub mod feature;
pub mod lock;
pub mod platform;
pub mod port;
pub mod sim;
pub mod sio;
pub mod status;
pub mod types;

verus! {

/// Errors surfaced by the port, bus, lock and platform layers.
#[derive(Debug, Clone, Copy, PartialEq, Eq, Structural)]
pub enum Error {
    /// Exclusive or privileged access to a hardware address was refused.
    Permission,
    /// A bounded poll stage never observed the required status bit.
    Timeout,
    /// The cross-process mutex could not be acquired within its retries.
    Lock,
    /// The chip identity read at startup is not the supported one.
    UnsupportedPlatform,
    /// A caller-level parameter lies outside the legal domain.
    InvalidValue,
}

impl Error {
    /// A short human-readable description of the error.
    pub fn describe(&self) -> (r: String)
        ensures
            self is Permission ==> r@ == "failed to obtain access to a hardware port"@,
            self is Timeout ==> r@ == "timed out waiting for controller status"@,
            self is Lock ==> r@ == "failed to obtain the cross-process resource lock"@,
            self is UnsupportedPlatform ==> r@ == "not a supported platform, only for ITE8528"@,
            self is InvalidValue ==> r@ == "invalid input value"@,
    {
        match self {
            Error::Permission => "failed to obtain access to a hardware port".to_string(),
            Error::Timeout => "timed out waiting for controller status".to_string(),
            Error::Lock => "failed to obtain the cross-process resource lock".to_string(),
            Error::UnsupportedPlatform => "not a supported platform, only for ITE8528".to_string(),
            Error::InvalidValue => "invalid input value".to_string(),
        }
    }
}

} // verus!
