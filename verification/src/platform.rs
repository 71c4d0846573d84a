//! The composition root: identity-gated, lock-wrapped access to the EC.
//!
//! Construction verifies the chip identity through the Super I/O bus
//! and refuses to expose any EC operation on an unsupported chip. All
//! register traffic then flows through [`Platform::with_ec`], which
//! holds the cross-process resource lock around the given closure and
//! releases it on every path out.

use vstd::prelude::*;

use crate::device::Device;
use crate::lock::{Mutex, Semaphore};
use crate::port::{log_delta, Op, PortPair};
use crate::sio;
use crate::Error;

verus! {

/// The identity word of the one supported chip.
pub const CHIP_ID: u16 = 0x8528;

/// The configuration register holding the two-byte chip identity.
pub const CHIP_ID_REG: u8 = 0x20;

/// The configuration register holding the one-byte chip version.
pub const CHIP_VERSION_REG: u8 = 0x22;

/// The semaphore key shared by convention with any other software that
/// may drive the same EC.
pub const SEM_KEY: i32 = 0x4543;

/// The EC's fixed command-port address.
pub const DEFAULT_CMD_PORT: u16 = 0x6c;

/// The EC's fixed data-port address.
pub const DEFAULT_DATA_PORT: u16 = 0x68;

/// The Super I/O chip's fixed index-port address.
pub const SIO_INDEX_PORT: u16 = 0x2e;

/// The Super I/O chip's fixed data-port address.
pub const SIO_DATA_PORT: u16 = 0x2f;

/// The port operations an identity probe performs: the identity word
/// read big-endian from two consecutive registers, then the version
/// byte.
pub open spec fn id_probe_trace(id: u16, ver: u8) -> Seq<Op> {
    seq![
        Op::write_ctl(CHIP_ID_REG),
        Op::read_data(crate::device::addr_hi(id)),
        Op::write_ctl((CHIP_ID_REG + 1) as u8),
        Op::read_data(crate::device::addr_lo(id)),
        Op::write_ctl(CHIP_VERSION_REG),
        Op::read_data(ver),
    ]
}

/// Read the chip identity word and version byte through the Super I/O
/// bus and accept exactly the supported chip.
///
/// Against a chip whose port operations cannot fail, the result is
/// `Ok` precisely when the probed identity is [`CHIP_ID`], and any
/// failure is `UnsupportedPlatform`.
pub fn check_platform<C: PortPair>(sio: &mut sio::Controller<C>) -> (r: Result<(), Error>)
    ensures
        old(sio).log().is_prefix_of(final(sio).log()),
        final(sio).pnp() == old(sio).pnp(),
        ({
            let delta = log_delta(old(sio).log(), final(sio).log());
            &&& delta.len() <= 6
            &&& match r {
                Ok(()) => delta.len() == 6 && delta.last().kind is ReadData && delta
                    == id_probe_trace(CHIP_ID, delta.last().val),
                Err(e) => C::infallible() ==> {
                    &&& e == Error::UnsupportedPlatform
                    &&& delta.len() == 6
                    &&& delta.last().kind is ReadData
                    &&& exists|id: u16|
                        id != CHIP_ID && delta == #[trigger] id_probe_trace(id, delta.last().val)
                },
            }
        }),
{
    let ghost log0 = sio.log();
    let id = match sio.read_word(CHIP_ID_REG) {
        Ok(w) => w,
        Err(e) => {
            return Err(e);
        },
    };
    let ghost d1 = log_delta(log0, sio.log());
    proof {
        assert(sio.log() =~= log0 + d1);
    }
    let ver = match sio.read_byte(CHIP_VERSION_REG) {
        Ok(b) => b,
        Err(e) => {
            proof {
                let d2 = log_delta(log0 + d1, sio.log());
                assert(sio.log() =~= log0 + (d1 + d2));
                assert(log0 =~= sio.log().subrange(0, log0.len() as int));
                assert(log_delta(log0, sio.log()) =~= d1 + d2);
            }
            return Err(e);
        },
    };
    proof {
        let d2 = log_delta(log0 + d1, sio.log());
        assert(sio.log() =~= log0 + (d1 + d2));
        assert(log0 =~= sio.log().subrange(0, log0.len() as int));
        assert(log_delta(log0, sio.log()) =~= d1 + d2);
        assert(d1 + d2 =~= id_probe_trace(id, ver));
        let delta = log_delta(log0, sio.log());
        assert(delta.last() == Op::read_data(ver));
        assert(delta == id_probe_trace(id, delta.last().val));
    }
    if id == CHIP_ID {
        Ok(())
    } else {
        Err(Error::UnsupportedPlatform)
    }
}

/// One EC behind one resource lock: the only sanctioned path from
/// feature code to hardware.
pub struct Platform<C: PortPair, S: Semaphore> {
    ec: Mutex<Device<C>, S>,
}

impl<C: PortPair, S: Semaphore> Platform<C, S> {
    /// The wrapped EC bus.
    pub closed spec fn ec_dev(&self) -> Device<C> {
        self.ec.inner()
    }

    /// Every port operation the wrapped EC has performed.
    pub open spec fn ec_log(&self) -> Seq<Op> {
        self.ec_dev().log()
    }

    /// Whether the resource lock is currently held.
    pub closed spec fn held(&self) -> bool {
        self.ec.held()
    }

    /// Acquire the resource lock: bounded retries, then a `Lock` error.
    pub fn lock_ec(&mut self) -> (r: Result<(), Error>)
        ensures
            final(self).ec_dev() == old(self).ec_dev(),
            match r {
                Ok(()) => final(self).held(),
                Err(e) => e == Error::Lock && final(self).held() == old(self).held(),
            },
    {
        self.ec.lock()
    }

    /// The EC bus, reachable only while the lock is held.
    pub fn ec_bus(&mut self) -> (r: &mut Device<C>)
        requires
            old(self).held(),
        ensures
            *r == old(self).ec_dev(),
            final(self).ec_dev() == *final(r),
            final(self).held() == old(self).held(),
    {
        self.ec.data_mut()
    }

    /// Release the resource lock.
    pub fn unlock_ec(&mut self)
        requires
            old(self).held(),
        ensures
            !final(self).held(),
            final(self).ec_dev() == old(self).ec_dev(),
    {
        self.ec.unlock()
    }

    /// Wrap an EC bus in the resource lock.
    pub fn new(ec: Device<C>, sem: S) -> (r: Platform<C, S>)
        ensures
            r.ec_log() == ec.log(),
            r.held() == sem.held(),
    {
        Platform { ec: Mutex::new(sem, ec) }
    }

    /// Verify the chip identity through the given Super I/O bus, and
    /// only on success construct the EC bus over `chan` and wrap it in
    /// the resource lock. On an unsupported chip no EC bus is
    /// constructed.
    pub fn with_sio<SC: PortPair>(sio: &mut sio::Controller<SC>, chan: C, sem: S) -> (r: Result<
        Platform<C, S>,
        Error,
    >)
        ensures
            old(sio).log().is_prefix_of(final(sio).log()),
            final(sio).pnp() == old(sio).pnp(),
            match r {
                Ok(p) => p.ec_log() == chan.log() && p.held() == sem.held() && ({
                    let delta = log_delta(old(sio).log(), final(sio).log());
                    delta.len() == 6 && delta == id_probe_trace(CHIP_ID, delta.last().val)
                }),
                Err(e) => SC::infallible() ==> e == Error::UnsupportedPlatform,
            },
    {
        match check_platform(sio) {
            Ok(()) => {},
            Err(e) => {
                return Err(e);
            },
        }
        Ok(Platform::new(Device::new(chan), sem))
    }

    /// Acquire the lock, hand the EC bus to `f`, and release the lock
    /// on every path out: afterwards the lock is held exactly as it was
    /// before, whatever `f` returned.
    pub fn with_ec<R, F: FnOnce(&mut Device<C>) -> Result<R, Error>>(&mut self, f: F) -> (r:
        Result<R, Error>)
        requires
            !old(self).held(),
            forall|d: &mut Device<C>| #[trigger] f.requires((d,)),
        ensures
            !final(self).held(),
            r == Err::<R, Error>(Error::Lock) || (exists|d: &mut Device<C>, rr: Result<R, Error>|
                f.ensures((d,), rr) && rr == r),
    {
        match self.ec.lock() {
            Ok(()) => {},
            Err(_) => {
                return Err(Error::Lock);
            },
        }
        let dev = self.ec.data_mut();
        let out = f(dev);
        self.ec.unlock();
        out
    }
}

} // verus!
