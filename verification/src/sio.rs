//! The Super I/O bus: an index/data port protocol used at startup to
//! identify the physical chip, with an optional extended configuration
//! mode entered by a vendor-specific unlock sequence.

use vstd::prelude::*;

use crate::device::{addr_hi, addr_lo};
use crate::port::{log_delta, Op, PortPair};
use crate::Error;

verus! {

/// The index-port byte that selects the logical-device register.
pub const LDN_SELECT: u8 = 0x07;

/// A Super I/O controller: an index/data port pair plus the record of
/// whether the extended configuration mode was entered, so that the
/// exit sequence is issued exactly when it is owed.
pub struct Controller<C: PortPair> {
    chan: C,
    pnp: bool,
}

impl<C: PortPair> Controller<C> {
    /// Every port operation this controller has performed, oldest first.
    pub closed spec fn log(&self) -> Seq<Op> {
        self.chan.log()
    }

    /// Whether the extended configuration mode is currently entered.
    pub closed spec fn pnp(&self) -> bool {
        self.pnp
    }

    /// Wrap an index/data port pair; extended mode starts off.
    pub fn new(chan: C) -> (r: Controller<C>)
        ensures
            r.log() == chan.log(),
            !r.pnp(),
    {
        Controller { chan, pnp: false }
    }

    /// The port pair this controller drives, for inspection.
    pub fn port_pair(&self) -> (r: &C)
        ensures
            r.log() == self.log(),
    {
        &self.chan
    }

    /// Read one configuration register: write the register index to the
    /// index port, then read the data port.
    pub fn read_byte(&mut self, reg: u8) -> (r: Result<u8, Error>)
        ensures
            old(self).log().is_prefix_of(final(self).log()),
            final(self).pnp() == old(self).pnp(),
            ({
                let delta = log_delta(old(self).log(), final(self).log());
                match r {
                    Ok(b) => delta == seq![Op::write_ctl(reg), Op::read_data(b)],
                    Err(_) => delta.len() <= 1 && (delta.len() == 1 ==> delta[0]
                        == Op::write_ctl(reg)),
                }
            }),
            C::infallible() ==> r is Ok,
    {
        let ghost log0 = self.log();
        match self.chan.write_ctl(reg) {
            Ok(()) => {},
            Err(e) => {
                proof {
                    assert(log_delta(log0, self.log()) =~= Seq::<Op>::empty());
                    assert(log0.is_prefix_of(log0));
                }
                return Err(e);
            },
        }
        proof {
            let d = seq![Op::write_ctl(reg)];
            assert(self.log() =~= log0 + d);
            assert(log0 =~= (log0 + d).subrange(0, log0.len() as int));
            assert(log_delta(log0, log0 + d) =~= d);
        }
        let b = match self.chan.read_data() {
            Ok(b) => b,
            Err(e) => {
                return Err(e);
            },
        };
        proof {
            let d = seq![Op::write_ctl(reg), Op::read_data(b)];
            assert(self.log() =~= log0 + d);
            assert(log0 =~= (log0 + d).subrange(0, log0.len() as int));
            assert(log_delta(log0, log0 + d) =~= d);
        }
        Ok(b)
    }

    /// Read two consecutive configuration registers and combine them
    /// big-endian: the register at `reg` gives the high byte.
    pub fn read_word(&mut self, reg: u8) -> (r: Result<u16, Error>)
        requires
            reg < 0xff,
        ensures
            old(self).log().is_prefix_of(final(self).log()),
            final(self).pnp() == old(self).pnp(),
            ({
                let delta = log_delta(old(self).log(), final(self).log());
                match r {
                    Ok(w) => delta == seq![
                        Op::write_ctl(reg),
                        Op::read_data(addr_hi(w)),
                        Op::write_ctl((reg + 1) as u8),
                        Op::read_data(addr_lo(w)),
                    ],
                    Err(_) => delta.len() <= 3,
                }
            }),
            C::infallible() ==> r is Ok,
    {
        let ghost log0 = self.log();
        let hi = match self.read_byte(reg) {
            Ok(b) => b,
            Err(e) => {
                return Err(e);
            },
        };
        let ghost d1 = log_delta(log0, self.log());
        proof {
            assert(self.log() =~= log0 + d1);
        }
        let lo = match self.read_byte(reg + 1) {
            Ok(b) => b,
            Err(e) => {
                proof {
                    let d2 = log_delta(log0 + d1, self.log());
                    assert(self.log() =~= log0 + (d1 + d2));
                    assert(log0 =~= self.log().subrange(0, log0.len() as int));
                    assert(log_delta(log0, self.log()) =~= d1 + d2);
                }
                return Err(e);
            },
        };
        let w = ((hi as u16) << 8) | (lo as u16);
        proof {
            let d2 = log_delta(log0 + d1, self.log());
            assert(self.log() =~= log0 + (d1 + d2));
            assert(log0 =~= self.log().subrange(0, log0.len() as int));
            assert(log_delta(log0, self.log()) =~= d1 + d2);
            assert(addr_hi(w) == hi && addr_lo(w) == lo) by {
                assert((((hi as u16) << 8) | (lo as u16)) >> 8 == hi as u16
                    && ((((hi as u16) << 8) | (lo as u16)) & 0xff) == lo as u16
                    && (hi as u16) & 0xff == hi as u16) by (bit_vector);
            }
            assert(d1 + d2 =~= seq![
                Op::write_ctl(reg),
                Op::read_data(addr_hi(w)),
                Op::write_ctl((reg + 1) as u8),
                Op::read_data(addr_lo(w)),
            ]);
        }
        Ok(w)
    }

    /// Select a logical device: write the selector index, then the
    /// device id to the data port.
    pub fn select_logical_device(&mut self, ldn: u8) -> (r: Result<(), Error>)
        ensures
            old(self).log().is_prefix_of(final(self).log()),
            final(self).pnp() == old(self).pnp(),
            ({
                let delta = log_delta(old(self).log(), final(self).log());
                match r {
                    Ok(()) => delta == seq![Op::write_ctl(LDN_SELECT), Op::write_data(ldn)],
                    Err(_) => delta.len() <= 1,
                }
            }),
            C::infallible() ==> r is Ok,
    {
        self.select_special_function(LDN_SELECT, ldn)
    }

    /// Write one configuration register: the register index, then the
    /// value.
    pub fn select_special_function(&mut self, reg1: u8, reg2: u8) -> (r: Result<(), Error>)
        ensures
            old(self).log().is_prefix_of(final(self).log()),
            final(self).pnp() == old(self).pnp(),
            ({
                let delta = log_delta(old(self).log(), final(self).log());
                match r {
                    Ok(()) => delta == seq![Op::write_ctl(reg1), Op::write_data(reg2)],
                    Err(_) => delta.len() <= 1,
                }
            }),
            C::infallible() ==> r is Ok,
    {
        let ghost log0 = self.log();
        match self.chan.write_ctl(reg1) {
            Ok(()) => {},
            Err(e) => {
                proof {
                    assert(log_delta(log0, self.log()) =~= Seq::<Op>::empty());
                    assert(log0.is_prefix_of(log0));
                }
                return Err(e);
            },
        }
        proof {
            let d = seq![Op::write_ctl(reg1)];
            assert(self.log() =~= log0 + d);
            assert(log0 =~= (log0 + d).subrange(0, log0.len() as int));
            assert(log_delta(log0, log0 + d) =~= d);
        }
        match self.chan.write_data(reg2) {
            Ok(()) => {},
            Err(e) => {
                return Err(e);
            },
        }
        proof {
            let d = seq![Op::write_ctl(reg1), Op::write_data(reg2)];
            assert(self.log() =~= log0 + d);
            assert(log0 =~= (log0 + d).subrange(0, log0.len() as int));
            assert(log_delta(log0, log0 + d) =~= d);
        }
        Ok(())
    }

    /// Enter the extended configuration mode by the vendor-specific
    /// four-byte unlock sequence on the index port.
    pub fn enter_pnp(&mut self) -> (r: Result<(), Error>)
        ensures
            old(self).log().is_prefix_of(final(self).log()),
            ({
                let delta = log_delta(old(self).log(), final(self).log());
                match r {
                    Ok(()) => {
                        &&& delta == seq![
                            Op::write_ctl(0x87),
                            Op::write_ctl(0x01),
                            Op::write_ctl(0x55),
                            Op::write_ctl(0x55),
                        ]
                        &&& final(self).pnp()
                    },
                    Err(_) => {
                        &&& delta.len() <= 3
                        &&& final(self).pnp() == old(self).pnp()
                    },
                }
            }),
            C::infallible() ==> r is Ok,
    {
        let ghost log0 = self.log();
        match self.chan.write_ctl(0x87) {
            Ok(()) => {},
            Err(e) => {
                proof {
                    assert(log_delta(log0, self.log()) =~= Seq::<Op>::empty());
                    assert(log0.is_prefix_of(log0));
                }
                return Err(e);
            },
        }
        proof {
            let d = seq![Op::write_ctl(0x87u8)];
            assert(self.log() =~= log0 + d);
            assert(log0 =~= (log0 + d).subrange(0, log0.len() as int));
            assert(log_delta(log0, log0 + d) =~= d);
        }
        match self.chan.write_ctl(0x01) {
            Ok(()) => {},
            Err(e) => {
                return Err(e);
            },
        }
        proof {
            let d = seq![Op::write_ctl(0x87u8), Op::write_ctl(0x01u8)];
            assert(self.log() =~= log0 + d);
            assert(log0 =~= (log0 + d).subrange(0, log0.len() as int));
            assert(log_delta(log0, log0 + d) =~= d);
        }
        match self.chan.write_ctl(0x55) {
            Ok(()) => {},
            Err(e) => {
                return Err(e);
            },
        }
        proof {
            let d = seq![Op::write_ctl(0x87u8), Op::write_ctl(0x01u8), Op::write_ctl(0x55u8)];
            assert(self.log() =~= log0 + d);
            assert(log0 =~= (log0 + d).subrange(0, log0.len() as int));
            assert(log_delta(log0, log0 + d) =~= d);
        }
        match self.chan.write_ctl(0x55) {
            Ok(()) => {},
            Err(e) => {
                return Err(e);
            },
        }
        proof {
            let d = seq![
                Op::write_ctl(0x87u8),
                Op::write_ctl(0x01u8),
                Op::write_ctl(0x55u8),
                Op::write_ctl(0x55u8),
            ];
            assert(self.log() =~= log0 + d);
            assert(log0 =~= (log0 + d).subrange(0, log0.len() as int));
            assert(log_delta(log0, log0 + d) =~= d);
        }
        self.pnp = true;
        Ok(())
    }

    /// Leave the extended configuration mode if it was entered: the
    /// two-byte exit sequence is issued exactly once, and never when the
    /// mode was not entered.
    pub fn exit_pnp(&mut self) -> (r: Result<(), Error>)
        ensures
            old(self).log().is_prefix_of(final(self).log()),
            ({
                let delta = log_delta(old(self).log(), final(self).log());
                match r {
                    Ok(()) => {
                        &&& !final(self).pnp()
                        &&& (old(self).pnp() ==> delta == seq![
                            Op::write_ctl(0x02),
                            Op::write_data(0x02),
                        ])
                        &&& (!old(self).pnp() ==> delta == Seq::<Op>::empty())
                    },
                    Err(_) => {
                        &&& delta.len() <= 1
                        &&& final(self).pnp() == old(self).pnp()
                    },
                }
            }),
            C::infallible() ==> r is Ok,
    {
        if !self.pnp {
            proof {
                assert(log_delta(self.log(), self.log()) =~= Seq::<Op>::empty());
                assert(self.log().is_prefix_of(self.log()));
            }
            return Ok(());
        }
        match self.select_special_function(0x02, 0x02) {
            Ok(()) => {},
            Err(e) => {
                return Err(e);
            },
        }
        self.pnp = false;
        Ok(())
    }
}

} // verus!
