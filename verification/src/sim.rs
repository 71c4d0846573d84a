//! Simulated chips: in-memory [`PortPair`] implementations.
//!
//! [`SimEc`] behaves like the EC firmware behind the command/data port
//! pair: it consumes the opcode and address bytes of a register frame,
//! echoes register contents on reads, and stores the value byte of a
//! write frame. [`SimSio`] behaves like the Super I/O chip behind the
//! index/data port pair. Both record every port operation, so tests can
//! inspect the exact frames a transaction emitted, and both are
//! infallible: every contract that is conditional on an infallible
//! channel is exercised through them.

use vstd::pervasive::VecAdditionalExecFns;
use vstd::prelude::*;

use crate::device::REGISTER_OP;
use crate::lock::Semaphore;
use crate::port::{Op, OpKind, PortPair};
use crate::Error;

verus! {

/// Where the simulated EC stands inside a register frame.
enum EcState {
    /// Waiting for an opcode on the command port.
    AwaitCmd,
    /// Opcode seen; waiting for the address high byte.
    AwaitHi,
    /// Waiting for the address low byte.
    AwaitLo { hi: u8 },
    /// Address complete; a data write now stores a value there.
    AwaitValue { addr: u16 },
}

/// A simulated EC with a 16-bit register file that echoes what was last
/// written at each address.
pub struct SimEc {
    mem: Vec<u8>,
    state: EcState,
    out: Option<u8>,
    ibf_held: bool,
    obf_held: bool,
    trace: Vec<Op>,
}

impl SimEc {
    /// A fresh EC: all registers zero, no pending output.
    pub fn new() -> (r: SimEc)
        ensures
            r.log() == Seq::<Op>::empty(),
    {
        let mut mem: Vec<u8> = Vec::new();
        let mut i: usize = 0;
        while i < 0x10000
            decreases 0x10000 - i,
        {
            mem.push(0);
            i = i + 1;
        }
        SimEc {
            mem,
            state: EcState::AwaitCmd,
            out: None,
            ibf_held: false,
            obf_held: false,
            trace: Vec::new(),
        }
    }

    /// Make the status byte report IBF set forever: every wait for
    /// input-ready will run out its poll budget.
    pub fn hold_input(&mut self)
        ensures
            final(self).log() == old(self).log(),
    {
        self.ibf_held = true;
    }

    /// Never present output: every wait for output-ready will run out
    /// its poll budget.
    pub fn hold_output(&mut self)
        ensures
            final(self).log() == old(self).log(),
    {
        self.obf_held = true;
    }

    /// Store a register value directly, as if firmware had set it.
    pub fn preload(&mut self, addr: u16, value: u8)
        ensures
            final(self).log() == old(self).log(),
    {
        if (addr as usize) < self.mem.len() {
            self.mem.set(addr as usize, value);
        }
    }

    /// Present a byte as pending output, as if a previous transaction
    /// had been aborted before its read.
    pub fn leave_stale(&mut self, value: u8)
        ensures
            final(self).log() == old(self).log(),
    {
        self.out = Some(value);
    }

    /// The current content of a register, for checks in tests.
    pub fn register(&self, addr: u16) -> u8 {
        if (addr as usize) < self.mem.len() {
            self.mem[addr as usize]
        } else {
            0
        }
    }

    /// Every port operation performed against this chip, oldest first.
    pub fn trace(&self) -> (r: &Vec<Op>)
        ensures
            r@ == self.log(),
    {
        &self.trace
    }
}

impl PortPair for SimEc {
    closed spec fn log(&self) -> Seq<Op> {
        self.trace@
    }

    open spec fn infallible() -> bool {
        true
    }

    fn read_ctl(&mut self) -> (r: Result<u8, Error>) {
        let mut st: u8 = 0;
        if self.out.is_some() {
            st = st | 0b01;
        }
        if self.ibf_held {
            st = st | 0b10;
        }
        self.trace.push(Op { kind: OpKind::ReadCtl, val: st });
        Ok(st)
    }

    fn write_ctl(&mut self, v: u8) -> (r: Result<(), Error>) {
        if v == REGISTER_OP {
            self.state = EcState::AwaitHi;
        } else {
            self.state = EcState::AwaitCmd;
        }
        self.trace.push(Op { kind: OpKind::WriteCtl, val: v });
        Ok(())
    }

    fn read_data(&mut self) -> (r: Result<u8, Error>) {
        let b = match self.out {
            Some(x) => {
                self.out = None;
                if matches!(self.state, EcState::AwaitValue { .. }) {
                    self.state = EcState::AwaitCmd;
                }
                x
            },
            None => 0,
        };
        self.trace.push(Op { kind: OpKind::ReadData, val: b });
        Ok(b)
    }

    fn write_data(&mut self, v: u8) -> (r: Result<(), Error>) {
        match self.state {
            EcState::AwaitCmd => {},
            EcState::AwaitHi => {
                self.state = EcState::AwaitLo { hi: v };
            },
            EcState::AwaitLo { hi } => {
                let addr = ((hi as u16) << 8) | (v as u16);
                if !self.obf_held && (addr as usize) < self.mem.len() {
                    self.out = Some(self.mem[addr as usize]);
                }
                self.state = EcState::AwaitValue { addr };
            },
            EcState::AwaitValue { addr } => {
                if (addr as usize) < self.mem.len() {
                    self.mem.set(addr as usize, v);
                }
                self.state = EcState::AwaitCmd;
            },
        }
        self.trace.push(Op { kind: OpKind::WriteData, val: v });
        Ok(())
    }

    fn pause(&mut self, _ms: u64) {
    }
}

/// A simulated Super I/O chip: an index/data port pair in front of 256
/// configuration registers.
pub struct SimSio {
    regs: Vec<u8>,
    index: u8,
    trace: Vec<Op>,
}

impl SimSio {
    /// A fresh chip with all configuration registers zero.
    pub fn new() -> (r: SimSio)
        ensures
            r.log() == Seq::<Op>::empty(),
    {
        let mut regs: Vec<u8> = Vec::new();
        let mut i: usize = 0;
        while i < 0x100
            decreases 0x100 - i,
        {
            regs.push(0);
            i = i + 1;
        }
        SimSio { regs, index: 0, trace: Vec::new() }
    }

    /// A chip that reports the given identity word and version byte in
    /// its identification registers.
    pub fn with_chip(id: u16, version: u8) -> (r: SimSio)
        ensures
            r.log() == Seq::<Op>::empty(),
    {
        let mut sio = SimSio::new();
        sio.set_register(0x20, ((id >> 8) & 0xff) as u8);
        sio.set_register(0x21, (id & 0xff) as u8);
        sio.set_register(0x22, version);
        sio
    }

    /// Store a configuration register directly.
    pub fn set_register(&mut self, reg: u8, value: u8)
        ensures
            final(self).log() == old(self).log(),
    {
        if (reg as usize) < self.regs.len() {
            self.regs.set(reg as usize, value);
        }
    }

    /// Every port operation performed against this chip, oldest first.
    pub fn trace(&self) -> (r: &Vec<Op>)
        ensures
            r@ == self.log(),
    {
        &self.trace
    }
}

impl PortPair for SimSio {
    closed spec fn log(&self) -> Seq<Op> {
        self.trace@
    }

    open spec fn infallible() -> bool {
        true
    }

    fn read_ctl(&mut self) -> (r: Result<u8, Error>) {
        let b = self.index;
        self.trace.push(Op { kind: OpKind::ReadCtl, val: b });
        Ok(b)
    }

    fn write_ctl(&mut self, v: u8) -> (r: Result<(), Error>) {
        self.index = v;
        self.trace.push(Op { kind: OpKind::WriteCtl, val: v });
        Ok(())
    }

    fn read_data(&mut self) -> (r: Result<u8, Error>) {
        let b = if (self.index as usize) < self.regs.len() {
            self.regs[self.index as usize]
        } else {
            0
        };
        self.trace.push(Op { kind: OpKind::ReadData, val: b });
        Ok(b)
    }

    fn write_data(&mut self, v: u8) -> (r: Result<(), Error>) {
        if (self.index as usize) < self.regs.len() {
            self.regs.set(self.index as usize, v);
        }
        self.trace.push(Op { kind: OpKind::WriteData, val: v });
        Ok(())
    }

    fn pause(&mut self, _ms: u64) {
    }
}

/// A simulated binary semaphore: the one shared semaphore object that
/// every acquirer of a key would reach. `free` says whether the
/// resource is available; `held` whether it is held through this
/// handle.
pub struct SimSem {
    free: bool,
    held: bool,
}

impl SimSem {
    /// Whether the resource is still available.
    pub closed spec fn free(&self) -> bool {
        self.free
    }

    /// A fresh semaphore in the available state, as a creator would
    /// initialise it.
    pub fn new() -> (r: SimSem)
        ensures
            r.free(),
            !r.held(),
    {
        SimSem { free: true, held: false }
    }

    /// A semaphore whose resource another party already took: every
    /// acquisition attempt will fail until it is released.
    pub fn taken_elsewhere() -> (r: SimSem)
        ensures
            !r.free(),
            !r.held(),
    {
        SimSem { free: false, held: false }
    }
}

impl Semaphore for SimSem {
    closed spec fn held(&self) -> bool {
        self.held
    }

    /// Exactly one acquirer can succeed: taking the resource succeeds
    /// if and only if it is free, and leaves it not free.
    fn try_acquire(&mut self) -> (r: bool)
        ensures
            r == old(self).free(),
            !final(self).free(),
            final(self).held() == (old(self).held() || r),
    {
        if self.free {
            self.free = false;
            self.held = true;
            true
        } else {
            false
        }
    }

    /// Releasing makes the resource available again: a subsequent
    /// acquirer succeeds.
    fn release(&mut self)
        ensures
            final(self).free(),
    {
        self.free = true;
        self.held = false;
    }

    fn pause(&mut self, _ms: u64) {
    }
}

} // verus!
