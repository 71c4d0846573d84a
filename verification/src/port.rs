//! Byte-port pairs and the operation log they produce.
//!
//! Every bus in this driver is driven through a pair of one-byte ports:
//! the EC uses a command port and a data port, the Super I/O chip an
//! index port and a data port. A [`PortPair`] abstracts such a pair
//! behind four operations and records, in ghost state, the exact
//! sequence of port operations performed. All protocol contracts in
//! this crate are stated over that log.

use vstd::prelude::*;

use crate::Error;

verus! {

/// The four kinds of operation a port pair supports. `Ctl` is the
/// control port of the pair (the EC's command port, the Super I/O's
/// index port); `Data` is the data port.
#[derive(Debug, Clone, Copy, PartialEq, Eq, Structural)]
pub enum OpKind {
    ReadCtl,
    WriteCtl,
    ReadData,
    WriteData,
}

/// One port operation together with the byte it carried: the byte that
/// was read, or the byte that was written.
#[derive(Debug, Clone, Copy, PartialEq, Eq, Structural)]
pub struct Op {
    pub kind: OpKind,
    pub val: u8,
}

impl Op {
    /// A read of the control port that returned `v`.
    pub open spec fn read_ctl(v: u8) -> Op {
        Op { kind: OpKind::ReadCtl, val: v }
    }

    /// A write of `v` to the control port.
    pub open spec fn write_ctl(v: u8) -> Op {
        Op { kind: OpKind::WriteCtl, val: v }
    }

    /// A read of the data port that returned `v`.
    pub open spec fn read_data(v: u8) -> Op {
        Op { kind: OpKind::ReadData, val: v }
    }

    /// A write of `v` to the data port.
    pub open spec fn write_data(v: u8) -> Op {
        Op { kind: OpKind::WriteData, val: v }
    }
}

/// Whether the operation emitted a byte towards the device.
pub open spec fn is_emit(op: Op) -> bool {
    op.kind is WriteCtl || op.kind is WriteData
}

/// The writes of a log, in order, across both ports. This is the frame
/// a bus transaction emits towards the device.
pub open spec fn emits(s: Seq<Op>) -> Seq<Op> {
    s.filter(|op: Op| is_emit(op))
}

/// The data-port reads of a log, in order.
pub open spec fn data_reads(s: Seq<Op>) -> Seq<Op> {
    s.filter(|op: Op| op.kind is ReadData)
}

/// Every operation in the log is a read of the control port.
pub open spec fn ctl_reads_only(s: Seq<Op>) -> bool {
    forall|i: int| 0 <= i < s.len() ==> (#[trigger] s[i]).kind is ReadCtl
}

/// The part of `post` that a call appended after `pre`.
pub open spec fn log_delta(pre: Seq<Op>, post: Seq<Op>) -> Seq<Op> {
    post.skip(pre.len() as int)
}

/// A pair of one-byte ports bound to fixed addresses, with a ghost log
/// of every operation performed through the pair.
///
/// Hardware-backed implementations promise nothing about the bytes a
/// read returns; they only log faithfully. An implementation whose
/// operations cannot fail says so through [`PortPair::infallible`], and
/// the protocol layers then owe exact timeout behaviour.
pub trait PortPair: Sized {
    /// Every operation performed through the pair so far, oldest first.
    spec fn log(&self) -> Seq<Op>;

    /// Whether the four operations of this implementation always
    /// succeed. Hardware backends answer `false`.
    spec fn infallible() -> bool;

    /// Read one byte from the control port.
    fn read_ctl(&mut self) -> (r: Result<u8, Error>)
        ensures
            (match r {
                Ok(b) => final(self).log() == old(self).log().push(Op::read_ctl(b)),
                Err(_) => final(self).log() == old(self).log(),
            }),
            Self::infallible() ==> r is Ok,
    ;

    /// Write one byte to the control port.
    fn write_ctl(&mut self, v: u8) -> (r: Result<(), Error>)
        ensures
            (match r {
                Ok(()) => final(self).log() == old(self).log().push(Op::write_ctl(v)),
                Err(_) => final(self).log() == old(self).log(),
            }),
            Self::infallible() ==> r is Ok,
    ;

    /// Read one byte from the data port.
    fn read_data(&mut self) -> (r: Result<u8, Error>)
        ensures
            (match r {
                Ok(b) => final(self).log() == old(self).log().push(Op::read_data(b)),
                Err(_) => final(self).log() == old(self).log(),
            }),
            Self::infallible() ==> r is Ok,
    ;

    /// Write one byte to the data port.
    fn write_data(&mut self, v: u8) -> (r: Result<(), Error>)
        ensures
            (match r {
                Ok(()) => final(self).log() == old(self).log().push(Op::write_data(v)),
                Err(_) => final(self).log() == old(self).log(),
            }),
            Self::infallible() ==> r is Ok,
    ;

    /// Wait roughly `ms` milliseconds between two polls. Timing is a
    /// property of the backend; a simulator returns immediately.
    fn pause(&mut self, ms: u64)
        ensures
            final(self).log() == old(self).log(),
    ;
}

/// A byte source: one end of a port, read side.
pub trait ReadByte {
    /// Read one byte.
    fn read(&mut self) -> Result<u8, Error>;
}

/// A byte sink: one end of a port, write side.
pub trait WriteByte {
    /// Write one byte.
    fn write(&mut self, value: u8) -> Result<(), Error>;
}

/// A single byte-oriented port bound to one fixed hardware address.
/// Hardware backends implement this outside the verified core; nothing
/// is assumed of the bytes they carry.
pub trait Port: ReadByte + WriteByte {
    /// The fixed address this port is bound to.
    fn get_port(&self) -> u16;

    /// Wait roughly `ms` milliseconds.
    fn pause(&self, ms: u64);
}

/// Two single ports joined into a [`PortPair`], with the shared
/// operation log kept here. This is how hardware-backed [`Port`]
/// implementations are handed to the bus layers.
pub struct PairOf<C: Port, D: Port> {
    ctl: C,
    data: D,
    log: Ghost<Seq<Op>>,
}

impl<C: Port, D: Port> PairOf<C, D> {
    /// Join a control port and a data port into a pair with an empty log.
    pub fn new(ctl: C, data: D) -> (r: PairOf<C, D>)
        ensures
            r.log() == Seq::<Op>::empty(),
    {
        PairOf { ctl, data, log: Ghost(Seq::empty()) }
    }
}

impl<C: Port, D: Port> PortPair for PairOf<C, D> {
    closed spec fn log(&self) -> Seq<Op> {
        self.log@
    }

    open spec fn infallible() -> bool {
        false
    }

    fn read_ctl(&mut self) -> (r: Result<u8, Error>) {
        match self.ctl.read() {
            Ok(b) => {
                self.log = Ghost(self.log@.push(Op::read_ctl(b)));
                Ok(b)
            },
            Err(e) => Err(e),
        }
    }

    fn write_ctl(&mut self, v: u8) -> (r: Result<(), Error>) {
        match self.ctl.write(v) {
            Ok(()) => {
                self.log = Ghost(self.log@.push(Op::write_ctl(v)));
                Ok(())
            },
            Err(e) => Err(e),
        }
    }

    fn read_data(&mut self) -> (r: Result<u8, Error>) {
        match self.data.read() {
            Ok(b) => {
                self.log = Ghost(self.log@.push(Op::read_data(b)));
                Ok(b)
            },
            Err(e) => Err(e),
        }
    }

    fn write_data(&mut self, v: u8) -> (r: Result<(), Error>) {
        match self.data.write(v) {
            Ok(()) => {
                self.log = Ghost(self.log@.push(Op::write_data(v)));
                Ok(())
            },
            Err(e) => Err(e),
        }
    }

    fn pause(&mut self, ms: u64) {
        self.ctl.pause(ms);
    }
}

} // verus!
