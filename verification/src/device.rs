//! The EC bus: the command/data handshake protocol.
//!
//! A logical 16-bit register read or write is translated into a strict
//! sequence of one-byte port transactions, each gated by a bounded poll
//! of the status byte. The contracts below pin the exact frame a
//! transaction emits, the byte it returns, and the poll budget spent
//! before a `Timeout` is surfaced.

use vstd::prelude::*;

use crate::port::{
    ctl_reads_only, data_reads, emits, is_emit, log_delta, Op, PortPair,
};
use crate::status::{ibf_set, obf_set, Status};
use crate::Error;

verus! {

/// Milliseconds between two polls of the status byte.
pub const SPIN_INTERVAL: u64 = 0x32;

/// How many times one wait stage polls the status byte before declaring
/// a timeout; a stage may therefore block for `WAIT_TIMES` spin
/// intervals before failing.
pub const WAIT_TIMES: u32 = 20;

/// The opcode written to the command port to select a register
/// operation. Bit 7 ([`WRITE_FLAG`]) marks a register write.
pub const REGISTER_OP: u8 = 0x88;

/// Bit 7 of the opcode: the operation writes the register rather than
/// reading it.
pub const WRITE_FLAG: u8 = 0x80;

/// The high byte of a register address as it goes onto the wire.
pub open spec fn addr_hi(addr: u16) -> u8 {
    ((addr >> 8) & 0xff) as u8
}

/// The low byte of a register address as it goes onto the wire.
pub open spec fn addr_lo(addr: u16) -> u8 {
    (addr & 0xff) as u8
}

/// The exact frame a register read emits, in order: the opcode on the
/// command port, then the address high and low bytes on the data port.
pub open spec fn get_frame(addr: u16) -> Seq<Op> {
    seq![
        Op::write_ctl(REGISTER_OP),
        Op::write_data(addr_hi(addr)),
        Op::write_data(addr_lo(addr)),
    ]
}

/// The exact frame a register write emits, in order: the opcode with
/// the write flag, the address high and low bytes, then the value.
pub open spec fn set_frame(addr: u16, value: u8) -> Seq<Op> {
    seq![
        Op::write_ctl(REGISTER_OP | WRITE_FLAG),
        Op::write_data(addr_hi(addr)),
        Op::write_data(addr_lo(addr)),
        Op::write_data(value),
    ]
}

/// A completed wait for input-ready: zero or more status reads that
/// still showed IBF set, then one that showed it clear.
pub open spec fn ibf_wait(s: Seq<Op>) -> bool {
    &&& s.len() >= 1
    &&& forall|i: int|
        0 <= i < s.len() - 1 ==> (#[trigger] s[i]).kind is ReadCtl && ibf_set(s[i].val)
    &&& s.last().kind is ReadCtl
    &&& !ibf_set(s.last().val)
}

/// A completed wait for output-ready: zero or more status reads that
/// still showed OBF clear, then one that showed it set.
pub open spec fn obf_wait(s: Seq<Op>) -> bool {
    &&& s.len() >= 1
    &&& forall|i: int|
        0 <= i < s.len() - 1 ==> (#[trigger] s[i]).kind is ReadCtl && !obf_set(s[i].val)
    &&& s.last().kind is ReadCtl
    &&& obf_set(s.last().val)
}

/// Status reads that all still showed IBF set: an exhausted wait for
/// input-ready.
pub open spec fn ibf_stuck(s: Seq<Op>) -> bool {
    forall|i: int| 0 <= i < s.len() ==> (#[trigger] s[i]).kind is ReadCtl && ibf_set(s[i].val)
}

/// Status reads that all still showed OBF clear: an exhausted wait for
/// output-ready.
pub open spec fn obf_stuck(s: Seq<Op>) -> bool {
    forall|i: int| 0 <= i < s.len() ==> (#[trigger] s[i]).kind is ReadCtl && !obf_set(s[i].val)
}

/// Polls of the control port that all failed the mask.
pub open spec fn failed_polls(s: Seq<Op>, m: Status) -> bool {
    forall|i: int| 0 <= i < s.len() ==> (#[trigger] s[i]).kind is ReadCtl && !m.sat(s[i].val)
}

/// A successful poll stage: polls that failed the mask, then one that
/// satisfied it.
pub open spec fn wait_seq(s: Seq<Op>, m: Status) -> bool {
    &&& s.len() >= 1
    &&& failed_polls(s.drop_last(), m)
    &&& s.last().kind is ReadCtl
    &&& m.sat(s.last().val)
}

/// The operation at `i` is immediately preceded by a status read that
/// showed IBF clear. Kept opaque so that the gating quantifiers do not
/// chain backwards through the log.
#[verifier::opaque]
pub open spec fn write_gate_at(s: Seq<Op>, i: int) -> bool {
    i >= 1 && s[i - 1].kind is ReadCtl && !ibf_set(s[i - 1].val)
}

/// The operation at `i` is immediately preceded by a status read that
/// showed OBF set.
#[verifier::opaque]
pub open spec fn read_gate_at(s: Seq<Op>, i: int) -> bool {
    i >= 1 && s[i - 1].kind is ReadCtl && obf_set(s[i - 1].val)
}

/// Every byte emitted towards the device is immediately preceded by a
/// status read that showed IBF clear: nothing is sent before the EC
/// consumed the previous byte.
pub open spec fn writes_gated(s: Seq<Op>) -> bool {
    forall|i: int| 0 <= i < s.len() && is_emit(#[trigger] s[i]) ==> write_gate_at(s, i)
}

/// Every data-port read is immediately preceded by a status read that
/// showed OBF set: nothing is read before the EC offered a byte.
pub open spec fn reads_gated(s: Seq<Op>) -> bool {
    forall|i: int| 0 <= i < s.len() && (#[trigger] s[i]).kind is ReadData ==> read_gate_at(s, i)
}

/// What `clear_stale_output` leaves in the log: one status read, and a
/// discarded data-port read if and only if the status showed OBF set.
pub open spec fn clear_shape(s: Seq<Op>) -> bool {
    ||| (s.len() == 1 && s[0].kind is ReadCtl && !obf_set(s[0].val))
    ||| (s.len() == 2 && s[0].kind is ReadCtl && obf_set(s[0].val) && s[1].kind is ReadData)
}

/// Appending a log keeps the old log as a prefix, and the delta is
/// exactly what was appended.
proof fn lemma_delta_of_add(pre: Seq<Op>, delta: Seq<Op>)
    ensures
        pre.is_prefix_of(pre + delta),
        log_delta(pre, pre + delta) == delta,
{
    assert(pre =~= (pre + delta).subrange(0, pre.len() as int));
    assert(log_delta(pre, pre + delta) =~= delta);
}

/// A log that extends a prefix is the prefix plus its delta.
proof fn lemma_prefix_decompose(pre: Seq<Op>, post: Seq<Op>)
    requires
        pre.is_prefix_of(post),
    ensures
        post == pre + log_delta(pre, post),
{
    assert(post =~= pre + post.skip(pre.len() as int));
}

/// How one appended operation moves through the projections.
proof fn lemma_emits_push(s: Seq<Op>, x: Op)
    ensures
        emits(s.push(x)) == if is_emit(x) {
            emits(s).push(x)
        } else {
            emits(s)
        },
        data_reads(s.push(x)) == if x.kind is ReadData {
            data_reads(s).push(x)
        } else {
            data_reads(s)
        },
{
    reveal(Seq::filter);
    assert(s.push(x).drop_last() =~= s);
    assert(s.push(x).last() == x);
}

/// A completed wait holds nothing but status reads.
proof fn lemma_ibf_wait_ctl_only(s: Seq<Op>)
    requires
        ibf_wait(s),
    ensures
        ctl_reads_only(s),
{
    assert forall|i: int| 0 <= i < s.len() implies (#[trigger] s[i]).kind is ReadCtl by {
        if i == s.len() - 1 {
            assert(s[i] == s.last());
        }
    }
}

/// A completed wait holds nothing but status reads.
proof fn lemma_obf_wait_ctl_only(s: Seq<Op>)
    requires
        obf_wait(s),
    ensures
        ctl_reads_only(s),
{
    assert forall|i: int| 0 <= i < s.len() implies (#[trigger] s[i]).kind is ReadCtl by {
        if i == s.len() - 1 {
            assert(s[i] == s.last());
        }
    }
}

/// A poll stage followed by one operation projects to that operation
/// alone.
proof fn lemma_segment_projections(polls: Seq<Op>, op: Op)
    requires
        ctl_reads_only(polls),
    ensures
        emits(polls.push(op)) == if is_emit(op) {
            seq![op]
        } else {
            Seq::<Op>::empty()
        },
        data_reads(polls.push(op)) == if op.kind is ReadData {
            seq![op]
        } else {
            Seq::<Op>::empty()
        },
{
    lemma_ctl_only_projections(polls);
    lemma_emits_push(polls, op);
    assert(Seq::<Op>::empty().push(op) =~= seq![op]);
}

/// A log of status reads only is trivially gated.
proof fn lemma_ctl_only_gated(s: Seq<Op>)
    requires
        ctl_reads_only(s),
    ensures
        writes_gated(s),
        reads_gated(s),
{
}

/// An emission after a completed input-ready wait is gated.
proof fn lemma_write_segment_gated(polls: Seq<Op>, op: Op)
    requires
        ibf_wait(polls),
        is_emit(op),
    ensures
        writes_gated(polls.push(op)),
        reads_gated(polls.push(op)),
{
    let s = polls.push(op);
    lemma_ibf_wait_ctl_only(polls);
    assert forall|i: int| 0 <= i < s.len() && is_emit(#[trigger] s[i]) implies write_gate_at(
        s,
        i,
    ) by {
        reveal(write_gate_at);
        if i < polls.len() {
            assert(s[i] == polls[i]);
        }
        assert(i == polls.len());
        assert(s[i - 1] == polls.last());
    }
    assert forall|i: int|
        0 <= i < s.len() && (#[trigger] s[i]).kind is ReadData implies read_gate_at(s, i) by {
        if i < polls.len() {
            assert(s[i] == polls[i]);
        } else {
            assert(s[i] == op);
        }
        assert(false);
    }
}

/// A data-port read after a completed output-ready wait is gated.
proof fn lemma_read_segment_gated(polls: Seq<Op>, op: Op)
    requires
        obf_wait(polls),
        op.kind is ReadData,
    ensures
        writes_gated(polls.push(op)),
        reads_gated(polls.push(op)),
{
    let s = polls.push(op);
    lemma_obf_wait_ctl_only(polls);
    assert forall|i: int| 0 <= i < s.len() && is_emit(#[trigger] s[i]) implies write_gate_at(
        s,
        i,
    ) by {
        if i < polls.len() {
            assert(s[i] == polls[i]);
        } else {
            assert(s[i] == op);
        }
        assert(false);
    }
    assert forall|i: int|
        0 <= i < s.len() && (#[trigger] s[i]).kind is ReadData implies read_gate_at(s, i) by {
        reveal(read_gate_at);
        if i < polls.len() {
            assert(s[i] == polls[i]);
        }
        assert(i == polls.len());
        assert(s[i - 1] == polls.last());
    }
}

/// A stale-output clear is gated and emits nothing.
proof fn lemma_clear_segment(s: Seq<Op>)
    requires
        clear_shape(s),
    ensures
        writes_gated(s),
        reads_gated(s),
        emits(s) == Seq::<Op>::empty(),
        data_reads(s).len() <= 1,
{
    reveal_with_fuel(Seq::filter, 3);
    assert forall|i: int| 0 <= i < s.len() && is_emit(#[trigger] s[i]) implies write_gate_at(
        s,
        i,
    ) by {
        assert(false);
    }
    assert forall|i: int|
        0 <= i < s.len() && (#[trigger] s[i]).kind is ReadData implies read_gate_at(s, i) by {
        reveal(read_gate_at);
        assert(i == 1);
    }
    if s.len() == 1 {
        assert(s.drop_last() =~= Seq::<Op>::empty());
        assert(emits(s) =~= Seq::<Op>::empty());
        assert(data_reads(s) =~= Seq::<Op>::empty());
    } else {
        assert(s.drop_last() =~= seq![s[0]]);
        assert(seq![s[0]].drop_last() =~= Seq::<Op>::empty());
        assert(emits(s) =~= Seq::<Op>::empty());
        assert(data_reads(s) =~= seq![s[1]]);
    }
}

/// Projections of a log that holds only control-port reads are empty.
proof fn lemma_ctl_only_projections(s: Seq<Op>)
    requires
        ctl_reads_only(s),
    ensures
        emits(s) == Seq::<Op>::empty(),
        data_reads(s) == Seq::<Op>::empty(),
    decreases s.len(),
{
    reveal(Seq::filter);
    if s.len() != 0 {
        assert(ctl_reads_only(s.drop_last()));
        lemma_ctl_only_projections(s.drop_last());
    }
}

/// Gating predicates lift over concatenation: a gated op never stands
/// first in a gated log, so the boundary is safe.
proof fn lemma_gated_concat(a: Seq<Op>, b: Seq<Op>)
    requires
        writes_gated(a),
        writes_gated(b),
        reads_gated(a),
        reads_gated(b),
    ensures
        writes_gated(a + b),
        reads_gated(a + b),
{
    let s = a + b;
    assert forall|i: int| 0 <= i < s.len() && is_emit(#[trigger] s[i]) implies write_gate_at(
        s,
        i,
    ) by {
        reveal(write_gate_at);
        if i < a.len() {
            assert(s[i] == a[i]);
            assert(write_gate_at(a, i));
            assert(s[i - 1] == a[i - 1]);
        } else {
            let j = i - a.len();
            assert(s[i] == b[j]);
            assert(write_gate_at(b, j));
            assert(s[i - 1] == b[j - 1]);
        }
    }
    assert forall|i: int|
        0 <= i < s.len() && (#[trigger] s[i]).kind is ReadData implies read_gate_at(s, i) by {
        reveal(read_gate_at);
        if i < a.len() {
            assert(s[i] == a[i]);
            assert(read_gate_at(a, i));
            assert(s[i - 1] == a[i - 1]);
        } else {
            let j = i - a.len();
            assert(s[i] == b[j]);
            assert(read_gate_at(b, j));
            assert(s[i - 1] == b[j - 1]);
        }
    }
}

/// Low level abstraction of the EC: a command/data port pair driven by
/// the handshake protocol.
pub struct Device<C: PortPair> {
    chan: C,
}

impl<C: PortPair> Device<C> {
    /// Every port operation this device has performed, oldest first.
    pub closed spec fn log(&self) -> Seq<Op> {
        self.chan.log()
    }

    /// Wrap a port pair.
    pub fn new(chan: C) -> (r: Device<C>)
        ensures
            r.log() == chan.log(),
    {
        Device { chan }
    }

    /// The port pair this device drives, for inspection.
    pub fn port_pair(&self) -> (r: &C)
        ensures
            r.log() == self.log(),
    {
        &self.chan
    }

    /// Poll the status byte until the mask is satisfied, at most
    /// `times` polls with a spin interval between them.
    fn poll_until(&mut self, mask: &Status, times: u32) -> (r: Result<(), Error>)
        ensures
            old(self).log().is_prefix_of(final(self).log()),
            ({
                let delta = log_delta(old(self).log(), final(self).log());
                &&& ctl_reads_only(delta)
                &&& delta.len() <= times
                &&& match r {
                    Ok(()) => wait_seq(delta, *mask),
                    Err(e) => {
                        &&& failed_polls(delta, *mask)
                        &&& (C::infallible() ==> e == Error::Timeout && delta.len() == times)
                    },
                }
            }),
    {
        let ghost log0 = self.chan.log();
        let ghost mut polls: Seq<Op> = Seq::empty();
        let mut i: u32 = 0;
        while i < times
            invariant
                i <= times,
                polls.len() == i,
                log0 == old(self).log(),
                self.chan.log() == log0 + polls,
                failed_polls(polls, *mask),
            decreases times - i,
        {
            let st = match self.chan.read_ctl() {
                Ok(b) => b,
                Err(e) => {
                    proof {
                        lemma_delta_of_add(log0, polls);
                    }
                    return Err(e);
                },
            };
            if mask.satisfied(st) {
                proof {
                    let done = polls.push(Op::read_ctl(st));
                    assert(self.chan.log() =~= log0 + done);
                    assert(done.drop_last() =~= polls);
                    lemma_delta_of_add(log0, done);
                }
                return Ok(());
            }
            self.chan.pause(SPIN_INTERVAL);
            proof {
                let grown = polls.push(Op::read_ctl(st));
                assert(self.chan.log() =~= log0 + grown);
                polls = grown;
            }
            i = i + 1;
        }
        proof {
            lemma_delta_of_add(log0, polls);
        }
        Err(Error::Timeout)
    }

    /// Wait until the EC has consumed the previous byte: poll for IBF
    /// clear, bounded by [`WAIT_TIMES`].
    fn wait_input_ready(&mut self) -> (r: Result<(), Error>)
        ensures
            old(self).log().is_prefix_of(final(self).log()),
            ({
                let delta = log_delta(old(self).log(), final(self).log());
                &&& ctl_reads_only(delta)
                &&& delta.len() <= WAIT_TIMES
                &&& match r {
                    Ok(()) => ibf_wait(delta),
                    Err(e) => {
                        &&& ibf_stuck(delta)
                        &&& (C::infallible() ==> e == Error::Timeout && delta.len() == WAIT_TIMES)
                    },
                }
            }),
    {
        let mask = Status::Not(Box::new(Status::IBF));
        let r = self.poll_until(&mask, WAIT_TIMES);
        proof {
            reveal_with_fuel(Status::sat, 3);
            let delta = log_delta(old(self).log(), self.log());
            assert forall|v: u8| mask.sat(v) == !ibf_set(v) by {
                reveal_with_fuel(Status::sat, 3);
            }
            if r is Ok {
                let polls = delta.drop_last();
                assert(failed_polls(polls, mask));
                assert forall|i: int|
                    0 <= i < delta.len() - 1 implies (#[trigger] delta[i]).kind is ReadCtl
                    && ibf_set(delta[i].val) by {
                    assert(polls[i] == delta[i]);
                    assert(polls[i].kind is ReadCtl && !mask.sat(polls[i].val));
                }
            } else {
                assert forall|i: int|
                    0 <= i < delta.len() implies (#[trigger] delta[i]).kind is ReadCtl && ibf_set(
                    delta[i].val) by {
                    assert(delta[i].kind is ReadCtl && !mask.sat(delta[i].val));
                }
            }
        }
        r
    }

    /// Wait until the EC has a byte ready to read: poll for OBF set,
    /// bounded by [`WAIT_TIMES`].
    fn wait_output_ready(&mut self) -> (r: Result<(), Error>)
        ensures
            old(self).log().is_prefix_of(final(self).log()),
            ({
                let delta = log_delta(old(self).log(), final(self).log());
                &&& ctl_reads_only(delta)
                &&& delta.len() <= WAIT_TIMES
                &&& match r {
                    Ok(()) => obf_wait(delta),
                    Err(e) => {
                        &&& obf_stuck(delta)
                        &&& (C::infallible() ==> e == Error::Timeout && delta.len() == WAIT_TIMES)
                    },
                }
            }),
    {
        let mask = Status::OBF;
        let r = self.poll_until(&mask, WAIT_TIMES);
        proof {
            reveal_with_fuel(Status::sat, 2);
            let delta = log_delta(old(self).log(), self.log());
            assert forall|v: u8| mask.sat(v) == obf_set(v) by {
                reveal_with_fuel(Status::sat, 2);
            }
            if r is Ok {
                let polls = delta.drop_last();
                assert(failed_polls(polls, mask));
                assert forall|i: int|
                    0 <= i < delta.len() - 1 implies (#[trigger] delta[i]).kind is ReadCtl
                    && !obf_set(delta[i].val) by {
                    assert(polls[i] == delta[i]);
                    assert(polls[i].kind is ReadCtl && !mask.sat(polls[i].val));
                }
            } else {
                assert forall|i: int|
                    0 <= i < delta.len() implies (#[trigger] delta[i]).kind is ReadCtl && !obf_set(
                    delta[i].val) by {
                    assert(delta[i].kind is ReadCtl && !mask.sat(delta[i].val));
                }
            }
        }
        r
    }

    /// If a byte from an earlier, possibly aborted, transaction is still
    /// pending, read and discard it. This is the protocol's only
    /// resynchronisation step, not an error path.
    pub fn clear_buffer(&mut self) -> (r: Result<(), Error>)
        ensures
            old(self).log().is_prefix_of(final(self).log()),
            ({
                let delta = log_delta(old(self).log(), final(self).log());
                match r {
                    Ok(()) => clear_shape(delta),
                    Err(_) => {
                        &&& delta.len() <= 1
                        &&& ctl_reads_only(delta)
                    },
                }
            }),
            C::infallible() ==> r is Ok,
    {
        let ghost log0 = self.log();
        let st = match self.chan.read_ctl() {
            Ok(b) => b,
            Err(e) => {
                proof {
                    assert(log_delta(log0, self.log()) =~= Seq::<Op>::empty());
                    assert(log0.is_prefix_of(log0));
                }
                return Err(e);
            },
        };
        proof {
            let d = seq![Op::read_ctl(st)];
            assert(self.log() =~= log0 + d);
            lemma_delta_of_add(log0, d);
        }
        if Status::OBF.satisfied(st) {
            match self.chan.read_data() {
                Ok(_) => {},
                Err(e) => {
                    return Err(e);
                },
            }
            proof {
                let d = log_delta(log0, self.log());
                assert(d =~= seq![Op::read_ctl(st)].push(d.last()));
                lemma_delta_of_add(log0, seq![Op::read_ctl(st)].push(d.last()));
            }
        }
        Ok(())
    }

    /// Wait for input-ready, then write one byte to the command port.
    pub fn write_cmd_port(&mut self, value: u8) -> (r: Result<(), Error>)
        ensures
            old(self).log().is_prefix_of(final(self).log()),
            ({
                let delta = log_delta(old(self).log(), final(self).log());
                match r {
                    Ok(()) => {
                        &&& delta.len() >= 2
                        &&& delta.len() <= WAIT_TIMES + 1
                        &&& delta.last() == Op::write_ctl(value)
                        &&& ibf_wait(delta.drop_last())
                    },
                    Err(e) => {
                        &&& ctl_reads_only(delta)
                        &&& delta.len() <= WAIT_TIMES
                        &&& (C::infallible() ==> e == Error::Timeout && ibf_stuck(delta)
                            && delta.len() == WAIT_TIMES)
                    },
                }
            }),
    {
        let ghost log0 = self.log();
        match self.wait_input_ready() {
            Ok(()) => {},
            Err(e) => {
                return Err(e);
            },
        }
        let ghost d1 = log_delta(log0, self.log());
        proof {
            lemma_prefix_decompose(log0, self.log());
            lemma_ibf_wait_ctl_only(d1);
        }
        match self.chan.write_ctl(value) {
            Ok(()) => {},
            Err(e) => {
                return Err(e);
            },
        }
        proof {
            let dt = d1.push(Op::write_ctl(value));
            assert(self.log() =~= log0 + dt);
            lemma_delta_of_add(log0, dt);
            assert(dt.drop_last() =~= d1);
        }
        Ok(())
    }

    /// Wait for input-ready, then write one byte to the data port.
    pub fn write_data_port(&mut self, value: u8) -> (r: Result<(), Error>)
        ensures
            old(self).log().is_prefix_of(final(self).log()),
            ({
                let delta = log_delta(old(self).log(), final(self).log());
                match r {
                    Ok(()) => {
                        &&& delta.len() >= 2
                        &&& delta.len() <= WAIT_TIMES + 1
                        &&& delta.last() == Op::write_data(value)
                        &&& ibf_wait(delta.drop_last())
                    },
                    Err(e) => {
                        &&& ctl_reads_only(delta)
                        &&& delta.len() <= WAIT_TIMES
                        &&& (C::infallible() ==> e == Error::Timeout && ibf_stuck(delta)
                            && delta.len() == WAIT_TIMES)
                    },
                }
            }),
    {
        let ghost log0 = self.log();
        match self.wait_input_ready() {
            Ok(()) => {},
            Err(e) => {
                return Err(e);
            },
        }
        let ghost d1 = log_delta(log0, self.log());
        proof {
            lemma_prefix_decompose(log0, self.log());
            lemma_ibf_wait_ctl_only(d1);
        }
        match self.chan.write_data(value) {
            Ok(()) => {},
            Err(e) => {
                return Err(e);
            },
        }
        proof {
            let dt = d1.push(Op::write_data(value));
            assert(self.log() =~= log0 + dt);
            lemma_delta_of_add(log0, dt);
            assert(dt.drop_last() =~= d1);
        }
        Ok(())
    }

    /// Wait for output-ready, then read one byte from the data port.
    pub fn read_data_port(&mut self) -> (r: Result<u8, Error>)
        ensures
            old(self).log().is_prefix_of(final(self).log()),
            ({
                let delta = log_delta(old(self).log(), final(self).log());
                match r {
                    Ok(b) => {
                        &&& delta.len() >= 2
                        &&& delta.len() <= WAIT_TIMES + 1
                        &&& delta.last() == Op::read_data(b)
                        &&& obf_wait(delta.drop_last())
                    },
                    Err(e) => {
                        &&& ctl_reads_only(delta)
                        &&& delta.len() <= WAIT_TIMES
                        &&& (C::infallible() ==> e == Error::Timeout && obf_stuck(delta)
                            && delta.len() == WAIT_TIMES)
                    },
                }
            }),
    {
        let ghost log0 = self.log();
        match self.wait_output_ready() {
            Ok(()) => {},
            Err(e) => {
                return Err(e);
            },
        }
        let ghost d1 = log_delta(log0, self.log());
        proof {
            lemma_prefix_decompose(log0, self.log());
            lemma_obf_wait_ctl_only(d1);
        }
        let b = match self.chan.read_data() {
            Ok(b) => b,
            Err(e) => {
                return Err(e);
            },
        };
        proof {
            let dt = d1.push(Op::read_data(b));
            assert(self.log() =~= log0 + dt);
            lemma_delta_of_add(log0, dt);
            assert(dt.drop_last() =~= d1);
        }
        Ok(b)
    }
}

/// Issue the three-byte head of a register transaction: the opcode on
/// the command port, then two bytes on the data port, each preceded by
/// a wait for input-ready.
#[verifier::rlimit(60)]
pub fn send_command<C: PortPair>(ec: &mut Device<C>, cmd1: u8, cmd2: u8, cmd3: u8) -> (r: Result<
    (),
    Error,
>)
    ensures
        old(ec).log().is_prefix_of(final(ec).log()),
        ({
            let delta = log_delta(old(ec).log(), final(ec).log());
            &&& writes_gated(delta)
            &&& reads_gated(delta)
            &&& data_reads(delta) == Seq::<Op>::empty()
            &&& match r {
                Ok(()) => emits(delta) == seq![
                    Op::write_ctl(cmd1),
                    Op::write_data(cmd2),
                    Op::write_data(cmd3),
                ],
                Err(e) => {
                    &&& emits(delta).is_prefix_of(
                        seq![Op::write_ctl(cmd1), Op::write_data(cmd2), Op::write_data(cmd3)],
                    )
                    &&& emits(delta).len() < 3
                    &&& (C::infallible() ==> e == Error::Timeout && delta.len() >= WAIT_TIMES
                        && ibf_stuck(delta.skip(delta.len() - WAIT_TIMES as int)))
                },
            }
        }),
{
    let ghost log0 = ec.log();
    let ghost frame = seq![Op::write_ctl(cmd1), Op::write_data(cmd2), Op::write_data(cmd3)];
    match ec.write_cmd_port(cmd1) {
        Ok(()) => {},
        Err(e) => {
            proof {
                let d = log_delta(log0, ec.log());
                lemma_ctl_only_projections(d);
                lemma_ctl_only_gated(d);
                assert(emits(d) =~= frame.subrange(0, 0));
            }
            return Err(e);
        },
    }
    let ghost d1 = log_delta(log0, ec.log());
    proof {
        lemma_prefix_decompose(log0, ec.log());
        lemma_ibf_wait_ctl_only(d1.drop_last());
        lemma_segment_projections(d1.drop_last(), d1.last());
        assert(d1.drop_last().push(d1.last()) =~= d1);
        lemma_write_segment_gated(d1.drop_last(), d1.last());
    }
    match ec.write_data_port(cmd2) {
        Ok(()) => {},
        Err(e) => {
            proof {
                let d2 = log_delta(log0 + d1, ec.log());
                lemma_prefix_decompose(log0 + d1, ec.log());
                lemma_ctl_only_projections(d2);
                lemma_ctl_only_gated(d2);
                let d = log_delta(log0, ec.log());
                assert(ec.log() =~= log0 + (d1 + d2));
                lemma_delta_of_add(log0, d1 + d2);
                broadcast use vstd::seq_lib::group_filter_ensures;

                assert(emits(d) =~= seq![Op::write_ctl(cmd1)]);
                assert(emits(d) =~= frame.subrange(0, 1));
                assert(data_reads(d) =~= Seq::<Op>::empty());
                lemma_gated_concat(d1, d2);
                if C::infallible() {
                    assert(d.skip(d.len() - WAIT_TIMES as int) =~= d2);
                }
            }
            return Err(e);
        },
    }
    let ghost d2 = log_delta(log0 + d1, ec.log());
    proof {
        lemma_prefix_decompose(log0 + d1, ec.log());
        lemma_ibf_wait_ctl_only(d2.drop_last());
        lemma_segment_projections(d2.drop_last(), d2.last());
        assert(d2.drop_last().push(d2.last()) =~= d2);
        lemma_write_segment_gated(d2.drop_last(), d2.last());
        assert(ec.log() =~= log0 + (d1 + d2));
    }
    match ec.write_data_port(cmd3) {
        Ok(()) => {},
        Err(e) => {
            proof {
                let d3 = log_delta(log0 + (d1 + d2), ec.log());
                lemma_prefix_decompose(log0 + (d1 + d2), ec.log());
                lemma_ctl_only_projections(d3);
                lemma_ctl_only_gated(d3);
                let d = log_delta(log0, ec.log());
                assert(ec.log() =~= log0 + (d1 + d2 + d3));
                lemma_delta_of_add(log0, d1 + d2 + d3);
                broadcast use vstd::seq_lib::group_filter_ensures;

                assert(emits(d) =~= seq![Op::write_ctl(cmd1), Op::write_data(cmd2)]);
                assert(emits(d) =~= frame.subrange(0, 2));
                assert(data_reads(d) =~= Seq::<Op>::empty());
                lemma_gated_concat(d1, d2);
                lemma_gated_concat(d1 + d2, d3);
                if C::infallible() {
                    assert(d.skip(d.len() - WAIT_TIMES as int) =~= d3);
                }
            }
            return Err(e);
        },
    }
    proof {
        let d3 = log_delta(log0 + (d1 + d2), ec.log());
        lemma_prefix_decompose(log0 + (d1 + d2), ec.log());
        lemma_ibf_wait_ctl_only(d3.drop_last());
        lemma_segment_projections(d3.drop_last(), d3.last());
        assert(d3.drop_last().push(d3.last()) =~= d3);
        lemma_write_segment_gated(d3.drop_last(), d3.last());
        let d = log_delta(log0, ec.log());
        assert(ec.log() =~= log0 + (d1 + d2 + d3));
        lemma_delta_of_add(log0, d1 + d2 + d3);
        broadcast use vstd::seq_lib::group_filter_ensures;

        assert(emits(d) =~= frame);
        assert(data_reads(d) =~= Seq::<Op>::empty());
        lemma_gated_concat(d1, d2);
        lemma_gated_concat(d1 + d2, d3);
    }
    Ok(())
}

/// High level abstraction of the EC: logical 16-bit register reads and
/// writes, with the wire frame each transaction emits pinned exactly.
pub trait Controller: Sized {
    /// Every port operation this bus has performed, oldest first.
    spec fn bus_log(&self) -> Seq<Op>;

    /// Whether the underlying port operations always succeed.
    spec fn bus_infallible() -> bool;

    /// Read the byte at register `cmd`.
    ///
    /// On success the transaction has emitted exactly the opcode and the
    /// two address bytes of [`get_frame`], every emission gated by an
    /// input-ready wait, and the returned byte is the one data-port read
    /// that an output-ready wait granted at the end. Besides that final
    /// read, at most one stale byte was flushed at the start. On an
    /// infallible channel a failure is a `Timeout` that comes only after
    /// a full poll budget was spent on one wait stage.
    fn get_byte(&mut self, cmd: u16) -> (r: Result<u8, Error>)
        ensures
            old(self).bus_log().is_prefix_of(final(self).bus_log()),
            ({
                let delta = log_delta(old(self).bus_log(), final(self).bus_log());
                &&& writes_gated(delta)
                &&& reads_gated(delta)
                &&& match r {
                    Ok(b) => {
                        &&& emits(delta) == get_frame(cmd)
                        &&& delta.len() >= 1
                        &&& delta.last() == Op::read_data(b)
                        &&& data_reads(delta).len() <= 2
                        &&& data_reads(delta).last() == Op::read_data(b)
                    },
                    Err(e) => {
                        &&& emits(delta).is_prefix_of(get_frame(cmd))
                        &&& data_reads(delta).len() <= 1
                        &&& (Self::bus_infallible() ==> {
                            &&& e == Error::Timeout
                            &&& delta.len() >= WAIT_TIMES
                            &&& ({
                                let tail = delta.skip(delta.len() - WAIT_TIMES as int);
                                if emits(delta).len() == get_frame(cmd).len() {
                                    obf_stuck(tail)
                                } else {
                                    ibf_stuck(tail)
                                }
                            })
                        })
                    },
                }
            }),
    ;

    /// Write `value` to register `cmd`.
    ///
    /// On success the transaction has emitted exactly the four bytes of
    /// [`set_frame`], every emission gated by an input-ready wait, and
    /// no data-port read took place beyond a possible stale-byte flush
    /// at the start.
    fn set_byte(&mut self, cmd: u16, value: u8) -> (r: Result<(), Error>)
        ensures
            old(self).bus_log().is_prefix_of(final(self).bus_log()),
            ({
                let delta = log_delta(old(self).bus_log(), final(self).bus_log());
                &&& writes_gated(delta)
                &&& reads_gated(delta)
                &&& data_reads(delta).len() <= 1
                &&& match r {
                    Ok(()) => emits(delta) == set_frame(cmd, value),
                    Err(e) => {
                        &&& emits(delta).is_prefix_of(set_frame(cmd, value))
                        &&& (Self::bus_infallible() ==> {
                            &&& e == Error::Timeout
                            &&& delta.len() >= WAIT_TIMES
                            &&& ibf_stuck(delta.skip(delta.len() - WAIT_TIMES as int))
                        })
                    },
                }
            }),
    ;
}

impl<C: PortPair> Controller for Device<C> {
    open spec fn bus_log(&self) -> Seq<Op> {
        self.log()
    }

    open spec fn bus_infallible() -> bool {
        C::infallible()
    }

    fn get_byte(&mut self, cmd: u16) -> (r: Result<u8, Error>) {
        let ghost log0 = self.log();
        match self.clear_buffer() {
            Ok(()) => {},
            Err(e) => {
                proof {
                    let d = log_delta(log0, self.log());
                    lemma_ctl_only_projections(d);
                    lemma_ctl_only_gated(d);
                    assert(emits(d) =~= get_frame(cmd).subrange(0, 0));
                }
                return Err(e);
            },
        }
        let ghost dc = log_delta(log0, self.log());
        proof {
            lemma_prefix_decompose(log0, self.log());
            lemma_clear_segment(dc);
        }
        let b0 = ((cmd >> 8) & 0xff) as u8;
        let b1 = (cmd & 0xff) as u8;
        match send_command(self, REGISTER_OP, b0, b1) {
            Ok(()) => {},
            Err(e) => {
                proof {
                    let ds = log_delta(log0 + dc, self.log());
                    lemma_prefix_decompose(log0 + dc, self.log());
                    let d = log_delta(log0, self.log());
                    assert(self.log() =~= log0 + (dc + ds));
                    lemma_delta_of_add(log0, dc + ds);
                    broadcast use vstd::seq_lib::group_filter_ensures;

                    assert(emits(d) =~= emits(ds));
                    assert(data_reads(d) =~= data_reads(dc));
                    lemma_gated_concat(dc, ds);
                    if C::infallible() {
                        assert(d.skip(d.len() - WAIT_TIMES as int) =~= ds.skip(
                            ds.len() - WAIT_TIMES as int,
                        ));
                    }
                }
                return Err(e);
            },
        }
        let ghost ds = log_delta(log0 + dc, self.log());
        proof {
            lemma_prefix_decompose(log0 + dc, self.log());
            assert(self.log() =~= log0 + (dc + ds));
        }
        let b = match self.read_data_port() {
            Ok(b) => b,
            Err(e) => {
                proof {
                    let dr = log_delta(log0 + (dc + ds), self.log());
                    lemma_prefix_decompose(log0 + (dc + ds), self.log());
                    lemma_ctl_only_projections(dr);
                    lemma_ctl_only_gated(dr);
                    let d = log_delta(log0, self.log());
                    assert(self.log() =~= log0 + (dc + ds + dr));
                    lemma_delta_of_add(log0, dc + ds + dr);
                    broadcast use vstd::seq_lib::group_filter_ensures;

                    assert(emits(d) =~= emits(ds));
                    assert(emits(d) =~= get_frame(cmd));
                    assert(data_reads(d) =~= data_reads(dc));
                    lemma_gated_concat(dc, ds);
                    lemma_gated_concat(dc + ds, dr);
                    if C::infallible() {
                        assert(d.skip(d.len() - WAIT_TIMES as int) =~= dr);
                    }
                }
                return Err(e);
            },
        };
        proof {
            let dr = log_delta(log0 + (dc + ds), self.log());
            lemma_prefix_decompose(log0 + (dc + ds), self.log());
            lemma_obf_wait_ctl_only(dr.drop_last());
            lemma_segment_projections(dr.drop_last(), dr.last());
            assert(dr.drop_last().push(dr.last()) =~= dr);
            lemma_read_segment_gated(dr.drop_last(), dr.last());
            let d = log_delta(log0, self.log());
            assert(self.log() =~= log0 + (dc + ds + dr));
            lemma_delta_of_add(log0, dc + ds + dr);
            broadcast use vstd::seq_lib::group_filter_ensures;

            assert(emits(d) =~= emits(ds));
            assert(emits(d) =~= get_frame(cmd));
            assert(data_reads(d) =~= data_reads(dc) + seq![Op::read_data(b)]);
            assert(d.last() == dr.last());
            lemma_gated_concat(dc, ds);
            lemma_gated_concat(dc + ds, dr);
        }
        Ok(b)
    }

    fn set_byte(&mut self, cmd: u16, value: u8) -> (r: Result<(), Error>) {
        let ghost log0 = self.log();
        match self.clear_buffer() {
            Ok(()) => {},
            Err(e) => {
                proof {
                    let d = log_delta(log0, self.log());
                    lemma_ctl_only_projections(d);
                    lemma_ctl_only_gated(d);
                    assert(emits(d) =~= set_frame(cmd, value).subrange(0, 0));
                }
                return Err(e);
            },
        }
        let ghost dc = log_delta(log0, self.log());
        proof {
            lemma_prefix_decompose(log0, self.log());
            lemma_clear_segment(dc);
        }
        let b0 = ((cmd >> 8) & 0xff) as u8;
        let b1 = (cmd & 0xff) as u8;
        match send_command(self, REGISTER_OP | WRITE_FLAG, b0, b1) {
            Ok(()) => {},
            Err(e) => {
                proof {
                    let ds = log_delta(log0 + dc, self.log());
                    lemma_prefix_decompose(log0 + dc, self.log());
                    let d = log_delta(log0, self.log());
                    assert(self.log() =~= log0 + (dc + ds));
                    lemma_delta_of_add(log0, dc + ds);
                    broadcast use vstd::seq_lib::group_filter_ensures;

                    assert(emits(d) =~= emits(ds));
                    assert(set_frame(cmd, value).subrange(0, 3) =~= seq![
                        Op::write_ctl(REGISTER_OP | WRITE_FLAG),
                        Op::write_data(addr_hi(cmd)),
                        Op::write_data(addr_lo(cmd)),
                    ]);
                    assert(data_reads(d) =~= data_reads(dc));
                    lemma_gated_concat(dc, ds);
                    if C::infallible() {
                        assert(d.skip(d.len() - WAIT_TIMES as int) =~= ds.skip(
                            ds.len() - WAIT_TIMES as int,
                        ));
                    }
                }
                return Err(e);
            },
        }
        let ghost ds = log_delta(log0 + dc, self.log());
        proof {
            lemma_prefix_decompose(log0 + dc, self.log());
            assert(self.log() =~= log0 + (dc + ds));
        }
        match self.write_data_port(value) {
            Ok(()) => {},
            Err(e) => {
                proof {
                    let dv = log_delta(log0 + (dc + ds), self.log());
                    lemma_prefix_decompose(log0 + (dc + ds), self.log());
                    lemma_ctl_only_projections(dv);
                    lemma_ctl_only_gated(dv);
                    let d = log_delta(log0, self.log());
                    assert(self.log() =~= log0 + (dc + ds + dv));
                    lemma_delta_of_add(log0, dc + ds + dv);
                    broadcast use vstd::seq_lib::group_filter_ensures;

                    assert(emits(d) =~= emits(ds));
                    assert(emits(ds) =~= set_frame(cmd, value).subrange(0, 3));
                    assert(data_reads(d) =~= data_reads(dc));
                    lemma_gated_concat(dc, ds);
                    lemma_gated_concat(dc + ds, dv);
                    if C::infallible() {
                        assert(d.skip(d.len() - WAIT_TIMES as int) =~= dv);
                    }
                }
                return Err(e);
            },
        }
        proof {
            let dv = log_delta(log0 + (dc + ds), self.log());
            lemma_prefix_decompose(log0 + (dc + ds), self.log());
            lemma_ibf_wait_ctl_only(dv.drop_last());
            lemma_segment_projections(dv.drop_last(), dv.last());
            assert(dv.drop_last().push(dv.last()) =~= dv);
            lemma_write_segment_gated(dv.drop_last(), dv.last());
            let d = log_delta(log0, self.log());
            assert(self.log() =~= log0 + (dc + ds + dv));
            lemma_delta_of_add(log0, dc + ds + dv);
            broadcast use vstd::seq_lib::group_filter_ensures;

            assert(emits(d) =~= emits(ds) + seq![Op::write_data(value)]);
            assert(emits(d) =~= set_frame(cmd, value));
            assert(data_reads(d) =~= data_reads(dc));
            lemma_gated_concat(dc, ds);
            lemma_gated_concat(dc + ds, dv);
        }
        Ok(())
    }
}

} // verus!
