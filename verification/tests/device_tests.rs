//! The EC handshake protocol driven against the simulated EC.

use qute_ctrl::device::Device;
use qute_ctrl::device::Controller;
use qute_ctrl::device::WAIT_TIMES;
use qute_ctrl::port::Op;
use qute_ctrl::port::OpKind;
use qute_ctrl::sim::SimEc;
use qute_ctrl::Error;

fn writes_of(trace: &Vec<Op>) -> Vec<Op> {
    let mut out = Vec::new();
    for op in trace {
        if op.kind == OpKind::WriteCtl || op.kind == OpKind::WriteData {
            out.push(*op);
        }
    }
    out
}

fn data_reads_of(trace: &Vec<Op>) -> Vec<Op> {
    let mut out = Vec::new();
    for op in trace {
        if op.kind == OpKind::ReadData {
            out.push(*op);
        }
    }
    out
}

#[test]
fn get_byte_emits_the_read_frame_in_order() {
    let mut ec = SimEc::new();
    ec.preload(0x1a2b, 0x5c);
    let mut dev = Device::new(ec);
    let got = dev.get_byte(0x1a2b).unwrap();
    assert_eq!(got, 0x5c);
    let trace = dev.port_pair().trace();
    let writes = writes_of(trace);
    assert_eq!(
        writes,
        vec![
            Op { kind: OpKind::WriteCtl, val: 0x88 },
            Op { kind: OpKind::WriteData, val: 0x1a },
            Op { kind: OpKind::WriteData, val: 0x2b },
        ]
    );
    // each emission is immediately preceded by a status read that
    // showed input-ready, and each data read by one that showed
    // output-ready
    for (i, op) in trace.iter().enumerate() {
        if op.kind == OpKind::WriteCtl || op.kind == OpKind::WriteData {
            assert!(i >= 1);
            let prev = trace[i - 1];
            assert_eq!(prev.kind, OpKind::ReadCtl);
            assert_eq!(prev.val & 0b10, 0);
        }
        if op.kind == OpKind::ReadData {
            assert!(i >= 1);
            let prev = trace[i - 1];
            assert_eq!(prev.kind, OpKind::ReadCtl);
            assert_eq!(prev.val & 0b01, 0b01);
        }
    }
    // the transaction ends with the one granted data-port read
    assert_eq!(*trace.last().unwrap(), Op { kind: OpKind::ReadData, val: 0x5c });
}

#[test]
fn set_byte_emits_the_write_frame_and_reads_nothing() {
    let mut dev = Device::new(SimEc::new());
    dev.set_byte(0x0216, 0x44).unwrap();
    let trace = dev.port_pair().trace();
    let writes = writes_of(trace);
    assert_eq!(
        writes,
        vec![
            Op { kind: OpKind::WriteCtl, val: 0x88 | 0x80 },
            Op { kind: OpKind::WriteData, val: 0x02 },
            Op { kind: OpKind::WriteData, val: 0x16 },
            Op { kind: OpKind::WriteData, val: 0x44 },
        ]
    );
    assert_eq!(data_reads_of(trace).len(), 0);
}

#[test]
fn set_then_get_round_trips() {
    let mut dev = Device::new(SimEc::new());
    dev.set_byte(0x16, 1).unwrap();
    assert_eq!(dev.port_pair().register(0x16), 1);
    let got = dev.get_byte(0x16).unwrap();
    assert_eq!(got, 1);
}

#[test]
fn get_byte_times_out_after_the_full_output_poll_budget() {
    let mut ec = SimEc::new();
    ec.hold_output();
    let mut dev = Device::new(ec);
    let r = dev.get_byte(0x100);
    assert_eq!(r, Err(Error::Timeout));
    let trace = dev.port_pair().trace();
    // the frame still went out in full
    assert_eq!(writes_of(trace).len(), 3);
    // the tail is exactly the exhausted poll budget, none of which saw
    // output-ready
    let tail = &trace[trace.len() - WAIT_TIMES as usize..];
    assert_eq!(tail.len(), WAIT_TIMES as usize);
    for op in tail {
        assert_eq!(op.kind, OpKind::ReadCtl);
        assert_eq!(op.val & 0b01, 0);
    }
}

#[test]
fn get_byte_times_out_when_input_never_ready() {
    let mut ec = SimEc::new();
    ec.hold_input();
    let mut dev = Device::new(ec);
    let r = dev.get_byte(0x100);
    assert_eq!(r, Err(Error::Timeout));
    let trace = dev.port_pair().trace();
    // nothing was emitted: the first input-ready wait ran out
    assert_eq!(writes_of(trace).len(), 0);
    let tail = &trace[trace.len() - WAIT_TIMES as usize..];
    for op in tail {
        assert_eq!(op.kind, OpKind::ReadCtl);
        assert_eq!(op.val & 0b10, 0b10);
    }
}

#[test]
fn stale_output_is_flushed_before_a_transaction() {
    let mut ec = SimEc::new();
    ec.preload(0x20, 0x7e);
    ec.leave_stale(0x99);
    let mut dev = Device::new(ec);
    let got = dev.get_byte(0x20).unwrap();
    assert_eq!(got, 0x7e);
    let trace = dev.port_pair().trace();
    let reads = data_reads_of(trace);
    assert_eq!(reads.len(), 2);
    assert_eq!(reads[0].val, 0x99);
    assert_eq!(reads[1].val, 0x7e);
}

#[test]
fn a_write_leaves_stale_output_that_the_next_read_flushes() {
    let mut ec = SimEc::new();
    ec.preload(0x31, 0xab);
    let mut dev = Device::new(ec);
    // a write transaction leaves the presented byte unread
    dev.set_byte(0x31, 0xcd).unwrap();
    // the next read flushes it and still returns the fresh value
    let got = dev.get_byte(0x31).unwrap();
    assert_eq!(got, 0xcd);
}
