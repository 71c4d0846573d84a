//! The Super I/O index/data protocol and the extended-mode discipline.

use qute_ctrl::port::Op;
use qute_ctrl::port::OpKind;
use qute_ctrl::sim::SimSio;
use qute_ctrl::sio::Controller;

#[test]
fn read_byte_selects_then_reads() {
    let mut sio = SimSio::new();
    sio.set_register(0x42, 0x99);
    let mut ctrl = Controller::new(sio);
    assert_eq!(ctrl.read_byte(0x42), Ok(0x99));
    let trace = ctrl.port_pair().trace();
    assert_eq!(
        *trace,
        vec![
            Op { kind: OpKind::WriteCtl, val: 0x42 },
            Op { kind: OpKind::ReadData, val: 0x99 },
        ]
    );
}

#[test]
fn read_word_combines_big_endian() {
    let mut sio = SimSio::new();
    sio.set_register(0x20, 0x85);
    sio.set_register(0x21, 0x28);
    let mut ctrl = Controller::new(sio);
    assert_eq!(ctrl.read_word(0x20), Ok(0x8528));
}

#[test]
fn select_logical_device_writes_the_selector() {
    let mut ctrl = Controller::new(SimSio::new());
    ctrl.select_logical_device(0x05).unwrap();
    let trace = ctrl.port_pair().trace();
    assert_eq!(
        *trace,
        vec![
            Op { kind: OpKind::WriteCtl, val: 0x07 },
            Op { kind: OpKind::WriteData, val: 0x05 },
        ]
    );
}

#[test]
fn select_special_function_writes_index_then_data() {
    let mut ctrl = Controller::new(SimSio::new());
    ctrl.select_special_function(0x23, 0x01).unwrap();
    let trace = ctrl.port_pair().trace();
    assert_eq!(
        *trace,
        vec![
            Op { kind: OpKind::WriteCtl, val: 0x23 },
            Op { kind: OpKind::WriteData, val: 0x01 },
        ]
    );
}

#[test]
fn enter_pnp_emits_the_unlock_sequence() {
    let mut ctrl = Controller::new(SimSio::new());
    ctrl.enter_pnp().unwrap();
    let trace = ctrl.port_pair().trace();
    assert_eq!(
        *trace,
        vec![
            Op { kind: OpKind::WriteCtl, val: 0x87 },
            Op { kind: OpKind::WriteCtl, val: 0x01 },
            Op { kind: OpKind::WriteCtl, val: 0x55 },
            Op { kind: OpKind::WriteCtl, val: 0x55 },
        ]
    );
}

#[test]
fn exit_after_enter_emits_the_exit_sequence_exactly_once() {
    let mut ctrl = Controller::new(SimSio::new());
    ctrl.enter_pnp().unwrap();
    ctrl.exit_pnp().unwrap();
    let after_first = ctrl.port_pair().trace().clone();
    assert_eq!(
        after_first[after_first.len() - 2..],
        [
            Op { kind: OpKind::WriteCtl, val: 0x02 },
            Op { kind: OpKind::WriteData, val: 0x02 },
        ]
    );
    // a second release issues nothing more
    ctrl.exit_pnp().unwrap();
    assert_eq!(*ctrl.port_pair().trace(), after_first);
}

#[test]
fn exit_without_enter_emits_nothing() {
    let mut ctrl = Controller::new(SimSio::new());
    ctrl.exit_pnp().unwrap();
    assert_eq!(ctrl.port_pair().trace().len(), 0);
}
