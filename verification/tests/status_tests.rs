//! The status predicates evaluated against concrete status bytes.

#![allow(non_snake_case)]

use qute_ctrl::status::Status;

#[test]
fn Status_Idle_satisfied() {
    assert_eq!(Status::Idle.satisfied(0), true);
}

#[test]
fn Status_IBF_satisfied() {
    assert_eq!(Status::IBF.satisfied(0b10), true);
}

#[test]
fn Status_OBF_satisfied() {
    assert_eq!(Status::OBF.satisfied(0b01), true);
}

#[test]
fn Status_NOT_OBF_satisfied() {
    assert_eq!(Status::Not(Box::new(Status::OBF)).satisfied(0), true);
    assert_eq!(Status::Not(Box::new(Status::OBF)).satisfied(0b10), true);
}

#[test]
fn Status_ops_not() {
    assert_eq!((!Status::OBF).satisfied(0), true);
}

#[test]
fn status_predicates_over_all_bytes() {
    for s in 0u16..=255 {
        let s = s as u8;
        assert_eq!(Status::Idle.satisfied(s), s & 0b11 == 0);
        assert_eq!(Status::OBF.satisfied(s), s & 0b01 == 0b01);
        assert_eq!(Status::IBF.satisfied(s), s & 0b10 == 0b10);
    }
}

#[test]
fn negation_involution_over_all_bytes() {
    for s in 0u16..=255 {
        let s = s as u8;
        let double = Status::Not(Box::new(Status::Not(Box::new(Status::IBF))));
        assert_eq!(double.satisfied(s), Status::IBF.satisfied(s));
        assert_eq!((!(!Status::Idle)).satisfied(s), Status::Idle.satisfied(s));
        assert_eq!((!Status::OBF).satisfied(s), !Status::OBF.satisfied(s));
    }
}

#[test]
fn describe_collapses_negations() {
    assert_eq!(Status::Idle.describe(), "IDLE");
    assert_eq!(Status::OBF.describe(), "OBF=1");
    assert_eq!(Status::IBF.describe(), "IBF=1");
    assert_eq!((!Status::OBF).describe(), "OBF=0");
    assert_eq!((!Status::IBF).describe(), "IBF=0");
    assert_eq!((!Status::Idle).describe(), "IBF=1 or OBF=1");
    assert_eq!((!(!Status::OBF)).describe(), "OBF=1");
    assert_eq!(
        Status::Not(Box::new(Status::Not(Box::new(Status::Not(Box::new(Status::IBF))))))
            .describe(),
        "IBF=0"
    );
}
