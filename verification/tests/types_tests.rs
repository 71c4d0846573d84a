//! Domain value encodings.

use qute_ctrl::types::LedColor;
use qute_ctrl::types::MemInfo;
use qute_ctrl::types::PowerRecoveryMode;
use qute_ctrl::types::ShutdownMode;
use qute_ctrl::types::SwitchState;

#[test]
fn led_colors_encode_to_their_raw_values() {
    assert_eq!(u8::from(LedColor::Green), 0);
    assert_eq!(u8::from(LedColor::Red), 1);
    assert_eq!(u8::from(LedColor::Auto), 2);
}

#[test]
fn power_recovery_modes_encode_and_decode() {
    assert_eq!(u8::from(PowerRecoveryMode::Last), 2);
    assert_eq!(u8::from(PowerRecoveryMode::On), 1);
    assert_eq!(u8::from(PowerRecoveryMode::Off), 0);
    assert_eq!(PowerRecoveryMode::from_raw(2), Some(PowerRecoveryMode::Last));
    assert_eq!(PowerRecoveryMode::from_raw(1), Some(PowerRecoveryMode::On));
    assert_eq!(PowerRecoveryMode::from_raw(0), Some(PowerRecoveryMode::Off));
    assert_eq!(PowerRecoveryMode::from_raw(3), None);
}

#[test]
fn power_recovery_modes_describe_themselves() {
    assert_eq!(PowerRecoveryMode::Last.desc(), "restore previous NAS power state");
    assert_eq!(PowerRecoveryMode::On.desc(), "turn on the NAS automatically");
    assert_eq!(PowerRecoveryMode::Off.desc(), "keep the NAS turned off");
}

#[test]
fn switch_states_follow_booleans() {
    assert!(SwitchState::On.is_on());
    assert!(!SwitchState::Off.is_on());
    assert_eq!(SwitchState::from(true), SwitchState::On);
    assert_eq!(SwitchState::from(false), SwitchState::Off);
}

#[test]
fn shutdown_modes_encode_to_their_raw_values() {
    assert_eq!(u8::from(ShutdownMode::Shutdown), 0x20);
    assert_eq!(u8::from(ShutdownMode::Reboot), 0x40);
}

#[test]
fn mem_info_carries_its_fields() {
    let m = MemInfo { total: 1024, free: 256, used: 768 };
    assert_eq!(m.total, m.free + m.used);
}
