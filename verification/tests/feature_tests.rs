//! Feature operations driven end to end against the simulated EC.

use qute_ctrl::platform::Platform;
use qute_ctrl::device::Device;
use qute_ctrl::feature::EupControl;
use qute_ctrl::feature::FanControl;
use qute_ctrl::feature::Firmware;
use qute_ctrl::feature::LedControl;
use qute_ctrl::feature::Power;
use qute_ctrl::feature::Temperature;
use qute_ctrl::feature::UsbControl;
use qute_ctrl::feature::blink_led_value;
use qute_ctrl::feature::fan_speed_regs;
use qute_ctrl::feature::fan_status_reg;
use qute_ctrl::feature::fan_pwm_regs;
use qute_ctrl::feature::fan_slope_reg;
use qute_ctrl::feature::pwm_scale;
use qute_ctrl::feature::pwm_unscale;
use qute_ctrl::feature::status_led_value;
use qute_ctrl::feature::temp_sensor_reg;
use qute_ctrl::sim::SimEc;
use qute_ctrl::sim::SimSem;
use qute_ctrl::types::LedColor;
use qute_ctrl::types::PowerRecoveryMode;
use qute_ctrl::types::ShutdownMode;
use qute_ctrl::types::SwitchState;
use qute_ctrl::Error;

fn platform_over(ec: SimEc) -> Platform<SimEc, SimSem> {
    Platform::new(Device::new(ec), SimSem::new())
}

#[test]
fn register_map_formulas() {
    assert_eq!(fan_status_reg(0), Ok(0x242));
    assert_eq!(fan_status_reg(6), Ok(0x244));
    assert_eq!(fan_status_reg(0x17), Ok(0x259));
    assert_eq!(fan_status_reg(0x20), Ok(0x25a));
    assert_eq!(fan_status_reg(5), Err(Error::InvalidValue));
    assert_eq!(fan_status_reg(0x24), Err(Error::InvalidValue));

    assert_eq!(fan_speed_regs(0), Ok((0x624, 0x625)));
    assert_eq!(fan_speed_regs(3), Ok((0x62a, 0x62b)));
    assert_eq!(fan_speed_regs(7), Ok((0x223, 0x24b)));
    assert_eq!(fan_speed_regs(0x14), Ok((0x63c, 0x63d)));
    assert_eq!(fan_speed_regs(10), Ok((0x65b, 0x65a)));
    assert_eq!(fan_speed_regs(0xb), Ok((0x65e, 0x65d)));
    assert_eq!(fan_speed_regs(9), Err(Error::InvalidValue));

    assert_eq!(fan_pwm_regs(0), Ok((0x220, 0x22e)));
    assert_eq!(fan_pwm_regs(0x19), Ok((0x221, 0x22f)));
    assert_eq!(fan_pwm_regs(0x1e), Ok((0x222, 0x23b)));
    assert_eq!(fan_pwm_regs(8), Err(Error::InvalidValue));

    assert_eq!(fan_slope_reg(2), Ok(0x296));
    assert_eq!(fan_slope_reg(7), Ok(0x295));
    assert_eq!(fan_slope_reg(10), Err(Error::InvalidValue));
    assert_eq!(fan_slope_reg(0xb), Err(Error::InvalidValue));

    assert_eq!(temp_sensor_reg(0), Ok(0x600));
    assert_eq!(temp_sensor_reg(5), Ok(0x602));
    assert_eq!(temp_sensor_reg(10), Ok(0x659));
    assert_eq!(temp_sensor_reg(0xb), Ok(0x65c));
    assert_eq!(temp_sensor_reg(0x0f), Ok(0x606));
    assert_eq!(temp_sensor_reg(2), Err(Error::InvalidValue));
}

#[test]
fn pwm_scaling_formulas() {
    assert_eq!(pwm_scale(255), 100);
    assert_eq!(pwm_scale(0), 0);
    assert_eq!(pwm_scale(128), 50);
    assert_eq!(pwm_unscale(100), 255);
    assert_eq!(pwm_unscale(0), 0);
    assert_eq!(pwm_unscale(50), 127);
}

#[test]
fn led_value_formulas() {
    assert_eq!(status_led_value(LedColor::Green, true), Ok(2));
    assert_eq!(status_led_value(LedColor::Red, true), Ok(1));
    assert_eq!(status_led_value(LedColor::Auto, true), Err(Error::InvalidValue));
    assert_eq!(status_led_value(LedColor::Auto, false), Ok(0));
    assert_eq!(blink_led_value(LedColor::Green, true), 4);
    assert_eq!(blink_led_value(LedColor::Red, true), 3);
    assert_eq!(blink_led_value(LedColor::Auto, true), 5);
    assert_eq!(blink_led_value(LedColor::Red, false), 0);
}

#[test]
fn eup_state_round_trips_and_preserves_other_bits() {
    let mut ec = SimEc::new();
    ec.preload(0x101, 0x08);
    ec.preload(0x121, 0xf1);
    let mut p = platform_over(ec);
    assert_eq!(p.get_eup_state(), Ok(SwitchState::Off));
    p.set_eup_state(SwitchState::On).unwrap();
    assert_eq!(p.get_eup_state(), Ok(SwitchState::On));
    // the other bits of the state register were preserved
    assert_eq!(p.locked_get(0x121), Ok(0xf9));
    p.set_eup_state(SwitchState::Off).unwrap();
    assert_eq!(p.locked_get(0x121), Ok(0xf1));
}

#[test]
fn eup_is_refused_on_a_chip_without_support() {
    let mut p = platform_over(SimEc::new());
    assert_eq!(p.get_eup_state(), Err(Error::InvalidValue));
    assert_eq!(p.set_eup_state(SwitchState::On), Err(Error::InvalidValue));
}

#[test]
fn fan_status_reads_the_right_bit() {
    let mut ec = SimEc::new();
    ec.preload(0x242, 0b0000_0100);
    let mut p = platform_over(ec);
    assert_eq!(p.get_fan_status(2), Ok("OK"));
    assert_eq!(p.get_fan_status(0), Ok("NG"));
    assert_eq!(p.get_fan_status(5), Err(Error::InvalidValue));
}

#[test]
fn fan_speed_combines_big_endian() {
    let mut ec = SimEc::new();
    ec.preload(0x624, 0x06);
    ec.preload(0x625, 0xa4);
    let mut p = platform_over(ec);
    assert_eq!(p.get_fan_speed(0), Ok(0x06a4));
    assert_eq!(p.get_fan_speed(9), Err(Error::InvalidValue));
}

#[test]
fn fan_speed_set_and_pwm_read_round_trip() {
    let mut p = platform_over(SimEc::new());
    p.set_fan_speed(0, 255).unwrap();
    // manual mode was selected and the scaled duty stored
    assert_eq!(p.locked_get(0x220), Ok(0x10));
    assert_eq!(p.locked_get(0x22e), Ok(100));
    assert_eq!(p.get_fan_pwm(0), Ok(255));
    assert_eq!(p.set_fan_speed(9, 10), Err(Error::InvalidValue));
}

#[test]
fn fan_slope_is_written_to_the_selected_register() {
    let mut p = platform_over(SimEc::new());
    p.set_fan_control_slope(1, 0x33).unwrap();
    assert_eq!(p.locked_get(0x296), Ok(0x33));
    assert_eq!(p.set_fan_control_slope(10, 1), Err(Error::InvalidValue));
}

#[test]
fn led_operations_store_their_encodings() {
    let mut p = platform_over(SimEc::new());
    p.set_status_led(LedColor::Green, true).unwrap();
    assert_eq!(p.locked_get(0x155), Ok(2));
    p.blink_status_led(LedColor::Auto, true).unwrap();
    assert_eq!(p.locked_get(0x155), Ok(5));
    assert_eq!(p.set_status_led(LedColor::Auto, true), Err(Error::InvalidValue));
    p.set_fan_led(3, LedColor::Red).unwrap();
    assert_eq!(p.locked_get(0x16e), Ok(0x81));
    p.set_fan_led(3, LedColor::Auto).unwrap();
    assert_eq!(p.locked_get(0x16e), Ok(2));
    assert_eq!(p.set_fan_led(8, LedColor::Red), Err(Error::InvalidValue));
    p.set_front_usb_led(0x31).unwrap();
    assert_eq!(p.locked_get(0x154), Ok(0x31));
    p.set_enclosure_ident_led(true).unwrap();
    assert_eq!(p.locked_get(0x15e), Ok(1));
    p.set_disk_active_led(4, true).unwrap();
    assert_eq!(p.locked_get(0x15f), Ok(4));
    p.set_disk_ident_led(5, false).unwrap();
    assert_eq!(p.locked_get(0x159), Ok(5));
    p.set_present_led(6, true).unwrap();
    assert_eq!(p.locked_get(0x15a), Ok(6));
    p.set_disk_err_led(7, false).unwrap();
    assert_eq!(p.locked_get(0x15d), Ok(7));
    p.set_10G_led(true).unwrap();
    assert_eq!(p.locked_get(0x167), Ok(1));
}

#[test]
fn led_brightness_raises_and_lowers_the_transfer_bit() {
    let mut p = platform_over(SimEc::new());
    p.set_led_by_pwm(0x55).unwrap();
    assert_eq!(p.locked_get(0x243), Ok(0x55));
    assert_eq!(p.locked_get(0x246), Ok(0x55));
    // the transfer bit was raised and then lowered again
    assert_eq!(p.locked_get(0x245), Ok(0));
}

#[test]
fn bbu_led_applies_the_colour_mask() {
    let mut p = platform_over(SimEc::new());
    p.set_bbu_led(0, 1).unwrap();
    assert_eq!(p.locked_get(0x7d), Ok(2));
    let mut p = platform_over(SimEc::new());
    p.set_bbu_led(2, 1).unwrap();
    assert_eq!(p.locked_get(0x7d), Ok(0));
    let mut p = platform_over(SimEc::new());
    p.set_bbu_led(0, 0).unwrap();
    assert_eq!(p.locked_get(0x7d), Ok(3));
}

#[test]
fn buttons_decode_their_bits() {
    let mut ec = SimEc::new();
    ec.preload(0x143, 0b110);
    let mut p = platform_over(ec);
    assert_eq!(p.get_reset_button(), Ok(true));
    assert_eq!(p.get_usb_button(), Ok(true));
    let mut p = platform_over(SimEc::new());
    assert_eq!(p.get_reset_button(), Ok(false));
    assert_eq!(p.get_usb_button(), Ok(false));
}

#[test]
fn power_recovery_mode_round_trips() {
    let mut p = platform_over(SimEc::new());
    p.set_power_recovery_mode(PowerRecoveryMode::Last).unwrap();
    assert_eq!(p.get_power_recovery_mode(), Ok(PowerRecoveryMode::Last));
    p.set_power_recovery_mode(PowerRecoveryMode::Off).unwrap();
    assert_eq!(p.get_power_recovery_mode(), Ok(PowerRecoveryMode::Off));
}

#[test]
fn an_illegal_power_recovery_register_value_is_refused() {
    let mut ec = SimEc::new();
    ec.preload(0x16, 5);
    let mut p = platform_over(ec);
    assert_eq!(p.get_power_recovery_mode(), Err(Error::InvalidValue));
}

#[test]
fn power_supply_status_checks_the_supply_bit() {
    let mut ec = SimEc::new();
    ec.preload(0x45, 0b010);
    let mut p = platform_over(ec);
    assert_eq!(p.get_power_supply_status(1), Ok(()));
    assert_eq!(p.get_power_supply_status(2), Err(Error::InvalidValue));
    assert_eq!(p.get_power_supply_status(0), Err(Error::InvalidValue));
    assert_eq!(p.get_power_supply_status(3), Err(Error::InvalidValue));
}

#[test]
fn forced_shutdown_arms_the_action_and_timeout() {
    let mut p = platform_over(SimEc::new());
    p.force_shutdown(ShutdownMode::Shutdown, 30, true).unwrap();
    assert_eq!(p.locked_get(0x245), Ok(0x20));
    assert_eq!(p.locked_get(0x248), Ok(30));
}

#[test]
fn forced_reboot_without_rtc_fixes_the_wake_register() {
    let mut ec = SimEc::new();
    ec.preload(0x249, 0x40);
    let mut p = platform_over(ec);
    p.force_shutdown(ShutdownMode::Reboot, 10, false).unwrap();
    assert_eq!(p.locked_get(0x245), Ok(0x40));
    assert_eq!(p.locked_get(0x249), Ok(0x41));
    assert_eq!(p.locked_get(0x248), Ok(10));
}

#[test]
fn temperature_reads_the_sensor_register() {
    let mut ec = SimEc::new();
    ec.preload(0x600, 42);
    ec.preload(0x602, 55);
    let mut p = platform_over(ec);
    assert_eq!(p.get_temperature(0), Ok(42));
    assert_eq!(p.get_temperature(5), Ok(55));
    assert_eq!(p.get_temperature(2), Err(Error::InvalidValue));
}

#[test]
fn temperature_calibration_writes_control_then_target() {
    let mut ec = SimEc::new();
    ec.preload(0x2e2, 0xf0);
    let mut p = platform_over(ec);
    p.temperature_calibrate(3, true, 7).unwrap();
    assert_eq!(p.locked_get(0x2e2), Ok(0xf2));
    assert_eq!(p.locked_get(0x27f), Ok(3));
    p.temperature_calibrate(4, false, 0).unwrap();
    assert_eq!(p.locked_get(0x2e2), Ok(0xf2));
    assert_eq!(p.locked_get(0x27d), Ok(4));
}

#[test]
fn firmware_version_reads_eight_bytes() {
    let mut ec = SimEc::new();
    let text = [0x41, 0x31, 0x2e, 0x32, 0x33, 0, 0, 0];
    for (i, b) in text.iter().enumerate() {
        ec.preload(0x308 + i as u16, *b);
    }
    let mut p = platform_over(ec);
    assert_eq!(p.get_version(), Ok(text.to_vec()));
}

#[test]
fn a_stuck_controller_surfaces_timeout_through_the_features() {
    let mut ec = SimEc::new();
    ec.hold_output();
    let mut p = platform_over(ec);
    assert_eq!(p.get_temperature(0), Err(Error::Timeout));
}

#[test]
fn a_busy_lock_surfaces_lock_through_the_features() {
    let mut p = Platform::new(Device::new(SimEc::new()), SimSem::taken_elsewhere());
    assert_eq!(p.get_temperature(0), Err(Error::Lock));
}
