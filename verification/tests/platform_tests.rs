//! Platform construction is gated on the chip identity.

use qute_ctrl::device::Controller as EcController;
use qute_ctrl::device::Device;
use qute_ctrl::platform::check_platform;
use qute_ctrl::platform::Platform;
use qute_ctrl::platform::CHIP_ID;
use qute_ctrl::sim::SimEc;
use qute_ctrl::sim::SimSem;
use qute_ctrl::sim::SimSio;
use qute_ctrl::sio::Controller;
use qute_ctrl::Error;

#[test]
fn the_supported_chip_passes_the_identity_check() {
    let mut sio = Controller::new(SimSio::with_chip(0x8528, 0x03));
    assert_eq!(check_platform(&mut sio), Ok(()));
}

#[test]
fn any_other_chip_is_unsupported() {
    let mut sio = Controller::new(SimSio::with_chip(0x8526, 0x03));
    assert_eq!(check_platform(&mut sio), Err(Error::UnsupportedPlatform));
    let mut sio = Controller::new(SimSio::with_chip(0x0000, 0x00));
    assert_eq!(check_platform(&mut sio), Err(Error::UnsupportedPlatform));
}

#[test]
fn with_sio_builds_a_platform_on_the_supported_chip() {
    let mut sio = Controller::new(SimSio::with_chip(CHIP_ID, 0x01));
    let p: Result<Platform<SimEc, SimSem>, Error> =
        Platform::with_sio(&mut sio, SimEc::new(), SimSem::new());
    let mut p = p.unwrap();
    let r = p.with_ec(|dev: &mut Device<SimEc>| dev.get_byte(0x10));
    assert_eq!(r, Ok(0));
}

#[test]
fn with_sio_refuses_an_unsupported_chip() {
    let mut sio = Controller::new(SimSio::with_chip(0x1234, 0x01));
    let p: Result<Platform<SimEc, SimSem>, Error> =
        Platform::with_sio(&mut sio, SimEc::new(), SimSem::new());
    assert!(matches!(p, Err(Error::UnsupportedPlatform)));
}

#[test]
fn error_descriptions_name_each_failure() {
    assert!(!Error::Permission.describe().is_empty());
    assert!(!Error::Timeout.describe().is_empty());
    assert!(!Error::Lock.describe().is_empty());
    assert!(!Error::UnsupportedPlatform.describe().is_empty());
    assert!(!Error::InvalidValue.describe().is_empty());
}
