//! The resource lock: mutual exclusion, bounded retries, and release
//! on every path.

use qute_ctrl::device::Controller;
use qute_ctrl::device::Device;
use qute_ctrl::lock::Mutex;
use qute_ctrl::lock::Semaphore;
use qute_ctrl::platform::Platform;
use qute_ctrl::sim::SimEc;
use qute_ctrl::sim::SimSem;
use qute_ctrl::Error;

#[test]
fn exactly_one_of_two_acquirers_succeeds() {
    let mut sem = SimSem::new();
    let first = sem.try_acquire();
    let second = sem.try_acquire();
    assert!(first);
    assert!(!second);
}

#[test]
fn a_released_semaphore_can_be_acquired_again() {
    let mut sem = SimSem::new();
    assert!(sem.try_acquire());
    assert!(!sem.try_acquire());
    sem.release();
    assert!(sem.try_acquire());
}

#[test]
fn lock_fails_with_lock_error_when_the_resource_is_busy() {
    let mut m: Mutex<u32, SimSem> = Mutex::new(SimSem::taken_elsewhere(), 7);
    assert_eq!(m.lock(), Err(Error::Lock));
}

#[test]
fn lock_succeeds_on_a_free_semaphore() {
    let mut m: Mutex<u32, SimSem> = Mutex::new(SimSem::new(), 7);
    assert_eq!(m.lock(), Ok(()));
    assert_eq!(*m.data_mut(), 7);
    m.unlock();
    assert_eq!(m.lock(), Ok(()));
}

#[test]
fn with_ec_releases_the_lock_after_success() {
    let mut p = Platform::new(Device::new(SimEc::new()), SimSem::new());
    let r = p.with_ec(|dev: &mut Device<SimEc>| dev.get_byte(0x10));
    assert_eq!(r, Ok(0));
    // the lock was released: a second call finds it free
    let r = p.with_ec(|dev: &mut Device<SimEc>| dev.get_byte(0x11));
    assert_eq!(r, Ok(0));
}

#[test]
fn with_ec_releases_the_lock_after_a_failure_inside_the_closure() {
    let mut p = Platform::new(Device::new(SimEc::new()), SimSem::new());
    let r: Result<u8, Error> = p.with_ec(|_dev: &mut Device<SimEc>| Err(Error::InvalidValue));
    assert_eq!(r, Err(Error::InvalidValue));
    // release happened exactly once and the lock is usable again
    let r = p.with_ec(|dev: &mut Device<SimEc>| dev.get_byte(0x11));
    assert_eq!(r, Ok(0));
}

#[test]
fn with_ec_reports_a_busy_lock() {
    let mut p = Platform::new(Device::new(SimEc::new()), SimSem::taken_elsewhere());
    let r = p.with_ec(|dev: &mut Device<SimEc>| dev.get_byte(0x10));
    assert_eq!(r, Err(Error::Lock));
}
