use gondolin::errors::Error;
use gondolin::lockfile::LockState;

#[test]
fn second_acquisition_fails_while_the_first_is_held() {
    let mut lock = LockState::new();
    assert!(lock.acquire().is_ok());
    assert_eq!(lock.acquire().unwrap_err(), Error::AlreadyRunning);
    assert!(lock.present);
}

#[test]
fn acquire_release_acquire_succeeds() {
    let mut lock = LockState::new();
    assert!(lock.acquire().is_ok());
    assert!(lock.release().is_ok());
    assert!(lock.acquire().is_ok());
}

#[test]
fn releasing_an_absent_lock_reports_it_vanished() {
    let mut lock = LockState::new();
    assert_eq!(lock.release().unwrap_err(), Error::LockVanished);
}

#[test]
fn a_turned_away_instance_leaves_the_holder_untouched() {
    let mut lock = LockState::new();
    assert!(lock.acquire().is_ok());
    let before = lock;
    assert!(lock.acquire().is_err());
    assert_eq!(lock, before);
    assert!(lock.release().is_ok());
}
