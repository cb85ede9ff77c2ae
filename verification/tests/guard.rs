use session_driver::guard::SessionGuard;
use session_driver::protocol::Role;

#[test]
fn a_new_guard_is_free() {
    let guard = SessionGuard::new();
    assert_eq!(guard.holder(), None);
}

#[test]
fn the_guard_is_granted_to_one_role_at_a_time() {
    let mut guard = SessionGuard::new();
    assert!(guard.try_acquire(Role::Inbound));
    assert_eq!(guard.holder(), Some(Role::Inbound));
    assert!(!guard.try_acquire(Role::Outbound));
    assert!(!guard.try_acquire(Role::Ticker));
    assert_eq!(guard.holder(), Some(Role::Inbound));
}

#[test]
fn the_holder_is_not_granted_the_guard_again() {
    let mut guard = SessionGuard::new();
    assert!(guard.try_acquire(Role::Ticker));
    assert!(!guard.try_acquire(Role::Ticker));
    assert_eq!(guard.holder(), Some(Role::Ticker));
}

#[test]
fn only_the_holder_releases_the_guard() {
    let mut guard = SessionGuard::new();
    assert!(!guard.release(Role::Outbound));
    assert!(guard.try_acquire(Role::Outbound));
    assert!(!guard.release(Role::Inbound));
    assert_eq!(guard.holder(), Some(Role::Outbound));
    assert!(guard.release(Role::Outbound));
    assert_eq!(guard.holder(), None);
    assert!(guard.try_acquire(Role::Inbound));
}
