//! Who may use a VM at the same time.

use vm::lock::{
    bringup, exclusive_path, lock_path, locks_dir, shared, touches, try_exclusive, Hold, Refusal,
    Wait,
};

#[test]
fn shared_use_touches_last_use_but_exclusive_does_not() {
    assert!(touches(Hold::Shared));
    assert!(!touches(Hold::Exclusive));
}

#[test]
fn different_aliases_are_independent() {
    let dir = locks_dir(Some("/c/vm")).unwrap();
    assert_eq!(dir, "/c/vm/locks");
    assert_eq!(lock_path(&dir, "lin"), "/c/vm/locks/lin");
    assert_ne!(lock_path(&dir, "lin"), lock_path(&dir, "mac"));
    assert_ne!(lock_path(&dir, "lin"), bringup(&dir, "lin"));
    assert!(locks_dir(None).is_err());
}

#[test]
fn uses_coexist_and_block_exclusive() {
    let busy = || Err((Refusal::WouldBlock, "would block".to_string()));
    assert!(shared(Ok(())).is_ok());
    assert_eq!(try_exclusive(Ok(())).unwrap(), true);
    assert_eq!(try_exclusive(busy()).unwrap(), false);
    let broken = || Err((Refusal::Other, "no locks".to_string()));
    assert_eq!(try_exclusive(broken()).unwrap_err().text(), "flock failed: no locks");
    assert_eq!(shared(broken()).unwrap_err().text(), "flock failed: no locks");
}

#[test]
fn exclusive_path_serializes_holders() {
    let busy = || Err((Refusal::WouldBlock, "would block".to_string()));
    let interrupted = || Err((Refusal::Interrupted, "EINTR".to_string()));
    assert!(matches!(exclusive_path(false, Ok(())), Wait::Held));
    assert!(matches!(exclusive_path(false, busy()), Wait::Announce));
    assert!(matches!(exclusive_path(true, Ok(())), Wait::Held));
    assert!(matches!(exclusive_path(true, interrupted()), Wait::Again));
    let broken = Err((Refusal::Other, "no locks".to_string()));
    assert!(matches!(exclusive_path(true, broken), Wait::Fail(e) if e.text().contains("no locks")));
}
