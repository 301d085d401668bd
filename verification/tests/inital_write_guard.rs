use waitfree_sync::inital_write_guard::InitialWriteGuard;

#[test]
fn inital_write_guard_smoke() {
    let wg = InitialWriteGuard::new();
    assert!(!wg.has_data());
    wg.set_has_data();
    assert!(wg.has_data())
}

#[test]
fn test_guard_default_is_clear() {
    let wg = InitialWriteGuard::default();
    assert!(!wg.has_data());
    wg.set_has_data();
    wg.set_has_data();
    assert!(wg.has_data());
}
