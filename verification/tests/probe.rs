use greetinfo::probe::capslock_status;

#[test]
fn exit_zero_means_lit() {
    assert!(capslock_status(Some(0)));
}

#[test]
fn nonzero_exit_means_unlit() {
    assert!(!capslock_status(Some(1)));
    assert!(!capslock_status(Some(-1)));
    assert!(!capslock_status(Some(255)));
}

#[test]
fn missing_exit_code_means_unlit() {
    assert!(!capslock_status(None));
}
