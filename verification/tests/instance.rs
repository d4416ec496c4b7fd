use snxcore::instance::{mutex_name, SingleInstance, WindowsSingleInstance};

#[test]
fn mutex_name_sanitizes_path_separators() {
    assert_eq!(mutex_name("/var/run/snx-rs.lock"), "Global\\snx-rs-var_run_snx-rs.lock");
    assert_eq!(mutex_name("C:\\ProgramData\\snx-rs"), "Global\\snx-rs-C_ProgramData_snx-rs");
}

#[test]
fn single_instance_second_instance_is_rejected() {
    // The first creation of the named mutex finds none; the second finds the first.
    let a = WindowsSingleInstance::from_creation(false);
    assert!(a.is_single());
    let b = WindowsSingleInstance::from_creation(true);
    assert!(!b.is_single());
}

#[test]
fn mutex_name_collapses_and_trims_underscores() {
    assert_eq!(mutex_name("//a::b\\\\"), "Global\\snx-rs-a_b");
    assert_eq!(mutex_name("x\ty"), "Global\\snx-rs-x_y");
    assert_eq!(mutex_name(""), "Global\\snx-rs-");
}
