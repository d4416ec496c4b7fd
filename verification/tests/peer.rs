use snxcore::peer::{is_authorized, socket_path, DEFAULT_NAME};

#[test]
fn authorization_policy() {
    const CONSOLE: Option<u32> = Some(501);
    assert!(is_authorized(Some(0), None, CONSOLE));
    assert!(is_authorized(Some(501), Some(&[20, 12]), CONSOLE));
    assert!(is_authorized(Some(502), Some(&[20, 80]), CONSOLE));
    assert!(!is_authorized(Some(502), Some(&[20, 12]), CONSOLE));
    assert!(!is_authorized(None, None, CONSOLE));
    assert!(is_authorized(Some(0), None, None));
    assert!(!is_authorized(Some(501), Some(&[20, 12]), None));
}

#[test]
fn path_routes_by_name() {
    assert_eq!(socket_path(DEFAULT_NAME, "/tmp"), "/var/run/snx-rs.sock");
    assert_eq!(socket_path("/tmp/custom.sock", "/tmp"), "/tmp/custom.sock");
    assert_eq!(socket_path("snxcore-test.sock", "/tmp"), "/tmp/snxcore-test.sock");
    assert_eq!(socket_path("snxcore-test.sock", "/tmp/"), "/tmp/snxcore-test.sock");
}
