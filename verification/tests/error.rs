//! Which errors are worth retrying.

use opcua_tag_browser::{Error, StatusCode};

#[test]
fn config_errors_are_not_recoverable() {
    assert!(!Error::InsecureCredentials.is_recoverable());
    assert!(!Error::ClientBuild("bad options".to_string()).is_recoverable());
}

#[test]
fn transient_errors_are_recoverable() {
    assert!(Error::Connect {
        endpoint: "opc.tcp://host:4840".to_string(),
        status: StatusCode::new(0x808A_0000),
    }
    .is_recoverable());
    assert!(Error::InternalPanic("boom".to_string()).is_recoverable());
    assert!(Error::MissingSink.is_recoverable());
}

#[test]
fn status_code_severity_comes_from_the_top_bits() {
    assert!(StatusCode::good().is_good());
    assert!(StatusCode::bad_unexpected_error().is_bad());
    assert!(StatusCode::new(0x4000_0000).is_uncertain());
    assert!(!StatusCode::new(0x4000_0000).is_good());
    assert!(StatusCode::new(0x0000_ffff).is_good());
    assert_eq!(StatusCode::bad_no_data().bits, 0x809B_0000);
}
