use orqos::api_types::{stop_grace_seconds, ExecRequest, PortMap, StopContainerRequest};

#[test]
fn stop_grace_caps_at_sixty() {
    let req = StopContainerRequest { t: Some(300), signal: None };
    assert_eq!(stop_grace_seconds(Some(&req)), Some(60));
    let req = StopContainerRequest { t: Some(10), signal: None };
    assert_eq!(stop_grace_seconds(Some(&req)), Some(10));
    let req = StopContainerRequest { t: Some(60), signal: None };
    assert_eq!(stop_grace_seconds(Some(&req)), Some(60));
}

#[test]
fn stop_grace_defaults() {
    // No body at all: the default grace period of five seconds.
    assert_eq!(stop_grace_seconds(None), Some(5));
    // A body without a grace period leaves it unset.
    let req = StopContainerRequest { t: None, signal: Some("SIGTERM".to_string()) };
    assert_eq!(stop_grace_seconds(Some(&req)), None);
}

#[test]
fn request_types_round_trip_fields() {
    let p = PortMap { container: 8080, host: None };
    assert_eq!(p.container, 8080);
    assert_eq!(p.host, None);
    let e = ExecRequest { cmd: vec!["ls".to_string(), "-la".to_string()], user: None };
    assert_eq!(e.cmd.len(), 2);
}
