use gandi_dyndns::error::{AppError, ErrorKind};

#[test]
fn an_error_keeps_its_kind_and_message() {
    let e = AppError::new(ErrorKind::Sink, "connection refused");
    assert_eq!(e.kind(), ErrorKind::Sink);
    assert_eq!(e.kind, ErrorKind::Sink);
    assert_eq!(e.msg, "connection refused");
    assert_eq!(e.description(), "Application error");
}

#[test]
fn dns_errors_are_announced_as_such() {
    assert_eq!(
        AppError::new(ErrorKind::NotFound, "Record type A not found").to_string(),
        "DNS error Record type A not found"
    );
    assert_eq!(
        AppError::from_resolve_error("no connections available").to_string(),
        "DNS error Resolve error: no connections available"
    );
}

#[test]
fn other_errors_speak_for_themselves() {
    for kind in [ErrorKind::Config, ErrorKind::Sink, ErrorKind::Validation] {
        assert_eq!(AppError::new(kind, "what went wrong").to_string(), "what went wrong");
    }
}

#[test]
fn a_resolve_error_is_a_transport_error() {
    let e = AppError::from_resolve_error("request timed out");
    assert_eq!(e.kind, ErrorKind::Transport);
    assert_eq!(e.msg, "Resolve error: request timed out");
}

#[test]
fn a_copy_of_an_error_equals_it() {
    let e = AppError::new(ErrorKind::Validation, "Record name must not contain '.'");
    assert_eq!(e.clone(), e);
}
