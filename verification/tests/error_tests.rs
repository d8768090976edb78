use zoo_core::db::Database;
use zoo_core::error::{ApiError, ErrorKind};

#[test]
fn infrastructure_failures_map_to_500() {
    assert_eq!(ApiError::Connection("db down".to_string()).status(), 500);
    assert_eq!(ApiError::Query("bad statement".to_string()).status(), 500);
    assert_eq!(ApiError::ResultDecode("bad row".to_string()).status(), 500);
}

#[test]
fn validation_failures_map_to_400() {
    assert_eq!(ApiError::Validation("blank".to_string()).status(), 400);
}

#[test]
fn missing_targets_map_to_404() {
    assert_eq!(ApiError::NotFound("gone".to_string()).status(), 404);
}

#[test]
fn errors_carry_their_message_and_kind() {
    let e = ApiError::Connection("no route to host".to_string());
    assert_eq!(e.message(), "no route to host");
    assert_eq!(e.kind(), ErrorKind::Connection);
    let e = ApiError::NotFound("x".to_string());
    assert_eq!(e.kind(), ErrorKind::NotFound);
}

#[test]
fn database_configuration_keeps_its_parts() {
    let d = Database::from_parts(
        "sqlserver".to_string(),
        1433,
        "SA".to_string(),
        "opaque".to_string(),
        "zoo_db".to_string(),
    );
    assert_eq!(d.host(), "sqlserver");
    assert_eq!(d.port(), 1433);
    assert_eq!(d.user(), "SA");
    assert_eq!(d.password(), "opaque");
    assert_eq!(d.database(), "zoo_db");
}
