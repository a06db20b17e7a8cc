use axum::http::StatusCode;
use shytti::error::Error;

#[test]
fn display_not_found() {
    let e = Error::NotFound("abc".into());
    assert_eq!(e.message(), "shell not found: abc");
}

#[test]
fn display_spawn_failed() {
    let e = Error::SpawnFailed("boom".into());
    assert_eq!(e.message(), "spawn failed: boom");
}

#[test]
fn display_io() {
    let e = Error::Io(std::io::Error::new(std::io::ErrorKind::NotFound, "gone"));
    assert!(e.message().starts_with("io:"));
}

#[test]
fn display_config() {
    let e = Error::Config("bad toml".into());
    assert_eq!(e.message(), "config: bad toml");
}

#[test]
fn display_bridge() {
    let e = Error::Bridge("timeout".into());
    assert_eq!(e.message(), "bridge: timeout");
}

#[test]
fn into_response_not_found_is_404() {
    let e = Error::NotFound("x".into());
    assert_eq!(StatusCode::from_u16(e.status_code()).unwrap(), StatusCode::NOT_FOUND);
}

#[test]
fn into_response_spawn_failed_is_500() {
    let e = Error::SpawnFailed("x".into());
    assert_eq!(StatusCode::from_u16(e.status_code()).unwrap(), StatusCode::INTERNAL_SERVER_ERROR);
}

#[test]
fn into_response_io_is_500() {
    let e = Error::Io(std::io::Error::new(std::io::ErrorKind::Other, "x"));
    assert_eq!(StatusCode::from_u16(e.status_code()).unwrap(), StatusCode::INTERNAL_SERVER_ERROR);
}

#[test]
fn from_io_error() {
    let io_err = std::io::Error::new(std::io::ErrorKind::BrokenPipe, "broken");
    let e: Error = io_err.into();
    assert!(matches!(e, Error::Io(_)));
}

#[test]
fn from_toml_error() {
    let toml_err = toml::from_str::<toml::Value>("not [[[valid").unwrap_err();
    let e: Error = toml_err.into();
    assert!(matches!(e, Error::Config(_)));
}

// ---- further cases ----

#[test]
fn io_message_is_io_prefix_and_display_text() {
    let e = Error::Io(std::io::Error::new(std::io::ErrorKind::NotFound, "gone"));
    assert_eq!(e.message(), "io: gone");
}

#[test]
fn toml_error_keeps_its_text() {
    let toml_err = toml::from_str::<toml::Value>("not [[[valid").unwrap_err();
    let text = toml_err.to_string();
    let e: Error = toml_err.into();
    assert_eq!(e.message(), format!("config: {text}"));
}

#[test]
fn status_codes_of_every_variant() {
    assert_eq!(Error::Config("c".into()).status_code(), 500);
    assert_eq!(Error::Bridge("b".into()).status_code(), 500);
    assert_eq!(Error::NotFound("n".into()).status_code(), 404);
}
