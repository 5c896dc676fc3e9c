use jarust::error::JanusError;
use jarust::text::to_decimal;

#[test]
fn janus_error_codes_map_to_kinds() {
    assert_eq!(JanusError::from(403), JanusError::Unauthorized);
    assert_eq!(JanusError::from(405), JanusError::UnauthorizedPlugin);
    assert_eq!(JanusError::from(450), JanusError::TransportSpecific);
    assert_eq!(JanusError::from(458), JanusError::SessionNotFound);
    assert_eq!(JanusError::from(472), JanusError::NotAcceptingSessions);
    assert_eq!(JanusError::from(490), JanusError::Unkown);
    assert_eq!(JanusError::from(451), JanusError::Other(451));
    assert_eq!(JanusError::from(0), JanusError::Other(0));
}

#[test]
fn janus_error_code_round_trip() {
    for code in 0u16..1000 {
        assert_eq!(JanusError::from(code).code(), code);
    }
}

#[test]
fn janus_error_text() {
    assert_eq!(JanusError::Unauthorized.to_string(), "403 (Unauthorized)");
    assert_eq!(
        JanusError::SessionNotFound.to_string(),
        "458 (The session the request refers to doesn't exist)"
    );
    assert_eq!(JanusError::Other(426).to_string(), "Other error with code: 426");
}

#[test]
fn decimal_text() {
    assert_eq!(to_decimal(0), "0");
    assert_eq!(to_decimal(9), "9");
    assert_eq!(to_decimal(10), "10");
    assert_eq!(to_decimal(u64::MAX), "18446744073709551615");
}
