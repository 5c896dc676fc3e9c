use jarust::error::Error;
use jarust::janus_id::{JanusId, U63};

#[test]
fn test_u63_conversion_with_u64() {
    assert_eq!(u64::from(U63::try_from(123_456u64).unwrap()), 123_456u64);
    assert_eq!(u64::from(U63::try_from(U63::MAX).unwrap()), U63::MAX);
    assert!(U63::try_from(U63::MAX + 1).is_err());
}

#[test]
fn test_u63_serialization() {
    assert_eq!(U63::try_from(123_456u64).unwrap().to_json(), "123456");
    assert_eq!(
        U63::from_json("123456").unwrap(),
        U63::try_from(123_456u64).unwrap()
    );

    assert_eq!(
        U63::try_from(U63::MAX).unwrap().to_json(),
        "9223372036854775807"
    );
    assert_eq!(
        U63::from_json("9223372036854775807").unwrap(),
        U63::try_from(U63::MAX).unwrap()
    );

    match U63::from_json("9223372036854775808") {
        Err(Error::JsonParsingFailure(message)) => assert_eq!(
            message,
            "invalid value: integer `9223372036854775808`, expected a value less than or equal to 9223372036854775807"
        ),
        other => panic!("unexpected {:?}", other),
    }
}

#[test]
fn u63_from_u64_bounds() {
    assert_eq!(U63::from_u64(0).map(u64::from), Some(0));
    assert_eq!(U63::from_u64(U63::MAX).map(u64::from), Some(U63::MAX));
    assert_eq!(U63::from_u64(u64::MAX), None);
}

#[test]
fn u63_json_round_trip_of_zero_and_max() {
    for n in [0u64, 7, 10, 123_456, U63::MAX] {
        let id = U63::try_from(n).unwrap();
        assert_eq!(U63::from_json(&id.to_json()).unwrap(), id);
    }
}

#[test]
fn u63_from_json_refuses_what_is_not_an_integer() {
    assert!(matches!(U63::from_json("\"12\""), Err(Error::JsonParsingFailure(_))));
    assert!(matches!(U63::from_json("-1"), Err(Error::JsonParsingFailure(_))));
    assert!(matches!(U63::from_json("18446744073709551615"), Err(Error::JsonParsingFailure(_))));
}

#[test]
fn janus_id_json_is_untagged() {
    let uint = JanusId::Uint(U63::try_from(42u64).unwrap());
    assert_eq!(uint.to_json(), "42");
    assert_eq!(JanusId::from_json("42").unwrap(), uint);

    let text = JanusId::String("room-\"a\"".to_string());
    assert_eq!(text.to_json(), "\"room-\\\"a\\\"\"");
    assert_eq!(JanusId::from_json(&text.to_json()).unwrap(), text);
}

#[test]
fn janus_id_above_63_bits_fails_to_read() {
    assert!(JanusId::from_json("9223372036854775808").is_err());
    assert!(JanusId::from_json("true").is_err());
}

#[test]
fn janus_id_from_parsed_prefers_the_string() {
    assert_eq!(
        JanusId::from_parsed(Ok("abc".to_string()), Err("no".to_string())).unwrap(),
        JanusId::String("abc".to_string())
    );
    assert_eq!(
        JanusId::from_parsed(Err("no".to_string()), Ok(5)).unwrap(),
        JanusId::Uint(U63::try_from(5u64).unwrap())
    );
    assert!(matches!(
        JanusId::from_parsed(Err("no".to_string()), Ok(U63::MAX + 1)),
        Err(Error::JsonParsingFailure(_))
    ));
    match JanusId::from_parsed(Err("no".to_string()), Err("bad".to_string())) {
        Err(Error::JsonParsingFailure(m)) => assert_eq!(m, "bad"),
        other => panic!("unexpected {:?}", other),
    }
}

#[test]
fn u63_from_parsed_passes_reader_errors_on() {
    match U63::from_parsed(Err("eof".to_string())) {
        Err(Error::JsonParsingFailure(m)) => assert_eq!(m, "eof"),
        other => panic!("unexpected {:?}", other),
    }
    assert_eq!(U63::from_parsed(Ok(9)).unwrap(), U63::try_from(9u64).unwrap());
}
