use turbine::response::{parse_turbine_response_envelope, response_prevents_caching};

#[test]
fn envelope_roundtrip() {
    let wire = b"__TURBINE_STATUS__\t201\n\
                 __TURBINE_HEADER__\tContent-Type\tapplication/json\n\
                 __TURBINE_HEADER__\tX-Custom\tyes\n\
                 __TURBINE_BODY__\n\
                 {\"ok\":true}";
    let (status, headers, body) = parse_turbine_response_envelope(wire).unwrap();
    assert_eq!(status, 201);
    assert_eq!(headers.len(), 2);
    assert_eq!(headers[0], ("Content-Type".into(), "application/json".into()));
    assert_eq!(body, b"{\"ok\":true}");
}

#[test]
fn envelope_missing_marker_returns_none() {
    assert!(parse_turbine_response_envelope(b"plain output").is_none());
}

#[test]
fn envelope_tolerates_leading_noise() {
    let wire = b"PHP Warning: something\n\
                 __TURBINE_STATUS__\t500\n\
                 __TURBINE_BODY__\n\
                 oops";
    let (status, _h, body) = parse_turbine_response_envelope(wire).unwrap();
    assert_eq!(status, 500);
    assert_eq!(body, b"oops");
}

#[test]
fn envelope_bad_status_defaults_and_missing_body_marker() {
    let wire = b"__TURBINE_STATUS__\tabc\n__TURBINE_HEADER__\tNoTab\n__TURBINE_BODY__\nx";
    let (status, headers, body) = parse_turbine_response_envelope(wire).unwrap();
    assert_eq!(status, 200);
    assert!(headers.is_empty());
    assert_eq!(body, b"x");
    assert!(parse_turbine_response_envelope(b"__TURBINE_STATUS__\t200\nno body").is_none());
}

#[test]
fn cache_control_detection() {
    let h = vec![("Cache-Control".into(), "no-store, max-age=0".into())];
    assert!(response_prevents_caching(&h));
    let h = vec![("cache-control".into(), "private".into())];
    assert!(response_prevents_caching(&h));
    let h = vec![("Cache-Control".into(), "public, max-age=60".into())];
    assert!(!response_prevents_caching(&h));
}
