use spacetrack_rs::{
    accepted_status, decoding_for, non_empty, response_route, single, Decoding, Error, Format,
    RAW_PATH_HINT,
};

#[test]
fn status_200_is_accepted() {
    assert!(accepted_status(200).is_ok());
}

#[test]
fn status_500_is_http_error() {
    assert!(matches!(accepted_status(500), Err(Error::Http(500))));
    assert!(matches!(accepted_status(404), Err(Error::Http(404))));
    assert!(matches!(accepted_status(201), Err(Error::Http(201))));
}

#[test]
fn typed_routes() {
    assert_eq!(decoding_for(Format::Json).ok(), Some(Decoding::Json));
    assert_eq!(decoding_for(Format::Csv).ok(), Some(Decoding::Csv));
    for f in [Format::Xml, Format::Html, Format::Tle, Format::ThreeLine, Format::Kvn] {
        match decoding_for(f) {
            Err(Error::Config(m)) => assert_eq!(m, RAW_PATH_HINT),
            _ => panic!("expected a configuration error"),
        }
    }
}

#[test]
fn zero_records_is_empty_error() {
    let none: Vec<u32> = Vec::new();
    assert!(matches!(non_empty(none), Err(Error::Empty)));
}

#[test]
fn records_pass_through() {
    match non_empty(vec![3u32, 1, 2]) {
        Ok(v) => assert_eq!(v, vec![3, 1, 2]),
        Err(_) => panic!("expected records"),
    }
}

#[test]
fn single_takes_last() {
    assert!(matches!(single(vec![7u32]), Ok(7)));
    assert!(matches!(single(vec![7u32, 9]), Ok(9)));
    assert!(matches!(single(Vec::<u32>::new()), Err(Error::Empty)));
}

#[test]
fn fixed_messages() {
    assert_eq!(Error::Http(404).message(), "HTTP error 404");
    assert_eq!(Error::Http(0).message(), "HTTP error 0");
    assert_eq!(Error::Auth.message(), "authentication failed");
    assert_eq!(Error::Empty.message(), "no records returned");
    assert_eq!(Error::Other("boom".to_string()).message(), "boom");
    assert_eq!(Error::Config("cfg".to_string()).message(), "cfg");
    assert_eq!(Error::Decode("bad row".to_string()).message(), "bad row");
}

#[test]
fn json_error_message() {
    let e = serde_json::from_str::<u32>("not json").unwrap_err();
    let text = e.to_string();
    let err = Error::from(e);
    assert!(matches!(err, Error::Json(_)));
    assert_eq!(err.message(), format!("json error: {}", text));
}

#[test]
fn transport_error_message() {
    let e = ureq::Agent::new().get("not a url").call().unwrap_err();
    let text = e.to_string();
    let err = Error::from(e);
    assert!(matches!(err, Error::Ureq(_)));
    assert_eq!(err.message(), format!("ureq error: {}", text));
}

#[test]
fn status_decides_before_format() {
    assert!(matches!(response_route(500, Format::Json), Err(Error::Http(500))));
    assert!(matches!(response_route(503, Format::Xml), Err(Error::Http(503))));
    assert_eq!(response_route(200, Format::Json).ok(), Some(Decoding::Json));
    assert_eq!(response_route(200, Format::Csv).ok(), Some(Decoding::Csv));
    match response_route(200, Format::Tle) {
        Err(Error::Config(m)) => assert_eq!(m, RAW_PATH_HINT),
        _ => panic!("expected a configuration error"),
    }
}

#[test]
fn io_error_becomes_other_with_text() {
    let e = std::io::Error::new(std::io::ErrorKind::UnexpectedEof, "body cut short");
    match Error::from(e) {
        Error::Other(m) => assert_eq!(m, "body cut short"),
        _ => panic!("expected Other"),
    }
}
