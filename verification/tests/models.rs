use what3words::AvailableLanguages;
use what3words::ConvertToCoordinates;
use what3words::Error;
use what3words::Language;
use what3words::check_polygon_bounds;
use what3words::classify_transport_error;

#[test]
fn test_convert_to_coordinates_to_hash_map() {
    let convert = ConvertToCoordinates::new("index.home.raft").locale("en");
    if let Ok(map) = convert.to_hash_map() {
        assert_eq!(map.get("locale"), Some(&"en".to_string()));
        assert_eq!(map.get("words"), Some(&"index.home.raft".to_string()));
    }
}

#[test]
fn test_convert_to_coordinates_new() {
    let convert = ConvertToCoordinates::new("index.home.raft");
    assert_eq!(convert.words, Some("index.home.raft".to_string()));
    assert_eq!(convert.locale, None);
}

#[test]
fn test_convert_to_coordinates_locale() {
    let convert = ConvertToCoordinates::new("index.home.raft").locale("en");
    assert_eq!(convert.words, Some("index.home.raft".to_string()));
    assert_eq!(convert.locale, Some("en".to_string()));
}

#[test]
fn test_error_display() {
    let network_error = Error::Network(String::from("Connection lost"));
    assert_eq!(network_error.message(), "Network error: Connection lost");

    let http_error = Error::Http(String::from("404 Not Found"));
    assert_eq!(http_error.message(), "HTTP error: 404 Not Found");

    let api_error = Error::Api(String::from("400"), String::from("Bad Request"));
    assert_eq!(api_error.message(), "W3W error: 400 Bad Request");

    let decode_error = Error::Decode(String::from("Invalid JSON"));
    assert_eq!(decode_error.message(), "Decode error: Invalid JSON");

    let unknown_error = Error::Unknown(String::from("Something went wrong"));
    assert_eq!(unknown_error.message(), "Unknown error: Something went wrong");
}

#[test]
fn invalid_parameter_message() {
    let error = Error::InvalidParameter(String::from("A polygon must have at least 4 coordinates."));
    assert_eq!(
        error.message(),
        "Invalid parameter: A polygon must have at least 4 coordinates."
    );
}

#[test]
fn query_pairs_lists_only_set_options() {
    let pairs = ConvertToCoordinates::new("index.home.raft").query_pairs();
    assert_eq!(
        pairs,
        vec![("words".to_string(), "index.home.raft".to_string())]
    );

    let pairs = ConvertToCoordinates::new("index.home.raft").locale("en").query_pairs();
    assert_eq!(
        pairs,
        vec![
            ("locale".to_string(), "en".to_string()),
            ("words".to_string(), "index.home.raft".to_string()),
        ]
    );
}

#[test]
fn classify_transport_error_follows_the_taxonomy() {
    let e = classify_transport_error(true, false, false, "boom".to_string());
    assert_eq!(e, Error::Http("boom".to_string()));
    let e = classify_transport_error(false, true, false, "boom".to_string());
    assert_eq!(e, Error::Network("boom".to_string()));
    let e = classify_transport_error(false, false, true, "boom".to_string());
    assert_eq!(e, Error::Decode("boom".to_string()));
    let e = classify_transport_error(false, false, false, "boom".to_string());
    assert_eq!(e, Error::Unknown("boom".to_string()));
    // request classification wins over the others
    let e = classify_transport_error(true, true, true, "boom".to_string());
    assert_eq!(e, Error::Http("boom".to_string()));
}

#[test]
fn polygon_bounds_accept_closed_small_rings() {
    assert!(check_polygon_bounds(4, true).is_ok());
    assert!(check_polygon_bounds(25, true).is_ok());

    let err = check_polygon_bounds(3, true).unwrap_err();
    assert_eq!(
        err,
        Error::InvalidParameter("A polygon must have at least 4 coordinates.".to_string())
    );
    let err = check_polygon_bounds(26, true).unwrap_err();
    assert_eq!(
        err,
        Error::InvalidParameter("A polygon must have no more than 25 coordinates.".to_string())
    );
    let err = check_polygon_bounds(5, false).unwrap_err();
    assert_eq!(
        err,
        Error::InvalidParameter(
            "The first and last coordinates must be the same to form a closed polygon."
                .to_string()
        )
    );
}

#[test]
fn available_languages_hold_plain_values() {
    let languages = AvailableLanguages {
        languages: vec![
            Language {
                native_name: "English".to_string(),
                code: "en".to_string(),
                name: "English".to_string(),
            },
            Language {
                native_name: "Fran\u{e7}ais".to_string(),
                code: "fr".to_string(),
                name: "French".to_string(),
            },
        ],
    };
    assert_eq!(languages.languages.len(), 2);
    assert_eq!(languages.languages[0].code, "en");
    assert_eq!(languages.languages[1].code, "fr");
}
