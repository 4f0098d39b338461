use lazyradio::search::types::{ParseError, SearchQuery};
use lazyradio::search::validation::{is_default_query, validate_field};

#[test]
fn test_current_page_initial() {
    assert_eq!(SearchQuery::default().current_page(), 1);
}

#[test]
fn test_next_page_increments() {
    let mut q = SearchQuery::default();
    q.next_page();
    assert_eq!(q.current_page(), 2);
    assert_eq!(q.offset, q.limit);
}

#[test]
fn test_next_page_multiple_times() {
    let mut q = SearchQuery::default();
    q.next_page();
    q.next_page();
    q.next_page();
    assert_eq!(q.current_page(), 4);
    assert_eq!(q.offset, q.limit * 3);
}

#[test]
fn test_prev_page_at_first_page_does_not_underflow() {
    let mut q = SearchQuery::default();
    q.prev_page();
    assert_eq!(q.offset, 0);
    assert_eq!(q.current_page(), 1);
}

#[test]
fn test_prev_page_returns_to_previous() {
    let mut q = SearchQuery::default();
    q.next_page();
    q.next_page();
    q.prev_page();
    assert_eq!(q.current_page(), 2);
}

#[test]
fn test_reset_pagination() {
    let mut q = SearchQuery::default();
    q.next_page();
    q.next_page();
    q.reset_pagination();
    assert_eq!(q.offset, 0);
    assert_eq!(q.current_page(), 1);
}

#[test]
fn test_current_page_with_custom_limit() {
    let mut q = SearchQuery::default();
    q.limit = 20;
    q.offset = 40;
    assert_eq!(q.current_page(), 3);
}

#[test]
fn test_parse_error_display_unknown_field() {
    let e = ParseError::UnknownField("foo".to_string());
    assert_eq!(e.to_string(), "Unknown field: 'foo'");
}

#[test]
fn test_parse_error_display_invalid_value() {
    let e = ParseError::InvalidValue {
        field: "country".to_string(),
        value: "a,b".to_string(),
        reason: "multiple values not allowed".to_string(),
    };
    let s = e.to_string();
    assert!(s.contains("country"));
    assert!(s.contains("a,b"));
    assert!(s.contains("multiple values not allowed"));
}

#[test]
fn test_parse_error_display_missing_equals() {
    let e = ParseError::MissingEquals("country".to_string());
    assert!(e.to_string().contains("country"));
    assert!(e.to_string().contains("="));
}

#[test]
fn test_validate_all_known_fields() {
    let known = [
        "name", "country", "countrycode", "state", "language",
        "tag", "codec", "bitrate_min", "bitrate_max", "order",
        "reverse", "hidebroken", "is_https", "page",
    ];
    for field in known {
        assert!(validate_field(field), "expected '{}' to be valid", field);
    }
}

#[test]
fn test_validate_unknown_fields() {
    assert!(!validate_field(""));
    assert!(!validate_field("xyz"));
    assert!(!validate_field("tag_name"));
    assert!(!validate_field("bitrate"));
}

#[test]
fn test_validate_field_is_case_sensitive() {
    assert!(!validate_field("NAME"));
    assert!(!validate_field("Country"));
    assert!(!validate_field("TAG"));
}

#[test]
fn test_is_default_query_on_default() {
    assert!(is_default_query(&SearchQuery::default()));
}

#[test]
fn test_is_default_query_each_filter_field() {
    let cases: Vec<fn(&mut SearchQuery)> = vec![
        |q| q.name = Some("jazz".into()),
        |q| q.country = Some("France".into()),
        |q| q.countrycode = Some("FR".into()),
        |q| q.state = Some("Ile-de-France".into()),
        |q| q.language = Some("french".into()),
        |q| q.tags = Some(vec!["jazz".into()]),
        |q| q.codec = Some("MP3".into()),
        |q| q.bitrate_min = Some(128),
        |q| q.bitrate_max = Some(320),
        |q| q.is_https = Some(true),
        |q| q.order = Some("name".into()),
        |q| q.reverse = Some(false),
        |q| q.hidebroken = Some(false),
    ];
    for modify in cases {
        let mut q = SearchQuery::default();
        modify(&mut q);
        assert!(!is_default_query(&q));
    }
}

#[test]
fn test_is_default_query_pagination_offset_ignored() {
    let mut q = SearchQuery::default();
    q.offset = 24;
    assert!(is_default_query(&q));
}

#[test]
fn parse_error_messages_name_the_problem() {
    let e = ParseError::InvalidSyntax("bad".to_string());
    assert!(e.to_string().contains("bad"));
}

#[test]
fn default_query_shows_popular_working_stations() {
    let q = SearchQuery::default();
    assert_eq!(q.order, Some("votes".to_string()));
    assert_eq!(q.reverse, Some(true));
    assert_eq!(q.hidebroken, Some(true));
    assert_eq!(q.limit, 12);
    assert_eq!(q.offset, 0);
    assert_eq!(q.name, None);
}
