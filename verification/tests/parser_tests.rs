use lazyradio::search::parser::{format_query, parse_query};
use lazyradio::search::types::{ParseError, SearchQuery};
use lazyradio::search::validation::is_default_query;

#[test]
fn test_parse_empty_query() {
    let query = parse_query("").unwrap();
    assert!(is_default_query(&query));
}

#[test]
fn test_parse_simple_query() {
    let query = parse_query("country=france").unwrap();
    assert_eq!(query.country, Some("france".to_string()));
}

#[test]
fn test_parse_multiple_values() {
    let result = parse_query("country=france,germany");
    assert!(matches!(result, Err(ParseError::InvalidValue { .. })));
}

#[test]
fn test_parse_multiple_fields() {
    let query = parse_query("country=france tag=jazz").unwrap();
    assert_eq!(query.country, Some("france".to_string()));
    assert_eq!(query.tags, Some(vec!["jazz".to_string()]));
}

#[test]
fn test_parse_numeric_field() {
    let query = parse_query("bitrate_min=128").unwrap();
    assert_eq!(query.bitrate_min, Some(128));
}

#[test]
fn test_parse_boolean_field() {
    let query = parse_query("hidebroken=true").unwrap();
    assert_eq!(query.hidebroken, Some(true));

    let query = parse_query("hidebroken=false").unwrap();
    assert_eq!(query.hidebroken, Some(false));
}

#[test]
fn test_invalid_field() {
    let result = parse_query("countrx=france");
    assert!(matches!(result, Err(ParseError::UnknownField(_))));
}

#[test]
fn test_bare_word_as_name() {
    let query = parse_query("jazz").unwrap();
    assert_eq!(query.name, Some("jazz".to_string()));
}

#[test]
fn test_bare_words_joined_as_name() {
    let query = parse_query("jazz radio").unwrap();
    assert_eq!(query.name, Some("jazz radio".to_string()));
}

#[test]
fn test_bare_word_does_not_override_explicit_name() {
    let query = parse_query("name=blues extra").unwrap();
    assert_eq!(query.name, Some("blues".to_string()));
}

#[test]
fn test_invalid_boolean() {
    let result = parse_query("hidebroken=yes");
    assert!(matches!(result, Err(ParseError::InvalidValue { .. })));
}

#[test]
fn test_invalid_number() {
    let result = parse_query("bitrate_min=abc");
    assert!(matches!(result, Err(ParseError::InvalidValue { .. })));
}

#[test]
fn test_format_query() {
    let mut query = SearchQuery::default();
    query.country = Some("france".to_string());
    query.tags = Some(vec!["jazz".to_string()]);

    let formatted = format_query(&query);
    assert!(formatted.contains("country=france"));
    assert!(formatted.contains("tag=jazz"));
}

#[test]
fn test_is_default_query() {
    let query = SearchQuery::default();
    assert!(is_default_query(&query));

    let mut query = SearchQuery::default();
    query.country = Some("france".to_string());
    assert!(!is_default_query(&query));
}

#[test]
fn test_pagination() {
    let mut query = SearchQuery::default();
    assert_eq!(query.current_page(), 1);

    query.next_page();
    assert_eq!(query.current_page(), 2);
    assert_eq!(query.offset, query.limit);

    query.prev_page();
    assert_eq!(query.current_page(), 1);
    assert_eq!(query.offset, 0);
}

#[test]
fn format_then_parse_gives_the_query_back() {
    let mut query = SearchQuery::default();
    query.name = Some("jazz".to_string());
    query.country = Some("france".to_string());
    query.bitrate_min = Some(128);
    query.reverse = Some(false);
    let text = format_query(&query);
    assert_eq!(text, "name=jazz country=france bitrate_min=128 reverse=false");
    let back = parse_query(&text).unwrap();
    assert_eq!(back, query);
}

#[test]
fn parse_reports_missing_equals_and_unknown_fields() {
    assert!(matches!(parse_query("country"), Ok(_)));
    assert!(matches!(parse_query("country=france foo=bar"), Err(ParseError::UnknownField(f)) if f == "foo"));
}

#[test]
fn parse_page_sets_the_offset() {
    let query = parse_query("page=3").unwrap();
    assert_eq!(query.offset, 2 * query.limit);
}

#[test]
fn formatted_query_parses_back() {
    let q = parse_query("country=France tag=jazz,blues countrycode=fr bitrate_min=128 order=Name reverse=false is_https=true Radio").unwrap();
    let text = format_query(&q);
    let back = parse_query(&text).unwrap();
    assert_eq!(back, q);
    assert_eq!(back.name, Some("Radio".to_string()));
    assert_eq!(back.countrycode, Some("FR".to_string()));
    assert_eq!(back.order, Some("name".to_string()));
    assert_eq!(back.tags, Some(vec!["jazz".to_string(), "blues".to_string()]));
    let plain = SearchQuery::default();
    assert_eq!(format_query(&plain), "");
    assert_eq!(parse_query(&format_query(&plain)).unwrap(), plain);
}

#[test]
fn parsed_queries_have_the_parsed_shape() {
    for text in ["", "jazz", "country=France  language=german tag=a,,b page=3", "order=Votes reverse=false"] {
        let q = parse_query(text).unwrap();
        assert_eq!(q.limit, 12);
        assert_eq!(q.offset % 12, 0);
        assert!(q.reverse.is_some() && q.hidebroken.is_some());
        if let Some(c) = &q.country {
            assert!(!c.is_empty() && !c.contains(','));
        }
        if let Some(t) = &q.tags {
            assert!(!t.is_empty() && t.iter().all(|x| !x.is_empty()));
        }
    }
    let q = parse_query("country=France  language=german tag=a,,b page=3").unwrap();
    assert_eq!(q.country, Some("France".to_string()));
    assert_eq!(q.tags, Some(vec!["a".to_string(), "b".to_string()]));
    assert_eq!(q.offset, 24);
}
