use reqwest::header::{HeaderMap, HeaderValue};
use stream_download::http::{
    accepts_ranges, content_type_from_header, format_range_header_bytes, header_content_length,
    header_content_type, parse_content_length, range_request, supports_range_request, ContentType,
    RangeRequest, ResponseHeaders, RANGE_HEADER_KEY,
};

#[test]
fn range_header_values() {
    assert_eq!(format_range_header_bytes(200, Some(400)), "bytes=200-400");
    assert_eq!(format_range_header_bytes(0, None), "bytes=0-");
    assert_eq!(
        format_range_header_bytes(u64::MAX, Some(u64::MAX)),
        format!("bytes={}-{}", u64::MAX, u64::MAX)
    );
    assert_eq!(RANGE_HEADER_KEY, "Range");
}

#[test]
fn range_requests_use_an_inclusive_end() {
    assert_eq!(
        range_request(100, Some(200), Some(1000)),
        RangeRequest::Request { start: 100, end: Some(199) }
    );
    assert_eq!(range_request(100, None, None), RangeRequest::Request { start: 100, end: None });
    // a seek to the very end leaves nothing to fetch
    assert_eq!(range_request(1000, None, Some(1000)), RangeRequest::EmptyStream);
}

#[test]
fn content_length_header_values() {
    assert_eq!(parse_content_length(Some("1234")), Some(1234));
    assert_eq!(parse_content_length(Some("+7")), Some(7));
    assert_eq!(parse_content_length(Some("")), None);
    assert_eq!(parse_content_length(Some("12a")), None);
    assert_eq!(parse_content_length(Some("-1")), None);
    assert_eq!(parse_content_length(Some("18446744073709551616")), None);
    assert_eq!(parse_content_length(Some("18446744073709551615")), Some(u64::MAX));
    assert_eq!(parse_content_length(None), None);
}

#[test]
fn content_type_values() {
    assert_eq!(
        content_type_from_header(Some("audio/mpeg")),
        Some(ContentType { ty: "audio".to_string(), subtype: "mpeg".to_string() })
    );
    assert_eq!(
        content_type_from_header(Some("text/html; charset=utf-8")),
        Some(ContentType { ty: "text".to_string(), subtype: "html".to_string() })
    );
    assert_eq!(content_type_from_header(Some("not a media type")), None);
    assert_eq!(content_type_from_header(None), None);
}

#[test]
fn accept_ranges_values() {
    assert!(accepts_ranges(Some("bytes")));
    assert!(!accepts_ranges(Some("none")));
    assert!(!accepts_ranges(None));
}

#[test]
fn headers_of_a_response() {
    let mut headers = HeaderMap::new();
    headers.insert("content-length", HeaderValue::from_static("4096"));
    headers.insert("content-type", HeaderValue::from_static("audio/ogg"));
    headers.insert("accept-ranges", HeaderValue::from_static("bytes"));
    assert_eq!(header_content_length(&headers), Some(4096));
    assert_eq!(
        header_content_type(&headers),
        Some(ContentType { ty: "audio".to_string(), subtype: "ogg".to_string() })
    );
    assert!(supports_range_request(&headers));
    assert_eq!(headers.header("Content-Length"), Some("4096"));
    assert_eq!(headers.header("x-missing"), None);

    let mut headers = HeaderMap::new();
    headers.insert("accept-ranges", HeaderValue::from_static("none"));
    headers.insert("content-length", HeaderValue::from_static("many"));
    assert!(!supports_range_request(&headers));
    assert_eq!(header_content_length(&headers), None);
    assert_eq!(header_content_type(&headers), None);
    assert!(!supports_range_request(&HeaderMap::new()));
}

#[test]
fn unreadable_header_values_are_absent() {
    let mut headers = HeaderMap::new();
    headers.insert("content-length", HeaderValue::from_bytes(&[0xC3, 0xA9]).unwrap());
    assert_eq!(headers.header("content-length"), None);
    assert_eq!(header_content_length(&headers), None);
}
