use s3_ingest::error::Error;
use s3_ingest::headers::{get_headers, get_mime_type, quoted, HeaderField, RequestHeaders};

fn field(name: &str, value: &[u8]) -> HeaderField {
    HeaderField { name: name.to_string(), value: value.to_vec() }
}

fn pair(name: &str, value: &str) -> (String, String) {
    (name.to_string(), value.to_string())
}

#[test]
fn content_type_of_a_request() {
    let none = RequestHeaders { fields: vec![] };
    assert_eq!(get_mime_type(&none), Ok("blob".to_string()));
    let some = RequestHeaders {
        fields: vec![field("a", b"b"), field("content-type", b"text/html"), field("content-type", b"x")],
    };
    assert_eq!(get_mime_type(&some), Ok("text/html".to_string()));
    let bad = RequestHeaders { fields: vec![field("content-type", &[b'a', 0xe9])] };
    assert!(matches!(get_mime_type(&bad), Err(Error::InvalidHeader(_))));
    assert!(matches!(get_headers(&bad), Err(Error::InvalidHeader(_))));
    let tab = RequestHeaders { fields: vec![field("content-type", b"a\tb c")] };
    assert_eq!(get_mime_type(&tab), Ok("a\tb c".to_string()));
    let control = RequestHeaders { fields: vec![field("content-type", b"a\nb")] };
    assert!(get_mime_type(&control).is_err());
    let del = RequestHeaders { fields: vec![field("content-type", &[0x7f])] };
    assert!(get_mime_type(&del).is_err());
}

#[test]
fn headers_that_stay_with_the_object() {
    let request = RequestHeaders {
        fields: vec![
            field("x-amz-meta-b", b"first"),
            field("expires", b"never"),
            field("host", b"example.com"),
            field("content-type", b"text/plain"),
            field("cache-control", b"no-cache"),
            field("cache-control", b"second"),
            field("content-language", &[0xff]),
            field("x-amz-meta-a", b"1"),
            field("x-amz-meta-b", b"last"),
            field("x-amz-meta-c", &[0x80]),
            field("x-amz-meta", b"no"),
            field("content-encoding", b"gzip"),
            field("content-disposition", b"inline"),
            field("content-md5", b"abc"),
        ],
    };
    let h = get_headers(&request).unwrap();
    assert_eq!(h.content_type, "text/plain");
    // Each name once, in the order of the names; of two headers of one
    // name the last one stays.
    assert_eq!(
        h.other.entries(),
        &vec![
            pair("cache-control", "no-cache"),
            pair("content-disposition", "inline"),
            pair("content-encoding", "gzip"),
            pair("expires", "never"),
            pair("x-amz-meta-a", "1"),
            pair("x-amz-meta-b", "last"),
        ]
    );
    let map: std::collections::BTreeMap<String, String> =
        h.other.entries().clone().into_iter().collect();
    assert_eq!(&map.into_iter().collect::<Vec<_>>(), h.other.entries());
    let empty = get_headers(&RequestHeaders { fields: vec![] }).unwrap();
    assert_eq!(empty.content_type, "blob");
    assert!(empty.other.entries().is_empty());
}

#[test]
fn first_header_of_a_name() {
    let request = RequestHeaders { fields: vec![field("a", b"1"), field("b", b"2"), field("a", b"3")] };
    assert_eq!(request.get("a"), Some(&b"1".to_vec()));
    assert_eq!(request.get("b"), Some(&b"2".to_vec()));
    assert_eq!(request.get("c"), None);
    assert_eq!(request.get_text("a"), Ok(Some("1".to_string())));
    assert_eq!(request.get_text("c"), Ok(None));
}

#[test]
fn quoted_etag() {
    assert_eq!(quoted("abc"), "\"abc\"");
    assert_eq!(quoted(""), "\"\"");
}

#[test]
fn headers_are_kept_in_the_order_of_their_names() {
    let mut h = s3_ingest::object::ObjectVersionHeaders::new("text/plain".to_string());
    for (name, value) in [
        ("x-amz-meta-b", "1"),
        ("expires", "2"),
        ("x-amz-meta-a", "3"),
        ("x-amz-meta-ab", "4"),
        ("cache-control", "5"),
        ("x-amz-meta-", "6"),
        ("x-amz-meta-\u{e9}", "7"),
        ("x-amz-meta-a", "8"),
        ("X-upper", "9"),
        ("expires", "10"),
    ] {
        h.put(name.to_string(), value.to_string());
    }
    let names: Vec<&str> = h.other.entries().iter().map(|e| e.0.as_str()).collect();
    assert_eq!(
        names,
        vec![
            "X-upper",
            "cache-control",
            "expires",
            "x-amz-meta-",
            "x-amz-meta-a",
            "x-amz-meta-ab",
            "x-amz-meta-b",
            "x-amz-meta-\u{e9}",
        ]
    );
    let map: std::collections::BTreeMap<String, String> =
        h.other.entries().clone().into_iter().collect();
    assert_eq!(&map.into_iter().collect::<Vec<_>>(), h.other.entries());
    assert_eq!(h.other.entries()[2], pair("expires", "10"));
    assert_eq!(h.other.entries()[4], pair("x-amz-meta-a", "8"));
    assert_eq!(h.clone(), h);
    assert_eq!(h.duplicate(), h);
    assert_eq!(h.content_type, "text/plain");
}
