use s3_ingest::cors::{
    add_cors_headers, cors_rule_matches, CorsConfiguration, CorsRule, GarageCorsRule, IntValue,
    InvalidHeaderValue, Value,
};
use s3_ingest::error::Error;

fn values(list: &[&str]) -> Vec<Value> {
    list.iter().map(|s| Value(s.to_string())).collect()
}

fn strings(list: &[&str]) -> Vec<String> {
    list.iter().map(|s| s.to_string()).collect()
}

fn rule(methods: &[&str], allowed: &[&str], exposed: &[&str]) -> CorsRule {
    CorsRule {
        id: Some(Value("qsdfjklm".to_string())),
        max_age_seconds: Some(IntValue(12345)),
        allowed_origins: values(&["https://perdu.com"]),
        allowed_methods: values(methods),
        allowed_headers: values(allowed),
        expose_headers: values(exposed),
    }
}

fn garage_rule() -> GarageCorsRule {
    GarageCorsRule {
        id: None,
        max_age_seconds: None,
        allow_origins: strings(&["http://www.example.com", "https://perdu.com"]),
        allow_methods: strings(&["PUT", "POST", "DELETE"]),
        allow_headers: strings(&["x-one", "x-two"]),
        expose_headers: strings(&["*"]),
    }
}

#[test]
fn rules_are_validated() {
    assert_eq!(rule(&["GET", "DELETE"], &["*"], &["*"]).validate(), Ok(()));
    assert_eq!(rule(&["PUT", "POST", "CUSTOM-METHOD"], &["X-Header", "content-type"], &[]).validate(), Ok(()));
    assert_eq!(
        rule(&["GET", "NOT A METHOD"], &["*"], &[]).validate(),
        Err(Error::BadRequest("Invalid CORSRule method: invalid HTTP method".to_string()))
    );
    assert_eq!(
        rule(&[""], &[], &[]).validate(),
        Err(Error::BadRequest("Invalid CORSRule method: invalid HTTP method".to_string()))
    );
    assert_eq!(
        rule(&["GET"], &["bad header"], &[]).validate(),
        Err(Error::BadRequest("Invalid HTTP header name: invalid HTTP header name".to_string()))
    );
    assert_eq!(
        rule(&["GET"], &["ok"], &["ok", ""]).validate(),
        Err(Error::BadRequest("Invalid HTTP header name: invalid HTTP header name".to_string()))
    );
    assert_eq!(
        rule(&["G T"], &["bad header"], &[]).validate(),
        Err(Error::BadRequest("Invalid CORSRule method: invalid HTTP method".to_string()))
    );
    let conf = CorsConfiguration {
        cors_rules: vec![rule(&["GET"], &[], &[]), rule(&["GET"], &["a b"], &[]), rule(&["?"], &[], &[])],
    };
    assert_eq!(
        conf.validate(),
        Err(Error::BadRequest("Invalid HTTP header name: invalid HTTP header name".to_string()))
    );
    assert_eq!(CorsConfiguration { cors_rules: vec![] }.validate(), Ok(()));
}

#[test]
fn rules_are_converted() {
    let r = rule(&["GET", "DELETE"], &["*"], &["x"]);
    let g = r.to_garage_cors_rule();
    assert_eq!(
        g,
        GarageCorsRule {
            id: Some("qsdfjklm".to_string()),
            max_age_seconds: Some(12345),
            allow_origins: strings(&["https://perdu.com"]),
            allow_methods: strings(&["GET", "DELETE"]),
            allow_headers: strings(&["*"]),
            expose_headers: strings(&["x"]),
        }
    );
    assert_eq!(CorsRule::from_garage_cors_rule(&g), r);
    let mut negative = r.clone();
    negative.max_age_seconds = Some(IntValue(-1));
    negative.id = None;
    let g = negative.to_garage_cors_rule();
    assert_eq!(g.max_age_seconds, Some(u64::MAX));
    assert_eq!(g.id, None);
    assert_eq!(CorsRule::from_garage_cors_rule(&g), negative);
    let conf = CorsConfiguration { cors_rules: vec![r.clone(), negative.clone()] };
    assert_eq!(
        conf.into_garage_cors_config(),
        Ok(vec![r.to_garage_cors_rule(), negative.to_garage_cors_rule()])
    );
}

#[test]
fn rules_match_requests() {
    let r = garage_rule();
    assert!(cors_rule_matches(&r, "https://perdu.com", "PUT", &strings(&[])));
    assert!(cors_rule_matches(&r, "https://perdu.com", "PUT", &strings(&["x-one", "x-two", "x-one"])));
    assert!(!cors_rule_matches(&r, "https://perdu.com", "PUT", &strings(&["x-one", "x-three"])));
    assert!(!cors_rule_matches(&r, "https://perdu.org", "PUT", &strings(&[])));
    assert!(!cors_rule_matches(&r, "https://perdu.com", "GET", &strings(&[])));
    assert!(!cors_rule_matches(&r, "https://perdu.com", "put", &strings(&[])));
    let any = GarageCorsRule {
        id: None,
        max_age_seconds: None,
        allow_origins: strings(&["*"]),
        allow_methods: strings(&["GET", "*"]),
        allow_headers: strings(&["*"]),
        expose_headers: strings(&[]),
    };
    assert!(cors_rule_matches(&any, "anything", "ANY", &strings(&["whatever"])));
    let none = GarageCorsRule {
        id: None,
        max_age_seconds: None,
        allow_origins: strings(&[]),
        allow_methods: strings(&["*"]),
        allow_headers: strings(&["*"]),
        expose_headers: strings(&[]),
    };
    assert!(!cors_rule_matches(&none, "anything", "GET", &strings(&[])));
}

#[test]
fn headers_of_the_answer() {
    let pair = |a: &str, b: &str| (a.to_string(), b.to_string());
    assert_eq!(
        add_cors_headers(&garage_rule()),
        Ok(vec![
            pair("access-control-allow-origin", "http://www.example.com, https://perdu.com"),
            pair("access-control-allow-methods", "PUT, POST, DELETE"),
            pair("access-control-allow-headers", "x-one, x-two"),
            pair("access-control-expose-headers", "*"),
        ])
    );
    let mut empty = garage_rule();
    empty.expose_headers = vec![];
    assert_eq!(add_cors_headers(&empty).unwrap()[3], pair("access-control-expose-headers", ""));
    let mut bad = garage_rule();
    bad.allow_methods = strings(&["GET", "a\nb"]);
    assert_eq!(add_cors_headers(&bad), Err(InvalidHeaderValue));
    let mut wide = garage_rule();
    wide.allow_origins = strings(&["https://é.example", "tab\there"]);
    assert_eq!(
        add_cors_headers(&wide).unwrap()[0],
        pair("access-control-allow-origin", "https://é.example, tab\there")
    );
    let mut del = garage_rule();
    del.allow_headers = strings(&["\u{7f}"]);
    assert_eq!(add_cors_headers(&del), Err(InvalidHeaderValue));
}

#[test]
fn errors_of_a_rule() {
    let method = Err(Error::BadRequest("Invalid CORSRule method: invalid HTTP method".to_string()));
    let header =
        Err(Error::BadRequest("Invalid HTTP header name: invalid HTTP header name".to_string()));
    assert_eq!(s3_ingest::cors::rule_error(true, true, true), Ok(()));
    assert_eq!(s3_ingest::cors::rule_error(false, true, true), method);
    assert_eq!(s3_ingest::cors::rule_error(false, false, false), method);
    assert_eq!(s3_ingest::cors::rule_error(true, false, true), header);
    assert_eq!(s3_ingest::cors::rule_error(true, true, false), header);
}

#[test]
fn characters_of_methods_and_header_names() {
    let with_method = |m: &str| rule(&[m], &[], &[]).validate().is_ok();
    let with_header = |h: &str| rule(&["GET"], &[h], &[]).validate().is_ok();
    for ok in ["G", "get", "M-SEARCH", "a!*+-.^_`|~z", "0", "AVERYLONGMETHODNAMEOFMORETHANFIFTEEN"] {
        assert!(with_method(ok), "{:?}", ok);
    }
    for bad in ["", "G T", "a\"b", "a#b", "a$b", "a%b", "a&b", "a'b", "a(b", "a)b", "a,b", "a/b",
        "a:b", "a;b", "a<b", "a=b", "a>b", "a?b", "a@b", "a[b", "a\\b", "a]b", "a{b", "a}b", "é",
        "a\tb", "a\u{7f}"] {
        assert!(!with_method(bad), "{:?}", bad);
    }
    for ok in ["a", "X-Header", "a!\"#$%&'*+-.^_`|~z", "0", &"h".repeat(64), &"h".repeat(65),
        &"H".repeat(65535)] {
        assert!(with_header(ok), "{:?}", ok);
    }
    for bad in ["", "a b", "a(b", "a)b", "a,b", "a/b", "a:b", "a;b", "a<b", "a=b", "a>b", "a?b",
        "a@b", "a[b", "a\\b", "a]b", "a{b", "a}b", "é", "a\tb", "a\u{7f}", &"h".repeat(65536)] {
        assert!(!with_header(bad), "{:?}", bad);
    }
}
