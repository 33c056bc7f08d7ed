use fetch_client::{names_match, request_init, setup_cors, Descriptor, Header, RequestMode};

fn header(name: &str, value: &str) -> Header {
    Header { name: name.to_string(), value: value.to_string() }
}

fn count(d: &Descriptor, name: &str) -> usize {
    d.headers.iter().filter(|h| names_match(&h.name, name)).count()
}

#[test]
fn token_gives_bearer_authorization() {
    let d = request_init("GET", None, Some("abc123".to_string()), None);
    assert_eq!(
        d.headers,
        vec![header("Authorization", "Bearer abc123"), header("Content-Type", "application/json")]
    );
    assert_eq!(d.header_value("Authorization"), Some("Bearer abc123"));
    assert_eq!(count(&d, "Authorization"), 1);
}

#[test]
fn no_token_gives_no_authorization() {
    let d = request_init("GET", None, None, None);
    assert_eq!(d.headers, vec![header("Content-Type", "application/json")]);
    assert_eq!(d.header_value("Authorization"), None);
    assert_eq!(count(&d, "Authorization"), 0);
}

#[test]
fn empty_token_is_still_a_token() {
    let d = request_init("GET", None, Some(String::new()), None);
    assert_eq!(d.header_value("Authorization"), Some("Bearer "));
}

#[test]
fn content_type_is_the_given_one() {
    let d = request_init("POST", Some("a=1".to_string()), None, Some("text/plain".to_string()));
    assert_eq!(d.header_value("Content-Type"), Some("text/plain"));
    assert_eq!(count(&d, "Content-Type"), 1);
}

#[test]
fn content_type_defaults_to_json() {
    let d = request_init("POST", Some("{}".to_string()), Some("t".to_string()), None);
    assert_eq!(d.header_value("Content-Type"), Some("application/json"));
    assert_eq!(count(&d, "Content-Type"), 1);
}

#[test]
fn method_mode_and_body_are_as_given() {
    let d = request_init("PATCH", Some("payload \u{1f600}".to_string()), None, None);
    assert_eq!(d.method, "PATCH");
    assert_eq!(d.mode, RequestMode::Cors);
    assert_eq!(d.body, Some("payload \u{1f600}".to_string()));
    let e = request_init("get", None, None, None);
    assert_eq!(e.method, "get");
    assert_eq!(e.body, None);
}

#[test]
fn setup_cors_adds_three_headers() {
    let mut d = request_init("GET", None, Some("tok".to_string()), None);
    setup_cors(&mut d);
    assert_eq!(
        d.headers,
        vec![
            header("Authorization", "Bearer tok"),
            header("Content-Type", "application/json"),
            header("Access-Control-Allow-Origin", "*"),
            header("Access-Control-Allow-Methods", "GET, POST, PUT, DELETE, OPTIONS"),
            header("Access-Control-Allow-Headers", "Content-Type, Authorization"),
        ]
    );
    assert_eq!(d.method, "GET");
    assert_eq!(d.mode, RequestMode::Cors);
    assert_eq!(d.body, None);
}

#[test]
fn setup_cors_twice_is_setup_cors_once() {
    let mut once = request_init("GET", None, None, None);
    setup_cors(&mut once);
    let mut twice = once.clone();
    setup_cors(&mut twice);
    assert_eq!(once, twice);
}

#[test]
fn setup_cors_replaces_what_is_there() {
    let mut d = Descriptor {
        method: "GET".to_string(),
        mode: RequestMode::Cors,
        body: None,
        headers: vec![
            header("access-control-allow-origin", "https://example.org"),
            header("X-Trace", "1"),
            header("ACCESS-CONTROL-ALLOW-ORIGIN", "null"),
        ],
    };
    setup_cors(&mut d);
    assert_eq!(
        d.headers,
        vec![
            header("access-control-allow-origin", "*"),
            header("X-Trace", "1"),
            header("Access-Control-Allow-Methods", "GET, POST, PUT, DELETE, OPTIONS"),
            header("Access-Control-Allow-Headers", "Content-Type, Authorization"),
        ]
    );
}

#[test]
fn set_header_keeps_place_and_drops_later_entries() {
    let mut d = request_init("GET", None, None, None);
    d.append_header("X-A", "1");
    d.append_header("x-b", "2");
    d.append_header("x-a", "3");
    d.append_header("X-A", "4");
    d.set_header("X-a", "9");
    assert_eq!(
        d.headers,
        vec![header("Content-Type", "application/json"), header("X-A", "9"), header("x-b", "2")]
    );
    d.set_header("X-C", "5");
    assert_eq!(d.headers.len(), 4);
    assert_eq!(d.headers[3], header("X-C", "5"));
    assert_eq!(d.header_value("x-c"), Some("5"));
}

#[test]
fn append_header_always_adds() {
    let mut d = request_init("GET", None, None, None);
    d.append_header("content-type", "text/plain");
    assert_eq!(d.headers.len(), 2);
    assert_eq!(count(&d, "Content-Type"), 2);
    assert_eq!(d.header_value("CONTENT-TYPE"), Some("application/json"));
}

#[test]
fn names_match_without_regard_to_ascii_case() {
    assert!(names_match("Content-Type", "content-type"));
    assert!(names_match("CONTENT-TYPE", "Content-Type"));
    assert!(names_match("", ""));
    assert!(!names_match("Content-Type", "Content-Typ"));
    assert!(!names_match("Content-Typ", "Content-Type"));
    assert!(!names_match("Content-Type", "Content_Type"));
    assert!(!names_match("Access-Control-Allow-Methods", "Access-Control-Allow-Headers"));
    assert!(!names_match("@", "`"));
    assert!(!names_match("[", "{"));
    assert!(!names_match("\u{c9}", "\u{e9}"));
    assert!(names_match("\u{e9}A", "\u{e9}a"));
}
