use manifest_rewrite::http::{names_match, to_ascii_lower, Header, Headers};

fn field(name: &str, value: &str) -> Header {
    Header { name: String::from(name), value: String::from(value) }
}

#[test]
fn to_ascii_lower_turns_capitals_only() {
    assert_eq!(to_ascii_lower('A'), 'a');
    assert_eq!(to_ascii_lower('Z'), 'z');
    assert_eq!(to_ascii_lower('a'), 'a');
    assert_eq!(to_ascii_lower('@'), '@');
    assert_eq!(to_ascii_lower('['), '[');
    assert_eq!(to_ascii_lower('-'), '-');
    assert_eq!(to_ascii_lower('É'), 'É');
    for c in ['A', 'M', 'Z', 'a', 'z', '0', '@', '[', '`', '{', 'É', 'é', '\u{0}', '\u{10FFFF}'] {
        assert_eq!(to_ascii_lower(c), c.to_ascii_lowercase());
    }
}

#[test]
fn names_match_without_regard_to_case() {
    assert!(names_match("X-DEMO-CDN", "x-demo-cdn"));
    assert!(names_match("Content-Type", "content-type"));
    assert!(names_match("", ""));
    assert!(!names_match("X-DEMO-CDN", "X-DEMO-CDN-TEST"));
    assert!(!names_match("X-DEMO-CDN-TEST", "X-DEMO-CDN"));
    assert!(!names_match("Allow", "Allo"));
    assert!(!names_match("a", ""));
    assert!(!names_match("X_DEMO", "X-DEMO"));
    assert!(!names_match("É", "é"));
    for (a, b) in [("Host", "HOST"), ("Host", "Hos"), ("@", "`"), ("[", "{"), ("k", "K")] {
        assert_eq!(names_match(a, b), a.eq_ignore_ascii_case(b));
    }
}

#[test]
fn new_headers_are_empty() {
    let headers = Headers::new();
    assert_eq!(headers.fields.len(), 0);
    assert_eq!(headers.get("Host"), None);
}

#[test]
fn get_finds_the_first_field_of_the_name() {
    let headers = Headers {
        fields: vec![field("Accept", "a"), field("x-token", "first"), field("X-Token", "second")],
    };
    assert_eq!(headers.get("X-TOKEN"), Some("first"));
    assert_eq!(headers.get("accept"), Some("a"));
    assert_eq!(headers.get("Host"), None);
}

#[test]
fn set_drops_every_field_of_the_name_and_adds_one() {
    let mut headers = Headers {
        fields: vec![
            field("x-demo-cdn", "client"),
            field("Accept", "a"),
            field("X-Demo-Cdn", "client again"),
            field("Host", "h"),
        ],
    };
    headers.set("X-DEMO-CDN", "origin");
    assert_eq!(
        headers.fields,
        vec![field("Accept", "a"), field("Host", "h"), field("X-DEMO-CDN", "origin")]
    );
    assert_eq!(headers.get("x-demo-cdn"), Some("origin"));
    assert_eq!(headers.get("accept"), Some("a"));
}

#[test]
fn set_on_empty_headers_adds_the_field() {
    let mut headers = Headers::new();
    headers.set("Allow", "GET, HEAD");
    assert_eq!(headers.fields, vec![field("Allow", "GET, HEAD")]);
}
