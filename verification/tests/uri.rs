use tunnix::uri::{copy_text, copy_uri, same_text, same_uri, Uri, UriError};

fn parts(s: &str) -> (Option<String>, Option<String>, String, Option<String>, Option<String>) {
    let u = Uri::parse(s).unwrap();
    (u.scheme, u.authority, u.path, u.query, u.fragment)
}

fn some(s: &str) -> Option<String> {
    Some(s.to_string())
}

#[test]
fn addresses_are_taken_apart() {
    assert_eq!(
        parts("https://user@example.com:8443/a/b?x=1?y#z?"),
        (some("https"), some("user@example.com:8443"), "/a/b".to_string(), some("x=1?y"), some("z?"))
    );
    assert_eq!(
        parts("http://example.com"),
        (some("http"), some("example.com"), String::new(), None, None)
    );
    assert_eq!(
        parts("http://example.com?q"),
        (some("http"), some("example.com"), String::new(), some("q"), None)
    );
    assert_eq!(parts("/path#f"), (None, None, "/path".to_string(), None, some("f")));
    assert_eq!(parts("//x/y"), (None, None, "//x/y".to_string(), None, None));
    assert_eq!(parts("mailto:a@b"), (some("mailto"), None, "a@b".to_string(), None, None));
    assert_eq!(parts("h:/p"), (some("h"), None, "/p".to_string(), None, None));
}

#[test]
fn addresses_are_put_together_again() {
    for s in [
        "https://user@example.com:8443/a/b?x=1#z",
        "http://example.com",
        "http://",
        "/a//b/",
        "/?#",
        "a+b-c.1:x",
    ] {
        assert_eq!(Uri::parse(s).unwrap().to_text(), s);
    }
}

#[test]
fn what_is_no_address_is_refused() {
    assert_eq!(Uri::parse("").unwrap_err(), UriError::Empty);
    assert_eq!(Uri::parse("example.com/path").unwrap_err(), UriError::NoScheme);
    assert_eq!(Uri::parse("1http://x").unwrap_err(), UriError::NoScheme);
    assert_eq!(Uri::parse("?q").unwrap_err(), UriError::NoScheme);
    assert_eq!(Uri::parse("/a\nb").unwrap_err(), UriError::ControlCharacter);
    assert_eq!(Uri::parse("http://x/\u{7f}").unwrap_err(), UriError::ControlCharacter);
    let longest = format!("/{}", "a".repeat(65533));
    assert!(Uri::parse(&longest).is_ok());
    let too_long = format!("/{}", "a".repeat(65534));
    assert_eq!(Uri::parse(&too_long).unwrap_err(), UriError::TooLong);
}

#[test]
fn trailing_slashes_are_trimmed() {
    for (given, trimmed) in [
        ("/a/", "/a"),
        ("/a///", "/a"),
        ("//a/b//", "//a/b"),
        ("http://x//a/", "http://x//a"),
        ("/", "/"),
        ("//", "/"),
        ("/a/b", "/a/b"),
        ("http://x", "http://x"),
        ("http://x/", "http://x/"),
    ] {
        let once = Uri::parse(given).unwrap().trim_trailing_slash();
        assert_eq!(once.to_text(), trimmed);
        assert_eq!(once.trim_trailing_slash().to_text(), trimmed);
    }
}

#[test]
fn copies_are_the_same() {
    let u = Uri::parse("https://h/p?q#f").unwrap();
    assert!(u.same(&u.copy()));
    assert!(!u.same(&Uri::parse("https://h/p?q").unwrap()));
    assert!(!u.same(&Uri::parse("http://h/p?q#f").unwrap()));
    assert!(same_uri(&Some(u.copy()), &copy_uri(&Some(u))));
    assert!(same_uri(&None, &None));
    assert!(!same_uri(&None, &Uri::parse("/").ok()));
    assert_eq!(copy_text(&some("x")), some("x"));
    assert!(same_text(&some("x"), &some("x")));
    assert!(!same_text(&some("x"), &None));
}
