use juju::charm_url::{kebab_case, parse_name, parse_namespace, parse_revision, parse_store};
use juju::charm_url::CharmURL;

#[test]
fn test_alphadash() {
    let (remainder, parsed) = kebab_case("foo-foo").unwrap();

    assert_eq!(parsed, "foo-foo");
    assert_eq!(remainder, "");
}

#[test]
fn test_store() {
    let (remainder, parsed) = parse_store("cs:~foo/bar-42").unwrap();

    assert_eq!(parsed, Some("cs".to_string()));
    assert_eq!(remainder, "~foo/bar-42");
}

#[test]
fn test_namespace() {
    let (remainder, parsed) = parse_namespace("~foo/bar-42").unwrap();

    assert_eq!(parsed, Some("foo".to_string()));
    assert_eq!(remainder, "bar-42");
}

#[test]
fn test_name() {
    let (remainder, parsed) = parse_name("bar-42").unwrap();

    assert_eq!(parsed, "bar");
    assert_eq!(remainder, "-42");

    let (remainder, parsed) = parse_name("k8s-42").unwrap();

    assert_eq!(parsed, "k8s");
    assert_eq!(remainder, "-42");

    let (remainder, parsed) = parse_name("bar-").unwrap();
    assert_eq!(parsed, "bar");
    assert_eq!(remainder, "-");

    let (remainder, parsed) = parse_name("-bar").unwrap();
    assert_eq!(parsed, "");
    assert_eq!(remainder, "-bar");
}

#[test]
fn test_revision() {
    let (remainder, parsed) = parse_revision("-42").unwrap();

    assert_eq!(parsed, Some("42".to_string()));
    assert_eq!(remainder, "");
}

#[test]
fn test_full_valid() {
    let charm_url: CharmURL = "cs:~foo/bar-42".parse().unwrap();

    assert_eq!(
        charm_url,
        CharmURL {
            store: Some("cs".to_string()),
            namespace: Some("foo".to_string()),
            name: "bar".to_string(),
            revision: Some(42),
        }
    );
}

#[test]
fn test_full_bad_rev() {
    let charm_url: Result<CharmURL, String> = "cs:~foo/bar-4294967296".parse();

    assert!(charm_url.is_err());
}

#[test]
fn test_partial() {
    let urls = vec![
        "cs:~foo-foo/bar-42",
        "cs:~foo/bar",
        "cs:bar-42",
        "cs:bar",
        "~foo/bar-42",
        "~foo/bar",
        "bar-42",
        "bar",
    ];

    let expecteds = vec![
        CharmURL {
            store: Some("cs".to_string()),
            namespace: Some("foo-foo".to_string()),
            name: "bar".to_string(),
            revision: Some(42),
        },
        CharmURL {
            store: Some("cs".to_string()),
            namespace: Some("foo".to_string()),
            name: "bar".to_string(),
            revision: None,
        },
        CharmURL {
            store: Some("cs".to_string()),
            namespace: None,
            name: "bar".to_string(),
            revision: Some(42),
        },
        CharmURL {
            store: Some("cs".to_string()),
            namespace: None,
            name: "bar".to_string(),
            revision: None,
        },
        CharmURL {
            store: None,
            namespace: Some("foo".to_string()),
            name: "bar".to_string(),
            revision: Some(42),
        },
        CharmURL {
            store: None,
            namespace: Some("foo".to_string()),
            name: "bar".to_string(),
            revision: None,
        },
        CharmURL {
            store: None,
            namespace: None,
            name: "bar".to_string(),
            revision: Some(42),
        },
        CharmURL {
            store: None,
            namespace: None,
            name: "bar".to_string(),
            revision: None,
        },
    ];

    for (url, expected) in urls.into_iter().zip(expecteds) {
        println!("Testing {}", url);
        let parsed: CharmURL = url.parse().unwrap();
        assert_eq!(parsed, expected);
    }
}

#[test]
fn round_trip_samples() {
    let samples = vec![
        CharmURL {
            store: Some("cs".to_string()),
            namespace: Some("my-team".to_string()),
            name: "my-app".to_string(),
            revision: Some(42),
        },
        CharmURL {
            store: None,
            namespace: None,
            name: "k8s".to_string(),
            revision: None,
        },
        CharmURL {
            store: None,
            namespace: None,
            name: "a".to_string(),
            revision: Some(0),
        },
        CharmURL {
            store: Some("ch".to_string()),
            namespace: None,
            name: "bar".to_string(),
            revision: Some(4294967295),
        },
    ];

    for url in samples {
        let text = url.to_string();
        let reparsed = CharmURL::parse(&text).unwrap();
        assert_eq!(reparsed, url);
    }
}

#[test]
fn grammar_boundary() {
    // A trailing dash stays out of the name token; the token parser leaves
    // it as the remainder, and a full parse rejects it as trailing data.
    let (remainder, parsed) = parse_name("bar-").unwrap();
    assert_eq!(parsed, "bar");
    assert_eq!(remainder, "-");
    assert!(CharmURL::parse("bar-").is_err());

    // A dash before digits splits name and revision.
    let with_rev = CharmURL::parse("bar-42").unwrap();
    assert_eq!(with_rev.name, "bar");
    assert_eq!(with_rev.revision, Some(42));

    // A leading dash is never part of a name.
    assert!(CharmURL::parse("-bar").is_err());
}

#[test]
fn revision_overflow() {
    assert!(CharmURL::parse("bar-4294967296").is_err());

    let ok = CharmURL::parse("bar-4294967295").unwrap();
    assert_eq!(ok.revision, Some(4294967295));
    assert_eq!(ok.name, "bar");
}

#[test]
fn namespace_optionality() {
    let a = CharmURL::parse("cs:bar-42").unwrap();
    assert_eq!(a.store, Some("cs".to_string()));
    assert_eq!(a.namespace, None);
    assert_eq!(a.name, "bar");
    assert_eq!(a.revision, Some(42));

    let b = CharmURL::parse("~foo/bar-42").unwrap();
    assert_eq!(b.store, None);
    assert_eq!(b.namespace, Some("foo".to_string()));
    assert_eq!(b.name, "bar");
    assert_eq!(b.revision, Some(42));

    let c = CharmURL::parse("bar-42").unwrap();
    assert_eq!(c.store, None);
    assert_eq!(c.namespace, None);
    assert_eq!(c.name, "bar");
    assert_eq!(c.revision, Some(42));

    let d = CharmURL::parse("cs:~foo/bar-42").unwrap();
    assert_eq!(d.store, Some("cs".to_string()));
    assert_eq!(d.namespace, Some("foo".to_string()));
    assert_eq!(d.name, "bar");
    assert_eq!(d.revision, Some(42));
}

#[test]
fn grammar_errors() {
    // An empty text has no name.
    assert_eq!(
        CharmURL::parse("").unwrap_err(),
        "charm url has an empty name"
    );
    // A namespace with nothing after it leaves no name either.
    assert_eq!(
        CharmURL::parse("~foo/").unwrap_err(),
        "charm url has an empty name"
    );
    // An out-of-range revision is rejected, not truncated.
    assert_eq!(
        CharmURL::parse("bar-99999999999").unwrap_err(),
        "charm url revision is out of range"
    );
    // Unconsumed text after the four stages is rejected.
    assert_eq!(
        CharmURL::parse("bar-").unwrap_err(),
        "extra data at end of charm url"
    );
    assert_eq!(
        CharmURL::parse("foo bar").unwrap_err(),
        "extra data at end of charm url"
    );
}

#[test]
fn dash_before_letter_stays_in_token() {
    // A dash directly before a letter belongs to the name.
    let url = CharmURL::parse("a-b").unwrap();
    assert_eq!(url.name, "a-b");
    assert_eq!(url.revision, None);

    // A dash directly before a non-ASCII letter is kept by the token
    // scanner, which then stops at that letter.
    let (remainder, parsed) = parse_name("a-\u{e9}").unwrap();
    assert_eq!(parsed, "a-");
    assert_eq!(remainder, "\u{e9}");
}

#[test]
fn helpers_and_copies() {
    let url = CharmURL::parse("cs:~foo/bar-42").unwrap();

    assert_eq!(url.api_name(), "~foo/bar-42");
    assert_eq!(url.to_string(), "cs:~foo/bar-42");

    let ns = url.with_namespace(Some("other".to_string()));
    assert_eq!(ns.to_string(), "cs:~other/bar-42");

    let no_rev = url.with_revision(None);
    assert_eq!(no_rev.to_string(), "cs:~foo/bar");

    let other_store = url.with_store(Some("ch".to_string()));
    assert_eq!(other_store.to_string(), "ch:~foo/bar-42");

    let from_path = CharmURL::from_path("/tmp/builds/bar");
    assert_eq!(from_path.to_string(), "/tmp/builds/bar");
    assert_eq!(from_path.store, None);
    assert_eq!(from_path.namespace, None);
    assert_eq!(from_path.revision, None);
}
