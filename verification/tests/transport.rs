use connectrpc_workers::{FetchTransport, Request, TransportError, UriParts};
use connectrpc_workers::{apply_built_uri, rewrite_uri};

/// The parts of a URI as `http` parses it.
fn parts_of(text: &str) -> UriParts {
    let uri: http::Uri = text.parse().unwrap();
    UriParts::new(
        uri.scheme_str().map(String::from),
        uri.authority().map(|a| a.as_str().to_string()),
        uri.path_and_query().map(|p| p.as_str().to_string()),
    )
    .unwrap()
}

fn parts(scheme: Option<&str>, authority: Option<&str>, pq: Option<&str>) -> UriParts {
    UriParts::new(
        scheme.map(String::from),
        authority.map(String::from),
        pq.map(String::from),
    )
    .unwrap()
}

#[test]
fn fetch_transport_rejects_uri_without_scheme() {
    // Path-only URIs parse fine but don't have enough info to send a
    // real request; that surfaces at construction time.
    let uri = parts_of("/some/path");
    let err = FetchTransport::new(uri).unwrap_err();
    assert!(err.message().contains("scheme"));
}

#[test]
fn fetch_transport_rejects_uri_without_authority() {
    // `mailto:` parses with a scheme but no authority.
    let uri = parts_of("mailto:user@example.com");
    let err = FetchTransport::new(uri).unwrap_err();
    let msg = err.message();
    assert!(
        msg.contains("authority") || msg.contains("scheme"),
        "unexpected error: {msg}"
    );
}

#[test]
fn fetch_transport_accepts_https_uri() {
    let uri = parts_of("https://example.com:8443/base");
    let t = FetchTransport::new(uri).expect("valid base URI");
    assert_eq!(t.scheme(), http::uri::Scheme::HTTPS.as_str());
    assert_eq!(t.authority(), "example.com:8443");
}

#[test]
fn rewrite_uri_replaces_scheme_and_authority_keeps_path() {
    let req = Request {
        uri: parts_of("http://placeholder.invalid/foo/bar?x=1"),
        rest: (),
    };
    let scheme = http::uri::Scheme::HTTPS.as_str().to_string();
    let authority: http::uri::Authority = "real.example:8443".parse().unwrap();
    let rewritten = rewrite_uri(req, scheme, authority.as_str().to_string()).unwrap();
    let uri = &rewritten.uri;
    assert_eq!(uri.scheme_str(), Some("https"));
    assert_eq!(uri.authority_str(), Some("real.example:8443"));
    assert_eq!(uri.path(), "/foo/bar");
    assert_eq!(uri.query(), Some("x=1".to_string()));
}

#[test]
fn rewrite_uri_defaults_path_to_root_when_missing() {
    // `http::Uri` parsed from just `http://host` has an empty path, which
    // `http` shows as `/`.
    let req = Request {
        uri: parts_of("http://placeholder"),
        rest: (),
    };
    let scheme = http::uri::Scheme::HTTP.as_str().to_string();
    let authority: http::uri::Authority = "real.example".parse().unwrap();
    let rewritten = rewrite_uri(req, scheme, authority.as_str().to_string()).unwrap();
    assert_eq!(rewritten.uri.path(), "/");
}

#[test]
fn new_reports_missing_scheme_before_authority() {
    let err = FetchTransport::new(parts(None, None, Some("/x"))).unwrap_err();
    assert_eq!(err, TransportError::MissingScheme);
    let err = FetchTransport::new(parts(None, Some("host"), None)).unwrap_err();
    assert_eq!(err, TransportError::MissingScheme);
    let err = FetchTransport::new(parts(Some("http"), None, Some("/x"))).unwrap_err();
    assert_eq!(err, TransportError::MissingAuthority);
}

#[test]
fn new_keeps_scheme_and_authority_of_base() {
    let t = FetchTransport::new(parts(Some("http"), Some("a.example"), None)).unwrap();
    assert_eq!(t.scheme(), "http");
    assert_eq!(t.authority(), "a.example");
}

#[test]
fn error_messages() {
    assert_eq!(
        TransportError::MissingScheme.message(),
        "FetchTransport base URI is missing a scheme"
    );
    assert_eq!(
        TransportError::MissingAuthority.message(),
        "FetchTransport base URI is missing an authority"
    );
    assert_eq!(
        TransportError::RewriteUri("boom".to_string()).message(),
        "rewrite uri: boom"
    );
}

#[test]
fn rewrite_without_path_and_query_goes_to_root() {
    let req = Request {
        uri: parts(None, Some("placeholder:443"), None),
        rest: 7u8,
    };
    let r = rewrite_uri(req, "https".to_string(), "real.example".to_string()).unwrap();
    assert_eq!(r.uri, parts(Some("https"), Some("real.example"), Some("/")));
    assert_eq!(r.rest, 7u8);
    assert_eq!(r.uri.path(), "/");
    assert_eq!(r.uri.query(), None);
}

#[test]
fn parts_hold_only_what_http_accepts() {
    let s = |t: &str| Some(t.to_string());
    assert!(UriParts::new(s("http"), s("h"), s("/a?b=c")).is_some());
    assert!(UriParts::new(None, None, None).is_some());
    assert!(UriParts::new(s("ht tp"), s("h"), None).is_none());
    assert!(UriParts::new(s("http"), s("bad authority"), None).is_none());
    assert!(UriParts::new(None, None, s("/a#frag")).is_none());
    assert!(UriParts::new(None, None, s("")).is_none());
    assert!(UriParts::new(None, None, s("no-slash")).is_none());
    let u = UriParts::new(s("https"), s("h:1"), s("/p?q")).unwrap();
    assert_eq!(u.scheme_str(), Some("https"));
    assert_eq!(u.authority_str(), Some("h:1"));
    assert_eq!(u.path_and_query_str(), Some("/p?q"));
    assert_eq!(u.clone(), u);
}

#[test]
fn prepare_request_never_fails_for_authority_form() {
    let t = FetchTransport::new(parts(Some("http"), Some("real.example"), None)).unwrap();
    let req = Request {
        uri: parts(None, Some("placeholder:443"), None),
        rest: (),
    };
    let r = t.prepare_request(req).unwrap();
    assert_eq!(r.uri, parts(Some("http"), Some("real.example"), Some("/")));
    let t2 = t.clone();
    assert_eq!(t2.scheme(), "http");
    assert_eq!(t2.authority(), "real.example");
}

#[test]
fn later_rewrite_overrides_earlier() {
    let req = Request {
        uri: parts_of("http://first.example/p?q=1"),
        rest: (),
    };
    let first = rewrite_uri(req, "https".to_string(), "second.example".to_string()).unwrap();
    let again = rewrite_uri(first, "http".to_string(), "third.example".to_string()).unwrap();
    let direct = rewrite_uri(
        Request {
            uri: parts_of("http://first.example/p?q=1"),
            rest: (),
        },
        "http".to_string(),
        "third.example".to_string(),
    )
    .unwrap();
    assert_eq!(again.uri, direct.uri);
    assert_eq!(again.uri.path(), "/p");
    assert_eq!(again.uri.query(), Some("q=1".to_string()));
}

#[test]
fn rewrite_reports_invalid_authority() {
    let req = Request {
        uri: parts_of("http://placeholder/x"),
        rest: (),
    };
    let err = rewrite_uri(req, "https".to_string(), "bad authority".to_string()).unwrap_err();
    match &err {
        TransportError::RewriteUri(m) => assert!(!m.is_empty()),
        other => panic!("unexpected error: {other:?}"),
    }
    assert!(err.message().starts_with("rewrite uri: "));
    assert!(err.message().len() > "rewrite uri: ".len());
}

#[test]
fn rewrite_twice_is_rewrite_once() {
    let req = Request {
        uri: parts_of("http://placeholder.invalid/foo?bar=baz"),
        rest: (),
    };
    let once = rewrite_uri(req, "https".to_string(), "real.example".to_string()).unwrap();
    let first = once.uri.clone();
    let twice = rewrite_uri(once, "https".to_string(), "real.example".to_string()).unwrap();
    assert_eq!(twice.uri, first);
}

#[test]
fn prepared_request_goes_to_base() {
    let t = FetchTransport::new(parts_of("https://example.com:8443/base")).unwrap();
    let req = Request {
        uri: parts_of("http://placeholder.invalid/svc.Echo/Say?x=1"),
        rest: "body",
    };
    let r = t.prepare_request(req).unwrap();
    assert_eq!(
        r.uri,
        parts(Some("https"), Some("example.com:8443"), Some("/svc.Echo/Say?x=1"))
    );
    assert_eq!(r.uri.path(), "/svc.Echo/Say");
    assert_eq!(r.uri.query(), Some("x=1".to_string()));
    assert_eq!(r.rest, "body");
}

#[test]
fn apply_built_uri_takes_either_outcome() {
    let req = Request {
        uri: parts(None, None, Some("/old")),
        rest: 1u32,
    };
    let built = parts(Some("https"), Some("h"), Some("/new"));
    let r = apply_built_uri(req, Ok(built.clone())).unwrap();
    assert_eq!(r.uri, built);
    assert_eq!(r.rest, 1u32);
    let req = Request {
        uri: parts(None, None, Some("/old")),
        rest: 1u32,
    };
    let err = apply_built_uri(req, Err("invalid authority".to_string())).unwrap_err();
    assert_eq!(err, TransportError::RewriteUri("invalid authority".to_string()));
}

#[test]
fn path_and_query_of_parts() {
    assert_eq!(parts(None, None, Some("/p?")).path(), "/p");
    assert_eq!(parts(None, None, Some("/p?")).query(), Some(String::new()));
    assert_eq!(parts(None, None, Some("?a=b?c")).path(), "/");
    assert_eq!(parts(None, None, Some("?a=b?c")).query(), Some("a=b?c".to_string()));
    assert_eq!(parts(None, Some("h"), None).path(), "");
    assert_eq!(parts(Some("http"), Some("h"), None).path(), "/");
    assert_eq!(parts(None, Some("h"), None).query(), None);
}

#[test]
fn request_without_path_and_query_is_rewritten_as_root() {
    let bare = Request {
        uri: parts(None, Some("placeholder:443"), None),
        rest: (),
    };
    let root = Request {
        uri: parts_of("http://placeholder/"),
        rest: (),
    };
    let a = rewrite_uri(bare, "https".to_string(), "real.example".to_string()).unwrap();
    let b = rewrite_uri(root, "https".to_string(), "real.example".to_string()).unwrap();
    assert_eq!(a.uri, b.uri);
}
