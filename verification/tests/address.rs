use dioscuri::address::{
    _extract_address_from_url, _strip_protocol_from_url, absolute_target, build_request,
    client_build_request_str, encode_segment, encode_url_suffix, is_scheme_text, plain_host,
    request_for, resolve, GeminiUrl, UrlParts,
};
use dioscuri::error::FetchError;

#[test]
fn test_address_extraction() {
    let in0 = "https://foobar.com";
    let out0 = "foobar.com";
    let in1 = "gemini://my-website.com/nonsense?ok";
    let out1 = "my-website.com";
    let in2 = "google.com";
    let out2 = "google.com";
    assert_eq!(_extract_address_from_url(&in0.to_string()), out0);
    assert_eq!(_extract_address_from_url(&in1.to_string()), out1);
    assert_eq!(_extract_address_from_url(&in2.to_string()), out2);
}

#[test]
/// Test that the slug encoder works as expected
/// Test for basic functionality and utf8 encoding
fn test_encode_url_suffix() {
    assert_eq!(encode_url_suffix("foo/bar/baz".to_string()), "foo/bar/baz");
    assert_eq!(encode_url_suffix("a/b/c".to_string()), "a/b/c");
    assert_eq!(encode_url_suffix("data/document/ドキュメント.pdf".to_string()), "data/document/%E3%83%89%E3%82%AD%E3%83%A5%E3%83%A1%E3%83%B3%E3%83%88.pdf");
    assert_eq!(encode_url_suffix("justthefile.txt".to_string()), "justthefile.txt"); // No slashes, entire string is 'baz'
    assert_eq!(encode_url_suffix("category/subcategory/item/specific file.gem".to_string()), "category/subcategory/item/specific+file.gem");
    assert_eq!(encode_url_suffix("test/query/foo?bar=baz".to_string()), "test/query/foo?bar%3Dbaz");
}

#[test]
fn test_encode_url_suffix_edge_cases() {
    // Empty input string
    assert_eq!(encode_url_suffix("".to_string()), "");
    // Path with spaces
    assert_eq!(encode_url_suffix("/root/path/file with spaces".to_string()), "/root/path/file+with+spaces");
    // Path with spaced subdirectory
    assert_eq!(encode_url_suffix("dir/subdir/ ".to_string()), "dir/subdir/+");
}

#[test]
fn strip_removes_a_scheme_in_front() {
    let strip = |s: &str| _strip_protocol_from_url(&s.to_string());
    assert_eq!(strip("gemini://gemi.dev/x"), "gemi.dev/x");
    assert_eq!(strip("https://foobar.com"), "foobar.com");
    assert_eq!(strip("GEMINI://gemi.dev"), "gemi.dev");
    assert_eq!(strip("web+ap-p.1://x"), "x");
    assert_eq!(strip("a://"), "");
    assert_eq!(strip("gemini:///path"), "/path");
}

#[test]
fn strip_leaves_a_text_without_scheme_in_front_as_it_is() {
    let strip = |s: &str| _strip_protocol_from_url(&s.to_string());
    for url in [
        "gemi.dev/x",
        "",
        "a:/b",
        "://",
        "://x",
        "gemi.dev/page?u=http://x.org/y",
        "h/?a://b://c",
        "gemi.dev?next=gemini://other.example/",
        "gemi.dev#a://b",
        "/path/to://x",
        "1http://x",
        "+a://x",
        "ht tp://x",
        "ht_tp://x",
        "é://x",
        "a:b://c",
    ] {
        assert_eq!(strip(url), url, "{:?}", url);
    }
}

#[test]
fn strip_removes_every_scheme_in_front() {
    let strip = |s: &str| _strip_protocol_from_url(&s.to_string());
    assert_eq!(strip("a://b://c"), "c");
    assert_eq!(strip("b://c"), "c");
    assert_eq!(strip("gemini://https://gemini://gemi.dev/x"), "gemi.dev/x");
    assert_eq!(strip("a://b://"), "");
    assert_eq!(strip("a://b://://c"), "://c");
    assert_eq!(strip("a://1b://c"), "1b://c");
    assert_eq!(strip("gemini://gemi.dev/page?u=http://x.org/y"), "gemi.dev/page?u=http://x.org/y");
}

#[test]
fn strip_is_idempotent() {
    let strip = |s: &str| _strip_protocol_from_url(&s.to_string());
    for url in [
        "gemini://gemi.dev/x?y=z",
        "gemini://gemi.dev/page?u=http://x.org/y",
        "gemi.dev/page?u=http://x.org/y",
        "h/?a://b://c",
        "a://b://c",
        "a://b://c://d/e://f",
        "gemini://gemini://gemi.dev",
        "gemi.dev",
        "https://a/b/c",
        "https://a/b://c",
        "",
        "://",
        "a://",
    ] {
        let once = strip(url);
        assert_eq!(strip(&once), once, "{:?}", url);
        assert!(url.ends_with(&once), "{:?}", url);
    }
    for rest in ["gemi.dev/x", "", "h?u=a://b", "/p"] {
        assert_eq!(strip(&format!("gemini://{}", rest)), rest);
    }
}

#[test]
fn a_scheme_is_a_letter_and_then_letters_digits_plus_minus_and_dot() {
    for scheme in ["gemini", "https", "a", "Z", "web+ap-p.1", "x0"] {
        assert!(is_scheme_text(scheme), "{:?}", scheme);
    }
    for text in ["", "1a", "+a", "-a", ".a", "a b", "a/b", "a?b", "a#b", "a:b", "a_b", "é", "aé"] {
        assert!(!is_scheme_text(text), "{:?}", text);
    }
}

#[test]
fn extracting_the_host_twice_changes_nothing() {
    for url in [
        "https://foobar.com",
        "gemini://my-website.com/nonsense?ok",
        "google.com",
        "a://b://c/d",
        "",
        "/",
        "gemini:///path",
        "host/with://inside",
        "gemini://gemi.dev/page?u=http://x.org/y",
        "gemi.dev?u=http://x.org/y",
    ] {
        let once = _extract_address_from_url(&url.to_string());
        let twice = _extract_address_from_url(&once);
        assert_eq!(once, twice, "{:?}", url);
        assert!(!once.contains('/'), "{:?}", url);
    }
}

#[test]
fn host_edge_cases() {
    assert_eq!(_extract_address_from_url(&"".to_string()), "");
    assert_eq!(_extract_address_from_url(&"/path".to_string()), "");
    assert_eq!(_extract_address_from_url(&"gemini://host".to_string()), "host");
    assert_eq!(_extract_address_from_url(&"gemini://host/".to_string()), "host");
    assert_eq!(_extract_address_from_url(&"host?query/with/slash".to_string()), "host?query");
}

#[test]
fn a_separator_in_the_query_does_not_move_the_host() {
    let host = |s: &str| _extract_address_from_url(&s.to_string());
    assert_eq!(host("gemini://gemi.dev/page?u=http://x.org/y"), "gemi.dev");
    assert_eq!(host("gemi.dev/page?u=http://x.org/y"), "gemi.dev");
    assert_eq!(host("h/?a://b://c"), "h");
    assert_eq!(plain_host(&"gemi.dev/page?u=http://x.org/y".to_string()), "gemi.dev");
    assert_eq!(host("a://b://c/d"), "c");
    // What is held without a scheme is taken as it is.
    assert_eq!(plain_host(&"b://c/d".to_string()), "b:");
    assert_eq!(plain_host(&"".to_string()), "");
    assert_eq!(plain_host(&"host".to_string()), "host");
}

#[test]
fn the_request_is_one_line() {
    assert_eq!(client_build_request_str("gemini://a/b".to_string()), "gemini://a/b\r\n");
    assert_eq!(client_build_request_str("".to_string()), "\r\n");
    assert_eq!(build_request(&"gemi.dev/x?q=1".to_string()), "gemini://gemi.dev/x?q=1\r\n");
    assert_eq!(build_request(&"gemini://gemi.dev/x".to_string()), "gemini://gemi.dev/x\r\n");
    assert_eq!(build_request(&"https://gemi.dev".to_string()), "gemini://gemi.dev\r\n");
}

#[test]
fn the_request_holds_the_whole_url() {
    let with_scheme = "gemini://gemi.dev/page?u=http://x.org/y".to_string();
    let without = "gemi.dev/page?u=http://x.org/y".to_string();
    let line = "gemini://gemi.dev/page?u=http://x.org/y\r\n";
    assert_eq!(build_request(&with_scheme), line);
    assert_eq!(build_request(&without), line);
    assert_eq!(request_for(&without), line);
    assert_eq!(build_request(&"gemini://h/p?q".to_string()), build_request(&"h/p?q".to_string()));
    // `request_for` takes a scheme-less URL as it is.
    assert_eq!(request_for(&"b://c".to_string()), "gemini://b://c\r\n");
    assert_eq!(request_for(&"".to_string()), "gemini://\r\n");
}

#[test]
fn encode_segment_keeps_the_first_question_mark() {
    assert_eq!(encode_segment("foo?bar=baz"), "foo?bar%3Dbaz");
    assert_eq!(encode_segment("foo?a?b"), "foo?a%3Fb");
    assert_eq!(encode_segment("a b"), "a+b");
    assert_eq!(encode_segment("*-._"), "*-._");
    assert_eq!(encode_segment("~"), "%7E");
    assert_eq!(encode_segment("\u{0}\u{7f}"), "%00%7F");
    assert_eq!(encode_segment("é"), "%C3%A9");
    assert_eq!(encode_segment(""), "");
    assert_eq!(encode_segment("?"), "?");
}

#[test]
fn encode_a_leading_slash_is_dropped_with_an_empty_prefix() {
    assert_eq!(encode_url_suffix("/file name".to_string()), "file+name");
    assert_eq!(encode_url_suffix("/".to_string()), "");
    assert_eq!(encode_url_suffix("a/".to_string()), "a/");
    assert_eq!(encode_url_suffix("a b/c d".to_string()), "a b/c+d");
}

#[test]
fn resolve_goes_up_from_the_last_segment() {
    assert_eq!(
        resolve(&"gemi.dev/cgi-bin/wp.cgi/a".to_string(), &"../bar.gmi".to_string()),
        Ok("gemi.dev/cgi-bin/bar.gmi".to_string())
    );
}

#[test]
fn resolve_follows_uri_reference_resolution() {
    let r = |base: &str, target: &str| resolve(&base.to_string(), &target.to_string());
    assert_eq!(r("gemi.dev/docs/", "help"), Ok("gemi.dev/docs/help".to_string()));
    assert_eq!(r("gemi.dev/docs/tutorial.gmi", "help"), Ok("gemi.dev/docs/help".to_string()));
    assert_eq!(r("gemi.dev/docs/", "/help"), Ok("gemi.dev/help".to_string()));
    assert_eq!(r("gemi.dev/a/b?c=d", "e?f=g"), Ok("gemi.dev/a/e?f=g".to_string()));
    assert_eq!(
        r("gemi.dev/docs/", "gemini://example.com/docs/"),
        Ok("example.com/docs/".to_string())
    );
    assert_eq!(
        r("gemi.dev/page?u=http://x.org/y", "next"),
        Ok("gemi.dev/next".to_string())
    );
    assert_eq!(
        r("gemi.dev/a/b?u=http://x.org/y", "../c?v=gemini://z.example/"),
        Ok("gemi.dev/c?v=gemini://z.example/".to_string())
    );
    assert_eq!(
        r("gemi.dev/", "gemini://other.example/p?u=http://x.org/y"),
        Ok("other.example/p?u=http://x.org/y".to_string())
    );
    // A target without a scheme takes the scheme of the base.
    assert_eq!(r("gemi.dev/docs/", "//other.example/x"), Ok("other.example/x".to_string()));
    assert_eq!(r("gemi.dev", "a/../b"), Ok("gemi.dev/b".to_string()));
}

#[test]
fn resolve_fails_on_what_does_not_resolve() {
    let r = |base: &str, target: &str| resolve(&base.to_string(), &target.to_string());
    assert_eq!(r("gemi.dev:notaport/", "x"), Err(FetchError::MalformedURL));
    assert_eq!(r("gemi.dev/", "http://[::1"), Err(FetchError::MalformedURL));
}

fn joined(text: &str) -> UrlParts {
    UrlParts {
        text: text.to_string(),
        scheme: "".to_string(),
        host: None,
        path: "".to_string(),
        query: None,
    }
}

#[test]
fn a_joined_url_loses_its_scheme() {
    assert_eq!(
        absolute_target(Some(joined("gemini://a.example/b"))),
        Ok("a.example/b".to_string())
    );
    assert_eq!(absolute_target(Some(joined("no-scheme"))), Ok("no-scheme".to_string()));
    assert_eq!(absolute_target(None), Err(FetchError::MalformedURL));
}

#[test]
fn a_url_is_its_host_and_the_rest() {
    let parse = |raw: &str| GeminiUrl::parse(&raw.to_string());
    let url = parse("gemini://gemi.dev/cgi-bin/wp.cgi/view?Siege+of+Breteuil");
    assert_eq!(url.host, "gemi.dev");
    assert_eq!(url.rest, "/cgi-bin/wp.cgi/view?Siege+of+Breteuil");
    assert_eq!(url.request(), "gemini://gemi.dev/cgi-bin/wp.cgi/view?Siege+of+Breteuil\r\n");
    assert_eq!(parse("gemi.dev"), GeminiUrl { host: "gemi.dev".to_string(), rest: "".to_string() });
    assert_eq!(parse("gemi.dev/"), GeminiUrl { host: "gemi.dev".to_string(), rest: "/".to_string() });
    assert_eq!(parse(""), GeminiUrl { host: "".to_string(), rest: "".to_string() });
    assert_eq!(parse("https://a.example//x"), GeminiUrl { host: "a.example".to_string(), rest: "//x".to_string() });
    let url = parse("gemini://gemi.dev/page?u=http://x.org/y");
    assert_eq!(url.host, "gemi.dev");
    assert_eq!(url.rest, "/page?u=http://x.org/y");
    assert_eq!(url.request(), "gemini://gemi.dev/page?u=http://x.org/y\r\n");
    for raw in ["gemini://a/b/c", "a", "a/", "x://y", "", "/only/path", "h/?a://b://c"] {
        let url = parse(raw);
        assert!(!url.host.contains('/'));
        assert_eq!(format!("{}{}", url.host, url.rest), _strip_protocol_from_url(&raw.to_string()));
        assert_eq!(url.request(), build_request(&raw.to_string()));
    }
}
