//! URL normalisation: scheme stripping, host extraction, request lines,
//! suffix encoding and the resolution of redirect targets.
//!
//! URLs are held without a scheme. Whatever schemes stand in front of a
//! URL are removed where the URL comes in, and what is held has none;
//! `gemini://` is put in front only where a URL leaves the library. A `://` further back in a URL, in its
//! path or its query, belongs to the URL and is never cut at.

use vstd::prelude::*;
use vstd::utf8::encode_utf8;
use crate::error::FetchError;
use crate::response::crlf;
use crate::text::{
    after_first, after_last, before_first, before_last, chars_of, contains_pattern,
    first_occurrence, is_first_occurrence, lemma_first_occurrence_unique,
    lemma_least_occurrence, lemma_split_first, occurs_at, split_first, split_last,
};

verus! {

/// What separates a scheme from the rest of a URL.
pub open spec fn scheme_separator() -> Seq<char> {
    seq![':', '/', '/']
}

/// What separates the segments of a path, and a host from its path.
pub open spec fn slash() -> Seq<char> {
    seq!['/']
}

/// What separates a path from its query.
pub open spec fn question_mark() -> Seq<char> {
    seq!['?']
}

/// The scheme this client speaks, with its separator.
pub open spec fn gemini_prefix() -> Seq<char> {
    "gemini://"@
}

/// Whether a character is an ASCII letter.
pub open spec fn is_ascii_letter(c: char) -> bool {
    ('a' <= c <= 'z') || ('A' <= c <= 'Z')
}

/// Whether a character may stand in a scheme: a letter, a digit, `+`, `-`
/// or `.`.
pub open spec fn is_scheme_char(c: char) -> bool {
    is_ascii_letter(c) || ('0' <= c <= '9') || c == '+' || c == '-' || c == '.'
}

/// Whether a text is a scheme: a letter, followed by any number of
/// letters, digits, `+`, `-` and `.`.
pub open spec fn is_scheme(s: Seq<char>) -> bool {
    &&& s.len() > 0
    &&& is_ascii_letter(s[0])
    &&& forall|i: int| 0 <= i < s.len() ==> is_scheme_char(#[trigger] s[i])
}

/// Whether a URL has a scheme in front: whether what stands before its
/// first `://` is a scheme. A `://` further back, in a path or a query,
/// is no scheme's.
pub open spec fn has_scheme(url: Seq<char>) -> bool {
    contains_pattern(url, scheme_separator()) && is_scheme(
        before_first(url, scheme_separator()),
    )
}

/// A URL without any `<scheme>://` in front of it: where one scheme stands
/// in front of another, as in `a://b://c`, all of them go. The URL itself
/// where it has no scheme in front.
pub open spec fn without_scheme(url: Seq<char>) -> Seq<char>
    decreases url.len(),
{
    if has_scheme(url) && after_first(url, scheme_separator()).len() < url.len() {
        without_scheme(after_first(url, scheme_separator()))
    } else {
        url
    }
}

/// The host of a scheme-less URL: the URL up to its first `/`, or all of
/// it when there is none.
pub open spec fn host_part(plain: Seq<char>) -> Seq<char> {
    if contains_pattern(plain, slash()) {
        before_first(plain, slash())
    } else {
        plain
    }
}

/// What follows the host in a scheme-less URL: nothing, or its first `/`
/// and all behind it.
pub open spec fn rest_part(plain: Seq<char>) -> Seq<char> {
    if contains_pattern(plain, slash()) {
        slash() + after_first(plain, slash())
    } else {
        Seq::empty()
    }
}

/// The host of a URL, with or without a scheme in front.
pub open spec fn host_of(url: Seq<char>) -> Seq<char> {
    host_part(without_scheme(url))
}

/// What follows the host of a URL, with or without a scheme in front.
pub open spec fn rest_of(url: Seq<char>) -> Seq<char> {
    rest_part(without_scheme(url))
}

/// The one line a request for a scheme-less URL consists of: `gemini://`,
/// the URL as it is, and CRLF.
pub open spec fn plain_request(plain: Seq<char>) -> Seq<char> {
    gemini_prefix() + plain + crlf()
}

/// The one line a request for a URL consists of, whatever scheme the URL
/// came with.
pub open spec fn request_line(url: Seq<char>) -> Seq<char> {
    plain_request(without_scheme(url))
}

/// Whether the form-urlencoded serializer writes a byte as it is.
pub open spec fn is_form_safe(b: u8) -> bool {
    b == 0x2a || b == 0x2d || b == 0x2e || b == 0x5f || (0x30 <= b <= 0x39) || (0x41 <= b <= 0x5a)
        || (0x61 <= b <= 0x7a)
}

/// The upper-case hexadecimal digit for a value below 16.
pub open spec fn upper_hex_digit(n: u8) -> char {
    if n < 10 {
        ((0x30 + n) as u8) as char
    } else {
        ((0x41 + n - 10) as u8) as char
    }
}

/// What the form-urlencoded serializer writes for one byte: the byte
/// itself when it is safe, `+` for a space, and otherwise `%` with its two
/// upper-case hexadecimal digits.
pub open spec fn form_encoded_byte(b: u8) -> Seq<char> {
    if is_form_safe(b) {
        seq![b as char]
    } else if b == 0x20 {
        seq!['+']
    } else {
        seq!['%', upper_hex_digit(b / 16), upper_hex_digit(b % 16)]
    }
}

/// What the form-urlencoded serializer writes for a run of bytes.
pub open spec fn form_encoded(bytes: Seq<u8>) -> Seq<char>
    decreases bytes.len(),
{
    if bytes.len() == 0 {
        Seq::empty()
    } else {
        form_encoded_byte(bytes[0]) + form_encoded(bytes.drop_first())
    }
}

/// The last segment of a path with its query part encoded: what follows
/// the first `?` is form-urlencoded, or the whole segment when it has no
/// `?`.
pub open spec fn encoded_segment(segment: Seq<char>) -> Seq<char> {
    if contains_pattern(segment, question_mark()) {
        before_first(segment, question_mark()) + question_mark() + form_encoded(
            encode_utf8(after_first(segment, question_mark())),
        )
    } else {
        form_encoded(encode_utf8(segment))
    }
}

/// A path with its last segment encoded. The segments before the last `/`
/// are kept; when nothing stands before it, only the encoded segment is
/// left.
pub open spec fn encoded_suffix(path: Seq<char>) -> Seq<char> {
    if contains_pattern(path, slash()) {
        let kept = before_last(path, slash());
        let segment = after_last(path, slash());
        if kept.len() == 0 {
            encoded_segment(segment)
        } else {
            kept + slash() + encoded_segment(segment)
        }
    } else {
        encoded_segment(path)
    }
}

/// A URL as the `url` crate gives it: whole, and taken apart.
#[derive(Debug, Clone, PartialEq, Eq)]
pub struct UrlParts {
    /// The URL in its serialised form.
    pub text: String,
    pub scheme: String,
    pub host: Option<String>,
    pub path: String,
    pub query: Option<String>,
}

/// Whether `url::Url::parse` accepts the text.
pub uninterp spec fn url_parses(text: Seq<char>) -> bool;

/// The URL that `url::Url::parse(base)` followed by `Url::join(reference)`
/// gives: its serialised form, scheme, host, path and query, in this
/// order. `None` where either call fails.
pub uninterp spec fn url_joined(base: Seq<char>, reference: Seq<char>) -> Option<
    (Seq<char>, Seq<char>, Option<Seq<char>>, Seq<char>, Option<Seq<char>>),
>;

/// The characters of an optional text.
pub open spec fn text_of(text: Option<String>) -> Option<Seq<char>> {
    match text {
        Some(t) => Some(t@),
        None => None,
    }
}

impl UrlParts {
    /// The serialised form and the four parts, each as a sequence of
    /// characters.
    pub open spec fn parts(&self) -> (
        Seq<char>,
        Seq<char>,
        Option<Seq<char>>,
        Seq<char>,
        Option<Seq<char>>,
    ) {
        (self.text@, self.scheme@, text_of(self.host), self.path@, text_of(self.query))
    }
}

/// What is joined, in the eyes of a contract.
pub open spec fn parts_of(joined: Option<UrlParts>) -> Option<
    (Seq<char>, Seq<char>, Option<Seq<char>>, Seq<char>, Option<Seq<char>>),
> {
    match joined {
        Some(url) => Some(url.parts()),
        None => None,
    }
}

/// Where a redirect leads: the target resolved against the current URL,
/// which is scheme-less and gets `gemini://` put in front, by standard
/// URI-reference resolution; the result is given without its scheme.
/// `None` where the two cannot be resolved.
pub open spec fn resolved_target(base: Seq<char>, target: Seq<char>) -> Option<Seq<char>> {
    match url_joined(gemini_prefix() + base, target) {
        Some(absolute) => Some(without_scheme(absolute.0)),
        None => None,
    }
}

/// The base a link is resolved against: `gemini://` and the page's URL,
/// or a stand-in where that does not parse as a URL.
pub open spec fn link_base(page: Seq<char>) -> Seq<char> {
    if url_parses(gemini_prefix() + page) {
        gemini_prefix() + page
    } else {
        "gemini://tmp/"@
    }
}

/// Calls `url::form_urlencoded::byte_serialize` on the UTF-8 bytes of
/// `text` and collects what it yields. The contract restates the
/// serializer byte by byte, as `form_encoded` has it.
#[verifier::external_body]
fn form_urlencode(text: &str) -> (r: String)
    ensures
        r@ == form_encoded(encode_utf8(text@)),
{
    url::form_urlencoded::byte_serialize(text.as_bytes()).collect()
}

/// Calls `url::Url::parse` and reports whether it succeeded.
#[verifier::external_body]
fn url_can_parse(text: &str) -> (r: bool)
    ensures
        r == url_parses(text@),
{
    url::Url::parse(text).is_ok()
}

/// Calls `url::Url::parse` on `base`, then `Url::join` with `reference`,
/// and reads the result's `as_str`, `scheme`, `host_str`, `path` and
/// `query`. Nothing is claimed of them but that they are a function of
/// the two texts.
#[verifier::external_body]
fn url_join(base: &str, reference: &str) -> (r: Option<UrlParts>)
    ensures
        parts_of(r) == url_joined(base@, reference@),
{
    match url::Url::parse(base).and_then(|b| b.join(reference)) {
        Ok(joined) => Some(
            UrlParts {
                text: joined.as_str().to_string(),
                scheme: joined.scheme().to_string(),
                host: joined.host_str().map(|h| h.to_string()),
                path: joined.path().to_string(),
                query: joined.query().map(|q| q.to_string()),
            },
        ),
        Err(_) => None,
    }
}

/// Resolves a link found on the page at `page`, a URL without scheme, and
/// takes the result apart. `None` where the link does not resolve.
pub fn resolve_parts(page: &str, href: &str) -> (r: Option<UrlParts>)
    ensures
        parts_of(r) == url_joined(link_base(page@), href@),
{
    let base = String::from_str("gemini://").concat(page);
    if url_can_parse(base.as_str()) {
        url_join(base.as_str(), href)
    } else {
        url_join("gemini://tmp/", href)
    }
}

/// Whether a text is a scheme.
pub fn is_scheme_text(text: &str) -> (r: bool)
    ensures
        r == is_scheme(text@),
{
    let chars = chars_of(text);
    if chars.len() == 0 {
        return false;
    }
    let first: char = chars[0];
    if !((first >= 'a' && first <= 'z') || (first >= 'A' && first <= 'Z')) {
        return false;
    }
    let mut i: usize = 0;
    while i < chars.len()
        invariant
            chars@ == text@,
            i <= chars.len(),
            forall|j: int| 0 <= j < i ==> is_scheme_char(#[trigger] text@[j]),
        decreases chars.len() - i,
    {
        let c: char = chars[i];
        let fits = (c >= 'a' && c <= 'z') || (c >= 'A' && c <= 'Z') || (c >= '0' && c <= '9') || c
            == '+' || c == '-' || c == '.';
        if !fits {
            assert(!is_scheme_char(text@[i as int]));
            return false;
        }
        i += 1;
    }
    true
}

/// Removes every `<scheme>://` in front of a URL, so that what is left has
/// no scheme in front. A URL without a scheme in front is returned as it
/// is, whatever stands further back in it.
pub fn _strip_protocol_from_url(url: &String) -> (r: String)
    ensures
        r@ == without_scheme(url@),
        !has_scheme(r@),
{
    proof {
        reveal_strlit("://");
    }
    assert("://"@ =~= scheme_separator());
    let mut current = url.clone();
    loop
        invariant
            "://"@ == scheme_separator(),
            without_scheme(current@) == without_scheme(url@),
        decreases current@.len(),
    {
        match split_first(current.as_str(), "://") {
            Some((scheme, rest)) => {
                if !is_scheme_text(scheme.as_str()) {
                    return current;
                }
                proof {
                    lemma_scheme_is_cut(current@);
                }
                current = rest;
            },
            None => {
                return current;
            },
        }
    }
}

/// The host of a scheme-less URL: the URL up to its first `/`.
pub fn plain_host(plain: &String) -> (r: String)
    ensures
        r@ == host_part(plain@),
        !r@.contains('/'),
{
    proof {
        reveal_strlit("/");
        lemma_host_part_has_no_slash(plain@);
    }
    assert("/"@ =~= slash());
    match split_first(plain.as_str(), "/") {
        Some((host, _)) => host,
        None => plain.clone(),
    }
}

/// The host part of a URL, with or without a scheme in front.
pub fn _extract_address_from_url(url: &String) -> (r: String)
    ensures
        r@ == host_of(url@),
        !r@.contains('/'),
{
    let plain = _strip_protocol_from_url(url);
    plain_host(&plain)
}

/// A text holds `/` exactly when `/` occurs in it as a pattern.
pub proof fn lemma_slash_occurs(s: Seq<char>)
    ensures
        s.contains('/') <==> contains_pattern(s, slash()),
{
    if s.contains('/') {
        let i = choose|i: int| 0 <= i < s.len() && s[i] == '/';
        assert(s.subrange(i, i + 1) =~= slash());
        assert(occurs_at(s, slash(), i));
    }
    if contains_pattern(s, slash()) {
        let i = choose|i: int| occurs_at(s, slash(), i);
        assert(s.subrange(i, i + 1)[0] == '/');
        assert(s[i] == '/');
    }
}

/// The host of a scheme-less URL holds no `/`.
pub proof fn lemma_host_part_has_no_slash(plain: Seq<char>)
    ensures
        !host_part(plain).contains('/'),
{
    let host = host_part(plain);
    lemma_slash_occurs(plain);
    lemma_slash_occurs(host);
    if contains_pattern(plain, slash()) {
        let cut = first_occurrence(plain, slash());
        let w = choose|i: int| occurs_at(plain, slash(), i);
        lemma_least_occurrence(plain, slash(), w);
        assert(is_first_occurrence(plain, slash(), cut));
        if host.contains('/') {
            let j = choose|j: int| 0 <= j < host.len() && host[j] == '/';
            assert(plain.subrange(j, j + 1) =~= slash());
            assert(occurs_at(plain, slash(), j));
        }
    }
}

/// The host of any URL holds no `/`.
pub proof fn lemma_host_has_no_slash(url: Seq<char>)
    ensures
        !host_of(url).contains('/'),
{
    lemma_host_part_has_no_slash(without_scheme(url));
}

/// A text without a scheme in front stays as it is.
pub proof fn lemma_strip_without_scheme(url: Seq<char>)
    requires
        !has_scheme(url),
    ensures
        without_scheme(url) == url,
{
}

/// A text with a scheme in front is stripped of it, and then of any
/// further scheme in front of what is left, which is shorter.
pub proof fn lemma_scheme_is_cut(url: Seq<char>)
    requires
        has_scheme(url),
    ensures
        after_first(url, scheme_separator()).len() < url.len(),
        without_scheme(url) == without_scheme(after_first(url, scheme_separator())),
{
    lemma_split_first(url, scheme_separator());
    assert(occurs_at(url, scheme_separator(), first_occurrence(url, scheme_separator())));
}

/// A text in which something that cannot stand in a scheme comes before
/// any `://` has no scheme in front and stays as it is: a `://` in a path
/// or behind a `?` is not cut at.
pub proof fn lemma_separator_further_back(url: Seq<char>, i: int)
    requires
        0 <= i < url.len(),
        !is_scheme_char(url[i]),
        forall|j: int| 0 <= j <= i ==> !occurs_at(url, scheme_separator(), j),
    ensures
        !has_scheme(url),
        without_scheme(url) == url,
{
    if contains_pattern(url, scheme_separator()) {
        lemma_split_first(url, scheme_separator());
        let at = first_occurrence(url, scheme_separator());
        assert(occurs_at(url, scheme_separator(), at));
        assert(i < at);
        assert(before_first(url, scheme_separator())[i] == url[i]);
    }
}

/// What is left of any URL after stripping has no scheme in front.
pub proof fn lemma_stripped_has_no_scheme(url: Seq<char>)
    ensures
        !has_scheme(without_scheme(url)),
    decreases url.len(),
{
    if has_scheme(url) {
        lemma_scheme_is_cut(url);
        lemma_stripped_has_no_scheme(after_first(url, scheme_separator()));
    }
}

/// Stripping is idempotent: stripping what was stripped changes nothing,
/// for every URL.
pub proof fn lemma_strip_idempotent(url: Seq<char>)
    ensures
        without_scheme(without_scheme(url)) == without_scheme(url),
{
    lemma_stripped_has_no_scheme(url);
}

/// Stripping takes from the front only: what is left is the end of the
/// URL, from some place on.
pub proof fn lemma_stripped_is_the_end(url: Seq<char>)
    ensures
        exists|k: int|
            0 <= k <= url.len() && without_scheme(url) == #[trigger] url.subrange(
                k,
                url.len() as int,
            ),
    decreases url.len(),
{
    if has_scheme(url) {
        lemma_scheme_is_cut(url);
        let rest = after_first(url, scheme_separator());
        lemma_stripped_is_the_end(rest);
        let at = url.len() - rest.len();
        let k = choose|k: int|
            0 <= k <= rest.len() && without_scheme(rest) == #[trigger] rest.subrange(
                k,
                rest.len() as int,
            );
        lemma_split_first(url, scheme_separator());
        assert(rest.subrange(k, rest.len() as int) =~= url.subrange(at + k, url.len() as int));
    } else {
        assert(url.subrange(0, url.len() as int) =~= url);
    }
}

/// A host has no scheme in front: it holds no `/`, so no `://`.
pub proof fn lemma_host_is_plain(plain: Seq<char>)
    ensures
        !has_scheme(host_part(plain)),
        without_scheme(host_part(plain)) == host_part(plain),
        host_part(host_part(plain)) == host_part(plain),
{
    let host = host_part(plain);
    lemma_host_part_has_no_slash(plain);
    lemma_slash_occurs(host);
    if contains_pattern(host, scheme_separator()) {
        let i = choose|i: int| occurs_at(host, scheme_separator(), i);
        assert(host.subrange(i, i + 3)[1] == '/');
        assert(host[i + 1] == '/');
    }
}

/// Extracting the host of a host gives the same host again.
pub proof fn lemma_extract_host_idempotent(url: Seq<char>)
    ensures
        host_of(host_of(url)) == host_of(url),
{
    lemma_host_is_plain(without_scheme(url));
}

/// `gemini://` in front of a text is a scheme in front of it, and is
/// stripped together with whatever schemes the text itself begins with.
pub proof fn lemma_gemini_prefix_strips(plain: Seq<char>)
    ensures
        has_scheme(gemini_prefix() + plain),
        without_scheme(gemini_prefix() + plain) == without_scheme(plain),
        !has_scheme(plain) ==> without_scheme(gemini_prefix() + plain) == plain,
{
    reveal_strlit("gemini://");
    let url = gemini_prefix() + plain;
    let sep = scheme_separator();
    assert(url.subrange(6, 9) =~= sep);
    assert(occurs_at(url, sep, 6));
    assert forall|j: int| 0 <= j < 6 implies !occurs_at(url, sep, j) by {
        if occurs_at(url, sep, j) {
            assert(url.subrange(j, j + 3)[0] == ':');
            assert(url[j] == ':');
        }
    }
    lemma_first_occurrence_unique(url, sep, 6);
    let scheme = before_first(url, sep);
    assert(scheme =~= seq!['g', 'e', 'm', 'i', 'n', 'i']);
    assert(is_scheme(scheme));
    assert(after_first(url, sep) =~= plain);
    lemma_scheme_is_cut(url);
}

/// A URL is requested by the same line with `gemini://` in front of it
/// and without.
pub proof fn lemma_same_request(url: Seq<char>)
    ensures
        request_line(gemini_prefix() + url) == request_line(url),
        !has_scheme(url) ==> request_line(url) == gemini_prefix() + url + crlf(),
{
    lemma_gemini_prefix_strips(url);
}

/// Where the join of the current URL and a redirect's target is a Gemini
/// URL, the redirect leads to that URL, and the line that requests it is
/// the joined URL followed by CRLF.
pub proof fn lemma_redirect_request(base: Seq<char>, target: Seq<char>, plain: Seq<char>)
    requires
        !has_scheme(plain),
        url_joined(gemini_prefix() + base, target) matches Some(joined) && joined.0
            == gemini_prefix() + plain,
    ensures
        resolved_target(base, target) == Some(plain),
        plain_request(plain) == gemini_prefix() + plain + crlf(),
        ({
            let joined = url_joined(gemini_prefix() + base, target)->0;
            plain_request(plain) == joined.0 + crlf()
        }),
{
    lemma_gemini_prefix_strips(plain);
}

/// The URL a redirect leads to has no scheme in front.
pub proof fn lemma_resolved_is_plain(base: Seq<char>, target: Seq<char>)
    ensures
        resolved_target(base, target) matches Some(url) ==> !has_scheme(url),
{
    if url_joined(gemini_prefix() + base, target) is Some {
        let joined = url_joined(gemini_prefix() + base, target)->0;
        lemma_stripped_has_no_scheme(joined.0);
    }
}

/// The request line for a URL: `uri` followed by CRLF.
pub fn client_build_request_str(uri: String) -> (r: String)
    ensures
        r@ == uri@ + crlf(),
{
    proof {
        reveal_strlit("\r\n");
    }
    let r = uri.concat("\r\n");
    assert("\r\n"@ =~= crlf());
    r
}

/// The one line sent for a scheme-less URL: `gemini://`, the URL as it
/// is, and CRLF.
pub fn request_for(plain: &String) -> (r: String)
    ensures
        r@ == plain_request(plain@),
{
    let full = String::from_str("gemini://").concat(plain.as_str());
    client_build_request_str(full)
}

/// The one line sent for `url`: `gemini://`, the URL without whatever
/// scheme it came with, and CRLF.
pub fn build_request(url: &String) -> (r: String)
    ensures
        r@ == request_line(url@),
{
    let plain = _strip_protocol_from_url(url);
    request_for(&plain)
}

/// Form-urlencodes the last segment of a path, leaving what stands before
/// the last `/` as it is. Where the segment holds a `?`, the text up to
/// and including the first `?` is kept and only the rest is encoded.
pub fn encode_url_suffix(path_str: String) -> (r: String)
    ensures
        r@ == encoded_suffix(path_str@),
{
    proof {
        reveal_strlit("/");
    }
    assert("/"@ =~= slash());
    match split_last(path_str.as_str(), "/") {
        Some((kept, segment)) => {
            let encoded = encode_segment(segment.as_str());
            if kept.as_str().is_empty() {
                encoded
            } else {
                kept.concat("/").concat(encoded.as_str())
            }
        },
        None => encode_segment(path_str.as_str()),
    }
}

/// Encodes one path segment as `encoded_segment` describes.
pub fn encode_segment(segment: &str) -> (r: String)
    ensures
        r@ == encoded_segment(segment@),
{
    proof {
        reveal_strlit("?");
    }
    assert("?"@ =~= question_mark());
    match split_first(segment, "?") {
        Some((head, tail)) => {
            let encoded = form_urlencode(tail.as_str());
            head.concat("?").concat(encoded.as_str())
        },
        None => form_urlencode(segment),
    }
}

/// What a fetch does with a joined URL: it goes on with the URL, its scheme
/// removed, or fails with `MalformedURL` where there is none.
pub fn absolute_target(joined: Option<UrlParts>) -> (r: Result<String, FetchError>)
    ensures
        match joined {
            Some(absolute) => r matches Ok(u) && u@ == without_scheme(absolute.text@),
            None => r == Err::<String, FetchError>(FetchError::MalformedURL),
        },
{
    match joined {
        Some(absolute) => Ok(_strip_protocol_from_url(&absolute.text)),
        None => Err(FetchError::MalformedURL),
    }
}

/// Resolves a redirect target, which may be relative, against the URL it
/// was received from: a scheme-less URL, taken as it is. Fails with
/// `MalformedURL` exactly where the two do not resolve.
pub fn resolve(base_url: &String, redirect_target: &String) -> (r: Result<String, FetchError>)
    ensures
        match resolved_target(base_url@, redirect_target@) {
            Some(target) => r matches Ok(u) && u@ == target,
            None => r == Err::<String, FetchError>(FetchError::MalformedURL),
        },
{
    let base = String::from_str("gemini://").concat(base_url.as_str());
    absolute_target(url_join(base.as_str(), redirect_target.as_str()))
}

/// A URL as the client holds it: without scheme, split into the host and
/// what follows it.
#[derive(Debug, Clone, PartialEq, Eq)]
pub struct GeminiUrl {
    /// The host; holds no `/`.
    pub host: String,
    /// Path and query: empty, or beginning with `/`.
    pub rest: String,
}

impl GeminiUrl {
    /// Splits a URL, with or without scheme, into host and rest.
    pub fn parse(raw: &String) -> (url: GeminiUrl)
        ensures
            url.host@ == host_of(raw@),
            url.rest@ == rest_of(raw@),
            url.host@ + url.rest@ == without_scheme(raw@),
            !url.host@.contains('/'),
    {
        let plain = _strip_protocol_from_url(raw);
        proof {
            reveal_strlit("/");
            reveal_strlit("");
            lemma_host_has_no_slash(raw@);
            lemma_host_and_rest(raw@);
        }
        assert("/"@ =~= slash());
        assert(""@ =~= Seq::<char>::empty());
        match split_first(plain.as_str(), "/") {
            Some((host, tail)) => GeminiUrl { host, rest: String::from_str("/").concat(tail.as_str()) },
            None => GeminiUrl { host: plain, rest: String::new() },
        }
    }

    /// The one line sent to request this URL.
    pub fn request(&self) -> (line: String)
        ensures
            line@ == gemini_prefix() + self.host@ + self.rest@ + crlf(),
    {
        let url = String::from_str("gemini://").concat(self.host.as_str()).concat(
            self.rest.as_str(),
        );
        client_build_request_str(url)
    }
}

/// Host and rest make up the scheme-less URL: the split loses nothing.
pub proof fn lemma_host_and_rest(url: Seq<char>)
    ensures
        host_of(url) + rest_of(url) == without_scheme(url),
{
    let plain = without_scheme(url);
    if contains_pattern(plain, slash()) {
        lemma_split_first(plain, slash());
        assert(before_first(plain, slash()) + (slash() + after_first(plain, slash()))
            =~= before_first(plain, slash()) + slash() + after_first(plain, slash()));
    } else {
        assert(plain + Seq::<char>::empty() =~= plain);
    }
}

} // verus!
