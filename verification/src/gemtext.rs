//! Gemtext, the document format of Gemini, turned into Markdown and from
//! there into HTML. Link lines are rewritten so that Gemini links lead
//! back through the proxy.

use vstd::prelude::*;
use crate::address::{link_base, parts_of, resolve_parts, url_joined, UrlParts};
use crate::text::{
    after_first, before_first, chars_of, contains_pattern, find_from, first_occurrence,
    occurs_at, same_text, slice_of, split_word, starts_with, text_between, trim, trim_start,
    trimmed, trimmed_start, word_prefix,
};

verus! {

/// What a link line begins with.
pub open spec fn arrow() -> Seq<char> {
    seq!['=', '>']
}

/// What ends a line.
pub open spec fn newline() -> Seq<char> {
    seq!['\n']
}

/// What follows every line of the Markdown: a blank line.
pub open spec fn blank_line() -> Seq<char> {
    seq!['\n', '\n']
}

/// A link line without its arrow and the white space around it. A line
/// that, white space aside, does not begin with an arrow is only trimmed.
pub open spec fn link_text(link: Seq<char>) -> Seq<char> {
    let line = trimmed_start(link);
    if occurs_at(line, arrow(), 0) {
        trimmed(line.subrange(2, line.len() as int))
    } else {
        trimmed(link)
    }
}

/// Where a link line points: its text up to the first white space.
pub open spec fn link_href(link: Seq<char>) -> Seq<char> {
    link_text(link).subrange(0, word_prefix(link_text(link)))
}

/// What a link line calls its target: what follows the first white space
/// of its text, trimmed; nothing where there is no white space.
pub open spec fn link_label(link: Seq<char>) -> Seq<char> {
    let text = link_text(link);
    if word_prefix(text) < text.len() {
        trimmed(text.subrange(word_prefix(text) + 1, text.len() as int))
    } else {
        Seq::empty()
    }
}

/// A Markdown link.
pub open spec fn markdown_link(display: Seq<char>, target: Seq<char>) -> Seq<char> {
    seq!['['] + display + seq![']', '('] + target + seq![')']
}

/// The path under which the proxy serves a Gemini URL: a slash, the host,
/// the path, and the query behind a `?` where there is one.
pub open spec fn proxy_path(host: Option<Seq<char>>, path: Seq<char>, query: Option<Seq<char>>) -> Seq<
    char,
> {
    let host_text = match host {
        Some(h) => h,
        None => "invalid"@,
    };
    let start = seq!['/'] + host_text + path;
    match query {
        Some(q) => start + seq!['?'] + q,
        None => start,
    }
}

/// A link as Markdown, given what it resolved to.
///
/// A link that resolved to a Gemini URL points to the proxy's path for it,
/// and is shown by its label or, without one, by that path. Any other link
/// points where it was written to point, and is shown by its label or,
/// without one, by its target.
pub open spec fn rendered_link(
    href: Seq<char>,
    label: Seq<char>,
    joined: Option<(Seq<char>, Seq<char>, Option<Seq<char>>, Seq<char>, Option<Seq<char>>)>,
) -> Seq<char> {
    match joined {
        Some(parts) => if parts.1 == "gemini"@ {
            let target = proxy_path(parts.2, parts.3, parts.4);
            markdown_link(
                if label.len() == 0 {
                    target
                } else {
                    label
                },
                target,
            )
        } else {
            markdown_link(
                if label.len() == 0 {
                    href
                } else {
                    label
                },
                href,
            )
        },
        None => markdown_link(
            if label.len() == 0 {
                href
            } else {
                label
            },
            href,
        ),
    }
}

/// A link line of the page at `page` as Markdown.
pub open spec fn resolved_link(link: Seq<char>, page: Seq<char>) -> Seq<char> {
    rendered_link(
        link_href(link),
        link_label(link),
        url_joined(link_base(page), link_href(link)),
    )
}

/// A line as `str::lines` gives it: without the carriage return that
/// stood before its newline.
pub open spec fn without_carriage_return(line: Seq<char>) -> Seq<char> {
    if line.len() > 0 && line.last() == '\r' {
        line.drop_last()
    } else {
        line
    }
}

/// One line of gemtext as Markdown: a link line resolved, any other line
/// without the white space it begins with.
pub open spec fn markdown_line(line: Seq<char>, page: Seq<char>) -> Seq<char> {
    let text = trimmed_start(line);
    if occurs_at(text, arrow(), 0) {
        resolved_link(text, page)
    } else {
        text
    }
}

/// Gemtext as Markdown: line by line, each followed by a blank line. A
/// newline at the very end opens no further line.
pub open spec fn markdown_of(gemtext: Seq<char>, page: Seq<char>) -> Seq<char>
    decreases gemtext.len(),
{
    if gemtext.len() == 0 {
        Seq::empty()
    } else if contains_pattern(gemtext, newline()) && 0 <= first_occurrence(gemtext, newline())
        < gemtext.len() {
        markdown_line(without_carriage_return(before_first(gemtext, newline())), page)
            + blank_line() + markdown_of(after_first(gemtext, newline()), page)
    } else {
        markdown_line(gemtext, page) + blank_line()
    }
}

/// The HTML that `markdown::to_html` turns a Markdown text into.
pub uninterp spec fn markdown_html(markdown: Seq<char>) -> Seq<char>;

/// Calls `markdown::to_html`, which compiles CommonMark with the default
/// options. Nothing is claimed of the HTML but that it is a function of
/// the Markdown.
#[verifier::external_body]
fn markdown_to_html(text: &str) -> (html: String)
    ensures
        html@ == markdown_html(text@),
{
    markdown::to_html(text)
}

/// Writes a Markdown link.
fn make_link(display: &str, target: &str) -> (r: String)
    ensures
        r@ == markdown_link(display@, target@),
{
    proof {
        reveal_strlit("[");
        reveal_strlit("](");
        reveal_strlit(")");
    }
    assert("["@ =~= seq!['[']);
    assert("]("@ =~= seq![']', '(']);
    assert(")"@ =~= seq![')']);
    String::from_str("[").concat(display).concat("](").concat(target).concat(")")
}

/// Writes the path under which the proxy serves a Gemini URL.
fn make_proxy_path(parts: &UrlParts) -> (r: String)
    ensures
        r@ == proxy_path(parts.parts().2, parts.parts().3, parts.parts().4),
{
    proof {
        reveal_strlit("/");
        reveal_strlit("?");
    }
    assert("/"@ =~= seq!['/']);
    assert("?"@ =~= seq!['?']);
    let start = String::from_str("/");
    let start = match &parts.host {
        Some(host) => start.concat(host.as_str()),
        None => start.concat("invalid"),
    };
    let start = start.concat(parts.path.as_str());
    match &parts.query {
        Some(query) => start.concat("?").concat(query.as_str()),
        None => start,
    }
}

/// Writes a link as Markdown, given its target, its label and what the
/// target resolved to.
pub fn render_link(href: &str, label: &str, joined: Option<UrlParts>) -> (r: String)
    ensures
        r@ == rendered_link(href@, label@, parts_of(joined)),
{
    let has_label = !label.is_empty();
    match joined {
        Some(parts) => {
            if same_text(parts.scheme.as_str(), "gemini") {
                let target = make_proxy_path(&parts);
                if has_label {
                    make_link(label, target.as_str())
                } else {
                    make_link(target.as_str(), target.as_str())
                }
            } else if has_label {
                make_link(label, href)
            } else {
                make_link(href, href)
            }
        },
        None => if has_label {
            make_link(label, href)
        } else {
            make_link(href, href)
        },
    }
}

/// Turns a link line of the page at `url`, a URL without scheme, into a
/// Markdown link.
pub fn resolve_links(link: String, url: String) -> (r: String)
    ensures
        r@ == resolved_link(link@, url@),
{
    proof {
        reveal_strlit("=>");
    }
    assert("=>"@ =~= arrow());
    let line = trim_start(link.as_str());
    let text = if starts_with(line.as_str(), "=>") {
        let chars = line.as_str().unicode_len();
        trim(slice_of(line.as_str(), 2, chars).as_str())
    } else {
        trim(link.as_str())
    };
    let (href, rest) = split_word(text.as_str());
    let label = match rest {
        Some(rest) => trim(rest.as_str()),
        None => String::new(),
    };
    let joined = resolve_parts(url.as_str(), href.as_str());
    render_link(href.as_str(), label.as_str(), joined)
}

/// Converts one line of gemtext.
fn convert_line(line: &str, page: &String) -> (r: String)
    ensures
        r@ == markdown_line(line@, page@),
{
    proof {
        reveal_strlit("=>");
    }
    assert("=>"@ =~= arrow());
    let text = trim_start(line);
    if starts_with(text.as_str(), "=>") {
        resolve_links(text, page.clone())
    } else {
        text
    }
}

/// Removes the carriage return a line ends with, if it ends with one.
fn strip_carriage_return(line: String) -> (r: String)
    ensures
        r@ == without_carriage_return(line@),
{
    let n = line.as_str().unicode_len();
    if n > 0 && line.as_str().get_char(n - 1) == '\r' {
        slice_of(line.as_str(), 0, n - 1)
    } else {
        line
    }
}

/// Converts gemtext to Markdown, line by line. Link lines become Markdown
/// links; every line is followed by a blank line.
pub fn gemtext_to_md(gemtext: String, baseurl: String) -> (r: String)
    ensures
        r@ == markdown_of(gemtext@, baseurl@),
{
    proof {
        reveal_strlit("\n\n");
    }
    assert("\n\n"@ =~= blank_line());
    let chars = chars_of(gemtext.as_str());
    let end_of_line: Vec<char> = vec!['\n'];
    assert(end_of_line@ =~= newline());
    assert(chars@.subrange(0, chars@.len() as int) =~= chars@);
    let mut done = String::new();
    let mut start: usize = 0;
    loop
        invariant
            "\n\n"@ == blank_line(),
            end_of_line@ == newline(),
            chars@ == gemtext@,
            start <= chars.len(),
            done@ + markdown_of(chars@.subrange(start as int, chars@.len() as int), baseurl@)
                == markdown_of(gemtext@, baseurl@),
        decreases chars.len() - start,
    {
        let ghost rest = chars@.subrange(start as int, chars@.len() as int);
        if start == chars.len() {
            return done;
        }
        match find_from(&chars, &end_of_line, start) {
            Some(at) => {
                let head = text_between(&chars, start, at);
                let line = convert_line(strip_carriage_return(head).as_str(), &baseurl);
                proof {
                    let tail = chars@.subrange(at + 1, chars@.len() as int);
                    assert(before_first(rest, newline()) =~= chars@.subrange(
                        start as int,
                        at as int,
                    ));
                    assert(after_first(rest, newline()) =~= tail);
                    assert(done@ + line@ + blank_line() + markdown_of(tail, baseurl@) =~= done@ + (
                    line@ + blank_line() + markdown_of(tail, baseurl@)));
                }
                done.append(line.as_str());
                done.append("\n\n");
                start = at + 1;
            },
            None => {
                let last = text_between(&chars, start, chars.len());
                let line = convert_line(last.as_str(), &baseurl);
                assert(done@ + line@ + blank_line() =~= done@ + (line@ + blank_line()));
                done.append(line.as_str());
                done.append("\n\n");
                return done;
            },
        }
    }
}

/// Converts gemtext to HTML: first to Markdown, then from Markdown to
/// HTML.
pub fn gemtext_to_html(gemtext: String, url: String) -> (html: String)
    ensures
        html@ == markdown_html(markdown_of(gemtext@, url@)),
{
    let markdown = gemtext_to_md(gemtext, url);
    markdown_to_html(markdown.as_str())
}

} // verus!
