//! What the browser-facing side shows for a response: the page skeleton
//! with its three placeholders, and what goes into each of them.

use vstd::prelude::*;
use crate::address::text_of;
use crate::gemtext::{gemtext_to_html, markdown_html, markdown_of};
use crate::status::StatusCode;
use crate::text::{
    after_first, contains_pattern, contains_text, replace_all, replaced, split_first,
};

verus! {

/// The placeholder that the page's main content takes the place of.
pub open spec fn main_slot() -> Seq<char> {
    "<Dioscuri/>"@
}

/// The placeholder that the prompt's label takes the place of.
pub open spec fn prompt_slot() -> Seq<char> {
    "<DioscuriPrompt/>"@
}

/// The placeholder that the input form takes the place of.
pub open spec fn input_slot() -> Seq<char> {
    "<DioscuriInput/>"@
}

/// The form shown where a response asks for input.
pub open spec fn input_form() -> Seq<char> {
    "\n<form method=\"get\"><label><input type=\"text\" name=\"query\"></label><input type=\"submit\" value=\"Submit\"></form>\n"@
}

/// What separates a query's first key from its value.
pub open spec fn equals_sign() -> Seq<char> {
    seq!['=']
}

/// A query without its first key: what follows the first `=`, or the
/// whole query when it has none.
pub open spec fn without_first_key(query: Seq<char>) -> Seq<char> {
    if contains_pattern(query, equals_sign()) {
        after_first(query, equals_sign())
    } else {
        query
    }
}

/// `page` with `slot` added at its end unless it is in there already.
pub open spec fn with_slot(page: Seq<char>, slot: Seq<char>) -> Seq<char> {
    if contains_pattern(page, slot) {
        page
    } else {
        page + slot
    }
}

/// The skeleton made of a head and a body: the two in a row, with each of
/// the three placeholders added at the end where it is missing.
pub open spec fn skeleton_of(head: Seq<char>, body: Seq<char>) -> Seq<char> {
    with_slot(with_slot(with_slot(head + body, main_slot()), prompt_slot()), input_slot())
}

/// What takes the place of the three placeholders for a response: the
/// main content, the input form and the prompt, in this order.
///
/// A success shows the rendered document. A request for input shows the
/// form, with the meta text as its prompt. Everything else shows the meta
/// text as the main content.
pub open spec fn slot_contents(status: StatusCode, meta: Seq<char>, document: Seq<char>) -> (
    Seq<char>,
    Seq<char>,
    Seq<char>,
) {
    match status {
        StatusCode::Success => (document, Seq::empty(), Seq::empty()),
        StatusCode::InputExpected => (Seq::empty(), input_form(), meta),
        StatusCode::InputSensitive => (Seq::empty(), input_form(), meta),
        _ => (meta, Seq::empty(), Seq::empty()),
    }
}

/// A skeleton with its placeholders filled in: first the main content,
/// then the input form, then the prompt.
pub open spec fn filled(skeleton: Seq<char>, contents: (Seq<char>, Seq<char>, Seq<char>)) -> Seq<char> {
    replaced(
        replaced(replaced(skeleton, main_slot(), contents.0), input_slot(), contents.1),
        prompt_slot(),
        contents.2,
    )
}

/// The URL to fetch for a request to the proxy: the path, and behind a
/// `?` the query without its first key, where there is a query.
pub open spec fn target_url(path: Seq<char>, query: Option<Seq<char>>) -> Seq<char> {
    match query {
        Some(q) => path + seq!['?'] + without_first_key(q),
        None => path,
    }
}

/// Drops the first key of a query: for `key=value`, where the value may
/// hold further `=`, the value; for a query without `=`, the query.
pub fn strip_first_url_query_key(query: String) -> (r: String)
    ensures
        r@ == without_first_key(query@),
{
    proof {
        reveal_strlit("=");
    }
    assert("="@ =~= equals_sign());
    match split_first(query.as_str(), "=") {
        Some((_, value)) => value,
        None => query,
    }
}

/// The URL to fetch for a request that came in for `path` with `query`.
pub fn proxied_url(path: &String, query: Option<String>) -> (r: String)
    ensures
        r@ == target_url(path@, text_of(query)),
{
    match query {
        Some(q) => {
            proof {
                reveal_strlit("?");
            }
            assert("?"@ =~= seq!['?']);
            let value = strip_first_url_query_key(q);
            path.clone().concat("?").concat(value.as_str())
        },
        None => path.clone(),
    }
}

/// Adds a placeholder at the end of a page that lacks it.
fn add_slot(page: String, slot: &str) -> (r: String)
    ensures
        r@ == with_slot(page@, slot@),
{
    if contains_text(page.as_str(), slot) {
        page
    } else {
        page.concat(slot)
    }
}

/// Puts a page skeleton together from the contents of its head and body
/// files, and makes sure that it holds all three placeholders.
pub fn load_skeleton(head: String, body: String) -> (skeleton: String)
    ensures
        skeleton@ == skeleton_of(head@, body@),
{
    let page = head.concat(body.as_str());
    let page = add_slot(page, "<Dioscuri/>");
    let page = add_slot(page, "<DioscuriPrompt/>");
    add_slot(page, "<DioscuriInput/>")
}

/// Fills a skeleton in for a response: `document` is the rendered body,
/// shown for a success only.
pub fn render_page(skeleton: &String, status: StatusCode, meta: &String, document: &String) -> (page:
    String)
    ensures
        page@ == filled(skeleton@, slot_contents(status, meta@, document@)),
{
    let form =
        "\n<form method=\"get\"><label><input type=\"text\" name=\"query\"></label><input type=\"submit\" value=\"Submit\"></form>\n";
    let (main, input, prompt): (&str, &str, &str) = match status {
        StatusCode::Success => (document.as_str(), "", ""),
        StatusCode::InputExpected => ("", form, meta.as_str()),
        StatusCode::InputSensitive => ("", form, meta.as_str()),
        _ => (meta.as_str(), "", ""),
    };
    proof {
        reveal_strlit("");
    }
    assert(""@ =~= Seq::<char>::empty());
    let page = replace_all(skeleton.as_str(), "<Dioscuri/>", main);
    let page = replace_all(page.as_str(), "<DioscuriInput/>", input);
    replace_all(page.as_str(), "<DioscuriPrompt/>", prompt)
}

/// Shows a response as a page: the body of a success is converted from
/// gemtext to HTML and takes the main placeholder's place; any other
/// response is shown by its meta text alone.
pub fn show_response(
    skeleton: &String,
    status: StatusCode,
    meta: &String,
    body: String,
    url: String,
) -> (page: String)
    ensures
        page@ == filled(
            skeleton@,
            slot_contents(status, meta@, markdown_html(markdown_of(body@, url@))),
        ),
{
    match status {
        StatusCode::Success => {
            let document = gemtext_to_html(body, url);
            render_page(skeleton, status, meta, &document)
        },
        _ => render_page(skeleton, status, meta, &String::new()),
    }
}

} // verus!
