//! Where the client keeps its files, and what the files it cannot do
//! without hold when they are first made.

use vstd::prelude::*;
use crate::text::{chars_of, same_text, text_between};

verus! {

/// The first content of `head.html`.
pub open spec fn default_head() -> Seq<char> {
    r#"
            <head>
            <meta charset="utf-8"><meta name="viewport" content="width=device-width, initial-scale=1, viewport-fit=cover">
            <title>Dioscuri | Gemini Client</title>
            <!-- You can include as many stylesheets and scripts as you want! -->
            <link rel='stylesheet' href="/static/css/style.css"/>
            </head>
            "#@
}

/// The first content of `nav.html`.
pub open spec fn default_nav() -> Seq<char> {
    r#"
            <!-- The nav html is just a way for you to store your bookmarks or type in an address directly -->
            <!-- You may leave this blank if you don't need one -->
            <div>
            <h1>Address Bar</h1>
            <form action="http://localhost:1965/" method="GET">
                <input type="text" name="gemini">
                <button type="submit">Enter</button>
            </form>
            <h3>Quick Links</h1>
            <a href="gemini/geminiprotocol.net/">geminiprotocol.net</a> <br>
            <a href="gemini/bbs.geminispace.org/">bbs.geminispace.org</a>
            </div>
            "#@
}

/// The first content of `body.html`.
pub open spec fn default_body() -> Seq<char> {
    r#"
            <!-- This is the default body html file that will be served -->
            <h1>Hello, world!</h1>
            "#@
}

/// The first content of the file called `filename`: that of one of the
/// three default files, or a line that says there is none.
pub open spec fn default_content(filename: Seq<char>) -> Seq<char> {
    if filename == "head.html"@ {
        default_head()
    } else if filename == "nav.html"@ {
        default_nav()
    } else if filename == "body.html"@ {
        default_body()
    } else {
        "Error in getting default file."@
    }
}

/// The directory of the trust store below the client's own directory.
pub open spec fn cert_dir_of(default_dir: Seq<char>) -> Seq<char> {
    default_dir + "/cert"@
}

/// Whether a text can be the name of a file in the trust store: it is not
/// empty, is neither `.` nor `..`, and holds no slash, no backslash and no
/// NUL, so that the file lies in the store's directory and nowhere else.
pub open spec fn names_a_file(name: Seq<char>) -> bool {
    &&& name.len() > 0
    &&& name != seq!['.']
    &&& name != seq!['.', '.']
    &&& forall|i: int| 0 <= i < name.len() ==> is_file_name_char(#[trigger] name[i])
}

/// Whether a character may stand in a file name: anything but a slash, a
/// backslash and NUL.
pub open spec fn is_file_name_char(c: char) -> bool {
    c != '/' && c != '\\' && c != '\0'
}

/// What stands for one character of a domain in its file name. A slash, a
/// backslash and NUL are written as `%` and two hexadecimal digits, and so
/// is `%` itself, so that no two domains share a file name. Every other
/// character stands for itself.
pub open spec fn escaped(c: char) -> Seq<char> {
    if c == '%' {
        seq!['%', '2', '5']
    } else if c == '/' {
        seq!['%', '2', 'F']
    } else if c == '\\' {
        seq!['%', '5', 'C']
    } else if c == '\0' {
        seq!['%', '0', '0']
    } else {
        seq![c]
    }
}

/// A domain with each of its characters escaped.
pub open spec fn escaped_name(domain: Seq<char>) -> Seq<char>
    decreases domain.len(),
{
    if domain.len() == 0 {
        Seq::empty()
    } else {
        escaped(domain[0]) + escaped_name(domain.drop_first())
    }
}

/// What every file of the trust store ends with.
pub open spec fn file_suffix() -> Seq<char> {
    seq!['.', 'd', 'e', 'r']
}

/// The name of the file that holds the certificate on file for a domain:
/// the domain, escaped, with `.der` behind it. A domain of letters,
/// digits, dots and hyphens is its own escaped form.
pub open spec fn cert_file_of(domain: Seq<char>) -> Seq<char> {
    escaped_name(domain) + file_suffix()
}

/// Escaping goes character by character: a domain with one more character
/// at its end is escaped to the same, with that character's escape at its
/// end.
pub proof fn lemma_escaped_push(domain: Seq<char>, c: char)
    ensures
        escaped_name(domain.push(c)) == escaped_name(domain) + escaped(c),
    decreases domain.len(),
{
    let longer = domain.push(c);
    if domain.len() == 0 {
        assert(longer[0] == c);
        assert(longer.drop_first().len() == 0);
        assert(escaped_name(longer.drop_first()) =~= Seq::<char>::empty());
        assert(escaped_name(longer) =~= escaped(c));
        assert(escaped_name(domain) + escaped(c) =~= escaped(c));
    } else {
        assert(longer.drop_first() =~= domain.drop_first().push(c));
        assert(longer[0] == domain[0]);
        lemma_escaped_push(domain.drop_first(), c);
        assert(escaped(domain[0]) + (escaped_name(domain.drop_first()) + escaped(c)) =~= (escaped(
            domain[0],
        ) + escaped_name(domain.drop_first())) + escaped(c));
    }
}

/// An escaped domain holds no slash, no backslash and no NUL.
pub proof fn lemma_escaped_is_safe(domain: Seq<char>)
    ensures
        forall|i: int|
            0 <= i < escaped_name(domain).len() ==> is_file_name_char(
                #[trigger] escaped_name(domain)[i],
            ),
    decreases domain.len(),
{
    if domain.len() > 0 {
        lemma_escaped_is_safe(domain.drop_first());
        let head = escaped(domain[0]);
        let tail = escaped_name(domain.drop_first());
        assert forall|i: int| 0 <= i < escaped_name(domain).len() implies is_file_name_char(
            #[trigger] escaped_name(domain)[i],
        ) by {
            if i < head.len() {
                assert((head + tail)[i] == head[i]);
            } else {
                assert((head + tail)[i] == tail[i - head.len()]);
            }
        }
    }
}

/// Escaping is injective: two domains that are escaped to the same text
/// are the same domain.
pub proof fn lemma_escaped_injective(a: Seq<char>, b: Seq<char>)
    requires
        escaped_name(a) == escaped_name(b),
    ensures
        a == b,
    decreases a.len(),
{
    if a.len() == 0 || b.len() == 0 {
        if a.len() > 0 {
            assert(escaped_name(a).len() >= escaped(a[0]).len());
        }
        if b.len() > 0 {
            assert(escaped_name(b).len() >= escaped(b[0]).len());
        }
        assert(a =~= b);
    } else {
        let ea = escaped(a[0]);
        let eb = escaped(b[0]);
        let ra = escaped_name(a.drop_first());
        let rb = escaped_name(b.drop_first());
        let whole = escaped_name(a);
        assert(whole == ea + ra && whole == eb + rb);
        assert(whole[0] == ea[0] && whole[0] == eb[0]);
        if ea[0] == '%' {
            assert(ea.len() == 3 && eb.len() == 3);
            assert(whole[1] == ea[1] && whole[1] == eb[1]);
            assert(whole[2] == ea[2] && whole[2] == eb[2]);
            assert(a[0] == b[0]);
            assert(ra =~= whole.subrange(3, whole.len() as int));
            assert(rb =~= whole.subrange(3, whole.len() as int));
        } else {
            assert(ea.len() == 1 && eb.len() == 1);
            assert(a[0] == b[0]);
            assert(ra =~= whole.subrange(1, whole.len() as int));
            assert(rb =~= whole.subrange(1, whole.len() as int));
        }
        lemma_escaped_injective(a.drop_first(), b.drop_first());
        assert(a =~= seq![a[0]] + a.drop_first());
        assert(b =~= seq![b[0]] + b.drop_first());
    }
}

/// No two domains share a file: the file name tells the domain.
pub proof fn lemma_cert_file_injective(a: Seq<char>, b: Seq<char>)
    requires
        cert_file_of(a) == cert_file_of(b),
    ensures
        a == b,
{
    let ea = escaped_name(a);
    let eb = escaped_name(b);
    assert(ea.len() + 4 == cert_file_of(a).len());
    assert(eb.len() + 4 == cert_file_of(b).len());
    assert(ea =~= cert_file_of(a).subrange(0, ea.len() as int));
    assert(eb =~= cert_file_of(b).subrange(0, eb.len() as int));
    lemma_escaped_injective(a, b);
}

/// Every domain has a file name, and the file lies in the store's
/// directory: its name is not empty, is neither `.` nor `..`, and holds
/// no slash, no backslash and no NUL.
pub proof fn lemma_cert_file_is_safe(domain: Seq<char>)
    ensures
        names_a_file(cert_file_of(domain)),
{
    lemma_escaped_is_safe(domain);
    let head = escaped_name(domain);
    let name = cert_file_of(domain);
    assert(name.len() == head.len() + 4);
    assert forall|i: int| 0 <= i < name.len() implies is_file_name_char(#[trigger] name[i]) by {
        if i < head.len() {
            assert(name[i] == head[i]);
        } else {
            assert(name[i] == file_suffix()[i - head.len()]);
        }
    }
    assert(name != seq!['.']) by {
        assert(seq!['.'].len() == 1);
    }
    assert(name != seq!['.', '.']) by {
        assert(seq!['.', '.'].len() == 2);
    }
}

/// A domain without `%`, slash, backslash and NUL is its own escaped
/// form, so its file is the domain with `.der` behind it.
pub proof fn lemma_plain_domain_is_kept(domain: Seq<char>)
    requires
        forall|i: int|
            0 <= i < domain.len() ==> is_file_name_char(#[trigger] domain[i]) && domain[i] != '%',
    ensures
        escaped_name(domain) == domain,
        cert_file_of(domain) == domain + file_suffix(),
    decreases domain.len(),
{
    if domain.len() > 0 {
        let rest = domain.drop_first();
        assert forall|i: int| 0 <= i < rest.len() implies is_file_name_char(#[trigger] rest[i])
            && rest[i] != '%' by {
            assert(rest[i] == domain[i + 1]);
        }
        lemma_plain_domain_is_kept(rest);
        assert(is_file_name_char(domain[0]) && domain[0] != '%');
        assert(seq![domain[0]] + rest =~= domain);
    } else {
        assert(escaped_name(domain) =~= domain);
    }
}

/// The names of the files that are made with default content where they
/// are missing.
pub fn default_files() -> (names: Vec<&'static str>)
    ensures
        names@.len() == 3,
        names@[0]@ == "head.html"@,
        names@[1]@ == "nav.html"@,
        names@[2]@ == "body.html"@,
{
    vec!["head.html", "nav.html", "body.html"]
}

/// The content a default file is made with.
pub fn get_default_file(filename: &str) -> (content: &'static str)
    ensures
        content@ == default_content(filename@),
{
    if same_text(filename, "head.html") {
        r#"
            <head>
            <meta charset="utf-8"><meta name="viewport" content="width=device-width, initial-scale=1, viewport-fit=cover">
            <title>Dioscuri | Gemini Client</title>
            <!-- You can include as many stylesheets and scripts as you want! -->
            <link rel='stylesheet' href="/static/css/style.css"/>
            </head>
            "#
    } else if same_text(filename, "nav.html") {
        r#"
            <!-- The nav html is just a way for you to store your bookmarks or type in an address directly -->
            <!-- You may leave this blank if you don't need one -->
            <div>
            <h1>Address Bar</h1>
            <form action="http://localhost:1965/" method="GET">
                <input type="text" name="gemini">
                <button type="submit">Enter</button>
            </form>
            <h3>Quick Links</h1>
            <a href="gemini/geminiprotocol.net/">geminiprotocol.net</a> <br>
            <a href="gemini/bbs.geminispace.org/">bbs.geminispace.org</a>
            </div>
            "#
    } else if same_text(filename, "body.html") {
        r#"
            <!-- This is the default body html file that will be served -->
            <h1>Hello, world!</h1>
            "#
    } else {
        "Error in getting default file."
    }
}

/// The trust store's directory, given the client's own directory.
pub fn get_cert_dir(default_dir: &str) -> (dir: String)
    ensures
        dir@ == cert_dir_of(default_dir@),
{
    String::from_str(default_dir).concat("/cert")
}

/// The file name under which a domain's certificate is kept: the domain,
/// escaped, with `.der` behind it. Every domain has one, no two domains
/// share one, and none leads out of the store's directory.
pub fn cert_file_name(domain: &str) -> (name: String)
    ensures
        name@ == cert_file_of(domain@),
        names_a_file(name@),
{
    let chars = chars_of(domain);
    let mut out: Vec<char> = Vec::new();
    let mut i: usize = 0;
    assert(chars@.take(0) =~= Seq::<char>::empty());
    while i < chars.len()
        invariant
            chars@ == domain@,
            i <= chars.len(),
            out@ == escaped_name(chars@.take(i as int)),
        decreases chars.len() - i,
    {
        let c: char = chars[i];
        proof {
            lemma_escaped_push(chars@.take(i as int), c);
            assert(chars@.take(i + 1) =~= chars@.take(i as int).push(c));
        }
        if c == '%' {
            out.push('%');
            out.push('2');
            out.push('5');
        } else if c == '/' {
            out.push('%');
            out.push('2');
            out.push('F');
        } else if c == '\\' {
            out.push('%');
            out.push('5');
            out.push('C');
        } else if c == '\0' {
            out.push('%');
            out.push('0');
            out.push('0');
        } else {
            out.push(c);
        }
        assert(out@ =~= escaped_name(chars@.take(i as int)) + escaped(c));
        i += 1;
    }
    assert(chars@.take(chars@.len() as int) =~= chars@);
    out.push('.');
    out.push('d');
    out.push('e');
    out.push('r');
    proof {
        assert(out@ =~= escaped_name(domain@) + file_suffix());
        assert(out@.subrange(0, out@.len() as int) =~= out@);
        lemma_cert_file_is_safe(domain@);
    }
    text_between(&out, 0, out.len())
}

} // verus!
