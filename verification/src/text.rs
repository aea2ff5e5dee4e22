//! Searching and slicing sequences. The model is the same for text, a
//! sequence of characters, and for raw data, a sequence of bytes; the
//! functions of this module work on text.

use vstd::prelude::*;

verus! {

/// `pat` occurs in `s` starting at index `i`.
pub open spec fn occurs_at<T>(s: Seq<T>, pat: Seq<T>, i: int) -> bool {
    0 <= i && i + pat.len() <= s.len() && s.subrange(i, i + pat.len()) == pat
}

/// `pat` occurs somewhere in `s`.
pub open spec fn contains_pattern<T>(s: Seq<T>, pat: Seq<T>) -> bool {
    exists|i: int| occurs_at(s, pat, i)
}

/// `i` is the leftmost index at which `pat` occurs in `s`.
pub open spec fn is_first_occurrence<T>(s: Seq<T>, pat: Seq<T>, i: int) -> bool {
    occurs_at(s, pat, i) && forall|j: int| 0 <= j < i ==> !occurs_at(s, pat, j)
}

/// `i` is the rightmost index at which `pat` occurs in `s`.
pub open spec fn is_last_occurrence<T>(s: Seq<T>, pat: Seq<T>, i: int) -> bool {
    occurs_at(s, pat, i) && forall|j: int| i < j ==> !occurs_at(s, pat, j)
}

/// The leftmost index at which `pat` occurs in `s`; meaningful only when
/// `contains_pattern(s, pat)`.
pub open spec fn first_occurrence<T>(s: Seq<T>, pat: Seq<T>) -> int {
    choose|i: int| is_first_occurrence(s, pat, i)
}

/// The rightmost index at which `pat` occurs in `s`; meaningful only when
/// `contains_pattern(s, pat)`.
pub open spec fn last_occurrence<T>(s: Seq<T>, pat: Seq<T>) -> int {
    choose|i: int| is_last_occurrence(s, pat, i)
}

/// The part of `s` before the leftmost occurrence of `pat`.
pub open spec fn before_first<T>(s: Seq<T>, pat: Seq<T>) -> Seq<T> {
    s.subrange(0, first_occurrence(s, pat))
}

/// The part of `s` after the leftmost occurrence of `pat`.
pub open spec fn after_first<T>(s: Seq<T>, pat: Seq<T>) -> Seq<T> {
    s.subrange(first_occurrence(s, pat) + pat.len(), s.len() as int)
}

/// The part of `s` before the rightmost occurrence of `pat`.
pub open spec fn before_last<T>(s: Seq<T>, pat: Seq<T>) -> Seq<T> {
    s.subrange(0, last_occurrence(s, pat))
}

/// The part of `s` after the rightmost occurrence of `pat`.
pub open spec fn after_last<T>(s: Seq<T>, pat: Seq<T>) -> Seq<T> {
    s.subrange(last_occurrence(s, pat) + pat.len(), s.len() as int)
}

/// A leftmost occurrence is unique: any index with that property is
/// `first_occurrence`.
pub proof fn lemma_first_occurrence_unique<T>(s: Seq<T>, pat: Seq<T>, i: int)
    requires
        is_first_occurrence(s, pat, i),
    ensures
        contains_pattern(s, pat),
        first_occurrence(s, pat) == i,
{
    let k = first_occurrence(s, pat);
    assert(is_first_occurrence(s, pat, k));
    if k < i {
        assert(!occurs_at(s, pat, k));
    } else if i < k {
        assert(!occurs_at(s, pat, i));
    }
}

/// A rightmost occurrence is unique: any index with that property is
/// `last_occurrence`.
pub proof fn lemma_last_occurrence_unique<T>(s: Seq<T>, pat: Seq<T>, i: int)
    requires
        is_last_occurrence(s, pat, i),
    ensures
        contains_pattern(s, pat),
        last_occurrence(s, pat) == i,
{
    let k = last_occurrence(s, pat);
    assert(is_last_occurrence(s, pat, k));
    if k < i {
        assert(!occurs_at(s, pat, i));
    } else if i < k {
        assert(!occurs_at(s, pat, k));
    }
}

/// Where a pattern occurs at all, it has a leftmost occurrence.
pub proof fn lemma_least_occurrence<T>(s: Seq<T>, pat: Seq<T>, i: int)
    requires
        occurs_at(s, pat, i),
    ensures
        is_first_occurrence(s, pat, first_occurrence(s, pat)),
        first_occurrence(s, pat) <= i,
    decreases i,
{
    if exists|j: int| 0 <= j < i && occurs_at(s, pat, j) {
        let j = choose|j: int| 0 <= j < i && occurs_at(s, pat, j);
        lemma_least_occurrence(s, pat, j);
    } else {
        assert(is_first_occurrence(s, pat, i));
        lemma_first_occurrence_unique(s, pat, i);
    }
}

/// Splitting at the leftmost occurrence loses nothing: what stands before
/// it, the pattern and what stands after it make up the text again, and
/// the pattern does not occur in what stands before it.
pub proof fn lemma_split_first<T>(s: Seq<T>, pat: Seq<T>)
    requires
        contains_pattern(s, pat),
    ensures
        is_first_occurrence(s, pat, first_occurrence(s, pat)),
        before_first(s, pat) + pat + after_first(s, pat) == s,
        pat.len() > 0 ==> !contains_pattern(before_first(s, pat), pat),
{
    let w = choose|i: int| occurs_at(s, pat, i);
    lemma_least_occurrence(s, pat, w);
    let at = first_occurrence(s, pat);
    let head = before_first(s, pat);
    assert(s.subrange(at, at + pat.len()) == pat);
    assert(head + pat + after_first(s, pat) =~= s) by {
        assert forall|k: int| 0 <= k < s.len() implies (head + pat + after_first(s, pat))[k]
            == s[k] by {
            if at <= k < at + pat.len() {
                assert(s.subrange(at, at + pat.len())[k - at] == s[k]);
            }
        }
    }
    if pat.len() > 0 && contains_pattern(head, pat) {
        let j = choose|j: int| occurs_at(head, pat, j);
        assert(s.subrange(j, j + pat.len()) =~= head.subrange(j, j + pat.len()));
        assert(occurs_at(s, pat, j));
    }
}

/// The characters of `s`, in order.
pub fn chars_of(s: &str) -> (v: Vec<char>)
    ensures
        v@ == s@,
{
    let mut v: Vec<char> = Vec::new();
    for c in it: s.chars()
        invariant
            it.seq() == s@,
            v@ == s@.take(it.index() as int),
    {
        v.push(c);
        proof {
            let n = it.index() as int;
            assert(s@.take(n + 1) == s@.take(n).push(s@[n]));
        }
    }
    v
}

/// Whether `pat` occurs in `s` at index `i`.
pub fn occurs_here(s: &Vec<char>, pat: &Vec<char>, i: usize) -> (r: bool)
    ensures
        r == occurs_at(s@, pat@, i as int),
{
    if pat.len() > s.len() || i > s.len() - pat.len() {
        return false;
    }
    let mut k: usize = 0;
    while k < pat.len()
        invariant
            k <= pat.len(),
            i + pat.len() <= s.len(),
            forall|j: int| 0 <= j < k ==> s@[i + j] == pat@[j],
        decreases pat.len() - k,
    {
        if s[i + k] != pat[k] {
            proof {
                let sub = s@.subrange(i as int, i + pat.len());
                assert(sub[k as int] == s@[i + k]);
            }
            return false;
        }
        k += 1;
    }
    assert(s@.subrange(i as int, i + pat.len()) =~= pat@);
    true
}

/// The rightmost index at which `pat` occurs in `s`, if it occurs at all.
pub fn find_last(s: &Vec<char>, pat: &Vec<char>) -> (r: Option<usize>)
    ensures
        r is Some <==> contains_pattern(s@, pat@),
        r matches Some(i) ==> is_last_occurrence(s@, pat@, i as int) && i as int
            == last_occurrence(s@, pat@) && i + pat@.len() <= s@.len(),
{
    if pat.len() > s.len() {
        return None;
    }
    let mut i: usize = s.len() - pat.len();
    loop
        invariant
            pat.len() <= s.len(),
            i <= s.len() - pat.len(),
            forall|j: int| i < j ==> !occurs_at(s@, pat@, j),
        decreases i,
    {
        if occurs_here(s, pat, i) {
            proof {
                lemma_last_occurrence_unique(s@, pat@, i as int);
            }
            return Some(i);
        }
        if i == 0 {
            return None;
        }
        i -= 1;
    }
}

/// An occurrence in what follows index `start` is an occurrence in the
/// whole, `start` places further on.
pub proof fn lemma_occurs_in_suffix<T>(s: Seq<T>, pat: Seq<T>, start: int, i: int)
    requires
        0 <= start <= s.len(),
        0 <= i,
    ensures
        occurs_at(s.subrange(start, s.len() as int), pat, i) <==> occurs_at(s, pat, start + i),
{
    let suffix = s.subrange(start, s.len() as int);
    if i + pat.len() <= suffix.len() {
        assert(suffix.subrange(i, i + pat.len()) =~= s.subrange(start + i, start + i + pat.len()));
    }
}

/// The leftmost index at or after `start` at which `pat` occurs in `s`,
/// if it occurs there at all.
pub fn find_from(s: &Vec<char>, pat: &Vec<char>, start: usize) -> (r: Option<usize>)
    requires
        start <= s.len(),
    ensures
        r is Some <==> contains_pattern(s@.subrange(start as int, s@.len() as int), pat@),
        r matches Some(i) ==> start <= i && i + pat@.len() <= s@.len() && is_first_occurrence(
            s@.subrange(start as int, s@.len() as int),
            pat@,
            i - start,
        ) && i - start == first_occurrence(s@.subrange(start as int, s@.len() as int), pat@),
{
    let ghost suffix = s@.subrange(start as int, s@.len() as int);
    if pat.len() > s.len() - start {
        assert forall|k: int| !occurs_at(suffix, pat@, k) by {}
        return None;
    }
    let last: usize = s.len() - pat.len();
    let mut i: usize = start;
    loop
        invariant
            suffix == s@.subrange(start as int, s@.len() as int),
            start <= i <= last,
            last == s.len() - pat.len(),
            forall|j: int| start <= j < i ==> !occurs_at(s@, pat@, j),
        decreases last - i,
    {
        if occurs_here(s, pat, i) {
            proof {
                lemma_occurs_in_suffix(s@, pat@, start as int, i - start);
                assert forall|k: int| 0 <= k < i - start implies !occurs_at(suffix, pat@, k) by {
                    lemma_occurs_in_suffix(s@, pat@, start as int, k);
                }
                lemma_first_occurrence_unique(suffix, pat@, i - start);
            }
            return Some(i);
        }
        if i == last {
            proof {
                assert forall|k: int| !occurs_at(suffix, pat@, k) by {
                    if 0 <= k {
                        lemma_occurs_in_suffix(s@, pat@, start as int, k);
                    }
                }
            }
            return None;
        }
        i += 1;
    }
}

/// Calls `String::from_iter` on the characters: the string made of them,
/// in their order. It serves the functions that walk a long text once and
/// cut many pieces from it, for which cutting each piece from the start
/// of the text would be quadratic.
#[verifier::external_body]
fn string_from_chars(chars: &[char]) -> (r: String)
    ensures
        r@ == chars@,
{
    String::from_iter(chars)
}

/// The text made of the characters of `chars` from index `from` up to,
/// not including, `to`.
pub fn text_between(chars: &Vec<char>, from: usize, to: usize) -> (r: String)
    requires
        from <= to <= chars.len(),
    ensures
        r@ == chars@.subrange(from as int, to as int),
{
    string_from_chars(vstd::slice::slice_subrange(chars.as_slice(), from, to))
}

/// The leftmost index at which `pat` occurs in `s`, if it occurs at all.
pub fn find_first(s: &Vec<char>, pat: &Vec<char>) -> (r: Option<usize>)
    ensures
        r is Some <==> contains_pattern(s@, pat@),
        r matches Some(i) ==> is_first_occurrence(s@, pat@, i as int) && i as int
            == first_occurrence(s@, pat@) && i + pat@.len() <= s@.len(),
{
    assert(s@.subrange(0, s@.len() as int) =~= s@);
    find_from(s, pat, 0)
}

/// The characters of `s` from index `from` up to, not including, `to`.
pub fn slice_of(s: &str, from: usize, to: usize) -> (r: String)
    requires
        from <= to <= s@.len(),
    ensures
        r@ == s@.subrange(from as int, to as int),
{
    s.substring_char(from, to).to_owned()
}

/// Splits `s` around the leftmost occurrence of `pat`: what stands before
/// it and what stands after it. `None` where `pat` does not occur.
pub fn split_first(s: &str, pat: &str) -> (r: Option<(String, String)>)
    ensures
        r is Some <==> contains_pattern(s@, pat@),
        r matches Some((head, tail)) ==> head@ == before_first(s@, pat@) && tail@ == after_first(
            s@,
            pat@,
        ),
{
    let chars = chars_of(s);
    let pattern = chars_of(pat);
    match find_first(&chars, &pattern) {
        Some(at) => {
            assert(at + pattern.len() <= chars.len());
            Some((slice_of(s, 0, at), slice_of(s, at + pattern.len(), chars.len())))
        },
        None => None,
    }
}

/// Splits `s` around the rightmost occurrence of `pat`: what stands before
/// it and what stands after it. `None` where `pat` does not occur.
pub fn split_last(s: &str, pat: &str) -> (r: Option<(String, String)>)
    ensures
        r is Some <==> contains_pattern(s@, pat@),
        r matches Some((head, tail)) ==> head@ == before_last(s@, pat@) && tail@ == after_last(
            s@,
            pat@,
        ),
{
    let chars = chars_of(s);
    let pattern = chars_of(pat);
    match find_last(&chars, &pattern) {
        Some(at) => {
            assert(at + pattern.len() <= chars.len());
            Some((slice_of(s, 0, at), slice_of(s, at + pattern.len(), chars.len())))
        },
        None => None,
    }
}

/// Whether `pat` occurs in `s`.
pub fn contains_text(s: &str, pat: &str) -> (r: bool)
    ensures
        r == contains_pattern(s@, pat@),
{
    let chars = chars_of(s);
    let pattern = chars_of(pat);
    find_first(&chars, &pattern).is_some()
}

/// Whether two texts are the same, character by character.
pub fn same_text(a: &str, b: &str) -> (r: bool)
    ensures
        r == (a@ == b@),
{
    let left = chars_of(a);
    let right = chars_of(b);
    if left.len() != right.len() {
        return false;
    }
    let mut i: usize = 0;
    while i < left.len()
        invariant
            left@ == a@,
            right@ == b@,
            left.len() == right.len(),
            i <= left.len(),
            forall|j: int| 0 <= j < i ==> left@[j] == right@[j],
        decreases left.len() - i,
    {
        if left[i] != right[i] {
            assert(a@[i as int] != b@[i as int]);
            return false;
        }
        i += 1;
    }
    assert(left@ =~= right@);
    true
}

/// `s` with every occurrence of `from` replaced by `to`, found from left
/// to right and never overlapping. An empty `from` replaces nothing.
pub open spec fn replaced(s: Seq<char>, from: Seq<char>, to: Seq<char>) -> Seq<char>
    decreases s.len(),
{
    if from.len() > 0 && contains_pattern(s, from) && 0 <= first_occurrence(s, from)
        && first_occurrence(s, from) + from.len() <= s.len() {
        before_first(s, from) + to + replaced(after_first(s, from), from, to)
    } else {
        s
    }
}

/// Replaces every occurrence of `from` in `s` by `to`.
pub fn replace_all(s: &str, from: &str, to: &str) -> (r: String)
    ensures
        r@ == replaced(s@, from@, to@),
{
    let chars = chars_of(s);
    let pattern = chars_of(from);
    let with = chars_of(to);
    if pattern.len() == 0 {
        return s.to_owned();
    }
    let mut out: Vec<char> = Vec::new();
    let mut start: usize = 0;
    assert(chars@.subrange(0, chars@.len() as int) =~= chars@);
    loop
        invariant
            chars@ == s@,
            pattern@ == from@,
            with@ == to@,
            pattern@.len() > 0,
            start <= chars.len(),
            out@ + replaced(chars@.subrange(start as int, chars@.len() as int), pattern@, with@)
                == replaced(chars@, pattern@, with@),
        decreases chars.len() - start,
    {
        let ghost suffix = chars@.subrange(start as int, chars@.len() as int);
        match find_from(&chars, &pattern, start) {
            Some(at) => {
                let next: usize = at + pattern.len();
                proof {
                    let head = chars@.subrange(start as int, at as int);
                    let tail = chars@.subrange(next as int, chars@.len() as int);
                    assert(before_first(suffix, pattern@) =~= head);
                    assert(after_first(suffix, pattern@) =~= tail);
                    assert(out@ + head + with@ + replaced(tail, pattern@, with@) =~= out@ + (head
                        + with@ + replaced(tail, pattern@, with@)));
                }
                out.extend_from_slice(vstd::slice::slice_subrange(chars.as_slice(), start, at));
                out.extend_from_slice(with.as_slice());
                start = next;
            },
            None => {
                out.extend_from_slice(
                    vstd::slice::slice_subrange(chars.as_slice(), start, chars.len()),
                );
                assert(out@.subrange(0, out@.len() as int) =~= out@);
                return text_between(&out, 0, out.len());
            },
        }
    }
}

/// Whether a character is white space: whether it has the Unicode
/// property White_Space, which is these 25 code points.
pub open spec fn unicode_white_space(c: char) -> bool {
    let n = c as u32;
    ||| 0x0009 <= n <= 0x000d
    ||| n == 0x0020
    ||| n == 0x0085
    ||| n == 0x00a0
    ||| n == 0x1680
    ||| 0x2000 <= n <= 0x200a
    ||| 0x2028 <= n <= 0x2029
    ||| n == 0x202f
    ||| n == 0x205f
    ||| n == 0x3000
}

/// Whether a character is white space.
pub fn is_whitespace(c: char) -> (r: bool)
    ensures
        r == unicode_white_space(c),
{
    let n: u32 = c as u32;
    (0x0009 <= n && n <= 0x000d) || n == 0x0020 || n == 0x0085 || n == 0x00a0 || n == 0x1680 || (
    0x2000 <= n && n <= 0x200a) || (0x2028 <= n && n <= 0x2029) || n == 0x202f || n == 0x205f || n
        == 0x3000
}

/// `k` is the length of the run of white space that `s` begins with.
pub open spec fn is_white_space_prefix(s: Seq<char>, k: int) -> bool {
    &&& 0 <= k <= s.len()
    &&& forall|j: int| 0 <= j < k ==> unicode_white_space(#[trigger] s[j])
    &&& k < s.len() ==> !unicode_white_space(s[k])
}

/// `k` is the length of the run of characters other than white space that
/// `s` begins with.
pub open spec fn is_word_prefix(s: Seq<char>, k: int) -> bool {
    &&& 0 <= k <= s.len()
    &&& forall|j: int| 0 <= j < k ==> !unicode_white_space(#[trigger] s[j])
    &&& k < s.len() ==> unicode_white_space(s[k])
}

/// `k` is where the run of white space begins that `s` ends with.
pub open spec fn is_white_space_suffix(s: Seq<char>, k: int) -> bool {
    &&& 0 <= k <= s.len()
    &&& forall|j: int| k <= j < s.len() ==> unicode_white_space(#[trigger] s[j])
    &&& 0 < k ==> !unicode_white_space(s[k - 1])
}

/// The length of the run of white space that `s` begins with.
pub open spec fn white_space_prefix(s: Seq<char>) -> int {
    choose|k: int| is_white_space_prefix(s, k)
}

/// The length of the run of characters other than white space that `s`
/// begins with.
pub open spec fn word_prefix(s: Seq<char>) -> int {
    choose|k: int| is_word_prefix(s, k)
}

/// Where the run of white space begins that `s` ends with.
pub open spec fn white_space_suffix(s: Seq<char>) -> int {
    choose|k: int| is_white_space_suffix(s, k)
}

/// `s` without the white space it begins with.
pub open spec fn trimmed_start(s: Seq<char>) -> Seq<char> {
    s.subrange(white_space_prefix(s), s.len() as int)
}

/// `s` without the white space it ends with.
pub open spec fn trimmed_end(s: Seq<char>) -> Seq<char> {
    s.subrange(0, white_space_suffix(s))
}

/// `s` without the white space at either end.
pub open spec fn trimmed(s: Seq<char>) -> Seq<char> {
    trimmed_end(trimmed_start(s))
}

/// The run of white space at the start of a text has one length only.
pub proof fn lemma_white_space_prefix_unique(s: Seq<char>, k: int)
    requires
        is_white_space_prefix(s, k),
    ensures
        white_space_prefix(s) == k,
{
    let c = white_space_prefix(s);
    assert(is_white_space_prefix(s, c));
    if c < k {
        assert(unicode_white_space(s[c]));
    } else if k < c {
        assert(unicode_white_space(s[k]));
    }
}

/// The first word of a text has one length only.
pub proof fn lemma_word_prefix_unique(s: Seq<char>, k: int)
    requires
        is_word_prefix(s, k),
    ensures
        word_prefix(s) == k,
{
    let c = word_prefix(s);
    assert(is_word_prefix(s, c));
    if c < k {
        assert(!unicode_white_space(s[c]));
    } else if k < c {
        assert(!unicode_white_space(s[k]));
    }
}

/// The run of white space at the end of a text begins at one place only.
pub proof fn lemma_white_space_suffix_unique(s: Seq<char>, k: int)
    requires
        is_white_space_suffix(s, k),
    ensures
        white_space_suffix(s) == k,
{
    let c = white_space_suffix(s);
    assert(is_white_space_suffix(s, c));
    if c < k {
        assert(unicode_white_space(s[k - 1]));
    } else if k < c {
        assert(unicode_white_space(s[c - 1]));
    }
}

/// Removes the white space a text begins with.
pub fn trim_start(s: &str) -> (r: String)
    ensures
        r@ == trimmed_start(s@),
{
    let chars = chars_of(s);
    let mut k: usize = 0;
    while k < chars.len() && is_whitespace(chars[k])
        invariant
            k <= chars.len(),
            forall|j: int| 0 <= j < k ==> unicode_white_space(#[trigger] chars@[j]),
        decreases chars.len() - k,
    {
        k += 1;
    }
    proof {
        lemma_white_space_prefix_unique(chars@, k as int);
    }
    slice_of(s, k, chars.len())
}

/// Removes the white space a text ends with.
pub fn trim_end(s: &str) -> (r: String)
    ensures
        r@ == trimmed_end(s@),
{
    let chars = chars_of(s);
    let mut k: usize = chars.len();
    while k > 0 && is_whitespace(chars[k - 1])
        invariant
            k <= chars.len(),
            forall|j: int| k <= j < chars.len() ==> unicode_white_space(#[trigger] chars@[j]),
        decreases k,
    {
        k -= 1;
    }
    proof {
        lemma_white_space_suffix_unique(chars@, k as int);
    }
    slice_of(s, 0, k)
}

/// Removes the white space at both ends of a text.
pub fn trim(s: &str) -> (r: String)
    ensures
        r@ == trimmed(s@),
{
    let start = trim_start(s);
    trim_end(start.as_str())
}

/// Splits a text at its first white-space character: the word before it,
/// and what follows it. Without white space the whole text is the word,
/// and nothing follows.
pub fn split_word(s: &str) -> (r: (String, Option<String>))
    ensures
        r.0@ == s@.subrange(0, word_prefix(s@)),
        r.1 is Some <==> word_prefix(s@) < s@.len(),
        r.1 matches Some(rest) ==> rest@ == s@.subrange(word_prefix(s@) + 1, s@.len() as int),
{
    let chars = chars_of(s);
    let mut k: usize = 0;
    while k < chars.len() && !is_whitespace(chars[k])
        invariant
            k <= chars.len(),
            forall|j: int| 0 <= j < k ==> !unicode_white_space(#[trigger] chars@[j]),
        decreases chars.len() - k,
    {
        k += 1;
    }
    proof {
        lemma_word_prefix_unique(chars@, k as int);
    }
    if k < chars.len() {
        (slice_of(s, 0, k), Some(slice_of(s, k + 1, chars.len())))
    } else {
        (slice_of(s, 0, k), None)
    }
}

/// Whether `s` begins with `pat`.
pub fn starts_with(s: &str, pat: &str) -> (r: bool)
    ensures
        r == occurs_at(s@, pat@, 0),
{
    let chars = chars_of(s);
    let pattern = chars_of(pat);
    occurs_here(&chars, &pattern, 0)
}

} // verus!
