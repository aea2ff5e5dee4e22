//! Searching and slicing raw data, modelled as sequences of bytes.

use vstd::prelude::*;
use vstd::slice::{slice_subrange, slice_to_vec};
use vstd::utf8::{decode_utf8, valid_utf8};
use crate::text::{
    after_first, before_first, contains_pattern, first_occurrence, is_first_occurrence,
    lemma_first_occurrence_unique, occurs_at,
};

verus! {

/// The text that `String::from_utf8_lossy` gives for a run of bytes.
pub uninterp spec fn utf8_lossy(bytes: Seq<u8>) -> Seq<char>;

/// Calls `String::from_utf8_lossy`, which decodes UTF-8 and puts U+FFFD in
/// the place of what is not UTF-8. For bytes that are UTF-8 throughout the
/// result is the text they encode.
#[verifier::external_body]
fn from_utf8_lossy(bytes: &[u8]) -> (text: String)
    ensures
        text@ == utf8_lossy(bytes@),
        valid_utf8(bytes@) ==> text@ == decode_utf8(bytes@),
{
    String::from_utf8_lossy(bytes).into_owned()
}

/// Reads bytes as text: what is UTF-8 is decoded, and what is not is
/// replaced character by character.
pub fn decode_text(bytes: &[u8]) -> (text: String)
    ensures
        text@ == utf8_lossy(bytes@),
        valid_utf8(bytes@) ==> text@ == decode_utf8(bytes@),
{
    from_utf8_lossy(bytes)
}

/// Whether `pat` occurs in `s` at index `i`.
pub fn occurs_here(s: &[u8], pat: &[u8], i: usize) -> (r: bool)
    ensures
        r == occurs_at(s@, pat@, i as int),
{
    if pat.len() > s.len() || i > s.len() - pat.len() {
        return false;
    }
    let mut k: usize = 0;
    while k < pat.len()
        invariant
            k <= pat.len(),
            i + pat.len() <= s.len(),
            forall|j: int| 0 <= j < k ==> s@[i + j] == pat@[j],
        decreases pat.len() - k,
    {
        if s[i + k] != pat[k] {
            proof {
                let sub = s@.subrange(i as int, i + pat.len());
                assert(sub[k as int] == s@[i + k]);
            }
            return false;
        }
        k += 1;
    }
    assert(s@.subrange(i as int, i + pat.len()) =~= pat@);
    true
}

/// The leftmost index at which `pat` occurs in `s`, if it occurs at all.
pub fn find_first(s: &[u8], pat: &[u8]) -> (r: Option<usize>)
    ensures
        r is Some <==> contains_pattern(s@, pat@),
        r matches Some(i) ==> is_first_occurrence(s@, pat@, i as int) && i as int
            == first_occurrence(s@, pat@) && i + pat@.len() <= s@.len(),
{
    if pat.len() > s.len() {
        return None;
    }
    let last: usize = s.len() - pat.len();
    let mut i: usize = 0;
    loop
        invariant
            last == s.len() - pat.len(),
            i <= last,
            forall|j: int| 0 <= j < i ==> !occurs_at(s@, pat@, j),
        decreases last - i,
    {
        if occurs_here(s, pat, i) {
            proof {
                lemma_first_occurrence_unique(s@, pat@, i as int);
            }
            return Some(i);
        }
        if i == last {
            return None;
        }
        i += 1;
    }
}

/// Splits `s` around the leftmost occurrence of `pat`: what stands before
/// it and what stands after it. `None` where `pat` does not occur.
pub fn split_first<'a>(s: &'a [u8], pat: &[u8]) -> (r: Option<(&'a [u8], &'a [u8])>)
    ensures
        r is Some <==> contains_pattern(s@, pat@),
        r matches Some((head, tail)) ==> head@ == before_first(s@, pat@) && tail@ == after_first(
            s@,
            pat@,
        ),
{
    match find_first(s, pat) {
        Some(at) => {
            assert(at + pat.len() <= s.len());
            Some((slice_subrange(s, 0, at), slice_subrange(s, at + pat.len(), s.len())))
        },
        None => None,
    }
}

/// A copy of the bytes.
pub fn to_owned_bytes(s: &[u8]) -> (r: Vec<u8>)
    ensures
        r@ == s@,
{
    slice_to_vec(s)
}

} // verus!
