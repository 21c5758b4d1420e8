//! Literal substring containment, and the lowercase mapping used by
//! case-insensitive matching.

use vstd::prelude::*;

verus! {

/// `needle` occurs as a contiguous subsequence of `hay`.  The empty needle
/// occurs in every sequence.
pub open spec fn contains_seq(needle: Seq<char>, hay: Seq<char>) -> bool {
    exists|i: int|
        0 <= i && i + needle.len() <= hay.len() && #[trigger] hay.subrange(i, i + needle.len())
            == needle
}

/// An empty needle is contained in every haystack.
pub proof fn lemma_empty_contained(needle: Seq<char>, hay: Seq<char>)
    requires
        needle.len() == 0,
    ensures
        contains_seq(needle, hay),
{
    assert(hay.subrange(0, 0 + needle.len() as int) =~= needle);
}

/// The sequence of characters that Unicode lowercasing yields for `s`; it is
/// a function of the characters of `s` alone.
pub uninterp spec fn lower_of(s: Seq<char>) -> Seq<char>;

/// Relies on `str::to_lowercase`: the Unicode lowercase form of a string,
/// determined by its characters alone.
#[verifier::external_body]
pub(crate) fn to_lowercase(s: &str) -> (r: String)
    ensures
        r@ == lower_of(s@),
{
    s.to_lowercase()
}

/// Whether `needle` matches `hay` at position `i` exactly.
fn matches_at(hay: &str, needle: &str, i: usize, hay_len: usize, needle_len: usize) -> (r: bool)
    requires
        hay_len == hay@.len(),
        needle_len == needle@.len(),
        i + needle_len <= hay_len,
    ensures
        r == (hay@.subrange(i as int, i + needle@.len()) == needle@),
{
    let mut j: usize = 0;
    while j < needle_len
        invariant
            hay_len == hay@.len(),
            needle_len == needle@.len(),
            i + needle_len <= hay_len,
            j <= needle_len,
            forall|k: int| 0 <= k < j ==> hay@[i + k] == needle@[k],
        decreases needle_len - j,
    {
        if hay.get_char(i + j) != needle.get_char(j) {
            proof {
                assert(hay@.subrange(i as int, i + needle@.len())[j as int] == hay@[i + j]);
            }
            return false;
        }
        j += 1;
    }
    proof {
        assert(hay@.subrange(i as int, i + needle@.len()) =~= needle@);
    }
    true
}

/// Whether `needle` occurs as a contiguous substring anywhere in `hay`
/// (character-literal match, no normalization).
pub fn str_contains(hay: &str, needle: &str) -> (r: bool)
    ensures
        r == contains_seq(needle@, hay@),
{
    let needle_len = needle.unicode_len();
    let hay_len = hay.unicode_len();
    if needle_len == 0 {
        proof {
            lemma_empty_contained(needle@, hay@);
        }
        return true;
    }
    if needle_len > hay_len {
        return false;
    }
    let last_start = hay_len - needle_len;
    let mut i: usize = 0;
    while i <= last_start
        invariant
            needle_len == needle@.len(),
            hay_len == hay@.len(),
            1 <= needle_len <= hay_len,
            last_start == hay_len - needle_len,
            i <= last_start + 1,
            forall|k: int|
                0 <= k < i ==> #[trigger] hay@.subrange(k, k + needle@.len()) != needle@,
        decreases last_start + 1 - i,
    {
        if matches_at(hay, needle, i, hay_len, needle_len) {
            proof {
                assert(hay@.subrange(i as int, i + needle@.len()) == needle@);
            }
            return true;
        }
        i += 1;
    }
    false
}

} // verus!
