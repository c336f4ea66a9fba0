//! Case-insensitive text matching used by entry search.

use vstd::prelude::*;
use crate::text::str_chars;

verus! {

/// What `str::to_lowercase` returns for a given character sequence; the
/// result depends on the characters alone.
pub uninterp spec fn lower_of(s: Seq<char>) -> Seq<char>;

/// Relies on `str::to_lowercase`: the lower-case form of the text, a
/// function of the characters alone.  An empty string stays empty.
#[verifier::external_body]
pub fn to_lowercase(s: &str) -> (r: String)
    ensures
        r@ == lower_of(s@),
        s@.len() == 0 ==> r@.len() == 0,
{
    s.to_lowercase()
}

/// Whether `needle` occurs contiguously inside `haystack` at position `i`.
pub open spec fn occurs_at(haystack: Seq<char>, needle: Seq<char>, i: int) -> bool {
    0 <= i && i + needle.len() <= haystack.len() && haystack.subrange(i, i + needle.len())
        == needle
}

/// Whether `needle` occurs contiguously anywhere inside `haystack`.
pub open spec fn contains_seq(haystack: Seq<char>, needle: Seq<char>) -> bool {
    exists|i: int| occurs_at(haystack, needle, i)
}

/// Whether `needle` is the prefix of `haystack`.
pub open spec fn prefix_of(haystack: Seq<char>, needle: Seq<char>) -> bool {
    needle.len() <= haystack.len() && haystack.take(needle.len() as int) == needle
}

/// Whether the characters of `h` starting at `i` equal `n`.
fn chars_eq_at(h: &Vec<char>, n: &Vec<char>, i: usize) -> (r: bool)
    requires
        i + n@.len() <= h@.len(),
    ensures
        r == (h@.subrange(i as int, i + n@.len()) == n@),
{
    let hl = h.len();
    proof {
        assert(hl == h@.len());
    }
    let mut j: usize = 0;
    while j < n.len()
        invariant
            i + n@.len() <= h@.len(),
            h@.len() <= usize::MAX,
            j <= n@.len(),
            forall|k: int| 0 <= k < j ==> h@[i + k] == n@[k],
        decreases n@.len() - j,
    {
        if h[i + j] != n[j] {
            proof {
                assert(h@.subrange(i as int, i + n@.len())[j as int] != n@[j as int]);
            }
            return false;
        }
        j = j + 1;
    }
    proof {
        assert(h@.subrange(i as int, i + n@.len()) =~= n@);
    }
    true
}

/// Whether `n` occurs contiguously anywhere inside `h`.
pub fn contains_chars(h: &Vec<char>, n: &Vec<char>) -> (r: bool)
    ensures
        r == contains_seq(h@, n@),
{
    if n.len() > h.len() {
        proof {
            assert(forall|i: int| !occurs_at(h@, n@, i));
        }
        return false;
    }
    if n.len() == 0 {
        proof {
            assert(h@.subrange(0, 0) =~= n@);
            assert(occurs_at(h@, n@, 0));
        }
        return true;
    }
    let last_start = h.len() - n.len();
    let mut i: usize = 0;
    while i <= last_start
        invariant
            1 <= n@.len() <= h@.len(),
            h@.len() <= usize::MAX,
            last_start == h@.len() - n@.len(),
            i <= last_start + 1,
            forall|k: int| 0 <= k < i ==> !occurs_at(h@, n@, k),
        decreases last_start + 1 - i,
    {
        if chars_eq_at(h, n, i) {
            proof {
                assert(occurs_at(h@, n@, i as int));
            }
            return true;
        }
        i = i + 1;
    }
    proof {
        assert(forall|k: int| occurs_at(h@, n@, k) ==> 0 <= k <= last_start);
    }
    false
}

/// Whether the lower-case form of `needle` occurs inside the lower-case
/// form of `haystack`.
pub fn contains_ci(haystack: &str, needle: &str) -> (r: bool)
    ensures
        r == contains_seq(lower_of(haystack@), lower_of(needle@)),
{
    let h = to_lowercase(haystack);
    let n = to_lowercase(needle);
    let hv = str_chars(h.as_str());
    let nv = str_chars(n.as_str());
    contains_chars(&hv, &nv)
}

/// Whether `n` is a prefix of `h`.
pub fn prefix_chars(h: &Vec<char>, n: &Vec<char>) -> (r: bool)
    ensures
        r == prefix_of(h@, n@),
{
    if n.len() > h.len() {
        return false;
    }
    let r = chars_eq_at(h, n, 0);
    proof {
        assert(h@.subrange(0, n@.len() as int) == h@.take(n@.len() as int));
    }
    r
}

} // verus!
