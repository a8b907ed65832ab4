//! Comparing texts byte by byte.

use vstd::prelude::*;
use vstd::string::StringSliceAdditionalSpecFns;
use vstd::utf8::{encode_utf8, encode_utf8_decode_utf8};

verus! {

/// Texts with the same bytes are the same text.
pub proof fn lemma_bytes_determine_text(a: Seq<char>, b: Seq<char>)
    ensures
        encode_utf8(a) == encode_utf8(b) <==> a == b,
{
    encode_utf8_decode_utf8(a);
    encode_utf8_decode_utf8(b);
}

/// The bytes of two texts joined are the bytes of the first followed by the
/// bytes of the second.
pub proof fn lemma_bytes_of_joined(a: Seq<char>, b: Seq<char>)
    ensures
        encode_utf8(a + b) == encode_utf8(a) + encode_utf8(b),
    decreases a.len(),
{
    if a.len() == 0 {
        assert(a + b =~= b);
        assert(encode_utf8(a) + encode_utf8(b) =~= encode_utf8(b));
    } else {
        assert((a + b).drop_first() =~= a.drop_first() + b);
        lemma_bytes_of_joined(a.drop_first(), b);
        assert(encode_utf8(a + b) =~= encode_utf8(a) + encode_utf8(b));
    }
}

/// Whether the bytes of `whole` from `start` on begin with `part`.
fn bytes_match(whole: &[u8], start: usize, part: &[u8]) -> (same: bool)
    requires
        start + part@.len() <= whole@.len(),
    ensures
        same == (whole@.subrange(start as int, start + part@.len()) == part@),
{
    let n: usize = part.len();
    let total: usize = whole.len();
    let mut i: usize = 0;
    while i < n
        invariant
            i <= n,
            n == part@.len(),
            total == whole@.len(),
            start + n <= total,
            forall|j: int| 0 <= j < i ==> whole@[start + j] == part@[j],
        decreases n - i,
    {
        if whole[start + i] != part[i] {
            assert(whole@.subrange(start as int, start + n)[i as int] != part@[i as int]);
            return false;
        }
        i += 1;
    }
    assert(whole@.subrange(start as int, start + n) =~= part@);
    true
}

/// Whether two texts hold the same characters.
pub fn same_text(a: &str, b: &str) -> (same: bool)
    ensures
        same == (a@ == b@),
{
    let x = a.as_bytes();
    let y = b.as_bytes();
    proof {
        lemma_bytes_determine_text(a@, b@);
    }
    if x.len() != y.len() {
        return false;
    }
    assert(x@.subrange(0, x@.len() as int) =~= x@);
    bytes_match(x, 0, y)
}

/// Whether `whole` is `first` followed by `second`.
pub fn is_joined(whole: &str, first: &str, second: &str) -> (joined: bool)
    ensures
        joined == (whole@ == first@ + second@),
{
    let w = whole.as_bytes();
    let f = first.as_bytes();
    let s = second.as_bytes();
    proof {
        lemma_bytes_of_joined(first@, second@);
        lemma_bytes_determine_text(whole@, first@ + second@);
    }
    if w.len() < f.len() || w.len() - f.len() != s.len() {
        return false;
    }
    let head = bytes_match(w, 0, f);
    let tail = bytes_match(w, f.len(), s);
    proof {
        let cut = f@.len() as int;
        if head && tail {
            assert(w@ =~= w@.subrange(0, cut) + w@.subrange(cut, w@.len() as int));
        }
        if w@ == f@ + s@ {
            assert(w@.subrange(0, cut) =~= f@);
            assert(w@.subrange(cut, cut + s@.len()) =~= s@);
        }
    }
    head && tail
}

} // verus!
