//! Which stored document a data key addresses.
//!
//! A key is a path into a document. A key whose second to seventh bytes
//! read `nicked` addresses the nickname cache, and what follows those bytes
//! is the path into it; every other key is a path into the data document.

use vstd::prelude::*;
use vstd::string::StringSliceAdditionalSpecFns;
use vstd::utf8::{
    encode_utf8_valid_utf8, is_char_boundary, is_char_boundary_iff_not_is_continuation_byte,
    length_of_first_scalar, pop_first_scalar, valid_utf8,
};

verus! {

/// The two stored documents.
#[derive(Clone, Copy, Debug, PartialEq, Eq, Structural)]
pub enum Store {
    /// The data document.
    Data,
    /// The cache of nicknames.
    NickCache,
}

/// The bytes of the word that marks a key for the nickname cache.
pub open spec fn marker() -> Seq<u8> {
    seq![110u8, 105u8, 99u8, 107u8, 101u8, 100u8]
}

/// Whether the bytes of a key address the nickname cache.
pub open spec fn marked(key: Seq<u8>) -> bool {
    key.len() >= 7 && key.subrange(1, 7) == marker()
}

/// The document that the bytes of a key address.
pub open spec fn store_of(key: Seq<u8>) -> Store {
    if marked(key) {
        Store::NickCache
    } else {
        Store::Data
    }
}

/// The bytes of the path into the document that a key addresses.
pub open spec fn pointer_of(key: Seq<u8>) -> Seq<u8> {
    if marked(key) {
        key.subrange(7, key.len() as int)
    } else {
        key
    }
}

/// In a text, the byte after a one-byte character begins a character or
/// ends the text.
proof fn lemma_boundary_after_ascii(bytes: Seq<u8>, i: int)
    requires
        valid_utf8(bytes),
        0 <= i < bytes.len(),
        is_char_boundary(bytes, i),
        bytes[i] < 0x80,
    ensures
        is_char_boundary(bytes, i + 1),
    decreases bytes.len(),
{
    reveal_with_fuel(is_char_boundary, 2);
    reveal_with_fuel(valid_utf8, 2);
    let rest = pop_first_scalar(bytes);
    let first = length_of_first_scalar(bytes);
    if i == 0 {
        assert(first == 1);
    } else {
        assert(is_char_boundary(rest, i - first));
        if i - first < 0 {
            assert(false);
        }
        assert(rest[i - first] == bytes[i]);
        lemma_boundary_after_ascii(rest, i - first);
    }
}

/// Splits a data key into the document it addresses and the path into that
/// document.
pub fn route(key: &str) -> (out: (Store, &str))
    ensures
        out.0 == store_of(key.spec_bytes()),
        out.1.spec_bytes() == pointer_of(key.spec_bytes()),
        out.0 == Store::Data ==> out.1@ == key@,
{
    let bytes = key.as_bytes();
    if bytes.len() < 7 {
        return (Store::Data, key);
    }
    let is_marked = bytes[1] == 110 && bytes[2] == 105 && bytes[3] == 99 && bytes[4] == 107
        && bytes[5] == 101 && bytes[6] == 100;
    proof {
        let word = bytes@.subrange(1, 7);
        if is_marked {
            assert(word =~= marker());
        } else {
            assert(word[0] == bytes@[1] && word[1] == bytes@[2] && word[2] == bytes@[3] && word[3]
                == bytes@[4] && word[4] == bytes@[5] && word[5] == bytes@[6]);
        }
    }
    if !is_marked {
        return (Store::Data, key);
    }
    proof {
        encode_utf8_valid_utf8(key@);
        is_char_boundary_iff_not_is_continuation_byte(bytes@, 6);
        lemma_boundary_after_ascii(bytes@, 6);
    }
    let (_, pointer) = key.split_at(7);
    (Store::NickCache, pointer)
}

} // verus!
