//! The framing of the status message that the game server sends.
//!
//! The message opens with a length of four bytes, most significant byte
//! first. The text follows, two bytes for each unit of the announced length,
//! and at least four more bytes end the message.

use vstd::prelude::*;
use vstd::slice::slice_subrange;
use vstd::utf8::{decode_utf8, valid_utf8};

verus! {

/// Why a status message could not be read.
#[derive(Clone, Copy, Debug, PartialEq, Eq, Structural)]
pub enum OsmError {
    /// The message is shorter than it announces, or announces no text.
    InvalidResponse,
    /// The text of the message is not UTF-8.
    NotText,
}

/// The length that a message announces in its first four bytes.
pub open spec fn announced(message: Seq<u8>) -> nat {
    (message[0] as nat) * 0x100_0000 + (message[1] as nat) * 0x1_0000 + (message[2] as nat) * 0x100
        + (message[3] as nat)
}

/// The bytes of the text that a message carries, if the message is whole:
/// it has to announce a length other than zero and to hold twice that many
/// bytes and eight more.
pub open spec fn payload(message: Seq<u8>) -> Option<Seq<u8>> {
    if message.len() >= 4 && announced(message) != 0 && message.len() >= announced(message) * 2
        + 8 {
        Some(message.subrange(4, 4 + announced(message) * 2 as int))
    } else {
        None
    }
}

/// A text without one of its characters.
pub open spec fn without(text: Seq<char>, gap: char) -> Seq<char> {
    text.filter(|c: char| c != gap)
}

/// The text that a message carries, with its spaces taken out.
pub open spec fn text_of(message: Seq<u8>) -> Result<Seq<char>, OsmError> {
    match payload(message) {
        None => Err(OsmError::InvalidResponse),
        Some(bytes) => if valid_utf8(bytes) {
            Ok(without(decode_utf8(bytes), ' '))
        } else {
            Err(OsmError::NotText)
        },
    }
}

/// Calls `std::str::from_utf8`, which accepts exactly the byte sequences
/// that are UTF-8 and hands them back as text.
#[verifier::external_body]
fn read_utf8(bytes: &[u8]) -> (text: Option<&str>)
    ensures
        text is Some <==> valid_utf8(bytes@),
        text is Some ==> text.unwrap()@ == decode_utf8(bytes@),
{
    std::str::from_utf8(bytes).ok()
}

/// Calls `str::replace` with a pattern of one character and an empty
/// replacement, which takes every occurrence of the character out.
#[verifier::external_body]
fn take_out(text: &str, gap: &str, nothing: &str) -> (out: String)
    requires
        gap@.len() == 1,
        nothing@.len() == 0,
    ensures
        out@ == without(text@, gap@[0]),
{
    text.replace(gap, nothing)
}

/// The bytes of the text that a message carries.
pub fn message_payload(message: &[u8]) -> (out: Option<&[u8]>)
    ensures
        match payload(message@) {
            Some(bytes) => out is Some && out.unwrap()@ == bytes,
            None => out is None,
        },
{
    let len: usize = message.len();
    if len < 4 {
        return None;
    }
    let count: u64 = (message[0] as u64) * 0x100_0000 + (message[1] as u64) * 0x1_0000 + (
    message[2] as u64) * 0x100 + (message[3] as u64);
    if count == 0 || (len as u64) < count * 2 + 8 {
        return None;
    }
    let end: usize = 4 + (count * 2) as usize;
    Some(slice_subrange(message, 4, end))
}

/// The text that a message carries, with its spaces taken out.
pub fn message_text(message: &[u8]) -> (out: Result<String, OsmError>)
    ensures
        match text_of(message@) {
            Ok(text) => out is Ok && out.unwrap()@ == text,
            Err(e) => out is Err && out->Err_0 == e,
        },
{
    let bytes = match message_payload(message) {
        Some(bytes) => bytes,
        None => {
            return Err(OsmError::InvalidResponse);
        },
    };
    match read_utf8(bytes) {
        Some(text) => {
            proof {
                reveal_strlit(" ");
                reveal_strlit("");
            }
            Ok(take_out(text, " ", ""))
        },
        None => Err(OsmError::NotText),
    }
}

} // verus!
