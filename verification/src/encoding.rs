//! Digests, base64 and hexadecimal text.
use base64::engine::general_purpose::STANDARD;
use base64::Engine;
use sha2::{Digest, Sha256};
use subtle::ConstantTimeEq;
use vstd::prelude::*;

use crate::text;

verus! {

/// The SHA-256 digest of a message.
pub uninterp spec fn sha256(message: Seq<u8>) -> Seq<u8>;

/// Calls `sha2::Sha256::digest`. Claimed: the digest is a function of the message.
#[verifier::external_body]
pub(crate) fn sha256_digest(message: &[u8]) -> (r: [u8; 32])
    ensures
        r@ == sha256(message@),
{
    Sha256::digest(message).into()
}

/// Calls `subtle::ConstantTimeEq::ct_eq` on two digests. Claimed: it tells
/// whether they are equal. That it takes the same time either way is not stated.
#[verifier::external_body]
pub(crate) fn digests_equal(a: &[u8; 32], b: &[u8; 32]) -> (r: bool)
    ensures
        r == (a@ == b@),
{
    bool::from(a.ct_eq(b))
}

/// The padded base64 text of a byte string, in the standard alphabet.
pub uninterp spec fn base64_text(bytes: Seq<u8>) -> Seq<char>;

/// What the strict standard decoder reads from a text.
pub uninterp spec fn base64_bytes(text: Seq<char>) -> Option<Seq<u8>>;

/// The length in bytes of the base64 text of so many bytes.
pub open spec fn base64_len(bytes: int) -> int {
    (bytes + 2) / 3 * 4
}

proof fn base64_len_is_monotonic(a: int, b: int)
    requires
        0 <= a <= b,
    ensures
        base64_len(a) <= base64_len(b),
{
}

/// Calls `Engine::encode` of `base64::engine::general_purpose::STANDARD`.
/// Claimed: the text is a function of the bytes, it has four bytes for each
/// three or part of three, and the same engine decodes it to the bytes. The
/// bound is that of an allocation.
#[verifier::external_body]
pub(crate) fn encode_base64(bytes: &[u8]) -> (r: String)
    requires
        base64_len(bytes@.len() as int) <= isize::MAX,
    ensures
        r@ == base64_text(bytes@),
        text::utf8(r@).len() == base64_len(bytes@.len() as int),
        base64_bytes(r@) == Some(bytes@),
{
    STANDARD.encode(bytes)
}

/// The bytes behind an optional vector.
pub open spec fn optional_bytes(bytes: Option<Vec<u8>>) -> Option<Seq<u8>> {
    match bytes {
        Some(bytes) => Some(bytes@),
        None => None,
    }
}

/// Calls `Engine::decode` of `base64::engine::general_purpose::STANDARD`.
/// Claimed: the result is a function of the text, and the text of a byte
/// string is decoded to it.
#[verifier::external_body]
pub(crate) fn decode_base64(text: &str) -> (r: Option<Vec<u8>>)
    ensures
        optional_bytes(r) == base64_bytes(text@),
        forall|bytes: Seq<u8>| text@ == #[trigger] base64_text(bytes) ==> optional_bytes(r) == Some(
            bytes,
        ),
{
    STANDARD.decode(text).ok()
}

/// The canonical base64 text of some byte string of at most `maximum` bytes.
pub open spec fn is_canonical_base64(text: Seq<char>, maximum: int) -> bool {
    &&& text::utf8(text).len() <= base64_len(maximum)
    &&& exists|bytes: Seq<u8>| bytes.len() <= maximum && text == #[trigger] base64_text(bytes)
}

/// Why a text is not the canonical base64 of a byte string within bounds.
#[derive(Clone, Copy, Debug, PartialEq, Eq, Structural)]
pub enum Base64Fault {
    /// Longer than the text of the longest byte string allowed.
    TooLong,
    /// Not base64.
    Undecodable,
    /// The byte string is too long, or has another canonical text.
    NotCanonical,
}

/// The verdict on a text, given what it decoded to and how that encodes again.
pub fn judge_base64(
    text: &str,
    maximum: usize,
    decoded: Option<Vec<u8>>,
    encoded: &str,
) -> (r: Result<Vec<u8>, Base64Fault>)
    requires
        base64_len(maximum as int) <= isize::MAX,
    ensures
        match r {
            Err(Base64Fault::TooLong) => text::utf8(text@).len() > base64_len(maximum as int),
            Err(Base64Fault::Undecodable) => text::utf8(text@).len() <= base64_len(maximum as int)
                && decoded is None,
            Err(Base64Fault::NotCanonical) => {
                &&& text::utf8(text@).len() <= base64_len(maximum as int)
                &&& decoded matches Some(bytes) && (bytes@.len() > maximum || encoded@ != text@)
            },
            Ok(bytes) => {
                &&& text::utf8(text@).len() <= base64_len(maximum as int)
                &&& decoded == Some(bytes)
                &&& bytes@.len() <= maximum
                &&& encoded@ == text@
            },
        },
{
    if text::byte_len(text) > (maximum + 2) / 3 * 4 {
        return Err(Base64Fault::TooLong);
    }
    match decoded {
        None => Err(Base64Fault::Undecodable),
        Some(bytes) => if bytes.len() > maximum || !text::text_equal(encoded, text) {
            Err(Base64Fault::NotCanonical)
        } else {
            Ok(bytes)
        },
    }
}

/// The byte string of at most `maximum` bytes whose canonical base64 text is given.
pub fn canonical_base64(text: &str, maximum: usize) -> (r: Result<Vec<u8>, Base64Fault>)
    requires
        base64_len(maximum as int) <= isize::MAX,
    ensures
        r is Ok <==> is_canonical_base64(text@, maximum as int),
        r matches Ok(bytes) ==> bytes@.len() <= maximum && text@ == base64_text(bytes@),
        r == Err::<Vec<u8>, Base64Fault>(Base64Fault::TooLong) <==> text::utf8(text@).len()
            > base64_len(maximum as int),
        r == Err::<Vec<u8>, Base64Fault>(Base64Fault::Undecodable) <==> text::utf8(text@).len()
            <= base64_len(maximum as int) && base64_bytes(text@) is None,
{
    if text::byte_len(text) > (maximum + 2) / 3 * 4 {
        return Err(Base64Fault::TooLong);
    }
    let decoded = decode_base64(text);
    match decoded {
        None => judge_base64(text, maximum, None, ""),
        Some(bytes) => {
            if bytes.len() > maximum {
                return judge_base64(text, maximum, Some(bytes), "");
            }
            proof {
                base64_len_is_monotonic(bytes@.len() as int, maximum as int);
            }
            let encoded = encode_base64(bytes.as_slice());
            judge_base64(text, maximum, Some(bytes), encoded.as_str())
        },
    }
}

/// Each three bytes take four characters, a part of three takes as many as three,
/// and no bytes take none.
pub proof fn three_bytes_take_four_characters(bytes: int, more: int)
    requires
        0 <= bytes,
        0 < more <= 3,
    ensures
        base64_len(0) == 0,
        base64_len(3 * bytes) == 4 * bytes,
        base64_len(3 * bytes + more) == 4 * bytes + 4,
{
}

/// A text that is canonical within a bound is so within every greater one, and it
/// is the text of some byte string within the bound.
pub proof fn canonical_texts_are_of_bounded_bytes(text: Seq<char>, maximum: int, greater: int)
    requires
        is_canonical_base64(text, maximum),
        0 <= maximum <= greater,
    ensures
        is_canonical_base64(text, greater),
        exists|bytes: Seq<u8>| text == #[trigger] base64_text(bytes) && bytes.len() < maximum + 1,
        text::utf8(text).len() < base64_len(maximum) + 1,
{
    base64_len_is_monotonic(maximum, greater);
    let bytes = choose|bytes: Seq<u8>|
        bytes.len() <= maximum && text == #[trigger] base64_text(bytes);
    assert(bytes.len() <= greater);
}

/// The text of bytes within the bound is canonical, if it is no longer than such
/// texts are.
pub proof fn texts_of_bounded_bytes_are_canonical(bytes: Seq<u8>, maximum: int)
    requires
        bytes.len() <= maximum,
        text::utf8(base64_text(bytes)).len() <= base64_len(bytes.len() as int),
    ensures
        is_canonical_base64(base64_text(bytes), maximum),
{
    base64_len_is_monotonic(bytes.len() as int, maximum);
}

} // verus!
