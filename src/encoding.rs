//! Text encodings of on-chain identifiers.
use vstd::prelude::*;

verus! {

/// The Base58 text (Bitcoin alphabet) of a byte string.
pub uninterp spec fn base58_of(bytes: Seq<u8>) -> Seq<char>;

/// Relies on `bs58::encode(..).into_string()`: the Base58 text of the bytes,
/// which depends on the bytes alone; no bytes give the empty text.
#[verifier::external_body]
pub(crate) fn encode_base58(bytes: &Vec<u8>) -> (r: String)
    ensures
        r@ == base58_of(bytes@),
        bytes@.len() == 0 ==> r@.len() == 0,
{
    bs58::encode(bytes).into_string()
}

/// The bytes that a Base58 text (Bitcoin alphabet) stands for; none when
/// the text holds a character outside the alphabet.
pub uninterp spec fn base58_decoded(text: Seq<char>) -> Option<Seq<u8>>;

/// Relies on `bs58::decode(..).into_vec()`: the bytes of a Base58 text, or an
/// error for a text that is not Base58; the outcome depends on the text alone.
#[verifier::external_body]
pub(crate) fn decode_base58(text: &String) -> (r: Option<Vec<u8>>)
    ensures
        match r {
            Some(bytes) => base58_decoded(text@) == Some(bytes@),
            None => base58_decoded(text@) is None,
        },
{
    bs58::decode(text).into_vec().ok()
}

} // verus!
