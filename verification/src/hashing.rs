//! Content hashing: a SHA-256 digest of a text form, rendered as a hex
//! string in which each byte is formatted without zero-padding (a byte
//! below 16 yields a single digit). The rendering rule is deliberate: the
//! proof-of-work difficulty check slices this exact string.

use crate::numerals::digit_char;
use vstd::prelude::*;

verus! {

/// The SHA-256 digest of the UTF-8 encoding of a character sequence.
pub uninterp spec fn sha256_of(s: Seq<char>) -> Seq<u8>;

/// Relies on sha2::Sha256 (the Digest trait): the digest of the UTF-8
/// bytes of the input, always 32 bytes, a function of the input characters
/// alone.
#[verifier::external_body]
pub(crate) fn sha256(input: &str) -> (r: Vec<u8>)
    ensures
        r@ == sha256_of(input@),
        r@.len() == 32,
{
    <sha2::Sha256 as sha2::Digest>::digest(input.as_bytes()).to_vec()
}

/// The unpadded hex rendering of one byte: one digit below 16, two digits
/// otherwise.
pub open spec fn hex_byte(b: u8) -> Seq<char> {
    if b < 16 {
        seq![digit_char(b as nat)]
    } else {
        seq![digit_char((b / 16) as nat), digit_char((b % 16) as nat)]
    }
}

/// The unpadded hex rendering of a byte sequence, byte by byte.
pub open spec fn hex_nopad(bytes: Seq<u8>) -> Seq<char>
    decreases bytes.len(),
{
    if bytes.len() == 0 {
        Seq::empty()
    } else {
        hex_byte(bytes[0]) + hex_nopad(bytes.drop_first())
    }
}

/// The hash string of a text: its SHA-256 digest under the unpadded hex
/// rendering.
pub open spec fn hash_text(s: Seq<char>) -> Seq<char> {
    hex_nopad(sha256_of(s))
}

/// Appending one byte appends its rendering.
pub proof fn lemma_hex_nopad_push(bytes: Seq<u8>, b: u8)
    ensures
        hex_nopad(bytes.push(b)) == hex_nopad(bytes) + hex_byte(b),
    decreases bytes.len(),
{
    let p = bytes.push(b);
    if bytes.len() == 0 {
        assert(p.drop_first() =~= Seq::<u8>::empty());
        assert(hex_nopad(p.drop_first()) =~= Seq::<char>::empty());
        assert(hex_nopad(p) =~= hex_nopad(bytes) + hex_byte(b));
    } else {
        assert(p.drop_first() =~= bytes.drop_first().push(b));
        lemma_hex_nopad_push(bytes.drop_first(), b);
        assert(hex_nopad(p) =~= hex_nopad(bytes) + hex_byte(b));
    }
}

} // verus!
