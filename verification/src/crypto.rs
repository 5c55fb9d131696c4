//! Outside cryptography: hexadecimal text, SHA-256, X25519 and random bytes.
//!
//! The functions of other crates are called here and nowhere else. Each says in
//! its contract what is relied on.

use crate::net::hex_digit;
use vstd::prelude::*;

verus! {

/// The small hexadecimal digit for a number below 16.
pub open spec fn hex_char(n: nat) -> char {
    if n < 10 {
        ('0' as u32 + n) as char
    } else {
        ('a' as u32 + n - 10) as char
    }
}

/// The text of two small hexadecimal digits for each byte.
pub open spec fn hex_text(bytes: Seq<u8>) -> Seq<char> {
    Seq::new(
        2 * bytes.len(),
        |i: int|
            if i % 2 == 0 {
                hex_char((bytes[i / 2] / 16) as nat)
            } else {
                hex_char((bytes[i / 2] % 16) as nat)
            },
    )
}

/// The bytes that a text of hexadecimal digits stands for, two digits a byte, in
/// either case.
pub open spec fn hex_bytes(text: Seq<char>) -> Option<Seq<u8>> {
    if text.len() % 2 == 0 && (forall|i: int|
        0 <= i < text.len() ==> hex_digit(#[trigger] text[i]) is Some) {
        Some(
            Seq::new(
                text.len() / 2,
                |i: int| (16 * hex_digit(text[2 * i])->0 + hex_digit(text[2 * i + 1])->0) as u8,
            ),
        )
    } else {
        None
    }
}

/// Reading the hexadecimal text of bytes gives the bytes back.
pub proof fn hex_text_reads_back(bytes: Seq<u8>)
    ensures
        hex_bytes(hex_text(bytes)) == Some(bytes),
{
    let text = hex_text(bytes);
    assert forall|n: nat| n < 16 implies hex_digit(#[trigger] hex_char(n)) == Some(n) by {}
    assert forall|i: int| 0 <= i < text.len() implies hex_digit(#[trigger] text[i]) is Some by {
        let b = bytes[i / 2];
        assert(b / 16 < 16 && b % 16 < 16);
    }
    let back = hex_bytes(text)->0;
    assert forall|i: int| 0 <= i < bytes.len() implies back[i] == bytes[i] by {
        let b = bytes[i];
        assert((2 * i) / 2 == i && (2 * i + 1) / 2 == i && (2 * i) % 2 == 0 && (2 * i + 1) % 2
            == 1);
        assert(text[2 * i] == hex_char((b / 16) as nat));
        assert(text[2 * i + 1] == hex_char((b % 16) as nat));
        assert(16 * (b / 16) + b % 16 == b);
    }
    assert(back =~= bytes);
}

/// `hex::encode`: two small hexadecimal digits for each byte, in order.
#[verifier::external_body]
pub(crate) fn hex_encode(bytes: &[u8]) -> (r: String)
    ensures
        r@ == hex_text(bytes@),
{
    hex::encode(bytes)
}

/// `hex::decode`: the bytes that the text stands for, nothing if a character is
/// no hexadecimal digit or their number is odd.
#[verifier::external_body]
pub(crate) fn hex_decode(text: &str) -> (r: Option<Vec<u8>>)
    ensures
        match r {
            Some(bytes) => hex_bytes(text@) == Some(bytes@),
            None => hex_bytes(text@) is None,
        },
{
    hex::decode(text).ok()
}

/// The SHA-256 digest of a byte string.
pub uninterp spec fn sha256(bytes: Seq<u8>) -> Seq<u8>;

/// `sha2::Sha256::digest`: 32 bytes that depend on the input alone.
#[verifier::external_body]
pub(crate) fn digest(bytes: &[u8]) -> (r: [u8; 32])
    ensures
        r@ == sha256(bytes@),
{
    <sha2::Sha256 as sha2::Digest>::digest(bytes).into()
}

/// The X25519 public key of a secret.
pub uninterp spec fn x25519_public(secret: Seq<u8>) -> Seq<u8>;

/// `x25519_dalek::PublicKey::from` a `StaticSecret`: the public key depends on
/// the secret alone.
#[verifier::external_body]
pub(crate) fn public_key(secret: &[u8; 32]) -> (r: [u8; 32])
    ensures
        r@ == x25519_public(secret@),
{
    x25519_dalek::PublicKey::from(&x25519_dalek::StaticSecret::from(*secret)).to_bytes()
}

/// The X25519 shared secret of a secret and a public key.
pub uninterp spec fn x25519_shared(secret: Seq<u8>, public: Seq<u8>) -> Seq<u8>;

/// `x25519_dalek::StaticSecret::diffie_hellman`: the shared secret depends on
/// the two keys alone.
#[verifier::external_body]
pub(crate) fn shared_secret(secret: &[u8; 32], public: &[u8; 32]) -> (r: [u8; 32])
    ensures
        r@ == x25519_shared(secret@, public@),
{
    let public = x25519_dalek::PublicKey::from(*public);
    x25519_dalek::StaticSecret::from(*secret).diffie_hellman(&public).to_bytes()
}

/// `rand::rngs::OsRng`: fills the bytes from the operating system's generator.
/// Nothing is known of them. Where the system has none to give, it panics.
#[verifier::external_body]
pub(crate) fn fill_random(bytes: &mut [u8])
    ensures
        final(bytes)@.len() == old(bytes)@.len(),
{
    rand::RngCore::fill_bytes(&mut rand::rngs::OsRng, bytes)
}

/// `zeroize::Zeroize::zeroize`: overwrites the bytes with zeros.
#[verifier::external_body]
pub(crate) fn wipe(bytes: &mut [u8; 32])
    ensures
        final(bytes)@ == Seq::new(32, |i: int| 0u8),
{
    zeroize::Zeroize::zeroize(bytes)
}

/// 32 random bytes.
pub(crate) fn random_32() -> (r: [u8; 32]) {
    let mut bytes: [u8; 32] = [0; 32];
    fill_random(&mut bytes);
    bytes
}

/// 16 random bytes.
pub(crate) fn random_16() -> (r: [u8; 16]) {
    let mut bytes: [u8; 16] = [0; 16];
    fill_random(&mut bytes);
    bytes
}

} // verus!
