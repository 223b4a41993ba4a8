//! The cryptographic primitives the protocol is built from, each reached
//! through one trusted wrapper around an outside crate.
use vstd::prelude::*;

use blake2::Digest;
use chacha20poly1305::aead::{Aead, KeyInit, Payload};

verus! {

/// The 32-byte BLAKE2s digest of `data`.
pub uninterp spec fn blake2s_of(data: Seq<u8>) -> Seq<u8>;

/// The 64 bytes of HKDF output over HMAC-BLAKE2s, with salt `salt`, input key
/// material `ikm` and empty info.
pub uninterp spec fn hkdf_of(salt: Seq<u8>, ikm: Seq<u8>) -> Seq<u8>;

/// ChaCha20-Poly1305 encryption of `plaintext` under `key` and the 12-byte
/// `nonce`, authenticating `ad`: the ciphertext followed by the tag.
pub uninterp spec fn aead_seal(key: Seq<u8>, nonce: Seq<u8>, ad: Seq<u8>, plaintext: Seq<u8>) -> Seq<u8>;

/// The X25519 function of RFC 7748 on the scalar `k` and the u-coordinate `u`.
pub uninterp spec fn x25519_of(k: Seq<u8>, u: Seq<u8>) -> Seq<u8>;

/// The longest message ChaCha20-Poly1305 takes under one nonce.
pub const AEAD_MAX_LEN: u64 = 64 * 0xffff_fffe;

/// Whether ChaCha20-Poly1305 can process a message of `len` bytes: block 0
/// of the keystream keys Poly1305, and the message must fit in the
/// remaining 2^32 - 2 blocks of 64 bytes, a partial last block counting as
/// a whole one.
pub open spec fn fits_aead(len: int) -> bool {
    len <= AEAD_MAX_LEN
}

/// Relies on blake2's `Digest::digest` for `Blake2s256`: the digest of `data`.
#[verifier::external_body]
pub(crate) fn blake2s(data: &[u8]) -> (r: [u8; 32])
    ensures
        r@ == blake2s_of(data@),
{
    blake2::Blake2s256::digest(data).into()
}

/// Relies on hkdf's `SimpleHkdf::<Blake2s256>::new` and `expand` with empty
/// info: 64 bytes of output. `expand` fails only for more than 255 * 32 bytes,
/// so it succeeds here.
#[verifier::external_body]
pub(crate) fn hkdf64(salt: &[u8; 32], ikm: &[u8]) -> (r: Option<[u8; 64]>)
    ensures
        r.is_some(),
        r.unwrap()@ == hkdf_of(salt@, ikm@),
{
    let hk = hkdf::SimpleHkdf::<blake2::Blake2s256>::new(Some(&salt[..]), ikm);
    let mut okm = [0u8; 64];
    match hk.expand(&[], &mut okm) {
        Ok(()) => Some(okm),
        Err(_) => None,
    }
}

/// Relies on chacha20poly1305's `Aead::encrypt` for `ChaCha20Poly1305`: the
/// ciphertext with the 16-byte tag appended. It refuses a plaintext of
/// 2^32 - 1 or more blocks and panics, when the keystream runs out, on one a
/// little shorter; below `AEAD_MAX_LEN` bytes it succeeds.
#[verifier::external_body]
pub(crate) fn seal(key: &[u8; 32], nonce: &[u8; 12], ad: &[u8], plaintext: &[u8]) -> (r: Option<Vec<u8>>)
    requires
        fits_aead(plaintext@.len() as int),
    ensures
        r.is_some(),
        r.is_some() ==> r.unwrap()@ == aead_seal(key@, nonce@, ad@, plaintext@),
        r.is_some() ==> r.unwrap()@.len() == plaintext@.len() + 16,
{
    let cipher = chacha20poly1305::ChaCha20Poly1305::new(chacha20poly1305::Key::from_slice(key));
    cipher.encrypt(chacha20poly1305::Nonce::from_slice(nonce), Payload { msg: plaintext, aad: ad }).ok()
}

/// Relies on chacha20poly1305's `Aead::decrypt` for `ChaCha20Poly1305`: it
/// verifies the trailing 16-byte tag and returns the plaintext, the one whose
/// encryption is `ciphertext`. It fails when no such plaintext exists. Like
/// `seal`, it panics on a message just under 2^32 - 1 blocks, so the
/// ciphertext is held to `AEAD_MAX_LEN` bytes plus the tag.
#[verifier::external_body]
pub(crate) fn open(key: &[u8; 32], nonce: &[u8; 12], ad: &[u8], ciphertext: &[u8]) -> (r: Option<Vec<u8>>)
    requires
        ciphertext@.len() <= AEAD_MAX_LEN + 16,
    ensures
        r.is_some() ==> aead_seal(key@, nonce@, ad@, r.unwrap()@) == ciphertext@,
        r.is_some() ==> r.unwrap()@.len() + 16 == ciphertext@.len(),
        forall|p: Seq<u8>|
            fits_aead(p.len() as int) && #[trigger] aead_seal(key@, nonce@, ad@, p) == ciphertext@
                ==> r.is_some() && r.unwrap()@ == p,
{
    let cipher = chacha20poly1305::ChaCha20Poly1305::new(chacha20poly1305::Key::from_slice(key));
    cipher.decrypt(chacha20poly1305::Nonce::from_slice(nonce), Payload { msg: ciphertext, aad: ad }).ok()
}

/// Relies on x25519_dalek's `x25519`: RFC 7748's X25519, which clamps the
/// scalar and is defined on every pair of 32-byte inputs.
#[verifier::external_body]
pub(crate) fn x25519_raw(k: [u8; 32], u: [u8; 32]) -> (r: [u8; 32])
    ensures
        r@ == x25519_of(k@, u@),
{
    x25519_dalek::x25519(k, u)
}

} // verus!
