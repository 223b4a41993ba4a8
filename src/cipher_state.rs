//! A ChaCha20-Poly1305 key with its 64-bit message counter.
use vstd::prelude::*;

use crate::bytes::{copy_into, overwritten};
use crate::primitives::{aead_seal, fits_aead, open, seal, AEAD_MAX_LEN};
use crate::Error;

verus! {

/// Length of a Poly1305 authentication tag.
pub const TAG_LEN: usize = 16;

/// A cipher state as a value: its key and the nonce of its next message.
pub ghost struct CipherModel {
    pub key: Seq<u8>,
    pub nonce: u64,
}

impl CipherModel {
    /// The same key, one message later.
    pub open spec fn advanced(self) -> CipherModel {
        CipherModel { key: self.key, nonce: (self.nonce + 1) as u64 }
    }

    /// The counter has reached its last value, which is never used.
    pub open spec fn exhausted(self) -> bool {
        self.nonce == u64::MAX
    }
}

/// The 96-bit AEAD nonce: 32 zero bits, then `n` in little-endian order.
pub open spec fn nonce_bytes(n: u64) -> Seq<u8> {
    Seq::new(12, |i: int| if i < 4 { 0u8 } else { (n >> ((8 * (i - 4)) as u64)) as u8 })
}

/// The frame that `c` makes of `plaintext` with associated data `ad`.
pub open spec fn sealed(c: CipherModel, ad: Seq<u8>, plaintext: Seq<u8>) -> Seq<u8> {
    aead_seal(c.key, nonce_bytes(c.nonce), ad, plaintext)
}

/// `ciphertext` is the frame that `c` makes of `plaintext` with `ad`.
pub open spec fn opens_to(c: CipherModel, ad: Seq<u8>, ciphertext: Seq<u8>, plaintext: Seq<u8>) -> bool {
    fits_aead(plaintext.len() as int) && sealed(c, ad, plaintext) == ciphertext
}

/// `ciphertext` is the frame that `c` makes of some plaintext with `ad`.
pub open spec fn authentic(c: CipherModel, ad: Seq<u8>, ciphertext: Seq<u8>) -> bool {
    exists|p: Seq<u8>| opens_to(c, ad, ciphertext, p)
}

/// Encrypting `pt_len` bytes into a buffer of `out_len` bytes is refused:
/// the buffer cannot hold the ciphertext and tag, or the message is too long.
pub open spec fn encrypt_input_error(pt_len: int, out_len: int) -> bool {
    out_len < pt_len + TAG_LEN || !fits_aead(pt_len)
}

/// Decrypting `ct_len` bytes into a buffer of `out_len` bytes is refused:
/// the frame is shorter than a tag, the buffer is short, or the message is
/// too long.
pub open spec fn decrypt_input_error(ct_len: int, out_len: int) -> bool {
    ct_len < TAG_LEN || out_len < ct_len - TAG_LEN || !fits_aead(ct_len - TAG_LEN)
}

/// The 12-byte nonce for counter value `n`.
fn nonce_of(n: u64) -> (r: [u8; 12])
    ensures
        r@ == nonce_bytes(n),
{
    let mut r = [0u8; 12];
    let mut i: usize = 0;
    while i < 8
        invariant
            i <= 8,
            r@.len() == 12,
            forall|j: int| 0 <= j < 4 ==> r@[j] == 0,
            forall|j: int| 4 <= j < 4 + i ==> r@[j] == nonce_bytes(n)[j],
        decreases 8 - i,
    {
        r[4 + i] = (n >> (8 * i as u64)) as u8;
        i = i + 1;
    }
    assert(r@ =~= nonce_bytes(n));
    r
}

/// A symmetric key and the counter that numbers the messages sent under it.
pub struct CipherState {
    k: [u8; 32],
    n: u64,
}

impl View for CipherState {
    type V = CipherModel;

    closed spec fn view(&self) -> CipherModel {
        CipherModel { key: self.k@, nonce: self.n }
    }
}

impl CipherState {
    /// A cipher state keyed by `k`, at nonce 0.
    pub fn new(k: [u8; 32]) -> (r: Self)
        ensures
            r@ == (CipherModel { key: k@, nonce: 0 }),
    {
        CipherState { k, n: 0 }
    }

    /// The current nonce.
    pub fn nonce(&self) -> (r: u64)
        ensures
            r == self@.nonce,
    {
        self.n
    }

    /// Encrypts `plaintext` with associated data `ad` into the front of
    /// `out`: ciphertext, then tag. Returns the number of bytes written and
    /// moves to the next nonce. Refuses, with nothing changed, a buffer that
    /// is too small or a message that is too long (`Input`), and a counter
    /// that has run out (`Decrypt`).
    pub fn encrypt_with_ad(&mut self, ad: &[u8], plaintext: &[u8], out: &mut [u8]) -> (r: Result<usize, Error>)
        ensures
            encrypt_input_error(plaintext@.len() as int, old(out)@.len() as int) ==> r == Err::<usize, Error>(Error::Input),
            !encrypt_input_error(plaintext@.len() as int, old(out)@.len() as int) && old(self)@.exhausted()
                ==> r == Err::<usize, Error>(Error::Decrypt),
            !encrypt_input_error(plaintext@.len() as int, old(out)@.len() as int) && !old(self)@.exhausted()
                ==> r is Ok,
            r matches Ok(len) ==> {
                &&& len == plaintext@.len() + TAG_LEN
                &&& final(out)@ == overwritten(old(out)@, 0, sealed(old(self)@, ad@, plaintext@))
                &&& sealed(old(self)@, ad@, plaintext@).len() == len
                &&& final(self)@ == old(self)@.advanced()
            },
            r is Err ==> final(out)@ == old(out)@ && final(self)@ == old(self)@,
    {
        if out.len() < TAG_LEN || out.len() - TAG_LEN < plaintext.len() {
            return Err(Error::Input);
        }
        if plaintext.len() as u64 > AEAD_MAX_LEN {
            return Err(Error::Input);
        }
        if self.n == u64::MAX {
            return Err(Error::Decrypt);
        }
        let nonce = nonce_of(self.n);
        match seal(&self.k, &nonce, ad, plaintext) {
            Some(c) => {
                copy_into(out, 0, c.as_slice());
                self.n = self.n + 1;
                Ok(c.len())
            },
            None => Err(Error::Input),
        }
    }

    /// Decrypts `ciphertext` (ciphertext, then tag) with associated data `ad`
    /// into the front of `out`. Returns the plaintext length and moves to the
    /// next nonce. Refuses, with nothing changed, a short frame or buffer or a
    /// message that is too long (`Input`), and a frame that does not
    /// authenticate or a counter that has run out (`Decrypt`).
    pub fn decrypt_with_ad(&mut self, ad: &[u8], ciphertext: &[u8], out: &mut [u8]) -> (r: Result<usize, Error>)
        ensures
            decrypt_input_error(ciphertext@.len() as int, old(out)@.len() as int) ==> r == Err::<usize, Error>(Error::Input),
            !decrypt_input_error(ciphertext@.len() as int, old(out)@.len() as int)
                ==> (r is Ok <==> !old(self)@.exhausted() && authentic(old(self)@, ad@, ciphertext@)),
            !decrypt_input_error(ciphertext@.len() as int, old(out)@.len() as int) && !(r is Ok)
                ==> r == Err::<usize, Error>(Error::Decrypt),
            r matches Ok(len) ==> {
                &&& len + TAG_LEN == ciphertext@.len()
                &&& final(out)@ == overwritten(old(out)@, 0, final(out)@.subrange(0, len as int))
                &&& opens_to(old(self)@, ad@, ciphertext@, final(out)@.subrange(0, len as int))
                &&& final(self)@ == old(self)@.advanced()
            },
            r matches Ok(len) ==> forall|p: Seq<u8>| #[trigger] opens_to(old(self)@, ad@, ciphertext@, p)
                ==> p == final(out)@.subrange(0, len as int),
            r is Err ==> final(out)@ == old(out)@ && final(self)@ == old(self)@,
    {
        if ciphertext.len() < TAG_LEN || out.len() < ciphertext.len() - TAG_LEN {
            return Err(Error::Input);
        }
        if (ciphertext.len() - TAG_LEN) as u64 > AEAD_MAX_LEN {
            return Err(Error::Input);
        }
        if self.n == u64::MAX {
            return Err(Error::Decrypt);
        }
        let nonce = nonce_of(self.n);
        match open(&self.k, &nonce, ad, ciphertext) {
            Some(p) => {
                copy_into(out, 0, p.as_slice());
                self.n = self.n + 1;
                assert(out@.subrange(0, p@.len() as int) =~= p@);
                assert(opens_to(old(self)@, ad@, ciphertext@, p@));
                Ok(p.len())
            },
            None => {
                assert(!authentic(old(self)@, ad@, ciphertext@)) by {
                    if authentic(old(self)@, ad@, ciphertext@) {
                        let q = choose|q: Seq<u8>| opens_to(old(self)@, ad@, ciphertext@, q);
                        assert(aead_seal(self.k@, nonce@, ad@, q) == ciphertext@);
                    }
                }
                Err(Error::Decrypt)
            },
        }
    }
}

} // verus!
