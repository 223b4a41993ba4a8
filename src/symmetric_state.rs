//! The Noise symmetric state: chaining key, handshake hash and the cipher
//! keyed from them.
use vstd::prelude::*;

use crate::bytes::{concat, copy_into, overwritten, take32};
use crate::cipher_state::{
    authentic, decrypt_input_error, encrypt_input_error, opens_to, sealed, CipherModel, CipherState, TAG_LEN,
};
use crate::primitives::{blake2s, blake2s_of, hkdf64, hkdf_of};
use crate::Error;

verus! {

/// BLAKE2s of the protocol name `Noise_IX_25519_ChaChaPoly_BLAKE2s`, the
/// starting value of both the chaining key and the handshake hash.
pub const PRE_H_NAME: [u8; 32] = [
    136, 89, 115, 104, 170, 155, 207, 183, 46, 236, 244, 45, 60, 201, 126, 60, 101, 209, 91, 111,
    253, 217, 79, 89, 91, 17, 252, 97, 201, 249, 0, 193,
];

/// A symmetric state as a value.
pub ghost struct SymmetricModel {
    pub ck: Seq<u8>,
    pub h: Seq<u8>,
    pub cipher: CipherModel,
    pub has_key: bool,
}

impl SymmetricModel {
    /// The state before any data is mixed in.
    pub open spec fn initial() -> SymmetricModel {
        SymmetricModel {
            ck: PRE_H_NAME@,
            h: PRE_H_NAME@,
            cipher: CipherModel { key: Seq::new(32, |i: int| 0u8), nonce: 0 },
            has_key: false,
        }
    }

    /// `h` replaced by the hash of `h` followed by `data`.
    pub open spec fn mix_hash(self, data: Seq<u8>) -> SymmetricModel {
        SymmetricModel { ck: self.ck, h: blake2s_of(self.h + data), cipher: self.cipher, has_key: self.has_key }
    }

    /// HKDF of `ikm` salted with `ck`: the first half is the new chaining
    /// key, the second half the new cipher key, at nonce 0.
    pub open spec fn mix_key(self, ikm: Seq<u8>) -> SymmetricModel {
        let okm = hkdf_of(self.ck, ikm);
        SymmetricModel {
            ck: okm.subrange(0, 32),
            h: self.h,
            cipher: CipherModel { key: okm.subrange(32, 64), nonce: 0 },
            has_key: true,
        }
    }

    /// The bytes that carry `plaintext`: its encryption with `h` as
    /// associated data once a key is mixed in, else the plaintext itself.
    pub open spec fn encrypted(self, plaintext: Seq<u8>) -> Seq<u8> {
        if self.has_key {
            sealed(self.cipher, self.h, plaintext)
        } else {
            plaintext
        }
    }

    /// `plaintext` is what the bytes `ciphertext` carry.
    pub open spec fn decrypts_to(self, ciphertext: Seq<u8>, plaintext: Seq<u8>) -> bool {
        if self.has_key {
            opens_to(self.cipher, self.h, ciphertext, plaintext)
        } else {
            plaintext == ciphertext
        }
    }

    /// `ciphertext` carries some plaintext.
    pub open spec fn readable(self, ciphertext: Seq<u8>) -> bool {
        exists|p: Seq<u8>| self.decrypts_to(ciphertext, p)
    }

    /// The state after the bytes `ciphertext` went out or came in: the
    /// nonce moves on if a key is in use, then `ciphertext` is hashed.
    pub open spec fn absorbed(self, ciphertext: Seq<u8>) -> SymmetricModel {
        let s = if self.has_key {
            SymmetricModel { ck: self.ck, h: self.h, cipher: self.cipher.advanced(), has_key: true }
        } else {
            self
        };
        s.mix_hash(ciphertext)
    }

    /// The counter of the key in use has run out.
    pub open spec fn exhausted(self) -> bool {
        self.has_key && self.cipher.exhausted()
    }

    /// Encrypting `pt_len` bytes into `out_len` bytes is refused for length.
    pub open spec fn encrypt_refused(self, pt_len: int, out_len: int) -> bool {
        if self.has_key {
            encrypt_input_error(pt_len, out_len)
        } else {
            out_len < pt_len
        }
    }

    /// Decrypting `ct_len` bytes into `out_len` bytes is refused for length.
    pub open spec fn decrypt_refused(self, ct_len: int, out_len: int) -> bool {
        if self.has_key {
            decrypt_input_error(ct_len, out_len)
        } else {
            out_len < ct_len
        }
    }

    /// The two transport cipher states, from HKDF of nothing salted with `ck`.
    pub open spec fn split(self) -> (CipherModel, CipherModel) {
        let okm = hkdf_of(self.ck, Seq::empty());
        (
            CipherModel { key: okm.subrange(0, 32), nonce: 0 },
            CipherModel { key: okm.subrange(32, 64), nonce: 0 },
        )
    }
}

/// The two halves of a 64-byte HKDF output.
fn halves(okm: &[u8; 64]) -> (r: ([u8; 32], [u8; 32]))
    ensures
        r.0@ == okm@.subrange(0, 32),
        r.1@ == okm@.subrange(32, 64),
{
    (take32(okm, 0), take32(okm, 32))
}

/// The running state of a handshake.
pub struct SymmetricState {
    ck: [u8; 32],
    h: [u8; 32],
    cipher: CipherState,
    has_key: bool,
}

impl View for SymmetricState {
    type V = SymmetricModel;

    closed spec fn view(&self) -> SymmetricModel {
        SymmetricModel { ck: self.ck@, h: self.h@, cipher: self.cipher@, has_key: self.has_key }
    }
}

impl SymmetricState {
    /// The state before any data is mixed in.
    pub fn new() -> (r: Self)
        ensures
            r@ == SymmetricModel::initial(),
    {
        let r = SymmetricState { ck: PRE_H_NAME, h: PRE_H_NAME, cipher: CipherState::new([0u8; 32]), has_key: false };
        assert(r.cipher@.key =~= Seq::new(32, |i: int| 0u8));
        r
    }

    /// `h ← BLAKE2s(h ‖ data)`.
    pub fn mix_hash(&mut self, data: &[u8])
        ensures
            final(self)@ == old(self)@.mix_hash(data@),
    {
        let joined = concat(&self.h, data);
        self.h = blake2s(joined.as_slice());
    }

    /// Mixes `input_material` into the chaining key and rekeys the cipher.
    pub fn mix_key(&mut self, input_material: &[u8])
        ensures
            final(self)@ == old(self)@.mix_key(input_material@),
    {
        let okm = hkdf64(&self.ck, input_material).unwrap();
        let (ck, k) = halves(&okm);
        self.ck = ck;
        self.cipher = CipherState::new(k);
        self.has_key = true;
    }

    /// Writes the bytes that carry `payload` to the front of `message` and
    /// hashes them. Returns their length. On any error nothing changes.
    pub fn encrypt_and_hash(&mut self, payload: &[u8], message: &mut [u8]) -> (r: Result<usize, Error>)
        ensures
            old(self)@.encrypt_refused(payload@.len() as int, old(message)@.len() as int)
                ==> r == Err::<usize, Error>(Error::Input),
            !old(self)@.encrypt_refused(payload@.len() as int, old(message)@.len() as int) && old(self)@.exhausted()
                ==> r == Err::<usize, Error>(Error::Decrypt),
            !old(self)@.encrypt_refused(payload@.len() as int, old(message)@.len() as int) && !old(self)@.exhausted()
                ==> r is Ok,
            r matches Ok(len) ==> {
                let c = old(self)@.encrypted(payload@);
                &&& len == c.len()
                &&& len == payload@.len() + if old(self)@.has_key { TAG_LEN as int } else { 0 }
                &&& final(message)@ == overwritten(old(message)@, 0, c)
                &&& final(self)@ == old(self)@.absorbed(c)
            },
            r is Err ==> final(message)@ == old(message)@ && final(self)@ == old(self)@,
    {
        if self.has_key {
            match self.cipher.encrypt_with_ad(&self.h, payload, message) {
                Ok(len) => {
                    let c = vstd::slice::slice_subrange(message, 0, len);
                    assert(c@ =~= old(self)@.encrypted(payload@));
                    self.mix_hash(c);
                    Ok(len)
                },
                Err(e) => Err(e),
            }
        } else {
            if message.len() < payload.len() {
                return Err(Error::Input);
            }
            copy_into(message, 0, payload);
            self.mix_hash(payload);
            Ok(payload.len())
        }
    }

    /// Reads the plaintext that `message` carries into the front of
    /// `payload`, then hashes `message` itself. Returns the plaintext length.
    /// On any error nothing changes.
    pub fn decrypt_and_hash(&mut self, message: &[u8], payload: &mut [u8]) -> (r: Result<usize, Error>)
        ensures
            old(self)@.decrypt_refused(message@.len() as int, old(payload)@.len() as int)
                ==> r == Err::<usize, Error>(Error::Input),
            !old(self)@.decrypt_refused(message@.len() as int, old(payload)@.len() as int)
                ==> (r is Ok <==> !old(self)@.exhausted() && old(self)@.readable(message@)),
            !old(self)@.decrypt_refused(message@.len() as int, old(payload)@.len() as int) && !(r is Ok)
                ==> r == Err::<usize, Error>(Error::Decrypt),
            r matches Ok(len) ==> {
                let p = final(payload)@.subrange(0, len as int);
                &&& len == message@.len() - if old(self)@.has_key { TAG_LEN as int } else { 0 }
                &&& final(payload)@ == overwritten(old(payload)@, 0, p)
                &&& old(self)@.decrypts_to(message@, p)
                &&& final(self)@ == old(self)@.absorbed(message@)
            },
            r matches Ok(len) ==> forall|p: Seq<u8>| #[trigger] old(self)@.decrypts_to(message@, p)
                ==> p == final(payload)@.subrange(0, len as int),
            r is Err ==> final(payload)@ == old(payload)@ && final(self)@ == old(self)@,
    {
        if self.has_key {
            assert(old(self)@.readable(message@) == authentic(self.cipher@, self.h@, message@)) by {
                if authentic(self.cipher@, self.h@, message@) {
                    let q = choose|q: Seq<u8>| opens_to(self.cipher@, self.h@, message@, q);
                    assert(old(self)@.decrypts_to(message@, q));
                }
                if old(self)@.readable(message@) {
                    let q = choose|q: Seq<u8>| old(self)@.decrypts_to(message@, q);
                    assert(opens_to(self.cipher@, self.h@, message@, q));
                }
            }
            match self.cipher.decrypt_with_ad(&self.h, message, payload) {
                Ok(len) => {
                    self.mix_hash(message);
                    Ok(len)
                },
                Err(e) => Err(e),
            }
        } else {
            if payload.len() < message.len() {
                return Err(Error::Input);
            }
            copy_into(payload, 0, message);
            self.mix_hash(message);
            assert(payload@.subrange(0, message@.len() as int) =~= message@);
            assert(old(self)@.decrypts_to(message@, message@));
            Ok(message.len())
        }
    }

    /// The two transport cipher states; the symmetric state is used up.
    pub fn split(self) -> (r: (CipherState, CipherState))
        ensures
            (r.0@, r.1@) == self@.split(),
    {
        let nothing: [u8; 0] = [];
        assert(nothing@ =~= Seq::<u8>::empty());
        let okm = hkdf64(&self.ck, &nothing).unwrap();
        let (k1, k2) = halves(&okm);
        (CipherState::new(k1), CipherState::new(k2))
    }
}

} // verus!
