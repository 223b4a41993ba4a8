//! X25519 over byte-array keys, with the all-zero output refused.
use vstd::prelude::*;

use crate::primitives::{x25519_of, x25519_raw};
use crate::Error;

verus! {

/// Length of a Diffie-Hellman key or output.
pub const DH_LEN: usize = 32;

/// The u-coordinate of the Curve25519 base point.
pub const BASEPOINT: [u8; 32] = [
    9, 0, 0, 0, 0, 0, 0, 0, 0, 0, 0, 0, 0, 0, 0, 0, 0, 0, 0, 0, 0, 0, 0, 0, 0, 0, 0, 0, 0, 0, 0, 0,
];

/// The base point as a byte sequence.
pub open spec fn basepoint() -> Seq<u8> {
    Seq::new(32, |i: int| if i == 0 { 9u8 } else { 0u8 })
}

/// The public key that belongs to the private scalar `sk`.
pub open spec fn public_key_of(sk: Seq<u8>) -> Seq<u8> {
    x25519_of(sk, basepoint())
}

/// The private keys `a` and `b` meet in one shared secret: each one's
/// scalar times the other's public key gives the same output.
pub open spec fn dh_agrees(a: Seq<u8>, b: Seq<u8>) -> bool {
    x25519_of(a, public_key_of(b)) == x25519_of(b, public_key_of(a))
}

/// Whether every byte of `b` is zero.
pub open spec fn is_zero(b: Seq<u8>) -> bool {
    forall|i: int| 0 <= i < b.len() ==> b[i] == 0
}

/// The shared secret of `sk` with `pk`, or `Dh` when it is all zero.
pub open spec fn dh(sk: Seq<u8>, pk: Seq<u8>) -> Result<Seq<u8>, Error> {
    if is_zero(x25519_of(sk, pk)) {
        Err(Error::Dh)
    } else {
        Ok(x25519_of(sk, pk))
    }
}

/// Fixed-base scalar multiplication: the public key of `sk`.
pub fn pub_key(sk: [u8; 32]) -> (r: [u8; 32])
    ensures
        r@ == public_key_of(sk@),
{
    let base = BASEPOINT;
    assert(base@ =~= basepoint());
    x25519_raw(sk, base)
}

/// Variable-base scalar multiplication of `peer_pk` by `sk`; `Dh` when the
/// result is all zero. The bytes of the result are folded together without
/// branching on any of them.
pub fn x25519(sk: [u8; 32], peer_pk: [u8; 32]) -> (r: Result<[u8; 32], Error>)
    ensures
        match (r, dh(sk@, peer_pk@)) {
            (Ok(out), Ok(shared)) => out@ == shared,
            (Err(e), Err(f)) => e == f,
            _ => false,
        },
{
    let out = x25519_raw(sk, peer_pk);
    let mut acc: u8 = 0;
    let mut i: usize = 0;
    while i < 32
        invariant
            i <= 32,
            out@.len() == 32,
            acc == 0 <==> forall|j: int| 0 <= j < i ==> out@[j] == 0,
        decreases 32 - i,
    {
        let b = out[i];
        assert((acc | b) == 0 <==> (acc == 0 && b == 0)) by (bit_vector);
        acc = acc | b;
        i = i + 1;
    }
    if acc == 0 {
        Err(Error::Dh)
    } else {
        Ok(out)
    }
}

} // verus!
