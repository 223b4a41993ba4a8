//! Properties of the protocol that hold across several operations.
use vstd::prelude::*;

use crate::cipher_state::{opens_to, sealed, CipherModel, TAG_LEN};
use crate::handshake::{
    after_flight1, initiator_es, initiator_keyed, initiator_transport, responder_es, responder_keyed,
    responder_p_frame, responder_s_frame, responder_transport, start, InitiatorModel, ResponderModel,
};
use crate::primitives::fits_aead;
use crate::transport::{frame_read, frame_written, TransportModel};
use crate::x25519::{dh_agrees, public_key_of};
use crate::Error;

verus! {

/// The initiator with private keys `ei`, `si` after a first flight that
/// carried `p1`.
pub open spec fn initiator_after_flight1(ei: Seq<u8>, si: Seq<u8>, prologue: Seq<u8>, p1: Seq<u8>) -> InitiatorModel {
    InitiatorModel {
        e: ei,
        s: si,
        sym: after_flight1(start(prologue), public_key_of(ei), public_key_of(si), p1),
    }
}

/// The responder with private keys `er`, `sr` after reading the first flight
/// of the initiator with private keys `ei`, `si`, which carried `p1`.
pub open spec fn responder_after_flight1(
    ei: Seq<u8>,
    si: Seq<u8>,
    er: Seq<u8>,
    sr: Seq<u8>,
    prologue: Seq<u8>,
    p1: Seq<u8>,
) -> ResponderModel {
    ResponderModel {
        e: er,
        s: sr,
        re: public_key_of(ei),
        rs: public_key_of(si),
        sym: after_flight1(start(prologue), public_key_of(ei), public_key_of(si), p1),
    }
}

/// A handshake between an initiator with private keys `ei`, `si` and a
/// responder with `er`, `sr`, with payloads `p1` and `p2`. When the key
/// pairs that X25519 combines meet in shared secrets, both sides hold the
/// same transcript after the first flight; the second flight carries the
/// responder's static public key and `p2` to the initiator; the two
/// transports match, each one's sending state being the other's receiving
/// state; and each side's transport exposes the other side's static public
/// key.
pub proof fn lemma_handshake_agreement(
    ei: Seq<u8>,
    si: Seq<u8>,
    er: Seq<u8>,
    sr: Seq<u8>,
    prologue: Seq<u8>,
    p1: Seq<u8>,
    p2: Seq<u8>,
)
    requires
        dh_agrees(ei, er),
        dh_agrees(si, er),
        dh_agrees(ei, sr),
        public_key_of(sr).len() == 32,
        fits_aead(p2.len() as int),
    ensures
        ({
            let i = initiator_after_flight1(ei, si, prologue, p1);
            let r = responder_after_flight1(ei, si, er, sr, prologue, p1);
            let re = public_key_of(er);
            let s_frame = responder_s_frame(r);
            let p_frame = responder_p_frame(r, p2);
            let ti = initiator_transport(i, re, s_frame, p_frame, public_key_of(sr));
            let tr = responder_transport(r, p2);
            &&& i.sym == r.sym
            &&& initiator_keyed(i, re).decrypts_to(s_frame, public_key_of(sr))
            &&& initiator_es(i, re, s_frame, public_key_of(sr)).decrypts_to(p_frame, p2)
            &&& ti.send == tr.recv
            &&& ti.recv == tr.send
            &&& ti.rs == public_key_of(sr)
            &&& tr.rs == public_key_of(si)
        }),
{
    let i = initiator_after_flight1(ei, si, prologue, p1);
    let r = responder_after_flight1(ei, si, er, sr, prologue, p1);
    let re = public_key_of(er);
    assert(initiator_keyed(i, re) == responder_keyed(r));
    assert(initiator_es(i, re, responder_s_frame(r), public_key_of(sr)) == responder_es(r));
}

/// A cipher state `n` messages further on.
pub open spec fn advanced_by(c: CipherModel, n: nat) -> CipherModel {
    CipherModel { key: c.key, nonce: (c.nonce + n) as u64 }
}

/// Two transports that match, as a handshake leaves them, carry any
/// sequence of payloads in either direction: the `k`-th frame that one side
/// writes is the one that the other side, after `k` reads, takes for the
/// same payload, and neither side's counter has run out.
pub proof fn lemma_transport_round_trip(a: TransportModel, b: TransportModel, ps: Seq<Seq<u8>>)
    requires
        a.send == b.recv,
        a.recv == b.send,
        a.send.nonce + ps.len() < u64::MAX,
        a.recv.nonce + ps.len() < u64::MAX,
        forall|k: int| 0 <= k < ps.len() ==> fits_aead(#[trigger] ps[k].len() as int),
    ensures
        forall|k: int|
            0 <= k < ps.len() ==> {
                let wa = advanced_by(a.send, k as nat);
                let rb = advanced_by(b.recv, k as nat);
                &&& !wa.exhausted()
                &&& !rb.exhausted()
                &&& opens_to(rb, Seq::empty(), sealed(wa, Seq::empty(), #[trigger] ps[k]), ps[k])
            },
        forall|k: int|
            0 <= k < ps.len() ==> {
                let wb = advanced_by(b.send, k as nat);
                let ra = advanced_by(a.recv, k as nat);
                &&& !wb.exhausted()
                &&& !ra.exhausted()
                &&& opens_to(ra, Seq::empty(), sealed(wb, Seq::empty(), #[trigger] ps[k]), ps[k])
            },
{
}

/// An output buffer one byte shorter than a transport frame needs is refused
/// with `Input`, and neither the buffer nor the cipher state changes; the
/// same holds for a plaintext buffer one byte short on reading.
pub proof fn lemma_short_buffer(
    c: CipherModel,
    payload: Seq<u8>,
    frame: Seq<u8>,
    out: Seq<u8>,
    r: Result<usize, Error>,
    out2: Seq<u8>,
    c2: CipherModel,
)
    ensures
        out.len() + 1 == payload.len() + TAG_LEN && frame_written(c, payload, out, r, out2, c2)
            ==> r == Err::<usize, Error>(Error::Input) && out2 == out && c2 == c,
        frame.len() >= TAG_LEN && out.len() + 1 == frame.len() - TAG_LEN && frame_read(c, frame, out, r, out2, c2)
            ==> r == Err::<usize, Error>(Error::Input) && out2 == out && c2 == c,
{
}

} // verus!
