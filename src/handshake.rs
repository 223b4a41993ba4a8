//! The Noise IX handshake as four one-shot stages:
//!
//! ```text
//!   -> e, s
//!   <- e, ee, se, s, es
//! ```
use vstd::prelude::*;

use crate::bytes::{copy_into, overwritten, take32};
use crate::cipher_state::TAG_LEN;
use crate::primitives::{fits_aead, x25519_of, AEAD_MAX_LEN};
use crate::symmetric_state::{SymmetricModel, SymmetricState};
use crate::transport::{Transport, TransportModel};
use crate::x25519::{dh, pub_key, public_key_of, x25519, DH_LEN};
use crate::Error;

verus! {

/// An initiator stage as a value: its ephemeral and static private keys and
/// its symmetric state.
pub ghost struct InitiatorModel {
    pub e: Seq<u8>,
    pub s: Seq<u8>,
    pub sym: SymmetricModel,
}

/// A responder stage as a value: its private keys, the initiator's public
/// keys once learned, and its symmetric state.
pub ghost struct ResponderModel {
    pub e: Seq<u8>,
    pub s: Seq<u8>,
    pub re: Seq<u8>,
    pub rs: Seq<u8>,
    pub sym: SymmetricModel,
}

/// The symmetric state both parties start from.
pub open spec fn start(prologue: Seq<u8>) -> SymmetricModel {
    SymmetricModel::initial().mix_hash(prologue)
}

/// The first flight of an initiator with private keys `e` and `s`.
pub open spec fn flight1(e: Seq<u8>, s: Seq<u8>, payload: Seq<u8>) -> Seq<u8> {
    public_key_of(e) + public_key_of(s) + payload
}

/// The symmetric state after a first flight that carried the public keys
/// `re`, `rs` and `payload`.
pub open spec fn after_flight1(sym: SymmetricModel, re: Seq<u8>, rs: Seq<u8>, payload: Seq<u8>) -> SymmetricModel {
    sym.mix_hash(re).mix_hash(rs).mix_hash(payload)
}

/// The symmetric state after the `e`, `ee` and `se` tokens of the second
/// flight.
pub open spec fn keyed(sym: SymmetricModel, e_pub: Seq<u8>, ee: Seq<u8>, se: Seq<u8>) -> SymmetricModel {
    sym.mix_hash(e_pub).mix_key(ee).mix_key(se)
}

/// The responder's state after `e`, `ee`, `se`.
pub open spec fn responder_keyed(r: ResponderModel) -> SymmetricModel {
    keyed(r.sym, public_key_of(r.e), x25519_of(r.e, r.re), x25519_of(r.e, r.rs))
}

/// The bytes that carry the responder's static public key.
pub open spec fn responder_s_frame(r: ResponderModel) -> Seq<u8> {
    responder_keyed(r).encrypted(public_key_of(r.s))
}

/// The responder's state after `s` and `es`.
pub open spec fn responder_es(r: ResponderModel) -> SymmetricModel {
    responder_keyed(r).absorbed(responder_s_frame(r)).mix_key(x25519_of(r.s, r.re))
}

/// The bytes that carry the responder's payload.
pub open spec fn responder_p_frame(r: ResponderModel, payload: Seq<u8>) -> Seq<u8> {
    responder_es(r).encrypted(payload)
}

/// The second flight of the responder `r`.
pub open spec fn flight2(r: ResponderModel, payload: Seq<u8>) -> Seq<u8> {
    public_key_of(r.e) + responder_s_frame(r) + responder_p_frame(r, payload)
}

/// The transport the responder `r` ends with.
pub open spec fn responder_transport(r: ResponderModel, payload: Seq<u8>) -> TransportModel {
    let c = responder_es(r).absorbed(responder_p_frame(r, payload)).split();
    TransportModel { rs: r.rs, send: c.1, recv: c.0 }
}

/// One of the responder's three Diffie-Hellman outputs is all zero.
pub open spec fn responder_dh_fails(r: ResponderModel) -> bool {
    dh(r.e, r.re) is Err || dh(r.e, r.rs) is Err || dh(r.s, r.re) is Err
}

/// The remote ephemeral key of a second flight `m`.
pub open spec fn e_part(m: Seq<u8>) -> Seq<u8> {
    m.subrange(0, 32)
}

/// The bytes of a second flight `m` that carry the responder's static key.
pub open spec fn s_part(m: Seq<u8>) -> Seq<u8> {
    m.subrange(32, 80)
}

/// The bytes of a second flight `m` that carry its payload.
pub open spec fn p_part(m: Seq<u8>) -> Seq<u8> {
    m.subrange(80, m.len() as int)
}

/// The initiator's state after the `e`, `ee`, `se` tokens of a second
/// flight whose ephemeral key is `re`.
pub open spec fn initiator_keyed(i: InitiatorModel, re: Seq<u8>) -> SymmetricModel {
    keyed(i.sym, re, x25519_of(i.e, re), x25519_of(i.s, re))
}

/// The static key that `s_frame` carries to the initiator.
pub open spec fn recovered_rs(i: InitiatorModel, re: Seq<u8>, s_frame: Seq<u8>) -> Seq<u8> {
    choose|q: Seq<u8>| initiator_keyed(i, re).decrypts_to(s_frame, q)
}

/// The initiator's state after `s` and `es`, when `rs` is the responder's
/// static key.
pub open spec fn initiator_es(i: InitiatorModel, re: Seq<u8>, s_frame: Seq<u8>, rs: Seq<u8>) -> SymmetricModel {
    initiator_keyed(i, re).absorbed(s_frame).mix_key(x25519_of(i.e, rs))
}

/// The transport the initiator ends with.
pub open spec fn initiator_transport(
    i: InitiatorModel,
    re: Seq<u8>,
    s_frame: Seq<u8>,
    p_frame: Seq<u8>,
    rs: Seq<u8>,
) -> TransportModel {
    let c = initiator_es(i, re, s_frame, rs).absorbed(p_frame).split();
    TransportModel { rs: rs, send: c.0, recv: c.1 }
}

/// The second flight `m` is refused for its length or for a payload buffer
/// of `out_len` bytes.
pub open spec fn flight2_refused(m: Seq<u8>, out_len: int) -> bool {
    m.len() < 96 || out_len < m.len() - 96 || !fits_aead(m.len() - 96)
}

/// Why the initiator refuses the second flight `m` with a payload buffer of
/// `out_len` bytes, if it does.
pub open spec fn initiator_read_error(i: InitiatorModel, m: Seq<u8>, out_len: int) -> Option<Error> {
    let re = e_part(m);
    let rs = recovered_rs(i, re, s_part(m));
    if flight2_refused(m, out_len) {
        Some(Error::Input)
    } else if dh(i.e, re) is Err || dh(i.s, re) is Err {
        Some(Error::Dh)
    } else if !initiator_keyed(i, re).readable(s_part(m)) {
        Some(Error::Decrypt)
    } else if dh(i.e, rs) is Err {
        Some(Error::Dh)
    } else if !initiator_es(i, re, s_part(m), rs).readable(p_part(m)) {
        Some(Error::Decrypt)
    } else {
        None
    }
}

/// The initiator before its first flight.
pub struct Initiator1 {
    e: [u8; DH_LEN],
    s: [u8; DH_LEN],
    c: SymmetricState,
}

/// The initiator after its first flight, waiting for the second.
pub struct Initiator2 {
    e: [u8; DH_LEN],
    s: [u8; DH_LEN],
    c: SymmetricState,
}

/// The responder waiting for the first flight.
pub struct Responder1 {
    e: [u8; DH_LEN],
    s: [u8; DH_LEN],
    re: [u8; DH_LEN],
    rs: [u8; DH_LEN],
    c: SymmetricState,
}

/// The responder after the first flight, about to send the second.
pub struct Responder2 {
    e: [u8; DH_LEN],
    s: [u8; DH_LEN],
    re: [u8; DH_LEN],
    rs: [u8; DH_LEN],
    c: SymmetricState,
}

impl View for Initiator1 {
    type V = InitiatorModel;

    closed spec fn view(&self) -> InitiatorModel {
        InitiatorModel { e: self.e@, s: self.s@, sym: self.c@ }
    }
}

impl View for Initiator2 {
    type V = InitiatorModel;

    closed spec fn view(&self) -> InitiatorModel {
        InitiatorModel { e: self.e@, s: self.s@, sym: self.c@ }
    }
}

impl View for Responder1 {
    type V = ResponderModel;

    closed spec fn view(&self) -> ResponderModel {
        ResponderModel { e: self.e@, s: self.s@, re: self.re@, rs: self.rs@, sym: self.c@ }
    }
}

impl View for Responder2 {
    type V = ResponderModel;

    closed spec fn view(&self) -> ResponderModel {
        ResponderModel { e: self.e@, s: self.s@, re: self.re@, rs: self.rs@, sym: self.c@ }
    }
}

/// Starts a handshake as initiator with ephemeral key `e`, static key `s`
/// and `prologue`.
pub fn initiator(e: [u8; DH_LEN], s: [u8; DH_LEN], prologue: &[u8]) -> (r: Initiator1)
    ensures
        r@ == (InitiatorModel { e: e@, s: s@, sym: start(prologue@) }),
{
    let mut c = SymmetricState::new();
    c.mix_hash(prologue);
    Initiator1 { e, s, c }
}

/// Starts a handshake as responder with ephemeral key `e`, static key `s`
/// and `prologue`; the initiator's keys are zero until the first flight.
pub fn responder(e: [u8; DH_LEN], s: [u8; DH_LEN], prologue: &[u8]) -> (r: Responder1)
    ensures
        r@ == (ResponderModel {
            e: e@,
            s: s@,
            re: Seq::new(32, |i: int| 0u8),
            rs: Seq::new(32, |i: int| 0u8),
            sym: start(prologue@),
        }),
{
    let mut c = SymmetricState::new();
    c.mix_hash(prologue);
    let r = Responder1 { e, s, re: [0u8; DH_LEN], rs: [0u8; DH_LEN], c };
    assert(r.re@ =~= Seq::new(32, |i: int| 0u8));
    assert(r.rs@ =~= Seq::new(32, |i: int| 0u8));
    r
}

impl Initiator1 {
    /// Bytes of the first flight beyond its payload.
    pub fn overhead() -> (r: usize)
        ensures
            r == 2 * DH_LEN,
    {
        DH_LEN * 2
    }

    /// Writes the first flight, `e_pub ‖ s_pub ‖ payload`, into the front of
    /// `message` and returns its length with the next stage.
    pub fn write_message(self, payload: &[u8], message: &mut [u8]) -> (r: Result<(usize, Initiator2), Error>)
        ensures
            old(message)@.len() < 64 + payload@.len() <==> r == Err::<(usize, Initiator2), Error>(Error::Input),
            r is Ok || r == Err::<(usize, Initiator2), Error>(Error::Input),
            r matches Ok((len, next)) ==> {
                &&& len == 64 + payload@.len()
                &&& final(message)@ == overwritten(old(message)@, 0, flight1(self@.e, self@.s, payload@))
                &&& final(message)@.subrange(0, 32) == public_key_of(self@.e)
                &&& final(message)@.subrange(32, 64) == public_key_of(self@.s)
                &&& final(message)@.subrange(64, len as int) == payload@
                &&& next@ == (InitiatorModel {
                    e: self@.e,
                    s: self@.s,
                    sym: after_flight1(self@.sym, public_key_of(self@.e), public_key_of(self@.s), payload@),
                })
            },
            r is Err ==> final(message)@ == old(message)@,
    {
        if message.len() < Self::overhead() || message.len() - Self::overhead() < payload.len() {
            return Err(Error::Input);
        }
        let mut c = self.c;

        // e
        let pub_e = pub_key(self.e);
        copy_into(message, 0, &pub_e);
        c.mix_hash(&pub_e);

        // s
        let pub_s = pub_key(self.s);
        copy_into(message, DH_LEN, &pub_s);
        c.mix_hash(&pub_s);

        // payload
        copy_into(message, 2 * DH_LEN, payload);
        c.mix_hash(payload);

        assert(message@ =~= overwritten(old(message)@, 0, flight1(self.e@, self.s@, payload@)));
        assert(message@.subrange(0, 32) =~= public_key_of(self.e@));
        assert(message@.subrange(32, 64) =~= public_key_of(self.s@));
        assert(message@.subrange(64, 64 + payload@.len() as int) =~= payload@);
        Ok((Self::overhead() + payload.len(), Initiator2 { e: self.e, s: self.s, c }))
    }
}

impl Responder1 {
    /// Bytes of the first flight beyond its payload.
    pub fn overhead() -> (r: usize)
        ensures
            r == 2 * DH_LEN,
    {
        DH_LEN * 2
    }

    /// Reads the first flight `message`: learns the initiator's two public
    /// keys, writes its payload into the front of `payload` and returns the
    /// payload length with the next stage.
    pub fn read_message(self, message: &[u8], payload: &mut [u8]) -> (r: Result<(usize, Responder2), Error>)
        ensures
            message@.len() < 64 || old(payload)@.len() < message@.len() - 64
                <==> r == Err::<(usize, Responder2), Error>(Error::Input),
            r is Ok || r == Err::<(usize, Responder2), Error>(Error::Input),
            r matches Ok((len, next)) ==> {
                let re = message@.subrange(0, 32);
                let rs = message@.subrange(32, 64);
                let p = message@.subrange(64, message@.len() as int);
                &&& len == p.len()
                &&& final(payload)@ == overwritten(old(payload)@, 0, p)
                &&& next@ == (ResponderModel {
                    e: self@.e,
                    s: self@.s,
                    re: re,
                    rs: rs,
                    sym: after_flight1(self@.sym, re, rs, p),
                })
            },
            r is Err ==> final(payload)@ == old(payload)@,
    {
        if message.len() < Self::overhead() {
            return Err(Error::Input);
        }
        if payload.len() < message.len() - Self::overhead() {
            return Err(Error::Input);
        }
        let mut c = self.c;

        // e
        let re = take32(message, 0);
        c.mix_hash(&re);

        // s
        let rs = take32(message, DH_LEN);
        c.mix_hash(&rs);

        // payload
        let p = vstd::slice::slice_subrange(message, 2 * DH_LEN, message.len());
        copy_into(payload, 0, p);
        c.mix_hash(p);

        Ok((p.len(), Responder2 { e: self.e, s: self.s, re, rs, c }))
    }
}

impl Responder2 {
    /// Bytes of the second flight beyond its payload.
    pub fn overhead() -> (r: usize)
        ensures
            r == 2 * DH_LEN + 2 * TAG_LEN,
    {
        DH_LEN + DH_LEN + TAG_LEN + TAG_LEN
    }

    /// The initiator's static public key, learned from the first flight.
    pub fn remote_key(&self) -> (r: [u8; 32])
        ensures
            r@ == self@.rs,
    {
        self.rs
    }

    /// Writes the second flight, `e_pub ‖ enc(s_pub) ‖ enc(payload)`, into
    /// the front of `message` and returns its length with the transport.
    /// Nothing is written when it fails.
    pub fn write_message(self, payload: &[u8], message: &mut [u8]) -> (r: Result<(usize, Transport), Error>)
        ensures
            old(message)@.len() < 96 + payload@.len() || !fits_aead(payload@.len() as int)
                ==> r == Err::<(usize, Transport), Error>(Error::Input),
            !(old(message)@.len() < 96 + payload@.len() || !fits_aead(payload@.len() as int))
                ==> (responder_dh_fails(self@) <==> r == Err::<(usize, Transport), Error>(Error::Dh)),
            !(old(message)@.len() < 96 + payload@.len() || !fits_aead(payload@.len() as int))
                && !responder_dh_fails(self@) ==> r is Ok,
            r is Ok || r == Err::<(usize, Transport), Error>(Error::Input) || r == Err::<(usize, Transport), Error>(Error::Dh),
            r matches Ok((len, t)) ==> {
                &&& len == 96 + payload@.len()
                &&& flight2(self@, payload@).len() == len
                &&& final(message)@ == overwritten(old(message)@, 0, flight2(self@, payload@))
                &&& e_part(final(message)@) == public_key_of(self@.e)
                &&& s_part(final(message)@) == responder_s_frame(self@)
                &&& final(message)@.subrange(80, len as int) == responder_p_frame(self@, payload@)
                &&& t@ == responder_transport(self@, payload@)
            },
            r is Err ==> final(message)@ == old(message)@,
    {
        if message.len() < Self::overhead() || message.len() - Self::overhead() < payload.len() {
            return Err(Error::Input);
        }
        if payload.len() as u64 > AEAD_MAX_LEN {
            return Err(Error::Input);
        }
        // The three shared secrets come first, so that a refused one leaves
        // `message` untouched; they enter the transcript in token order below.
        let ee = match x25519(self.e, self.re) {
            Ok(v) => v,
            Err(e) => return Err(e),
        };
        let se = match x25519(self.e, self.rs) {
            Ok(v) => v,
            Err(e) => return Err(e),
        };
        let es = match x25519(self.s, self.re) {
            Ok(v) => v,
            Err(e) => return Err(e),
        };
        let ghost r = self@;
        let mut c = self.c;

        // e
        let pub_e = pub_key(self.e);
        c.mix_hash(&pub_e);

        // ee, se
        c.mix_key(&ee);
        c.mix_key(&se);
        assert(c@ == responder_keyed(r));

        // s
        let pub_s = pub_key(self.s);
        let mut s_frame = [0u8; 48];
        let n = c.encrypt_and_hash(&pub_s, &mut s_frame);
        assert(n is Ok);
        assert(s_frame@ =~= responder_s_frame(r));

        // es
        c.mix_key(&es);
        assert(c@ == responder_es(r));

        // payload
        let (_, tail) = message.split_at_mut(DH_LEN + DH_LEN + TAG_LEN);
        let m = c.encrypt_and_hash(payload, tail);
        assert(m is Ok);
        copy_into(message, 0, &pub_e);
        copy_into(message, DH_LEN, &s_frame);
        assert(message@ =~= overwritten(old(message)@, 0, flight2(r, payload@)));
        assert(e_part(message@) =~= public_key_of(r.e));
        assert(s_part(message@) =~= responder_s_frame(r));
        assert(message@.subrange(80, 96 + payload@.len() as int) =~= responder_p_frame(r, payload@));

        // split
        let (c1, c2) = c.split();
        Ok((Self::overhead() + payload.len(), Transport::from_parts(self.rs, c2, c1)))
    }
}

impl Initiator2 {
    /// Bytes of the second flight beyond its payload.
    pub fn overhead() -> (r: usize)
        ensures
            r == 2 * DH_LEN + 2 * TAG_LEN,
    {
        DH_LEN + DH_LEN + TAG_LEN + TAG_LEN
    }

    /// Reads the second flight `message`: learns and authenticates the
    /// responder's static key, writes the payload into the front of
    /// `payload` and returns its length with the transport.
    pub fn read_message(self, message: &[u8], payload: &mut [u8]) -> (r: Result<(usize, Transport), Error>)
        ensures
            initiator_read_error(self@, message@, old(payload)@.len() as int) is None <==> r is Ok,
            r matches Err(e) ==> initiator_read_error(self@, message@, old(payload)@.len() as int) == Some(e),
            !flight2_refused(message@, old(payload)@.len() as int) && dh(self@.e, e_part(message@)) is Ok
                && dh(self@.s, e_part(message@)) is Ok ==> forall|q: Seq<u8>|
                #[trigger] initiator_keyed(self@, e_part(message@)).decrypts_to(s_part(message@), q)
                    ==> q == recovered_rs(self@, e_part(message@), s_part(message@)),
            r matches Ok((len, t)) ==> {
                let p = final(payload)@.subrange(0, len as int);
                let re = e_part(message@);
                &&& len == message@.len() - 96
                &&& t@.rs == recovered_rs(self@, re, s_part(message@))
                &&& t@ == initiator_transport(self@, re, s_part(message@), p_part(message@), t@.rs)
                &&& final(payload)@ == overwritten(old(payload)@, 0, p)
                &&& initiator_es(self@, re, s_part(message@), t@.rs).decrypts_to(p_part(message@), p)
                &&& forall|q: Seq<u8>|
                    #[trigger] initiator_es(self@, re, s_part(message@), t@.rs).decrypts_to(p_part(message@), q)
                    ==> q == p
            },
            r is Err ==> final(payload)@ == old(payload)@,
    {
        if message.len() < Self::overhead() {
            return Err(Error::Input);
        }
        if payload.len() < message.len() - Self::overhead() {
            return Err(Error::Input);
        }
        if (message.len() - Self::overhead()) as u64 > AEAD_MAX_LEN {
            return Err(Error::Input);
        }
        let ghost i = self@;
        let ghost m = message@;
        let mut c = self.c;

        // e
        let re = take32(message, 0);
        let ee = match x25519(self.e, re) {
            Ok(v) => v,
            Err(e) => return Err(e),
        };
        let se = match x25519(self.s, re) {
            Ok(v) => v,
            Err(e) => return Err(e),
        };
        c.mix_hash(&re);

        // ee, se
        c.mix_key(&ee);
        c.mix_key(&se);
        assert(c@ == initiator_keyed(i, e_part(m)));

        // s
        let s_frame = vstd::slice::slice_subrange(message, DH_LEN, 2 * DH_LEN + TAG_LEN);
        assert(s_frame@ =~= s_part(m));
        let mut rs = [0u8; DH_LEN];
        let ghost keyed_state = c@;
        match c.decrypt_and_hash(s_frame, &mut rs) {
            Ok(n) => {
                assert(rs@.subrange(0, n as int) =~= rs@);
                assert(keyed_state.decrypts_to(s_part(m), rs@));
                assert(keyed_state.decrypts_to(s_part(m), recovered_rs(i, e_part(m), s_part(m))));
            },
            Err(e) => return Err(e),
        }
        assert(rs@ == recovered_rs(i, e_part(m), s_part(m)));

        // es
        let es = match x25519(self.e, rs) {
            Ok(v) => v,
            Err(e) => return Err(e),
        };
        c.mix_key(&es);
        assert(c@ == initiator_es(i, e_part(m), s_part(m), rs@));

        // payload
        let p_frame = vstd::slice::slice_subrange(message, 2 * DH_LEN + TAG_LEN, message.len());
        assert(p_frame@ =~= p_part(m));
        let len = match c.decrypt_and_hash(p_frame, payload) {
            Ok(len) => len,
            Err(e) => return Err(e),
        };

        // split
        let (c1, c2) = c.split();
        Ok((len, Transport::from_parts(rs, c1, c2)))
    }
}

} // verus!
