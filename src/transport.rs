//! The channel after the handshake: one cipher state for each direction.
use vstd::prelude::*;

use crate::bytes::overwritten;
use crate::cipher_state::{
    authentic, decrypt_input_error, encrypt_input_error, opens_to, sealed, CipherModel, CipherState, TAG_LEN,
};
use crate::Error;

verus! {

/// Writing `payload` as one frame from the cipher state `c` into the buffer
/// `out` gave the result `r`, the buffer `out2` and the cipher state `c2`.
pub open spec fn frame_written(
    c: CipherModel,
    payload: Seq<u8>,
    out: Seq<u8>,
    r: Result<usize, Error>,
    out2: Seq<u8>,
    c2: CipherModel,
) -> bool {
    &&& encrypt_input_error(payload.len() as int, out.len() as int) ==> r == Err::<usize, Error>(Error::Input)
    &&& !encrypt_input_error(payload.len() as int, out.len() as int) && c.exhausted()
        ==> r == Err::<usize, Error>(Error::Decrypt)
    &&& !encrypt_input_error(payload.len() as int, out.len() as int) && !c.exhausted() ==> r is Ok
    &&& r matches Ok(len) ==> {
        &&& len == payload.len() + TAG_LEN
        &&& sealed(c, Seq::empty(), payload).len() == len
        &&& out2 == overwritten(out, 0, sealed(c, Seq::empty(), payload))
        &&& c2 == c.advanced()
    }
    &&& r is Err ==> out2 == out && c2 == c
}

/// Reading the frame `frame` with the cipher state `c` into the buffer `out`
/// gave the result `r`, the buffer `out2` and the cipher state `c2`.
pub open spec fn frame_read(
    c: CipherModel,
    frame: Seq<u8>,
    out: Seq<u8>,
    r: Result<usize, Error>,
    out2: Seq<u8>,
    c2: CipherModel,
) -> bool {
    &&& decrypt_input_error(frame.len() as int, out.len() as int) ==> r == Err::<usize, Error>(Error::Input)
    &&& !decrypt_input_error(frame.len() as int, out.len() as int)
        ==> (r is Ok <==> !c.exhausted() && authentic(c, Seq::empty(), frame))
    &&& !decrypt_input_error(frame.len() as int, out.len() as int) && !(r is Ok)
        ==> r == Err::<usize, Error>(Error::Decrypt)
    &&& r matches Ok(len) ==> {
        &&& len + TAG_LEN == frame.len()
        &&& out2 == overwritten(out, 0, out2.subrange(0, len as int))
        &&& opens_to(c, Seq::empty(), frame, out2.subrange(0, len as int))
        &&& c2 == c.advanced()
    }
    &&& r matches Ok(len) ==> forall|p: Seq<u8>| #[trigger] opens_to(c, Seq::empty(), frame, p)
        ==> p == out2.subrange(0, len as int)
    &&& r is Err ==> out2 == out && c2 == c
}

/// Writes one frame with `c`: the cipher state's contract, with no
/// associated data.
fn write_frame(c: &mut CipherState, payload: &[u8], message: &mut [u8]) -> (r: Result<usize, Error>)
    ensures
        frame_written(old(c)@, payload@, old(message)@, r, final(message)@, final(c)@),
{
    let nothing: [u8; 0] = [];
    assert(nothing@ =~= Seq::<u8>::empty());
    c.encrypt_with_ad(&nothing, payload, message)
}

/// Reads one frame with `c`: the cipher state's contract, with no
/// associated data.
fn read_frame(c: &mut CipherState, message: &[u8], payload: &mut [u8]) -> (r: Result<usize, Error>)
    ensures
        frame_read(old(c)@, message@, old(payload)@, r, final(payload)@, final(c)@),
{
    let nothing: [u8; 0] = [];
    assert(nothing@ =~= Seq::<u8>::empty());
    c.decrypt_with_ad(&nothing, message, payload)
}

/// A transport as a value.
pub ghost struct TransportModel {
    pub rs: Seq<u8>,
    pub send: CipherModel,
    pub recv: CipherModel,
}

/// A completed handshake: the peer's static key and a cipher state for each
/// direction.
pub struct Transport {
    rs: [u8; 32],
    send: CipherState,
    recv: CipherState,
}

impl View for Transport {
    type V = TransportModel;

    closed spec fn view(&self) -> TransportModel {
        TransportModel { rs: self.rs@, send: self.send@, recv: self.recv@ }
    }
}

/// The receiving half of a transport.
pub struct NoiseRead {
    recv: CipherState,
}

impl View for NoiseRead {
    type V = CipherModel;

    closed spec fn view(&self) -> CipherModel {
        self.recv@
    }
}

/// The sending half of a transport.
pub struct NoiseWrite {
    send: CipherState,
}

impl View for NoiseWrite {
    type V = CipherModel;

    closed spec fn view(&self) -> CipherModel {
        self.send@
    }
}

impl Transport {
    /// A transport from its parts.
    pub(crate) fn from_parts(rs: [u8; 32], send: CipherState, recv: CipherState) -> (r: Self)
        ensures
            r@ == (TransportModel { rs: rs@, send: send@, recv: recv@ }),
    {
        Transport { rs, send, recv }
    }

    /// Encrypts `payload` as one frame into the front of `message` and
    /// returns the frame length. Only the sending cipher state moves on.
    pub fn write_message(&mut self, payload: &[u8], message: &mut [u8]) -> (r: Result<usize, Error>)
        ensures
            frame_written(old(self)@.send, payload@, old(message)@, r, final(message)@, final(self)@.send),
            final(self)@.recv == old(self)@.recv,
            final(self)@.rs == old(self)@.rs,
    {
        write_frame(&mut self.send, payload, message)
    }

    /// Decrypts the frame `message` into the front of `payload` and returns
    /// the plaintext length. Only the receiving cipher state moves on, and
    /// only on success.
    pub fn read_message(&mut self, message: &[u8], payload: &mut [u8]) -> (r: Result<usize, Error>)
        ensures
            frame_read(old(self)@.recv, message@, old(payload)@, r, final(payload)@, final(self)@.recv),
            final(self)@.send == old(self)@.send,
            final(self)@.rs == old(self)@.rs,
    {
        read_frame(&mut self.recv, message, payload)
    }

    /// The remote party's static public key.
    pub fn remote_static(&self) -> (r: [u8; 32])
        ensures
            r@ == self@.rs,
    {
        self.rs
    }

    /// The nonce of the next frame to be written.
    pub fn send_nonce(&self) -> (r: u64)
        ensures
            r == self@.send.nonce,
    {
        self.send.nonce()
    }

    /// The nonce of the next frame to be read.
    pub fn recv_nonce(&self) -> (r: u64)
        ensures
            r == self@.recv.nonce,
    {
        self.recv.nonce()
    }

    /// Divides the transport into a reader and a writer that each own one
    /// direction.
    pub fn split(self) -> (r: (NoiseRead, NoiseWrite))
        ensures
            r.0@ == self@.recv,
            r.1@ == self@.send,
    {
        (NoiseRead { recv: self.recv }, NoiseWrite { send: self.send })
    }
}

impl NoiseRead {
    /// Decrypts the frame `message` into the front of `payload`.
    pub fn read_message(&mut self, message: &[u8], payload: &mut [u8]) -> (r: Result<usize, Error>)
        ensures
            frame_read(old(self)@, message@, old(payload)@, r, final(payload)@, final(self)@),
    {
        read_frame(&mut self.recv, message, payload)
    }

    /// The nonce of the next frame to be read.
    pub fn nonce(&self) -> (r: u64)
        ensures
            r == self@.nonce,
    {
        self.recv.nonce()
    }
}

impl NoiseWrite {
    /// Encrypts `payload` as one frame into the front of `message`.
    pub fn write_message(&mut self, payload: &[u8], message: &mut [u8]) -> (r: Result<usize, Error>)
        ensures
            frame_written(old(self)@, payload@, old(message)@, r, final(message)@, final(self)@),
    {
        write_frame(&mut self.send, payload, message)
    }

    /// The nonce of the next frame to be written.
    pub fn nonce(&self) -> (r: u64)
        ensures
            r == self@.nonce,
    {
        self.send.nonce()
    }
}

} // verus!
