//! Noise_IX_25519_ChaChaPoly_BLAKE2s: the two-flight IX handshake and the
//! duplex transport channel it yields.
use vstd::prelude::*;

pub mod bytes;
pub mod cipher_state;
pub mod handshake;
pub mod laws;
pub mod payload;
pub mod primitives;
pub mod symmetric_state;
pub mod transport;
pub mod x25519;

pub use handshake::{initiator, responder, Initiator1, Initiator2, Responder1, Responder2};
pub use transport::{NoiseRead, NoiseWrite, Transport};
pub use x25519::{pub_key, x25519};
pub use payload::Relay;

verus! {

/// The three ways an operation of the channel can fail.
#[derive(Debug, Clone, Copy, PartialEq, Eq, Structural)]
pub enum Error {
    /// A buffer is too small, or a length is out of range.
    Input,
    /// An authentication tag did not verify.
    Decrypt,
    /// A Diffie-Hellman output was all zero.
    Dh,
}

} // verus!
