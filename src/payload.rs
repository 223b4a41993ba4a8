//! Application messages carried inside the transport.
use vstd::prelude::*;

verus! {

/// A message that one peer asks to have passed on to another, each named by
/// its static public key.
#[derive(Debug, Clone)]
pub struct Relay {
    pub src: Vec<u8>,
    pub dest: Vec<u8>,
    pub dat: Vec<u8>,
}

} // verus!
