use vstd::prelude::*;

verus! {

/// A ledger identity (account address), 256 bits wide, stored as four 64-bit
/// words in big-endian word order. Identities are compared structurally; the
/// bridge never inspects anything but equality of identities.
#[derive(Clone, Copy, PartialEq, Eq, Structural, Debug)]
pub struct Identity {
    pub w0: u64,
    pub w1: u64,
    pub w2: u64,
    pub w3: u64,
}

} // verus!
