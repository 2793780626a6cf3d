//! A running SHA3-256 accumulator.
//!
//! Every output handle mirrors the bytes it forwards to its sink into one of
//! these accumulators, so that two compilation passes can be compared for
//! byte-identical output without re-reading what was written.

use vstd::prelude::*;

verus! {

#[verifier::external_type_specification]
#[verifier::external_body]
pub struct ExSha3(crypto::sha3::Sha3);

/// The 32-byte SHA3-256 digest of a byte sequence, as the `crypto` crate
/// computes it. The result is a function of the bytes alone.
pub uninterp spec fn sha3_256_of(data: Seq<u8>) -> Seq<u8>;

/// A streaming SHA3-256 state together with the sequence of bytes fed into
/// it so far.
pub struct Sha3Accumulator {
    state: crypto::sha3::Sha3,
    fed: Ghost<Seq<u8>>,
}

impl Sha3Accumulator {
    /// The bytes fed into the accumulator so far, in order.
    pub closed spec fn fed(&self) -> Seq<u8> {
        self.fed@
    }

    /// A fresh accumulator with no input absorbed yet.
    pub fn new() -> (r: Sha3Accumulator)
        ensures
            r.fed() == Seq::<u8>::empty(),
    {
        Sha3Accumulator { state: new_sha3_state(), fed: Ghost(Seq::empty()) }
    }

    /// Relies on `crypto::digest::Digest::input`: a streaming digest absorbs
    /// input piecewise, so feeding `data` extends the absorbed sequence.
    #[verifier::external_body]
    pub fn input(&mut self, data: &[u8])
        ensures
            final(self).fed() == old(self).fed() + data@,
    {
        crypto::digest::Digest::input(&mut self.state, data);
    }

    /// Relies on `crypto::digest::Digest::result`: the 32-byte SHA3-256
    /// digest of everything absorbed so far, a function of those bytes alone.
    #[verifier::external_body]
    pub fn finish(self) -> (r: [u8; 32])
        ensures
            r@ == sha3_256_of(self.fed()),
    {
        let mut state = self.state;
        let mut out = [0u8; 32];
        crypto::digest::Digest::result(&mut state, &mut out);
        out
    }
}

/// Relies on `crypto::sha3::Sha3::sha3_256`, which returns a fresh SHA3-256
/// state with no input absorbed yet.
#[verifier::external_body]
fn new_sha3_state() -> crypto::sha3::Sha3 {
    crypto::sha3::Sha3::sha3_256()
}

} // verus!
