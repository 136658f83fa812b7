use vstd::prelude::*;

use crate::identity::Identity;

verus! {

/// Modulus that keeps each derivation lane inside 32 bits.
pub const LANE_MODULUS: u64 = 0x1_0000_0000;

/// The well-known seed bytes of the deployment's configuration record; the
/// signing identity is re-derived from them on every call that needs it.
pub open spec fn config_seed_spec() -> Seq<u8> {
    seq![99u8, 111u8, 110u8, 102u8, 105u8, 103u8]
}

/// The well-known seed bytes, as an executable value.
pub fn config_seed() -> (r: Vec<u8>)
    ensures
        r@ == config_seed_spec(),
{
    let mut v: Vec<u8> = Vec::new();
    v.push(99);
    v.push(111);
    v.push(110);
    v.push(102);
    v.push(105);
    v.push(103);
    proof {
        assert(v@ =~= config_seed_spec());
    }
    v
}

/// One lane of the signer derivation: a left-to-right byte fold, kept inside
/// 32 bits, started at a lane-specific value.
pub open spec fn lane_fold(s: Seq<u8>, start: int) -> int
    decreases s.len(),
{
    if s.len() == 0 {
        start
    } else {
        (lane_fold(s.drop_last(), start) * 31 + s.last()) % (LANE_MODULUS as int)
    }
}

/// The keyless signing identity derived from seed bytes: four independent
/// fold lanes. No private key exists for this identity; only the bridge core
/// can act as it.
pub open spec fn derived_of(seed: Seq<u8>) -> Identity {
    Identity {
        w0: lane_fold(seed, 1) as u64,
        w1: lane_fold(seed, 2) as u64,
        w2: lane_fold(seed, 3) as u64,
        w3: lane_fold(seed, 4) as u64,
    }
}

fn fold_lane_exec(seed: &Vec<u8>, start: u64) -> (r: u64)
    requires
        0 < start < LANE_MODULUS,
    ensures
        r == lane_fold(seed@, start as int),
        r < LANE_MODULUS,
{
    let mut acc: u64 = start;
    let mut i: usize = 0;
    while i < seed.len()
        invariant
            i <= seed@.len(),
            acc < LANE_MODULUS,
            acc == lane_fold(seed@.subrange(0, i as int), start as int),
        decreases seed@.len() - i,
    {
        proof {
            assert(seed@.subrange(0, i + 1 as int).drop_last() =~= seed@.subrange(0, i as int));
            assert(seed@.subrange(0, i + 1 as int).last() == seed@[i as int]);
        }
        acc = (acc * 31 + (seed[i] as u64)) % LANE_MODULUS;
        i += 1;
    }
    proof {
        assert(seed@.subrange(0, seed@.len() as int) =~= seed@);
    }
    acc
}

/// Re-derive the signing identity from seed bytes.
pub fn derive_signer(seed: &Vec<u8>) -> (r: Identity)
    ensures
        r == derived_of(seed@),
{
    Identity {
        w0: fold_lane_exec(seed, 1),
        w1: fold_lane_exec(seed, 2),
        w2: fold_lane_exec(seed, 3),
        w3: fold_lane_exec(seed, 4),
    }
}

/// The deployment's one configuration record: who initialized it, which
/// gateway identity is trusted as message origin, and the seed from which the
/// signing identity is derived.
pub struct BridgeConfig {
    pub authority: Identity,
    pub gateway_address: Identity,
    pub signing_seed: Vec<u8>,
}

impl BridgeConfig {
    /// Well-formed: the stored seed is the well-known configuration seed.
    pub open spec fn wf(&self) -> bool {
        self.signing_seed@ == config_seed_spec()
    }

    /// The signing identity this configuration derives.
    pub open spec fn spec_derived(&self) -> Identity {
        derived_of(self.signing_seed@)
    }

    /// Re-derive the signing identity held by this configuration.
    pub fn derived_signer(&self) -> (r: Identity)
        ensures
            r == self.spec_derived(),
    {
        derive_signer(&self.signing_seed)
    }
}

} // verus!
