//! Signing capability used by the provable-broadcast primitive.
//!
//! The protocol requires only abstract operations: derive the value and
//! proof a node offers at a round, validate a proof, produce and validate
//! a partial signature, and combine a threshold of partial signatures.
//! How signatures are generated cryptographically is outside the
//! protocol; this module witnesses the interface with a deterministic
//! scheme whose artifacts record the claimed signer and round, so that
//! every operation has an exact contract. Values are derived from the
//! [`MessageStore`](crate::store::MessageStore), the record of each
//! peer's latest proposed value.

use crate::bytes::copy_bytes;
use crate::store::MessageStore;
use vstd::prelude::*;

verus! {

/// Attestation accompanying a value in an `Init` message: witnesses that
/// its signer proposed the value at the recorded round.
#[derive(Clone, Copy, PartialEq, Eq, Structural, Debug)]
pub struct Proof {
    pub signer: u64,
    pub round: u64,
}

/// One node's signature share over a round's value.
#[derive(Clone, Copy, PartialEq, Eq, Structural, Debug)]
pub struct PartialSignature {
    pub signer: u64,
    pub round: u64,
}

/// A partial signature together with the address that contributed it.
#[derive(Clone, Copy, PartialEq, Eq, Structural, Debug)]
pub struct SigShare {
    pub addr: u64,
    pub sig: PartialSignature,
}

/// Combination of a threshold of partial signatures for one round.
#[derive(Clone)]
pub struct CombinedSignature {
    pub round: u64,
    pub signers: Vec<u64>,
}

/// Mathematical shape of a [`CombinedSignature`].
pub struct CombinedSignatureModel {
    pub round: u64,
    pub signers: Seq<u64>,
}

impl View for CombinedSignature {
    type V = CombinedSignatureModel;

    open spec fn view(&self) -> CombinedSignatureModel {
        CombinedSignatureModel { round: self.round, signers: self.signers@ }
    }
}

/// The value a peer stands behind: its latest entry in the store, or the
/// empty value if it never proposed.
pub open spec fn spec_value_of(store: Map<u64, Seq<u8>>, addr: u64) -> Seq<u8> {
    if store.contains_key(addr) {
        store[addr]
    } else {
        Seq::empty()
    }
}

/// The proof `addr` attaches to its proposal at round `r`.
pub open spec fn spec_proof_of(addr: u64, r: u64) -> Proof {
    Proof { signer: addr, round: r }
}

/// A proof is accepted for round `r` iff it was issued for that round.
pub open spec fn spec_externally_validate(r: u64, value: Seq<u8>, p: Proof) -> bool {
    p.round == r
}

/// The partial signature `addr` issues over round `r`.
pub open spec fn spec_partial_sig_of(addr: u64, r: u64) -> PartialSignature {
    PartialSignature { signer: addr, round: r }
}

/// A partial signature is accepted as `addr`'s over round `r` iff it was
/// issued by `addr` for that round.
pub open spec fn spec_partially_validate(
    addr: u64,
    r: u64,
    value: Seq<u8>,
    ps: PartialSignature,
) -> bool {
    ps.signer == addr && ps.round == r
}

/// The combined signature formed from a sequence of shares.
pub open spec fn spec_combined_of(r: u64, shares: Seq<SigShare>) -> CombinedSignatureModel {
    CombinedSignatureModel { round: r, signers: shares.map_values(|s: SigShare| s.addr) }
}

/// The value and proof `addr` proposes at round `r`.
pub fn value_bft(store: &MessageStore, addr: u64, r: u64) -> (res: (Vec<u8>, Proof))
    ensures
        res.0@ == spec_value_of(store@, addr),
        res.1 == spec_proof_of(addr, r),
{
    let value = match store.get_value(addr) {
        Some(v) => copy_bytes(v),
        None => Vec::new(),
    };
    proof {
        if !store@.contains_key(addr) {
            assert(value@ =~= Seq::<u8>::empty());
        }
    }
    (value, Proof { signer: addr, round: r })
}

/// Checks a proposal's proof for round `r`.
pub fn externally_validate(r: u64, value: &Vec<u8>, p: &Proof) -> (res: bool)
    ensures
        res == spec_externally_validate(r, value@, *p),
{
    p.round == r
}

/// Issues `addr`'s partial signature over round `r`.
pub fn partially_sign(addr: u64, r: u64, value: &Vec<u8>) -> (res: PartialSignature)
    ensures
        res == spec_partial_sig_of(addr, r),
{
    let _ = value;
    PartialSignature { signer: addr, round: r }
}

/// Checks that `ps` is `addr`'s partial signature over round `r`.
pub fn partially_validate(addr: u64, r: u64, value: &Vec<u8>, ps: &PartialSignature) -> (res: bool)
    ensures
        res == spec_partially_validate(addr, r, value@, *ps),
{
    let _ = value;
    ps.signer == addr && ps.round == r
}

/// Combines the collected shares for round `r` into one signature.
pub fn combine_partial_signatures(r: u64, shares: &Vec<SigShare>) -> (res: CombinedSignature)
    ensures
        res@ == spec_combined_of(r, shares@),
{
    let mut signers: Vec<u64> = Vec::new();
    let mut i: usize = 0;
    while i < shares.len()
        invariant
            i <= shares.len(),
            signers@ == shares@.subrange(0, i as int).map_values(|s: SigShare| s.addr),
        decreases shares.len() - i,
    {
        signers.push(shares[i].addr);
        i = i + 1;
        proof {
            assert(signers@ =~= shares@.subrange(0, i as int).map_values(
                |s: SigShare| s.addr,
            ));
        }
    }
    proof {
        assert(shares@.subrange(0, shares@.len() as int) =~= shares@);
    }
    CombinedSignature { round: r, signers }
}

} // verus!
