use vstd::prelude::*;

use crate::amount::Amount;
use crate::crypto::unblind_signature;
use crate::errors::EngineError;
use crate::keys::{KeysetId, MintKeys, spec_key_for};
use crate::premint::PreMintBundle;

verus! {

/// The mint's response to one blinded message: the blinded signature point
/// `C_` with the echoed denomination and keyset.
pub struct BlindSignature {
    pub amount: Amount,
    pub keyset_id: KeysetId,
    pub c: cdk::nuts::PublicKey,
}

/// A spendable token: a denomination, the revealed secret, and the unblinded
/// signature point `C`. This engine constructs proofs; verifying them is the
/// mint's responsibility.
pub struct Proof {
    pub amount: Amount,
    pub keyset_id: KeysetId,
    pub secret: Vec<u8>,
    pub c: cdk::nuts::PublicKey,
}

pub open spec fn sig_amounts(s: Seq<BlindSignature>) -> Seq<u64> {
    s.map_values(|b: BlindSignature| b.amount.value)
}

pub open spec fn proof_amounts(s: Seq<Proof>) -> Seq<u64> {
    s.map_values(|p: Proof| p.amount.value)
}

fn copy_bytes(v: &Vec<u8>) -> (r: Vec<u8>)
    ensures
        r@ == v@,
{
    let mut out: Vec<u8> = Vec::new();
    let mut i: usize = 0;
    while i < v.len()
        invariant
            0 <= i <= v.len(),
            out@ == v@.take(i as int),
        decreases v.len() - i,
    {
        out.push(v[i]);
        proof {
            assert(v@.take(i + 1) =~= v@.take(i as int).push(v@[i as int]));
        }
        i = i + 1;
    }
    proof {
        assert(v@.take(v@.len() as int) =~= v@);
    }
    out
}

/// Proof Constructor: unblind the mint's signatures into spendable proofs.
///
/// The signatures must correspond 1:1, in order, with the bundle's triples —
/// order is a protocol contract. A count mismatch is exactly the
/// `ProtocolMismatch` failure; a missing denomination key or a failed
/// unblinding is a `Crypto` failure, so with matched counts success is owed
/// whenever every unblinding call succeeds — unconditionally for the empty
/// response, where none is made. No network and no amount validation happen
/// here.
pub fn construct_proofs(bundle: PreMintBundle, signatures: Vec<BlindSignature>, keys: &MintKeys) -> (r:
    Result<Vec<Proof>, EngineError>)
    ensures
        (r matches Err(e) && e == EngineError::ProtocolMismatch) <==> signatures@.len()
            != bundle.triples@.len(),
        r matches Ok(ps) ==> {
            &&& ps@.len() == signatures@.len()
            &&& forall|i: int|
                0 <= i < ps@.len() ==> (#[trigger] ps@[i]).amount == signatures@[i].amount
                    && ps@[i].keyset_id == signatures@[i].keyset_id && ps@[i].secret@
                    == bundle.triples@[i].secret@
            &&& forall|i: int|
                0 <= i < signatures@.len() ==> (#[trigger] spec_key_for(
                    keys.keys@,
                    signatures@[i].amount.value,
                )) is Some
        },
        signatures@.len() == 0 && bundle.triples@.len() == 0 ==> r is Ok,
        signatures@.len() == bundle.triples@.len() && (exists|i: int|
            0 <= i < signatures@.len() && (#[trigger] spec_key_for(
                keys.keys@,
                signatures@[i].amount.value,
            )) is None) ==> (r matches Err(e) && e == EngineError::Crypto),
        r matches Err(e) ==> e == EngineError::ProtocolMismatch || e == EngineError::Crypto,
{
    if signatures.len() != bundle.triples.len() {
        return Err(EngineError::ProtocolMismatch);
    }
    let mut out: Vec<Proof> = Vec::new();
    let mut i: usize = 0;
    while i < signatures.len()
        invariant
            0 <= i <= signatures.len(),
            signatures@.len() == bundle.triples@.len(),
            out@.len() == i,
            forall|j: int|
                0 <= j < i ==> (#[trigger] out@[j]).amount == signatures@[j].amount
                    && out@[j].keyset_id == signatures@[j].keyset_id && out@[j].secret@
                    == bundle.triples@[j].secret@,
            forall|j: int|
                0 <= j < i ==> (#[trigger] spec_key_for(
                    keys.keys@,
                    signatures@[j].amount.value,
                )) is Some,
        decreases signatures.len() - i,
    {
        let mint_key = match keys.amount_key(signatures[i].amount.value) {
            Some(k) => k,
            None => {
                return Err(EngineError::Crypto);
            },
        };
        let c = match unblind_signature(
            &signatures[i].c,
            &bundle.triples[i].blinding_factor,
            &mint_key,
        ) {
            Ok(c) => c,
            Err(_) => {
                return Err(EngineError::Crypto);
            },
        };
        let secret = copy_bytes(&bundle.triples[i].secret);
        out.push(
            Proof {
                amount: signatures[i].amount,
                keyset_id: signatures[i].keyset_id,
                secret,
                c,
            },
        );
        i = i + 1;
    }
    Ok(out)
}

} // verus!
