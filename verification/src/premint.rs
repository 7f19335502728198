use vstd::prelude::*;

use crate::amount::{Amount, amounts, sum64, spec_split, split_rec, lemma_split_roundtrip};
use crate::crypto::{blind_secret, copy_pubkey, generate_secret_bytes};
use crate::errors::EngineError;
use crate::keys::KeysetId;

verus! {

/// A blinded message sent to the mint for signing: a denomination, the keyset
/// it should be signed under, and the blinded point `B_`.
pub struct BlindedMessage {
    pub amount: Amount,
    pub keyset_id: KeysetId,
    pub blinded_point: cdk::nuts::PublicKey,
}

/// One (secret, blinding factor, blinded message) triple, generated for one
/// denomination. The secret and factor stay with the wallet; only the blinded
/// point leaves it.
pub struct PreMint {
    pub amount: Amount,
    pub secret: Vec<u8>,
    pub blinding_factor: cdk::nuts::SecretKey,
    pub blinded_point: cdk::nuts::PublicKey,
}

/// An ordered collection of triples generated together for one minting or
/// swap call.
pub struct PreMintBundle {
    pub keyset_id: KeysetId,
    pub triples: Vec<PreMint>,
}

pub open spec fn premint_amounts(s: Seq<PreMint>) -> Seq<u64> {
    s.map_values(|p: PreMint| p.amount.value)
}

pub open spec fn message_amounts(s: Seq<BlindedMessage>) -> Seq<u64> {
    s.map_values(|m: BlindedMessage| m.amount.value)
}

/// Each triple carries a 64-byte (hex of 32 random bytes) secret.
pub open spec fn secrets_well_formed(s: Seq<PreMint>) -> bool {
    forall|i: int| 0 <= i < s.len() ==> (#[trigger] s[i]).secret@.len() == 64
}

/// No secret appears twice within one bundle: reuse would let signatures
/// collide, so it is protocol-breaking.
pub open spec fn secrets_distinct(s: Seq<PreMint>) -> bool {
    forall|i: int, j: int|
        0 <= i < j < s.len() ==> (#[trigger] s[i]).secret@ != (#[trigger] s[j]).secret@
}

fn bytes_eq(a: &Vec<u8>, b: &Vec<u8>) -> (r: bool)
    ensures
        r <==> a@ == b@,
{
    if a.len() != b.len() {
        return false;
    }
    let mut i: usize = 0;
    while i < a.len()
        invariant
            0 <= i <= a.len(),
            a@.len() == b@.len(),
            forall|j: int| 0 <= j < i ==> a@[j] == b@[j],
        decreases a.len() - i,
    {
        if a[i] != b[i] {
            return false;
        }
        i = i + 1;
    }
    proof {
        assert(a@ =~= b@);
    }
    true
}

/// Whether the fresh secret repeats one already in the bundle.
fn secret_seen(out: &Vec<PreMint>, secret: &Vec<u8>) -> (r: bool)
    ensures
        r <==> exists|j: int| 0 <= j < out@.len() && (#[trigger] out@[j]).secret@ == secret@,
{
    let mut i: usize = 0;
    while i < out.len()
        invariant
            0 <= i <= out.len(),
            forall|j: int| 0 <= j < i ==> (#[trigger] out@[j]).secret@ != secret@,
        decreases out.len() - i,
    {
        if bytes_eq(&out[i].secret, secret) {
            return true;
        }
        i = i + 1;
    }
    false
}

/// Whether the secret at position `k` already occurs before it.
fn secret_in_prefix(ts: &Vec<PreMint>, k: usize) -> (r: bool)
    requires
        k < ts@.len(),
    ensures
        r <==> exists|j: int| 0 <= j < k && (#[trigger] ts@[j]).secret@ == ts@[k as int].secret@,
{
    let mut j: usize = 0;
    while j < k
        invariant
            0 <= j <= k < ts@.len(),
            forall|l: int| 0 <= l < j ==> (#[trigger] ts@[l]).secret@ != ts@[k as int].secret@,
        decreases k - j,
    {
        if bytes_eq(&ts[j].secret, &ts[k].secret) {
            return true;
        }
        j = j + 1;
    }
    false
}

/// Generate one triple per given denomination: a fresh random secret and a
/// fresh random blinding factor each, blinded through the scheme's commitment
/// function. A repeated secret — never expected of a sound random source —
/// is treated as a fatal failure, since reuse enables token collision.
fn generate_triples(parts: &Vec<Amount>) -> (r: Result<Vec<PreMint>, EngineError>)
    ensures
        r matches Ok(ts) ==> {
            &&& premint_amounts(ts@) == amounts(parts@)
            &&& forall|i: int|
                0 <= i < ts@.len() ==> (#[trigger] ts@[i]).amount == parts@[i]
            &&& secrets_well_formed(ts@)
            &&& secrets_distinct(ts@)
        },
        parts@.len() == 0 ==> r is Ok,
        r matches Err(e) ==> e == EngineError::Crypto,
{
    let mut out: Vec<PreMint> = Vec::new();
    let mut i: usize = 0;
    while i < parts.len()
        invariant
            0 <= i <= parts.len(),
            out@.len() == i,
            forall|j: int| 0 <= j < i ==> (#[trigger] out@[j]).amount == parts@[j],
            secrets_well_formed(out@),
            secrets_distinct(out@),
        decreases parts.len() - i,
    {
        let secret = generate_secret_bytes();
        if secret_seen(&out, &secret) {
            return Err(EngineError::Crypto);
        }
        let blinded = blind_secret(&secret);
        match blinded {
            Ok(pair) => {
                let (point, factor) = pair;
                out.push(
                    PreMint {
                        amount: parts[i],
                        secret,
                        blinding_factor: factor,
                        blinded_point: point,
                    },
                );
            },
            Err(_) => {
                return Err(EngineError::Crypto);
            },
        }
        i = i + 1;
    }
    proof {
        assert(premint_amounts(out@) =~= amounts(parts@));
    }
    Ok(out)
}

impl PreMintBundle {
    /// Blinded Secret Generator, default split policy: one triple per
    /// denomination of the canonical decomposition of `total`. The parts of
    /// the bundle therefore sum back to `total` exactly.
    pub fn random(keyset_id: KeysetId, total: Amount) -> (r: Result<PreMintBundle, EngineError>)
        ensures
            r matches Ok(b) ==> {
                &&& b.keyset_id == keyset_id
                &&& premint_amounts(b.triples@) == spec_split(total.value)
                &&& sum64(premint_amounts(b.triples@)) == total.value
                &&& secrets_well_formed(b.triples@)
                &&& secrets_distinct(b.triples@)
            },
            total.value == 0 ==> r is Ok,
            r matches Err(e) ==> e == EngineError::Crypto,
    {
        let parts = total.split();
        proof {
            if total.value == 0 {
                assert(split_rec(0u64, 1u64) =~= Seq::<u64>::empty());
                assert(amounts(parts@).len() == 0);
            }
        }
        match generate_triples(&parts) {
            Ok(triples) => {
                proof {
                    lemma_split_roundtrip(total);
                }
                Ok(PreMintBundle { keyset_id, triples })
            },
            Err(e) => Err(e),
        }
    }

    /// Blinded Secret Generator, caller-chosen split: one triple per given
    /// denomination, in the given order. This is the pluggable-policy hook:
    /// the denominations are taken as they stand, with no summation check.
    pub fn from_parts(keyset_id: KeysetId, parts: &Vec<Amount>) -> (r: Result<
        PreMintBundle,
        EngineError,
    >)
        ensures
            r matches Ok(b) ==> {
                &&& b.keyset_id == keyset_id
                &&& premint_amounts(b.triples@) == amounts(parts@)
                &&& secrets_well_formed(b.triples@)
                &&& secrets_distinct(b.triples@)
            },
            parts@.len() == 0 ==> r is Ok,
            r matches Err(e) ==> e == EngineError::Crypto,
    {
        match generate_triples(parts) {
            Ok(triples) => Ok(PreMintBundle { keyset_id, triples }),
            Err(e) => Err(e),
        }
    }

    /// Whether any secret repeats within this bundle. Combining bundles
    /// concatenates their triples unchecked, so a combined request is held
    /// to the no-reuse rule with this scan before it is used.
    pub fn has_duplicate_secret(&self) -> (r: bool)
        ensures
            r <==> !secrets_distinct(self.triples@),
    {
        let mut k: usize = 0;
        while k < self.triples.len()
            invariant
                0 <= k <= self.triples@.len(),
                forall|a: int, b: int|
                    0 <= a < b < k ==> (#[trigger] self.triples@[a]).secret@ != (
                    #[trigger] self.triples@[b]).secret@,
            decreases self.triples@.len() - k,
        {
            if secret_in_prefix(&self.triples, k) {
                return true;
            }
            k = k + 1;
        }
        false
    }

    /// The blinded messages of this bundle, in order: what is sent to the
    /// mint, each message under this bundle's keyset.
    pub fn blinded_messages(&self) -> (r: Vec<BlindedMessage>)
        ensures
            r@.len() == self.triples@.len(),
            forall|i: int|
                0 <= i < r@.len() ==> (#[trigger] r@[i]).amount == self.triples@[i].amount
                    && r@[i].keyset_id == self.keyset_id && r@[i].blinded_point
                    == self.triples@[i].blinded_point,
            message_amounts(r@) == premint_amounts(self.triples@),
    {
        let mut out: Vec<BlindedMessage> = Vec::new();
        let mut i: usize = 0;
        while i < self.triples.len()
            invariant
                0 <= i <= self.triples.len(),
                out@.len() == i,
                forall|j: int|
                    0 <= j < i ==> (#[trigger] out@[j]).amount == self.triples@[j].amount
                        && out@[j].keyset_id == self.keyset_id && out@[j].blinded_point
                        == self.triples@[j].blinded_point,
            decreases self.triples.len() - i,
        {
            let point = copy_pubkey(&self.triples[i].blinded_point);
            out.push(
                BlindedMessage {
                    amount: self.triples[i].amount,
                    keyset_id: self.keyset_id,
                    blinded_point: point,
                },
            );
            i = i + 1;
        }
        proof {
            assert(message_amounts(out@) =~= premint_amounts(self.triples@));
        }
        out
    }

    /// Concatenate another bundle onto this one, preserving per-triple order:
    /// the combined request mechanism the overflow builder relies on.
    pub fn combine(&mut self, other: PreMintBundle)
        ensures
            final (self).keyset_id == old(self).keyset_id,
            final (self).triples@ == old(self).triples@ + other.triples@,
    {
        let mut o = other;
        self.triples.append(&mut o.triples);
    }

    /// The denominations of this bundle, as checked amounts.
    pub fn amounts_vec(&self) -> (r: Vec<Amount>)
        ensures
            amounts(r@) == premint_amounts(self.triples@),
            r@.len() == self.triples@.len(),
    {
        let mut out: Vec<Amount> = Vec::new();
        let mut i: usize = 0;
        while i < self.triples.len()
            invariant
                0 <= i <= self.triples.len(),
                out@.len() == i,
                forall|j: int| 0 <= j < i ==> (#[trigger] out@[j]) == self.triples@[j].amount,
            decreases self.triples.len() - i,
        {
            out.push(self.triples[i].amount);
            i = i + 1;
        }
        proof {
            assert(amounts(out@) =~= premint_amounts(self.triples@));
        }
        out
    }
}

} // verus!
