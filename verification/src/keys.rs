use vstd::prelude::*;

use crate::errors::EngineError;

verus! {

/// A keyset identifier: the mint's 8 identifier bytes packed big-endian into
/// one integer.
#[derive(Clone, Copy, PartialEq, Eq, Structural, Debug)]
pub struct KeysetId {
    pub id: u64,
}

/// A directory entry: which keyset exists and whether it is active. Only an
/// active keyset may be minted against.
#[derive(Clone, Copy, PartialEq, Eq, Structural, Debug)]
pub struct KeysetInfo {
    pub id: KeysetId,
    pub active: bool,
}

pub open spec fn some_active(s: Seq<KeysetInfo>) -> bool {
    exists|i: int| 0 <= i < s.len() && (#[trigger] s[i]).active
}

/// Select the keyset to mint against: the first active entry, in source
/// order. A directory with no active keyset is an explicit, reported error,
/// never a crash.
pub fn select_active_keyset(infos: &Vec<KeysetInfo>) -> (r: Result<KeysetId, EngineError>)
    ensures
        (r is Ok) <==> some_active(infos@),
        r matches Ok(id) ==> exists|i: int|
            0 <= i < infos@.len() && (#[trigger] infos@[i]).active && infos@[i].id == id && forall|
                j: int,
            | 0 <= j < i ==> !(#[trigger] infos@[j]).active,
        r matches Err(e) ==> e == EngineError::NoActiveKeyset,
{
    let mut i: usize = 0;
    while i < infos.len()
        invariant
            0 <= i <= infos.len(),
            forall|j: int| 0 <= j < i ==> !(#[trigger] infos@[j]).active,
        decreases infos.len() - i,
    {
        if infos[i].active {
            return Ok(infos[i].id);
        }
        i = i + 1;
    }
    Err(EngineError::NoActiveKeyset)
}

/// The mint's public keys for one keyset, one entry per denomination. Read
/// only after the initial fetch; the engine never writes to it.
pub struct MintKeys {
    pub keyset_id: KeysetId,
    pub keys: Vec<(u64, cdk::nuts::PublicKey)>,
}

/// First-match lookup of the public key for a denomination.
pub open spec fn spec_key_for(s: Seq<(u64, cdk::nuts::PublicKey)>, denom: u64) -> Option<
    cdk::nuts::PublicKey,
>
    decreases s.len(),
{
    if s.len() == 0 {
        None
    } else if s[0].0 == denom {
        Some(s[0].1)
    } else {
        spec_key_for(s.drop_first(), denom)
    }
}

impl MintKeys {
    /// The public key under which the given denomination is signed.
    pub fn amount_key(&self, denom: u64) -> (r: Option<cdk::nuts::PublicKey>)
        ensures
            r == spec_key_for(self.keys@, denom),
    {
        let mut i: usize = 0;
        proof {
            assert(self.keys@.skip(0) =~= self.keys@);
        }
        while i < self.keys.len()
            invariant
                0 <= i <= self.keys.len(),
                spec_key_for(self.keys@, denom) == spec_key_for(
                    self.keys@.skip(i as int),
                    denom,
                ),
            decreases self.keys.len() - i,
        {
            proof {
                assert(self.keys@.skip(i as int)[0] == self.keys@[i as int]);
                assert(self.keys@.skip(i as int).drop_first() =~= self.keys@.skip(i + 1));
            }
            if self.keys[i].0 == denom {
                let k = crate::crypto::copy_pubkey(&self.keys[i].1);
                return Some(k);
            }
            i = i + 1;
        }
        proof {
            assert(self.keys@.skip(self.keys@.len() as int) =~= Seq::<
                (u64, cdk::nuts::PublicKey),
            >::empty());
        }
        None
    }
}

} // verus!
