use vstd::prelude::*;

use crate::amount::{Amount, amounts, sum64, wrap_sum};
use crate::errors::EngineError;
use crate::keys::KeysetId;
use crate::premint::{PreMintBundle, premint_amounts, secrets_distinct, secrets_well_formed};

verus! {

/// Half the range of the 64-bit width: the largest legal power-of-two
/// denomination, 2^63.
pub const HALF_RANGE: u64 = 0x8000_0000_0000_0000;

/// Wrapping summation of raw denominations: the deliberately unchecked
/// arithmetic of the adversarial path. It never clamps and never rejects.
pub fn wrapping_sum(vals: &Vec<Amount>) -> (r: u64)
    ensures
        r == wrap_sum(amounts(vals@)),
{
    let ghost s = amounts(vals@);
    let mut acc: u64 = 0;
    let mut i: usize = 0;
    while i < vals.len()
        invariant
            0 <= i <= vals.len(),
            s == amounts(vals@),
            s.len() == vals@.len(),
            acc == wrap_sum(s.take(i as int)),
        decreases vals.len() - i,
    {
        let x = vals[i].value;
        proof {
            assert(s[i as int] == x);
            assert(s.take(i + 1).drop_last() =~= s.take(i as int));
            assert(s.take(i + 1).last() == x);
            assert(((acc + x) % 0x1_0000_0000_0000_0000) as u64 == (if acc + x > u64::MAX {
                (acc + x - 0x1_0000_0000_0000_0000) as u64
            } else {
                (acc + x) as u64
            }));
        }
        acc = acc.wrapping_add(x);
        i = i + 1;
    }
    proof {
        assert(s.take(vals@.len() as int) =~= s);
    }
    acc
}

/// Law: the overflow probe's denominations are each a legal value of at most
/// 2^63, their naive wrapping sum is 1, and their true mathematical sum is
/// 2^64 + 1 — the identity the adversarial request is built on.
pub proof fn lemma_overflow_identity()
    ensures
        wrap_sum(seq![1u64, HALF_RANGE, HALF_RANGE]) == 1,
        sum64(seq![1u64, HALF_RANGE, HALF_RANGE]) == 0x1_0000_0000_0000_0001,
        forall|i: int|
            0 <= i < 3 ==> seq![1u64, HALF_RANGE, HALF_RANGE][i] <= HALF_RANGE,
{
    let s = seq![1u64, HALF_RANGE, HALF_RANGE];
    assert(s.drop_last() =~= seq![1u64, HALF_RANGE]);
    assert(seq![1u64, HALF_RANGE].drop_last() =~= seq![1u64]);
    assert(seq![1u64].drop_last() =~= Seq::<u64>::empty());
    assert(wrap_sum(Seq::<u64>::empty()) == 0);
    assert(sum64(Seq::<u64>::empty()) == 0);
    assert(wrap_sum(seq![1u64]) == 1);
    assert(wrap_sum(seq![1u64, HALF_RANGE]) == 0x8000_0000_0000_0001);
    assert((0x8000_0000_0000_0001 + 0x8000_0000_0000_0000) % 0x1_0000_0000_0000_0000 == 1);
    assert(sum64(seq![1u64]) == 1);
    assert(sum64(seq![1u64, HALF_RANGE]) == 0x8000_0000_0000_0001);
    assert(sum64(s) == 0x8000_0000_0000_0001 + 0x8000_0000_0000_0000);
}

/// Overflow Request Builder: a bundle whose blinded messages each carry a
/// legal power-of-two denomination while their declared amounts, summed
/// naively modulo 2^64, wrap to 1 — the true sum being 2^64 + 1. An ordinary
/// bundle of amount 1 is combined with two bundles of amount 2^63; the
/// combined total is never summed on the checked path, which would refuse to
/// construct it. Combining concatenates triples unchecked, so the combined
/// bundle is rescanned for a repeated secret — reuse is protocol-breaking —
/// and a repeat is a fatal `Crypto` failure.
pub fn build_overflow_bundle(keyset_id: KeysetId) -> (r: Result<PreMintBundle, EngineError>)
    ensures
        r matches Ok(b) ==> {
            &&& b.keyset_id == keyset_id
            &&& premint_amounts(b.triples@) == seq![1u64, HALF_RANGE, HALF_RANGE]
            &&& wrap_sum(premint_amounts(b.triples@)) == 1
            &&& sum64(premint_amounts(b.triples@)) == 0x1_0000_0000_0000_0001
            &&& secrets_well_formed(b.triples@)
            &&& secrets_distinct(b.triples@)
        },
        r matches Err(e) ==> e == EngineError::Crypto,
{
    proof {
        crate::amount::lemma_shl_is_pow2(63);
        assert(1u64 << 63u64 == 0x8000_0000_0000_0000u64) by (bit_vector);
        assert(HALF_RANGE * 1 == HALF_RANGE) by (nonlinear_arith);
        crate::amount::lemma_split_single(HALF_RANGE, 1);
    }
    let mut combined = match PreMintBundle::random(keyset_id, Amount { value: 1 }) {
        Ok(b) => b,
        Err(e) => {
            return Err(e);
        },
    };
    let h1 = match PreMintBundle::random(keyset_id, Amount { value: HALF_RANGE }) {
        Ok(b) => b,
        Err(e) => {
            return Err(e);
        },
    };
    let h2 = match PreMintBundle::random(keyset_id, Amount { value: HALF_RANGE }) {
        Ok(b) => b,
        Err(e) => {
            return Err(e);
        },
    };
    let ghost one_amounts = premint_amounts(combined.triples@);
    let ghost h_amounts = premint_amounts(h1.triples@);
    let ghost h2_amounts = premint_amounts(h2.triples@);
    let ghost one_triples = combined.triples@;
    let ghost h1_triples = h1.triples@;
    let ghost h2_triples = h2.triples@;
    combined.combine(h1);
    let ghost mid = premint_amounts(combined.triples@);
    combined.combine(h2);
    if combined.has_duplicate_secret() {
        return Err(EngineError::Crypto);
    }
    proof {
        assert(combined.triples@ =~= (one_triples + h1_triples) + h2_triples);
        assert forall|i: int| 0 <= i < combined.triples@.len() implies (
        #[trigger] combined.triples@[i]).secret@.len() == 64 by {
            let n1 = one_triples.len() as int;
            let n2 = h1_triples.len() as int;
            if i < n1 {
                assert(combined.triples@[i] == one_triples[i]);
            } else if i < n1 + n2 {
                assert(combined.triples@[i] == h1_triples[i - n1]);
            } else {
                assert(combined.triples@[i] == h2_triples[i - n1 - n2]);
            }
        }
    }
    proof {
        assert(crate::amount::split_rec(0u64, crate::amount::double(1u64)) =~= Seq::<
            u64,
        >::empty());
        assert(one_amounts =~= seq![1u64]);
        assert(h_amounts =~= seq![HALF_RANGE]);
        assert(h2_amounts =~= seq![HALF_RANGE]);
        assert(mid =~= one_amounts + h_amounts);
        assert(premint_amounts(combined.triples@) =~= mid + h2_amounts);
        assert(premint_amounts(combined.triples@) =~= seq![1u64, HALF_RANGE, HALF_RANGE]);
        lemma_overflow_identity();
    }
    Ok(combined)
}

} // verus!
