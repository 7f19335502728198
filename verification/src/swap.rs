use vstd::prelude::*;

use crate::amount::{Amount, amounts, spec_split, sum64, wrap_sum};
use crate::errors::{EngineError, ProbeOutcome};
use crate::keys::KeysetId;
use crate::overflow::wrapping_sum;
use crate::premint::{BlindedMessage, PreMintBundle, message_amounts, premint_amounts};
use crate::proofs::{Proof, proof_amounts};

verus! {

/// A swap request: existing proofs to spend against freshly blinded outputs.
/// A conformant mint only accepts it when the amounts conserve value.
pub struct SwapRequest {
    pub inputs: Vec<Proof>,
    pub outputs: Vec<BlindedMessage>,
}

/// The denominations of the given proofs, as checked amounts.
pub fn proof_amounts_vec(proofs: &Vec<Proof>) -> (r: Vec<Amount>)
    ensures
        amounts(r@) == proof_amounts(proofs@),
        r@.len() == proofs@.len(),
{
    let mut out: Vec<Amount> = Vec::new();
    let mut i: usize = 0;
    while i < proofs.len()
        invariant
            0 <= i <= proofs.len(),
            out@.len() == i,
            forall|j: int| 0 <= j < i ==> (#[trigger] out@[j]) == proofs@[j].amount,
        decreases proofs.len() - i,
    {
        out.push(proofs[i].amount);
        i = i + 1;
    }
    proof {
        assert(amounts(out@) =~= proof_amounts(proofs@));
    }
    out
}

/// The denominations of the given blinded messages, as checked amounts.
pub fn message_amounts_vec(msgs: &Vec<BlindedMessage>) -> (r: Vec<Amount>)
    ensures
        amounts(r@) == message_amounts(msgs@),
        r@.len() == msgs@.len(),
{
    let mut out: Vec<Amount> = Vec::new();
    let mut i: usize = 0;
    while i < msgs.len()
        invariant
            0 <= i <= msgs.len(),
            out@.len() == i,
            forall|j: int| 0 <= j < i ==> (#[trigger] out@[j]) == msgs@[j].amount,
        decreases msgs.len() - i,
    {
        out.push(msgs[i].amount);
        i = i + 1;
    }
    proof {
        assert(amounts(out@) =~= message_amounts(msgs@));
    }
    out
}

/// Swap Coordinator, safe path: build a swap request whose freshly generated
/// outputs are the canonical decomposition of the checked input total, so
/// they sum to exactly the total of the inputs (conservation of value). An
/// overflowing input set is exactly the `AmountOverflow` failure; for an
/// input total of zero no blinding call is made and success is owed.
pub fn prepare_balanced_swap(inputs: Vec<Proof>, keyset_id: KeysetId) -> (r: Result<
    (SwapRequest, PreMintBundle),
    EngineError,
>)
    ensures
        r matches Ok(p) ==> {
            &&& p.0.inputs@ == inputs@
            &&& p.1.keyset_id == keyset_id
            &&& message_amounts(p.0.outputs@) == premint_amounts(p.1.triples@)
            &&& premint_amounts(p.1.triples@) == spec_split(
                sum64(proof_amounts(inputs@)) as u64,
            )
            &&& sum64(message_amounts(p.0.outputs@)) == sum64(proof_amounts(inputs@))
            &&& p.0.outputs@.len() == p.1.triples@.len()
        },
        sum64(proof_amounts(inputs@)) == 0 ==> r is Ok,
        (r matches Err(e) && e == EngineError::AmountOverflow) <==> sum64(proof_amounts(inputs@))
            > u64::MAX,
        r matches Err(e) ==> e == EngineError::AmountOverflow || e == EngineError::Crypto,
{
    let in_amounts = proof_amounts_vec(&inputs);
    let total = match Amount::try_sum(&in_amounts) {
        Ok(t) => t,
        Err(e) => {
            return Err(e);
        },
    };
    let bundle = match PreMintBundle::random(keyset_id, total) {
        Ok(b) => b,
        Err(e) => {
            return Err(e);
        },
    };
    proof {
        assert(sum64(proof_amounts(inputs@)) as u64 == total.value);
    }
    let outputs = bundle.blinded_messages();
    Ok((SwapRequest { inputs, outputs }, bundle))
}

/// Conservation of value between input and output denominations, as a
/// conformant mint must judge it: both sides representable and equal.
pub open spec fn conserves(ins: Seq<u64>, outs: Seq<u64>) -> bool {
    &&& sum64(ins) <= u64::MAX
    &&& sum64(outs) <= u64::MAX
    &&& sum64(ins) == sum64(outs)
}

/// Law: output sets generated for exactly the checked input total always
/// satisfy the conservation predicate — a swap built on the safe path is
/// owed acceptance by a conformant mint.
pub proof fn lemma_safe_swap_conserves(ins: Seq<u64>, outs: Seq<u64>)
    requires
        sum64(outs) == sum64(ins),
        sum64(ins) <= u64::MAX,
    ensures
        conserves(ins, outs),
{
}

/// Law: an output set whose true sum differs from the input's — by one unit
/// or by a wrapped 2^64 — never satisfies the conservation predicate, so a
/// conformant mint must reject it.
pub proof fn lemma_unbalanced_swap_refused(ins: Seq<u64>, outs: Seq<u64>)
    requires
        sum64(outs) != sum64(ins),
    ensures
        !conserves(ins, outs),
{
}

/// The conservation check a conformant mint performs on a swap request:
/// both sides summed with checked arithmetic and equal.
pub fn swap_conserves_value(req: &SwapRequest) -> (r: bool)
    ensures
        r <==> conserves(proof_amounts(req.inputs@), message_amounts(req.outputs@)),
{
    let ins = proof_amounts_vec(&req.inputs);
    let outs = message_amounts_vec(&req.outputs);
    let in_total = Amount::try_sum(&ins);
    let out_total = Amount::try_sum(&outs);
    match (in_total, out_total) {
        (Ok(a), Ok(b)) => a.value == b.value,
        _ => false,
    }
}

/// The naive check of a non-conformant mint: both sides summed with wrapping
/// arithmetic. An overflowing output set can pass this check while violating
/// conservation.
pub fn swap_wrapping_check(req: &SwapRequest) -> (r: bool)
    ensures
        r <==> wrap_sum(proof_amounts(req.inputs@)) == wrap_sum(message_amounts(req.outputs@)),
{
    let ins = proof_amounts_vec(&req.inputs);
    let outs = message_amounts_vec(&req.outputs);
    let a = wrapping_sum(&ins);
    let b = wrapping_sum(&outs);
    a == b
}

/// Law: against a single input of amount 1, the overflow probe's output set
/// passes the naive wrapping check while violating conservation: exactly the
/// discrepancy the probe exists to surface.
pub proof fn lemma_overflow_fools_naive_check()
    ensures
        wrap_sum(seq![1u64]) == wrap_sum(
            seq![1u64, crate::overflow::HALF_RANGE, crate::overflow::HALF_RANGE],
        ),
        !conserves(seq![1u64], seq![1u64, crate::overflow::HALF_RANGE, crate::overflow::HALF_RANGE]),
{
    crate::overflow::lemma_overflow_identity();
    assert(seq![1u64].drop_last() =~= Seq::<u64>::empty());
    assert(wrap_sum(Seq::<u64>::empty()) == 0);
    assert(sum64(Seq::<u64>::empty()) == 0);
    assert(wrap_sum(seq![1u64]) == 1);
    assert(sum64(seq![1u64]) == 1);
}

/// Classify what the mint's answer to the overflow probe means: accepting the
/// wrapping request is the conservation failure under test, rejecting it is
/// the expected outcome. An unexpected success is as significant as a
/// failure, so both are explicit.
pub fn evaluate_overflow_probe(mint_accepted: bool) -> (r: ProbeOutcome)
    ensures
        mint_accepted <==> r is OverflowAccepted,
        !mint_accepted <==> r is OverflowRejected,
{
    if mint_accepted {
        ProbeOutcome::OverflowAccepted
    } else {
        ProbeOutcome::OverflowRejected
    }
}

} // verus!
