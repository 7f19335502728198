use cdk::dhke::sign_message;
use cdk::nuts::SecretKey;
use ecash_probe::amount::Amount;
use ecash_probe::errors::ProbeOutcome;
use ecash_probe::keys::{KeysetId, MintKeys};
use ecash_probe::overflow::build_overflow_bundle;
use ecash_probe::premint::{BlindedMessage, PreMintBundle};
use ecash_probe::proofs::{construct_proofs, BlindSignature, Proof};
use ecash_probe::quote::{run_poll, MintQuote, PollOutcome, QuoteState};
use ecash_probe::swap::{
    evaluate_overflow_probe, prepare_balanced_swap, swap_conserves_value, swap_wrapping_check,
    SwapRequest,
};

/// A simulated mint. A conformant one checks conservation of value with the
/// engine's checked summation; a non-conformant one sums naively with
/// wrapping arithmetic.
struct MockMint {
    conformant: bool,
    keyset_id: KeysetId,
    sks: Vec<(u64, SecretKey)>,
    keys: MintKeys,
}

impl MockMint {
    fn new(conformant: bool, denoms: &[u64], keyset_id: KeysetId) -> MockMint {
        let mut sks = Vec::new();
        let mut pks = Vec::new();
        for d in denoms {
            let sk = SecretKey::generate();
            pks.push((*d, sk.public_key()));
            sks.push((*d, sk));
        }
        MockMint { conformant, keyset_id, sks, keys: MintKeys { keyset_id, keys: pks } }
    }

    fn sign_messages(&self, msgs: &[BlindedMessage]) -> Vec<BlindSignature> {
        msgs.iter()
            .map(|m| {
                let sk = self
                    .sks
                    .iter()
                    .find(|(d, _)| *d == m.amount.value)
                    .map(|(_, s)| s)
                    .unwrap();
                let c = sign_message(sk, &m.blinded_point).unwrap();
                BlindSignature { amount: m.amount, keyset_id: m.keyset_id, c }
            })
            .collect()
    }

    fn process_swap(&self, req: &SwapRequest) -> Option<Vec<BlindSignature>> {
        let ok = if self.conformant {
            swap_conserves_value(req)
        } else {
            swap_wrapping_check(req)
        };
        if ok {
            Some(self.sign_messages(&req.outputs))
        } else {
            None
        }
    }

    fn mint_proofs(&self, amount: u64) -> Vec<Proof> {
        let bundle = PreMintBundle::random(self.keyset_id, Amount { value: amount }).unwrap();
        let msgs = bundle.blinded_messages();
        let sigs = self.sign_messages(&msgs);
        construct_proofs(bundle, sigs, &self.keys).unwrap()
    }
}

const DENOMS: [u64; 5] = [1, 2, 4, 8, 1u64 << 63];

#[test]
fn balanced_swap_is_accepted_and_off_by_one_is_rejected() {
    let kid = KeysetId { id: 11 };
    let mint = MockMint::new(true, &DENOMS, kid);
    let inputs = mint.mint_proofs(5);
    let (req, bundle) = prepare_balanced_swap(inputs, kid).unwrap();
    let sigs = mint.process_swap(&req).expect("a conserving swap must be accepted");
    let new_proofs = construct_proofs(bundle, sigs, &mint.keys).unwrap();
    let total: u64 = new_proofs.iter().map(|p| p.amount.value).sum();
    assert_eq!(total, 5);

    // The same inputs against outputs declaring one unit more.
    let inputs = mint.mint_proofs(5);
    let parts = vec![Amount { value: 2 }, Amount { value: 4 }];
    let bigger = PreMintBundle::from_parts(kid, &parts).unwrap();
    let req = SwapRequest { inputs, outputs: bigger.blinded_messages() };
    assert!(mint.process_swap(&req).is_none(), "conservation must be enforced");
}

#[test]
fn off_by_one_swap_is_rejected_by_the_naive_mint_too() {
    let kid = KeysetId { id: 11 };
    let mint = MockMint::new(false, &DENOMS, kid);
    let inputs = mint.mint_proofs(5);
    let parts = vec![Amount { value: 2 }, Amount { value: 4 }];
    let bigger = PreMintBundle::from_parts(kid, &parts).unwrap();
    let req = SwapRequest { inputs, outputs: bigger.blinded_messages() };
    assert!(mint.process_swap(&req).is_none());
}

#[test]
fn preparing_a_swap_over_no_inputs_succeeds_with_no_outputs() {
    let kid = KeysetId { id: 19 };
    let (req, bundle) = prepare_balanced_swap(Vec::new(), kid).unwrap();
    assert!(req.inputs.is_empty());
    assert!(req.outputs.is_empty());
    assert!(bundle.triples.is_empty());
}

#[test]
fn preparing_a_swap_over_overflowing_inputs_fails_checked() {
    let kid = KeysetId { id: 19 };
    let mint = MockMint::new(true, &DENOMS, kid);
    let mut inputs = mint.mint_proofs(1u64 << 63);
    inputs.extend(mint.mint_proofs(1u64 << 63));
    let r = prepare_balanced_swap(inputs, kid);
    assert!(matches!(r, Err(ecash_probe::errors::EngineError::AmountOverflow)));
}

#[test]
fn overflow_probe_against_conformant_mint_reports_rejected() {
    let kid = KeysetId { id: 13 };
    let mint = MockMint::new(true, &DENOMS, kid);

    // Request a 1-sat quote and poll it to completion.
    let mut quote = MintQuote {
        quote_id: "quote-1".to_string(),
        payment_request: "invoice".to_string(),
        state: QuoteState::Unpaid,
    };
    let script = vec![QuoteState::Unpaid, QuoteState::Unpaid, QuoteState::Paid];
    let (checks, outcome) = run_poll(&script);
    assert_eq!((checks, outcome), (3, PollOutcome::PaymentConfirmed));
    quote.state = QuoteState::Paid;

    // Mint one proof of amount 1.
    let proofs = mint.mint_proofs(1);
    assert_eq!(proofs.len(), 1);
    assert_eq!(proofs[0].amount.value, 1);

    // Swap it for an overflowing output set.
    let overflow_bundle = build_overflow_bundle(kid).unwrap();
    let req = SwapRequest { inputs: proofs, outputs: overflow_bundle.blinded_messages() };
    let resp = mint.process_swap(&req);
    assert!(resp.is_none(), "a conformant mint must refuse the wrapping swap");
    assert_eq!(evaluate_overflow_probe(resp.is_some()), ProbeOutcome::OverflowRejected);
}

#[test]
fn overflow_probe_against_naive_mint_creates_value_from_nothing() {
    let kid = KeysetId { id: 17 };
    let mint = MockMint::new(false, &DENOMS, kid);

    let proofs = mint.mint_proofs(1);
    let total_in: u64 = proofs.iter().map(|p| p.amount.value).sum();
    assert_eq!(total_in, 1);

    // The naive mint accepts the wrapping swap.
    let overflow_bundle = build_overflow_bundle(kid).unwrap();
    let req = SwapRequest { inputs: proofs, outputs: overflow_bundle.blinded_messages() };
    let resp = mint.process_swap(&req);
    assert!(resp.is_some(), "the naive mint accepts the wrapping swap");
    assert_eq!(evaluate_overflow_probe(resp.is_some()), ProbeOutcome::OverflowAccepted);

    // The illegitimate proofs really exist and carry 2^64 + 1 in face value.
    let illegitimate = construct_proofs(overflow_bundle, resp.unwrap(), &mint.keys).unwrap();
    let vals: Vec<u64> = illegitimate.iter().map(|p| p.amount.value).collect();
    assert_eq!(vals, vec![1, 1u64 << 63, 1u64 << 63]);

    // And they can be spent in one further, value-conserving swap.
    let mut it = illegitimate.into_iter();
    let p1 = it.next().unwrap();
    let p2 = it.next().unwrap();
    let spend = vec![p1, p2];
    let (req2, bundle2) = prepare_balanced_swap(spend, kid).unwrap();
    let sigs2 = mint.process_swap(&req2).expect("spending the illegitimate proofs succeeds");
    let spent = construct_proofs(bundle2, sigs2, &mint.keys).unwrap();
    let total: u64 = spent.iter().map(|p| p.amount.value).sum();
    assert_eq!(total, (1u64 << 63) + 1);
}
