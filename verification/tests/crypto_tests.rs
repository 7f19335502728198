use cdk::dhke::{sign_message, verify_message};
use cdk::nuts::SecretKey;
use ecash_probe::amount::Amount;
use ecash_probe::errors::EngineError;
use ecash_probe::keys::{KeysetId, MintKeys};
use ecash_probe::premint::{BlindedMessage, PreMint, PreMintBundle};
use ecash_probe::proofs::{construct_proofs, BlindSignature};

fn mint_keys_for(denoms: &[u64], keyset_id: KeysetId) -> (Vec<(u64, SecretKey)>, MintKeys) {
    let mut sks = Vec::new();
    let mut pks = Vec::new();
    for d in denoms {
        let sk = SecretKey::generate();
        pks.push((*d, sk.public_key()));
        sks.push((*d, sk));
    }
    (sks, MintKeys { keyset_id, keys: pks })
}

fn sign_all(sks: &[(u64, SecretKey)], msgs: &[BlindedMessage]) -> Vec<BlindSignature> {
    msgs.iter()
        .map(|m| {
            let sk = sks
                .iter()
                .find(|(d, _)| *d == m.amount.value)
                .map(|(_, s)| s)
                .unwrap();
            let c = sign_message(sk, &m.blinded_point).unwrap();
            BlindSignature { amount: m.amount, keyset_id: m.keyset_id, c }
        })
        .collect()
}

#[test]
fn safe_path_proofs_pass_the_verification_relation() {
    let kid = KeysetId { id: 7 };
    let (sks, keys) = mint_keys_for(&[1, 2, 4, 8], kid);
    let bundle = PreMintBundle::random(kid, Amount { value: 11 }).unwrap();
    let msgs = bundle.blinded_messages();
    let sigs = sign_all(&sks, &msgs);
    let proofs = construct_proofs(bundle, sigs, &keys).unwrap();
    assert_eq!(proofs.len(), 3);
    let vals: Vec<u64> = proofs.iter().map(|p| p.amount.value).collect();
    assert_eq!(vals, vec![1, 2, 8]);
    for p in &proofs {
        let sk = sks
            .iter()
            .find(|(d, _)| *d == p.amount.value)
            .map(|(_, s)| s)
            .unwrap();
        verify_message(sk, p.c, &p.secret).unwrap();
    }
}

#[test]
fn fresh_secrets_differ_across_triples_and_calls() {
    let kid = KeysetId { id: 7 };
    let a = PreMintBundle::random(kid, Amount { value: 3 }).unwrap();
    let b = PreMintBundle::random(kid, Amount { value: 3 }).unwrap();
    let mut seen: Vec<Vec<u8>> = Vec::new();
    for t in a.triples.iter().chain(b.triples.iter()) {
        assert_eq!(t.secret.len(), 64);
        assert!(!seen.contains(&t.secret));
        seen.push(t.secret.clone());
    }
}

#[test]
fn zero_amount_yields_an_empty_bundle() {
    let kid = KeysetId { id: 5 };
    let bundle = PreMintBundle::random(kid, Amount { value: 0 }).unwrap();
    assert!(bundle.triples.is_empty());
    assert!(bundle.blinded_messages().is_empty());
}

#[test]
fn empty_response_constructs_no_proofs_successfully() {
    let kid = KeysetId { id: 5 };
    let (_, keys) = mint_keys_for(&[1], kid);
    let bundle = PreMintBundle::random(kid, Amount { value: 0 }).unwrap();
    let proofs = construct_proofs(bundle, Vec::new(), &keys).unwrap();
    assert!(proofs.is_empty());
}

#[test]
fn repeated_secrets_are_detected() {
    let kid = KeysetId { id: 5 };
    let fresh = PreMintBundle::random(kid, Amount { value: 3 }).unwrap();
    assert!(!fresh.has_duplicate_secret());

    let sk = SecretKey::generate();
    let pk = sk.public_key();
    let mut triples = Vec::new();
    for _ in 0..2 {
        triples.push(PreMint {
            amount: Amount { value: 1 },
            secret: vec![7, 7, 7],
            blinding_factor: sk.clone(),
            blinded_point: pk,
        });
    }
    let reused = PreMintBundle { keyset_id: kid, triples };
    assert!(reused.has_duplicate_secret());
}

#[test]
fn combine_concatenates_bundles_in_order() {
    let kid = KeysetId { id: 3 };
    let mut a = PreMintBundle::random(kid, Amount { value: 5 }).unwrap();
    let b = PreMintBundle::random(kid, Amount { value: 2 }).unwrap();
    a.combine(b);
    let vals: Vec<u64> = a.amounts_vec().iter().map(|x| x.value).collect();
    assert_eq!(vals, vec![1, 4, 2]);
    assert_eq!(a.keyset_id, kid);
}

#[test]
fn too_few_signatures_is_a_protocol_mismatch() {
    let kid = KeysetId { id: 9 };
    let (sks, keys) = mint_keys_for(&[1, 2, 4, 8], kid);
    let bundle = PreMintBundle::random(kid, Amount { value: 11 }).unwrap();
    let msgs = bundle.blinded_messages();
    let mut sigs = sign_all(&sks, &msgs);
    sigs.pop();
    let r = construct_proofs(bundle, sigs, &keys);
    assert!(matches!(r, Err(EngineError::ProtocolMismatch)));
}

#[test]
fn too_many_signatures_is_a_protocol_mismatch() {
    let kid = KeysetId { id: 9 };
    let (sks, keys) = mint_keys_for(&[1, 2, 4, 8], kid);
    let bundle = PreMintBundle::random(kid, Amount { value: 11 }).unwrap();
    let msgs = bundle.blinded_messages();
    let mut sigs = sign_all(&sks, &msgs);
    let extra = sign_all(&sks, &msgs[..1]);
    sigs.extend(extra);
    let r = construct_proofs(bundle, sigs, &keys);
    assert!(matches!(r, Err(EngineError::ProtocolMismatch)));
}

#[test]
fn missing_denomination_key_is_a_crypto_error() {
    let kid = KeysetId { id: 9 };
    let (sks, _) = mint_keys_for(&[1, 2, 4, 8], kid);
    // A directory that lacks the key for denomination 8.
    let (_, small_keys) = mint_keys_for(&[1, 2], kid);
    let bundle = PreMintBundle::random(kid, Amount { value: 11 }).unwrap();
    let msgs = bundle.blinded_messages();
    let sigs = sign_all(&sks, &msgs);
    let r = construct_proofs(bundle, sigs, &small_keys);
    assert!(matches!(r, Err(EngineError::Crypto)));
}
