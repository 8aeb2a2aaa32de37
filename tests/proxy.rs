use ed25519_dalek::{Signer, SigningKey};
use intents_proxy::error::{ErrorKind, ProxyError};
use intents_proxy::flows::{EphemeralAssignPayload, WithdrawEphemeral};
use intents_proxy::hashing::{compute_erc191_hash, frame_message};
use intents_proxy::intents::{
    validate_batch, DefuseIntents, FtWithdraw, Intent, IntentKind, NativeWithdraw, TokenDiff,
};
use intents_proxy::keys::{public_key_to_string, CurveType, PublicKey};
use intents_proxy::registry::{IntentsProxyMpcContract, KeyInfo};
use intents_proxy::signing::{
    create_sign_request_from_transaction, on_mpc_signatures_received, SignOutcome, SignResult,
};
use intents_proxy::utils::{vec_to_64_byte_array, vec_to_fixed};

const ONE_NEAR: u128 = 1_000_000_000_000_000_000_000_000;

fn signer(seed: u8) -> SigningKey {
    SigningKey::from_bytes(&[seed; 32])
}

fn key_of(sk: &SigningKey) -> PublicKey {
    PublicKey { curve: CurveType::Ed25519, data: sk.verifying_key().to_bytes().to_vec() }
}

fn sign(sk: &SigningKey, bytes: &[u8]) -> Vec<u8> {
    let digest = compute_erc191_hash(&bytes.to_vec());
    sk.sign(&digest).to_bytes().to_vec()
}

fn token_diff(token: &str, delta: i128) -> Intent {
    Intent::TokenDiff(TokenDiff { diff: vec![(token.to_string(), delta)], memo: None, referral: None })
}

fn ft_withdraw(amount: u128) -> Intent {
    Intent::FtWithdraw(FtWithdraw {
        token: "usdc.near".to_string(),
        receiver_id: "alice.near".to_string(),
        amount,
        memo: None,
        msg: None,
        storage_deposit: None,
    })
}

fn native_withdraw() -> Intent {
    Intent::NativeWithdraw(NativeWithdraw { receiver_id: "alice.near".to_string(), amount: 5 })
}

fn signature_of(tag: &str) -> SignResult {
    SignResult { big_r: tag.to_string(), s: tag.to_string(), recovery_id: 0 }
}

fn assign_bytes(owner: &PublicKey, nonce: u64, portfolio_id: u32) -> Vec<u8> {
    format!(
        "{{\"owner_pubkey\":\"{}\",\"nonce\":{},\"portfolio_id\":{}}}",
        public_key_to_string(owner),
        nonce,
        portfolio_id
    )
    .into_bytes()
}

/// A state with portfolio 1 owned by A and agent B bound to it (A's nonce is 1).
fn setup() -> (IntentsProxyMpcContract, SigningKey, SigningKey) {
    let a = signer(1);
    let b = signer(2);
    let mut c = IntentsProxyMpcContract::new("v1.signer".to_string());
    assert_eq!(c.create_portfolio(key_of(&a)), Ok(1));
    let bytes = assign_bytes(&key_of(&a), 1, 1);
    let payload = EphemeralAssignPayload { owner_pubkey: key_of(&a), nonce: 1, portfolio_id: 1 };
    let sig = sign(&a, &bytes);
    assert_eq!(c.assign_portfolio_agent(&bytes, &payload, &sig, key_of(&b), 1), Ok(()));
    (c, a, b)
}

fn withdraw_payload(a: &SigningKey, nonce: u64, intents: Vec<Intent>) -> WithdrawEphemeral {
    WithdrawEphemeral {
        owner_pubkey: key_of(a),
        nonce,
        defuse_intents: DefuseIntents { intents },
        portfolio_id: 1,
    }
}

#[test]
fn create_portfolio_ids_increase_from_one() {
    let mut c = IntentsProxyMpcContract::new("v1.signer".to_string());
    let a = key_of(&signer(1));
    let b = key_of(&signer(2));
    assert_eq!(c.create_portfolio(a.clone()), Ok(1));
    assert_eq!(c.create_portfolio(b.clone()), Ok(2));
    assert_eq!(c.create_portfolio(a.clone()), Ok(3));
    let user = c.get_user(&a).unwrap();
    assert_eq!(user.nonce, 0);
    assert_eq!(user.portfolios, vec![1, 3]);
    assert_eq!(c.get_user(&b).unwrap().portfolios, vec![2]);
    assert_eq!(c.get_portfolio(2).unwrap().owner_key.data, b.data);
    assert!(c.get_portfolio(0).is_none());
    assert!(c.get_portfolio(4).is_none());
    assert_eq!(c.mpc_contract_id(), "v1.signer");
}

#[test]
fn assign_then_replay_is_stale() {
    let a = signer(1);
    let b = signer(2);
    let mut c = IntentsProxyMpcContract::new("v1.signer".to_string());
    assert_eq!(c.create_portfolio(key_of(&a)), Ok(1));
    assert_eq!(c.get_user(&key_of(&a)).unwrap().nonce, 0);
    let bytes = assign_bytes(&key_of(&a), 1, 1);
    let payload = EphemeralAssignPayload { owner_pubkey: key_of(&a), nonce: 1, portfolio_id: 1 };
    let sig = sign(&a, &bytes);
    assert_eq!(c.assign_portfolio_agent(&bytes, &payload, &sig, key_of(&b), 1), Ok(()));
    assert_eq!(c.get_user(&key_of(&a)).unwrap().nonce, 1);
    assert_eq!(c.agent_portfolio(&key_of(&b)), Some(KeyInfo { portfolio_id: 1 }));
    let replay = c.assign_portfolio_agent(&bytes, &payload, &sig, key_of(&b), 1);
    assert_eq!(replay, Err(ProxyError::StaleNonce));
    assert_eq!(replay.unwrap_err().kind(), ErrorKind::Authorization);
    assert_eq!(c.get_user(&key_of(&a)).unwrap().nonce, 1);
}

#[test]
fn rebalance_by_agent_dispatches_one_request() {
    let (c, a, b) = setup();
    let batch = DefuseIntents { intents: vec![token_diff("usdc.near", 10), token_diff("wnear", -3)] };
    let json = b"{\"intents\":[]}".to_vec();
    let reqs = c.balance_portfolio(&key_of(&b), 1, &batch, &json).unwrap();
    assert_eq!(reqs.len(), 1);
    assert_eq!(reqs[0].payload, compute_erc191_hash(&json));
    assert_eq!(reqs[0].path, public_key_to_string(&key_of(&a)));
    assert_eq!(reqs[0].key_version, 0);
    let done = on_mpc_signatures_received(1, vec![SignOutcome::Signed(signature_of("x"))]).unwrap();
    assert_eq!(done.signatures.len(), 1);
    assert_eq!(done.signatures[0].big_r, "x");
    assert_eq!(done.refund, ONE_NEAR);
}

#[test]
fn withdraw_partial_signing_refunds_dispatched_count() {
    let (mut c, a, _b) = setup();
    let payload = withdraw_payload(&a, 2, vec![ft_withdraw(5), ft_withdraw(7)]);
    let bytes = b"{\"nonce\":2}".to_vec();
    let sig = sign(&a, &bytes);
    let parts = vec![b"first".to_vec(), b"second".to_vec()];
    let reqs = c.withdraw_funds(&bytes, &payload, &sig, &parts).unwrap();
    assert_eq!(reqs.len(), 2);
    assert_eq!(reqs[0].payload, compute_erc191_hash(&parts[0]));
    assert_eq!(reqs[1].payload, compute_erc191_hash(&parts[1]));
    assert_ne!(reqs[0].payload, reqs[1].payload);
    assert_eq!(reqs[1].path, public_key_to_string(&key_of(&a)));
    assert_eq!(c.get_user(&key_of(&a)).unwrap().nonce, 2);
    let done = on_mpc_signatures_received(
        2,
        vec![SignOutcome::Signed(signature_of("y")), SignOutcome::Failed],
    )
    .unwrap();
    assert_eq!(done.signatures.len(), 1);
    assert_eq!(done.refund, 2 * ONE_NEAR);
}

#[test]
fn withdraw_same_nonce_twice_fails() {
    let (mut c, a, _b) = setup();
    let payload = withdraw_payload(&a, 5, vec![ft_withdraw(1)]);
    let bytes = b"{\"nonce\":5}".to_vec();
    let sig = sign(&a, &bytes);
    let parts = vec![b"only".to_vec()];
    assert!(c.withdraw_funds(&bytes, &payload, &sig, &parts).is_ok());
    let again = c.withdraw_funds(&bytes, &payload, &sig, &parts);
    assert_eq!(again.unwrap_err(), ProxyError::StaleNonce);
}

#[test]
fn unbound_agent_cannot_rebalance() {
    let (mut c, a, b) = setup();
    assert_eq!(c.create_portfolio(key_of(&a)), Ok(2));
    let batch = DefuseIntents { intents: vec![token_diff("usdc.near", 1)] };
    let json = b"{}".to_vec();
    let stranger = key_of(&signer(9));
    let e = c.balance_portfolio(&stranger, 1, &batch, &json).unwrap_err();
    assert_eq!(e, ProxyError::AgentNotFound);
    assert_eq!(e.kind(), ErrorKind::Authorization);
    let e = c.balance_portfolio(&key_of(&b), 2, &batch, &json).unwrap_err();
    assert_eq!(e, ProxyError::AgentNotAssigned);
    assert_eq!(e.kind(), ErrorKind::Authorization);
}

#[test]
fn rebalance_with_mixed_batch_is_rejected() {
    let (c, _a, b) = setup();
    let batch = DefuseIntents { intents: vec![token_diff("usdc.near", 1), ft_withdraw(3)] };
    let e = c.balance_portfolio(&key_of(&b), 1, &batch, &b"{}".to_vec()).unwrap_err();
    assert_eq!(e, ProxyError::IntentTypeNotAllowed);
    assert_eq!(e.kind(), ErrorKind::IntentType);
    let empty = DefuseIntents { intents: vec![] };
    assert_eq!(c.balance_portfolio(&key_of(&b), 1, &empty, &b"{}".to_vec()).unwrap().len(), 1);
}

#[test]
fn withdraw_with_mixed_batch_is_rejected() {
    let (mut c, a, _b) = setup();
    let payload = withdraw_payload(&a, 2, vec![ft_withdraw(5), native_withdraw()]);
    let bytes = b"{\"nonce\":2}".to_vec();
    let sig = sign(&a, &bytes);
    let parts = vec![b"a".to_vec(), b"b".to_vec()];
    assert_eq!(
        c.withdraw_funds(&bytes, &payload, &sig, &parts).unwrap_err(),
        ProxyError::IntentTypeNotAllowed
    );
    assert_eq!(c.get_user(&key_of(&a)).unwrap().nonce, 1);
}

#[test]
fn empty_withdrawal_consumes_nonce() {
    let (mut c, a, _b) = setup();
    let payload = withdraw_payload(&a, 3, vec![]);
    let bytes = b"{\"nonce\":3}".to_vec();
    let sig = sign(&a, &bytes);
    assert_eq!(c.withdraw_funds(&bytes, &payload, &sig, &vec![]).unwrap().len(), 0);
    assert_eq!(c.get_user(&key_of(&a)).unwrap().nonce, 3);
}

#[test]
fn withdraw_payload_count_mismatch() {
    let (mut c, a, _b) = setup();
    let payload = withdraw_payload(&a, 2, vec![ft_withdraw(5)]);
    let bytes = b"{\"nonce\":2}".to_vec();
    let sig = sign(&a, &bytes);
    let e = c.withdraw_funds(&bytes, &payload, &sig, &vec![]).unwrap_err();
    assert_eq!(e, ProxyError::PayloadCountMismatch);
    assert_eq!(e.kind(), ErrorKind::Validation);
}

#[test]
fn assign_errors() {
    let a = signer(1);
    let b = signer(2);
    let mut c = IntentsProxyMpcContract::new("v1.signer".to_string());
    assert_eq!(c.create_portfolio(key_of(&a)), Ok(1));
    assert_eq!(c.create_portfolio(key_of(&b)), Ok(2));
    let payload = EphemeralAssignPayload { owner_pubkey: key_of(&a), nonce: 1, portfolio_id: 1 };
    let bytes = assign_bytes(&key_of(&a), 1, 1);
    let sig = sign(&a, &bytes);
    // payload names another portfolio than the call
    assert_eq!(
        c.assign_portfolio_agent(&bytes, &payload, &sig, key_of(&b), 2),
        Err(ProxyError::PortfolioMismatch)
    );
    // unknown owner
    let stranger = signer(9);
    let stranger_payload = EphemeralAssignPayload { owner_pubkey: key_of(&stranger), nonce: 1, portfolio_id: 1 };
    let stranger_sig = sign(&stranger, &bytes);
    assert_eq!(
        c.assign_portfolio_agent(&bytes, &stranger_payload, &stranger_sig, key_of(&b), 1),
        Err(ProxyError::OwnerNotFound)
    );
    // signature by another key
    let forged = sign(&b, &bytes);
    assert_eq!(
        c.assign_portfolio_agent(&bytes, &payload, &forged, key_of(&b), 1),
        Err(ProxyError::InvalidSignature)
    );
    // signature over other bytes
    let other = assign_bytes(&key_of(&a), 2, 1);
    assert_eq!(
        c.assign_portfolio_agent(&other, &payload, &sig, key_of(&b), 1),
        Err(ProxyError::InvalidSignature)
    );
    // portfolio of another owner
    let foreign_payload = EphemeralAssignPayload { owner_pubkey: key_of(&a), nonce: 1, portfolio_id: 2 };
    let foreign_bytes = assign_bytes(&key_of(&a), 1, 2);
    let foreign_sig = sign(&a, &foreign_bytes);
    assert_eq!(
        c.assign_portfolio_agent(&foreign_bytes, &foreign_payload, &foreign_sig, key_of(&b), 2),
        Err(ProxyError::OwnershipMismatch)
    );
    // missing portfolio
    let missing_payload = EphemeralAssignPayload { owner_pubkey: key_of(&a), nonce: 1, portfolio_id: 7 };
    let missing_bytes = assign_bytes(&key_of(&a), 1, 7);
    let missing_sig = sign(&a, &missing_bytes);
    assert_eq!(
        c.assign_portfolio_agent(&missing_bytes, &missing_payload, &missing_sig, key_of(&b), 7),
        Err(ProxyError::PortfolioNotFound)
    );
    // nothing was committed by the failures
    assert_eq!(c.get_user(&key_of(&a)).unwrap().nonce, 0);
    assert_eq!(c.agent_portfolio(&key_of(&b)), None);
    assert_eq!(c.assign_portfolio_agent(&bytes, &payload, &sig, key_of(&b), 1), Ok(()));
}

#[test]
fn reassignment_overwrites_agent_binding() {
    let (mut c, a, b) = setup();
    assert_eq!(c.create_portfolio(key_of(&a)), Ok(2));
    let payload = EphemeralAssignPayload { owner_pubkey: key_of(&a), nonce: 2, portfolio_id: 2 };
    let bytes = assign_bytes(&key_of(&a), 2, 2);
    let sig = sign(&a, &bytes);
    assert_eq!(c.assign_portfolio_agent(&bytes, &payload, &sig, key_of(&b), 2), Ok(()));
    assert_eq!(c.agent_portfolio(&key_of(&b)), Some(KeyInfo { portfolio_id: 2 }));
}

#[test]
fn secp256k1_key_with_bad_signature_is_refused() {
    let mut c = IntentsProxyMpcContract::new("v1.signer".to_string());
    let k = PublicKey { curve: CurveType::Secp256k1, data: vec![4u8; 64] };
    assert_eq!(c.create_portfolio(k.clone()), Ok(1));
    let payload = EphemeralAssignPayload { owner_pubkey: k.clone(), nonce: 1, portfolio_id: 1 };
    let bytes = b"{}".to_vec();
    assert_eq!(
        c.assign_portfolio_agent(&bytes, &payload, &vec![0u8; 65], key_of(&signer(2)), 1),
        Err(ProxyError::InvalidSignature)
    );
    assert_eq!(
        c.assign_portfolio_agent(&bytes, &payload, &vec![0u8; 64], key_of(&signer(2)), 1),
        Err(ProxyError::InvalidSignature)
    );
}

#[test]
fn refund_overflow_is_reported() {
    let e = on_mpc_signatures_received(u64::MAX, vec![]).unwrap_err();
    assert_eq!(e, ProxyError::RefundOverflow);
    assert_eq!(e.kind(), ErrorKind::Arithmetic);
}

#[test]
fn continuation_keeps_signatures_in_order() {
    let done = on_mpc_signatures_received(
        4,
        vec![
            SignOutcome::Unparseable,
            SignOutcome::Signed(signature_of("p")),
            SignOutcome::Failed,
            SignOutcome::Signed(signature_of("q")),
        ],
    )
    .unwrap();
    assert_eq!(done.signatures.len(), 2);
    assert_eq!(done.signatures[0].big_r, "p");
    assert_eq!(done.signatures[1].big_r, "q");
    assert_eq!(done.refund, 4 * ONE_NEAR);
    let none = on_mpc_signatures_received(0, vec![]).unwrap();
    assert_eq!(none.signatures.len(), 0);
    assert_eq!(none.refund, 0);
}

#[test]
fn digest_matches_known_value() {
    let expected: [u8; 32] = [
        80, 178, 196, 63, 211, 145, 6, 186, 251, 186, 13, 163, 79, 196, 48, 225, 249, 30, 60, 150,
        234, 42, 206, 226, 188, 52, 17, 159, 146, 179, 119, 80,
    ];
    assert_eq!(compute_erc191_hash(&b"hello".to_vec()), expected);
    assert_eq!(compute_erc191_hash(&b"hello".to_vec()), compute_erc191_hash(&b"hello".to_vec()));
    assert_ne!(compute_erc191_hash(&b"hello".to_vec()), compute_erc191_hash(&b"hellp".to_vec()));
}

#[test]
fn frame_prefixes_preamble_and_length() {
    let framed = frame_message(&b"hello".to_vec());
    assert_eq!(framed, b"\x19Ethereum Signed Message:\n5hello".to_vec());
    let long = vec![b'x'; 123];
    let framed = frame_message(&long);
    assert_eq!(&framed[..29], b"\x19Ethereum Signed Message:\n123");
    assert_eq!(frame_message(&vec![]), b"\x19Ethereum Signed Message:\n0".to_vec());
}

#[test]
fn key_text_uses_curve_tag_and_base58() {
    let ed = PublicKey { curve: CurveType::Ed25519, data: vec![1, 2, 3, 4, 5] };
    assert_eq!(public_key_to_string(&ed), "ed25519:7bWpTW");
    let secp = PublicKey { curve: CurveType::Secp256k1, data: (0u8..32).collect() };
    assert_eq!(
        public_key_to_string(&secp),
        "secp256k1:1thX6LZfHDZZKUs92febYZhYRcXddmzfzF2NvTkPNE"
    );
}

#[test]
fn key_equality_and_copy() {
    let a = key_of(&signer(1));
    let b = key_of(&signer(2));
    assert!(a.same_as(&a.copy()));
    assert!(!a.same_as(&b));
    let other_curve = PublicKey { curve: CurveType::Secp256k1, data: a.data.clone() };
    assert!(!a.same_as(&other_curve));
}

#[test]
fn validate_batch_allow_list() {
    let batch = vec![ft_withdraw(1), ft_withdraw(2)];
    assert_eq!(validate_batch(&batch, IntentKind::FtWithdraw), Ok(()));
    assert_eq!(validate_batch(&batch, IntentKind::TokenDiff), Err(ProxyError::IntentTypeNotAllowed));
    assert_eq!(validate_batch(&vec![], IntentKind::TokenDiff), Ok(()));
    assert_eq!(token_diff("t", 1).kind(), IntentKind::TokenDiff);
}

#[test]
fn byte_array_conversions() {
    let v: Vec<u8> = (0u8..64).collect();
    let a = vec_to_64_byte_array(v.clone()).unwrap();
    assert_eq!(a.to_vec(), v);
    assert!(vec_to_64_byte_array(vec![0u8; 63]).is_none());
    assert!(vec_to_64_byte_array(vec![0u8; 65]).is_none());
    let f: [u32; 3] = vec_to_fixed(vec![7, 8, 9]);
    assert_eq!(f, [7, 8, 9]);
}

#[test]
fn sign_request_from_digest_and_path() {
    let r = create_sign_request_from_transaction(vec![9u8; 32], "ed25519:abc");
    assert_eq!(r.payload, [9u8; 32]);
    assert_eq!(r.path, "ed25519:abc");
    assert_eq!(r.key_version, 0);
}

#[test]
fn intent_signature_request_for_existing_portfolio() {
    let (c, a, _b) = setup();
    let json = b"{\"intent\":\"ft_withdraw\"}".to_vec();
    let req = c.request_intent_signature(&json, 1).unwrap();
    assert_eq!(req.payload, compute_erc191_hash(&json));
    assert_eq!(req.path, public_key_to_string(&key_of(&a)));
    assert_eq!(c.request_intent_signature(&json, 2).unwrap_err(), ProxyError::PortfolioNotFound);
}

#[test]
fn token_diff_insertion_order_does_not_matter() {
    let mut first = TokenDiff::new();
    first.set("usdc.near".to_string(), 10);
    first.set("wrap.near".to_string(), -4);
    let mut second = TokenDiff::new();
    second.set("wrap.near".to_string(), -4);
    second.set("usdc.near".to_string(), 10);
    for token in ["usdc.near", "wrap.near", "other.near"] {
        assert_eq!(first.get(&token.to_string()), second.get(&token.to_string()));
    }
    assert_eq!(first.get(&"usdc.near".to_string()), Some(10));
    assert_eq!(first.get(&"other.near".to_string()), None);
    first.set("usdc.near".to_string(), 3);
    assert_eq!(first.get(&"usdc.near".to_string()), Some(3));
    assert_eq!(first.diff.len(), 2);
}

#[test]
fn secp256k1_recovery_byte_out_of_range_is_refused() {
    let mut c = IntentsProxyMpcContract::new("v1.signer".to_string());
    let k = PublicKey { curve: CurveType::Secp256k1, data: vec![4u8; 64] };
    assert_eq!(c.create_portfolio(k.clone()), Ok(1));
    let payload = EphemeralAssignPayload { owner_pubkey: k, nonce: 1, portfolio_id: 1 };
    let mut sig = vec![1u8; 65];
    sig[64] = 7;
    assert_eq!(
        c.assign_portfolio_agent(&b"{}".to_vec(), &payload, &sig, key_of(&signer(2)), 1),
        Err(ProxyError::InvalidSignature)
    );
}
