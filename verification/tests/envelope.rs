//! Envelopes: build-then-verify, target binding, tampering, expiry,
//! countersignatures and the canonical byte form.

use ipiis::account::{digest, verify_signature, Account};
use ipiis::envelope::{decode_envelope, decode_guarantor, GuaranteeEnvelope, GuarantorEnvelope};
use ipiis::errors::{IpiisError, SigFault};
use ipiis::types::AccountId;

fn seeded_account(b: u8) -> Account {
    Account::from_seed(&vec![b; 32]).unwrap()
}

fn build(signer: &Account, target: &AccountId, payload: &[u8]) -> GuaranteeEnvelope {
    GuaranteeEnvelope::build_at(signer, target, payload.to_vec(), 1000, None, 42)
}

#[test]
fn build_then_verify_ok_and_wrong_target_rejected() {
    let a = seeded_account(1);
    let b = seeded_account(2);
    let b_ref = b.account_ref();
    let env = build(&a, &b_ref, b"hello");

    assert!(env.verify_at(Some(&b_ref), 2000).is_ok());
    assert!(env.verify_at(None, 2000).is_ok());

    let c = seeded_account(3);
    let c_ref = c.account_ref();
    let err = env.verify_at(Some(&c_ref), 2000).unwrap_err();
    assert!(matches!(err, IpiisError::Signature(SigFault::WrongTarget)));
}

#[test]
fn payload_bit_flip_rejected() {
    let a = seeded_account(4);
    let b = seeded_account(5);
    let b_ref = b.account_ref();
    let mut env = build(&a, &b_ref, b"payload bytes");

    env.payload[3] ^= 0x01;
    let err = env.verify_at(Some(&b_ref), 2000).unwrap_err();
    assert!(matches!(err, IpiisError::Signature(SigFault::DigestMismatch)));
}

#[test]
fn signature_bit_flip_rejected() {
    let a = seeded_account(6);
    let b = seeded_account(7);
    let b_ref = b.account_ref();
    let mut env = build(&a, &b_ref, b"payload bytes");

    env.sig[10] ^= 0x80;
    let err = env.verify_at(Some(&b_ref), 2000).unwrap_err();
    assert!(matches!(err, IpiisError::Signature(SigFault::BadSignature)));
}

#[test]
fn expired_envelope_rejected() {
    let a = seeded_account(8);
    let b = seeded_account(9);
    let b_ref = b.account_ref();
    let now: u64 = 10_000;
    let env =
        GuaranteeEnvelope::build_at(&a, &b_ref, b"timed".to_vec(), now - 5_000, Some(now - 1_000), 7);

    let err = env.verify_at(Some(&b_ref), now).unwrap_err();
    assert!(matches!(err, IpiisError::Signature(SigFault::Expired)));

    // before the deadline the same envelope verifies
    assert!(env.verify_at(Some(&b_ref), now - 2_000).is_ok());
}

#[test]
fn countersigned_envelope_verifies_and_strips() {
    let a = seeded_account(10);
    let server = seeded_account(11);
    let server_ref = server.account_ref();
    let env = build(&a, &server_ref, b"attested");

    let genv = GuarantorEnvelope::countersign(&server, env);
    assert!(genv.verify_at(Some(&server_ref), Some(&server_ref), 2000).is_ok());

    // stripping the countersignature leaves a valid guarantee envelope
    let inner = genv.into_guarantee();
    assert!(inner.verify_at(Some(&server_ref), 2000).is_ok());
}

#[test]
fn countersignature_by_other_peer_rejected() {
    let a = seeded_account(12);
    let server = seeded_account(13);
    let other = seeded_account(14);
    let server_ref = server.account_ref();
    let env = build(&a, &server_ref, b"attested");

    let genv = GuarantorEnvelope::countersign(&other, env);
    let err = genv.verify_at(Some(&server_ref), Some(&server_ref), 2000).unwrap_err();
    assert!(matches!(err, IpiisError::Signature(SigFault::WrongTarget)));
}

#[test]
fn self_signed_check_is_exact() {
    let a = seeded_account(15);
    let a_ref = a.account_ref();
    let b = seeded_account(16);
    let b_ref = b.account_ref();

    let to_self = build(&a, &a_ref, b"admin");
    assert!(to_self.ensure_self_signed().is_ok());

    let to_other = build(&a, &b_ref, b"admin");
    let err = to_other.ensure_self_signed().unwrap_err();
    assert!(matches!(err, IpiisError::Authorization));
}

#[test]
fn envelope_byte_form_round_trips() {
    let a = seeded_account(17);
    let b = seeded_account(18);
    let b_ref = b.account_ref();
    let env = GuaranteeEnvelope::build_at(&a, &b_ref, b"wire".to_vec(), 123, Some(456), 789);

    let bytes = env.encode();
    let (back, end) = decode_envelope(&bytes, 0).unwrap();
    assert_eq!(end, bytes.len());
    assert_eq!(back.encode(), bytes);
    assert!(back.guarantee.same(&env.guarantee));
    assert!(back.target.same(&env.target));
    assert_eq!(back.created_at, 123);
    assert_eq!(back.expiration, Some(456));
    assert_eq!(back.nonce, 789);
    assert_eq!(back.payload, b"wire".to_vec());
    assert!(back.verify_at(Some(&b_ref), 200).is_ok());
}

#[test]
fn countersigned_byte_form_round_trips() {
    let a = seeded_account(19);
    let server = seeded_account(20);
    let server_ref = server.account_ref();
    let env = build(&a, &server_ref, b"wire2");
    let genv = GuarantorEnvelope::countersign(&server, env);

    let bytes = genv.encode();
    let (back, end) = decode_guarantor(&bytes, 0).unwrap();
    assert_eq!(end, bytes.len());
    assert_eq!(back.encode(), bytes);
    assert!(back.verify_at(Some(&server_ref), Some(&server_ref), 2000).is_ok());
}

#[test]
fn digest_and_signature_are_real() {
    // the digest is not the input handed back
    let d = digest(&b"abc".to_vec());
    assert_eq!(d.len(), 32);
    assert_ne!(d, b"abc".to_vec());
    assert_ne!(d, digest(&b"abd".to_vec()));
    assert_eq!(d, digest(&b"abc".to_vec()));

    // a signature verifies only under the matching key and message
    let a = seeded_account(21);
    let b = seeded_account(22);
    let msg = b"message".to_vec();
    let sig = a.sign(&msg);
    assert_eq!(sig.len(), 64);
    assert!(verify_signature(a.account_ref().as_bytes(), &msg, &sig));
    assert!(!verify_signature(b.account_ref().as_bytes(), &msg, &sig));
    assert!(!verify_signature(a.account_ref().as_bytes(), &b"other".to_vec(), &sig));
}

#[test]
fn accounts_derive_deterministically() {
    let a1 = seeded_account(23);
    let a2 = seeded_account(23);
    let b = seeded_account(24);
    assert!(a1.account_ref().same(&a2.account_ref()));
    assert!(!a1.account_ref().same(&b.account_ref()));

    // a seed of the wrong width is rejected
    assert!(matches!(Account::from_seed(&vec![1; 31]), Err(IpiisError::Parse)));

    // generated accounts are well formed and fresh
    let g1 = Account::generate();
    let g2 = Account::generate();
    assert!(!g1.account_ref().same(&g2.account_ref()));
}
