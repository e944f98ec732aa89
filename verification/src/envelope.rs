//! Envelopes: guarantee-signed payloads, guarantor countersignatures, and
//! their canonical byte form. A valid envelope proves that the guarantee
//! account asserted the payload to the target account.

use vstd::prelude::*;
use crate::account::{digest, digest_of, public_key_of, signature_of, signature_valid, verify_signature, Account};
use crate::codec::{field_bytes, push_bytes, push_field, push_u64, read_bytes, read_field, read_u64, bytes_eq, u64_to_bytes, lemma_u64_round_trip, lemma_u64_bytes_injective};
use crate::errors::{IpiisError, SigFault};
use crate::types::{AccountId, ID_LEN};

verus! {

/// The mathematical model of a guarantee envelope.
pub ghost struct EnvModel {
    pub guarantee: Seq<u8>,
    pub target: Seq<u8>,
    pub created_at: u64,
    pub expiration: Option<u64>,
    pub nonce: u64,
    pub digest: Seq<u8>,
    pub payload: Seq<u8>,
    pub sig: Seq<u8>,
}

/// A model is well formed when its identities, digest and signature have
/// their fixed widths.
pub open spec fn wf_model(m: EnvModel) -> bool {
    &&& m.guarantee.len() == ID_LEN
    &&& m.target.len() == ID_LEN
    &&& m.digest.len() == ID_LEN
    &&& m.sig.len() == 64
    &&& m.payload.len() <= u64::MAX
}

/// The nine bytes of an optional expiration: a tag, then the time
/// big-endian (zero when absent).
pub open spec fn exp_bytes(e: Option<u64>) -> Seq<u8> {
    match e {
        None => seq![0u8] + u64_to_bytes(0),
        Some(t) => seq![1u8] + u64_to_bytes(t),
    }
}

/// The bytes the guarantee signs: every metadata field, then the payload
/// digest — never the payload itself.
pub open spec fn sign_input_of(m: EnvModel) -> Seq<u8> {
    m.guarantee + m.target + u64_to_bytes(m.created_at) + exp_bytes(m.expiration) + u64_to_bytes(
        m.nonce,
    ) + m.digest
}

/// The canonical wire form of a guarantee envelope: the signed metadata,
/// the signature, then the length-prefixed payload.
pub open spec fn env_bytes(m: EnvModel) -> Seq<u8> {
    sign_input_of(m) + m.sig + field_bytes(m.payload)
}

/// Whether the envelope's digest and guarantee signature are right for its
/// payload and metadata.
pub open spec fn valid_guarantee(m: EnvModel) -> bool {
    &&& m.digest == digest_of(m.payload)
    &&& signature_valid(m.guarantee, sign_input_of(m), m.sig)
}

/// Whether the envelope is addressed to the identity that verifies it.
pub open spec fn target_ok(m: EnvModel, expected: Option<Seq<u8>>) -> bool {
    match expected {
        Some(e) => m.target == e,
        None => true,
    }
}

/// Whether the envelope has not expired at `now`.
pub open spec fn not_expired(m: EnvModel, now: u64) -> bool {
    match m.expiration {
        Some(t) => now <= t,
        None => true,
    }
}

/// The verdict of envelope verification: the checks in order, each failure
/// a distinct kind.
pub open spec fn verify_verdict(m: EnvModel, expected: Option<Seq<u8>>, now: u64) -> Result<
    (),
    IpiisError,
> {
    if !target_ok(m, expected) {
        Err(IpiisError::Signature(SigFault::WrongTarget))
    } else if !not_expired(m, now) {
        Err(IpiisError::Signature(SigFault::Expired))
    } else if m.digest != digest_of(m.payload) {
        Err(IpiisError::Signature(SigFault::DigestMismatch))
    } else if !signature_valid(m.guarantee, sign_input_of(m), m.sig) {
        Err(IpiisError::Signature(SigFault::BadSignature))
    } else {
        Ok(())
    }
}

/// A guarantee-signed payload: metadata, payload bytes, and the guarantee
/// account's signature.
#[derive(Debug)]
pub struct GuaranteeEnvelope {
    pub guarantee: AccountId,
    pub target: AccountId,
    pub created_at: u64,
    pub expiration: Option<u64>,
    pub nonce: u64,
    pub digest: Vec<u8>,
    pub payload: Vec<u8>,
    pub sig: Vec<u8>,
}

impl View for GuaranteeEnvelope {
    type V = EnvModel;

    open spec fn view(&self) -> EnvModel {
        EnvModel {
            guarantee: self.guarantee@,
            target: self.target@,
            created_at: self.created_at,
            expiration: self.expiration,
            nonce: self.nonce,
            digest: self.digest@,
            payload: self.payload@,
            sig: self.sig@,
        }
    }
}

impl GuaranteeEnvelope {
    /// A fresh copy of this envelope.
    pub fn duplicate(&self) -> (r: GuaranteeEnvelope)
        ensures
            r@ == self@,
    {
        let r = GuaranteeEnvelope {
            guarantee: self.guarantee.duplicate(),
            target: self.target.duplicate(),
            created_at: self.created_at,
            expiration: self.expiration,
            nonce: self.nonce,
            digest: copy_vec(&self.digest),
            payload: copy_vec(&self.payload),
            sig: copy_vec(&self.sig),
        };
        proof {
            assert(r@ == self@);
        }
        r
    }

    /// Builds and signs an envelope asserting `payload` from `account` to
    /// `target` at time `created_at`.
    ///
    /// Once built, the envelope verifies at any time it has not expired
    /// against its own target, and against no other expected identity.
    pub fn build_at(
        account: &Account,
        target: &AccountId,
        payload: Vec<u8>,
        created_at: u64,
        expiration: Option<u64>,
        nonce: u64,
    ) -> (r: GuaranteeEnvelope)
        requires
            account.wf(),
            target.wf(),
            payload@.len() <= u64::MAX,
        ensures
            r@ == (EnvModel {
                guarantee: account.pk(),
                target: target@,
                created_at,
                expiration,
                nonce,
                digest: digest_of(payload@),
                payload: payload@,
                sig: signature_of(account.seed(), sign_input_of(r@)),
            }),
            valid_guarantee(r@),
            wf_model(r@),
            forall|now: u64| not_expired(r@, now) ==> verify_verdict(r@, Some(target@), now)
                == Ok::<(), IpiisError>(()),
            forall|now: u64| not_expired(r@, now) ==> verify_verdict(r@, None, now) == Ok::<
                (),
                IpiisError,
            >(()),
            forall|other: Seq<u8>, now: u64|
                other != target@ ==> verify_verdict(r@, Some(other), now) == Err::<
                    (),
                    IpiisError,
                >(IpiisError::Signature(SigFault::WrongTarget)),
    {
        let d = digest(&payload);
        let input = build_sign_input(
            &account_pk_bytes(account),
            target.as_bytes(),
            created_at,
            &expiration,
            nonce,
            &d,
        );
        let sig = account.sign(&input);
        let r = GuaranteeEnvelope {
            guarantee: account.account_ref(),
            target: target.duplicate(),
            created_at,
            expiration,
            nonce,
            digest: d,
            payload,
            sig,
        };
        proof {
            assert(sign_input_of(r@) == input@);
        }
        r
    }

    /// Verifies this envelope at time `now`: the target matches `expected`
    /// when one is given, the envelope has not expired, the payload's
    /// digest matches the metadata, and the guarantee signature checks
    /// out — with a distinct error for each failing step.
    pub fn verify_at(&self, expected: Option<&AccountId>, now: u64) -> (r: Result<(), IpiisError>)
        ensures
            r == verify_verdict(
                self@,
                match expected {
                    Some(e) => Some(e@),
                    None => None,
                },
                now,
            ),
    {
        match expected {
            Some(e) => {
                if !self.target.same(e) {
                    return Err(IpiisError::Signature(SigFault::WrongTarget));
                }
            },
            None => {},
        }
        match self.expiration {
            Some(t) => {
                if now > t {
                    return Err(IpiisError::Signature(SigFault::Expired));
                }
            },
            None => {},
        }
        let d = digest(&self.payload);
        if !bytes_eq(&d, &self.digest) {
            return Err(IpiisError::Signature(SigFault::DigestMismatch));
        }
        let input = build_sign_input(
            self.guarantee.as_bytes(),
            self.target.as_bytes(),
            self.created_at,
            &self.expiration,
            self.nonce,
            &self.digest,
        );
        proof {
            assert(input@ == sign_input_of(self@));
        }
        if !verify_signature(self.guarantee.as_bytes(), &input, &self.sig) {
            return Err(IpiisError::Signature(SigFault::BadSignature));
        }
        Ok(())
    }

    /// An administrative request must be self-signed: its guarantee must
    /// be the very identity it is addressed to.
    pub fn ensure_self_signed(&self) -> (r: Result<(), IpiisError>)
        ensures
            r.is_ok() <==> self@.guarantee == self@.target,
            r.is_err() ==> r matches Err(IpiisError::Authorization),
    {
        if self.guarantee.same(&self.target) {
            Ok(())
        } else {
            Err(IpiisError::Authorization)
        }
    }

    /// The canonical wire form of this envelope.
    pub fn encode(&self) -> (r: Vec<u8>)
        requires
            wf_model(self@),
        ensures
            r@ == env_bytes(self@),
    {
        let mut out: Vec<u8> = Vec::new();
        push_bytes(&mut out, self.guarantee.as_bytes());
        push_bytes(&mut out, self.target.as_bytes());
        push_u64(&mut out, self.created_at);
        match self.expiration {
            None => {
                out.push(0u8);
                push_u64(&mut out, 0);
            },
            Some(t) => {
                out.push(1u8);
                push_u64(&mut out, t);
            },
        }
        push_u64(&mut out, self.nonce);
        push_bytes(&mut out, &self.digest);
        push_bytes(&mut out, &self.sig);
        push_field(&mut out, &self.payload);
        proof {
            assert(out@ =~= env_bytes(self@));
        }
        out
    }
}

/// The public-key bytes of an account, as a borrowed vector.
fn account_pk_bytes(account: &Account) -> (r: Vec<u8>)
    requires
        account.wf(),
    ensures
        r@ == account.pk(),
{
    let id = account.account_ref();
    let n = id.as_bytes().len();
    let r = read_bytes(id.as_bytes(), 0, n);
    proof {
        assert(r@ =~= account.pk());
    }
    r
}

/// A fresh copy of a byte vector.
pub fn copy_vec(v: &Vec<u8>) -> (r: Vec<u8>)
    ensures
        r@ == v@,
{
    let n = v.len();
    let r = read_bytes(v, 0, n);
    proof {
        assert(r@ =~= v@);
    }
    r
}

/// The bytes a guarantee signs, assembled from the metadata fields and the
/// payload digest.
fn build_sign_input(
    guarantee: &Vec<u8>,
    target: &Vec<u8>,
    created_at: u64,
    expiration: &Option<u64>,
    nonce: u64,
    d: &Vec<u8>,
) -> (r: Vec<u8>)
    ensures
        r@ == guarantee@ + target@ + u64_to_bytes(created_at) + exp_bytes(*expiration)
            + u64_to_bytes(nonce) + d@,
{
    let mut out: Vec<u8> = Vec::new();
    push_bytes(&mut out, guarantee);
    push_bytes(&mut out, target);
    push_u64(&mut out, created_at);
    match expiration {
        None => {
            out.push(0u8);
            push_u64(&mut out, 0);
        },
        Some(t) => {
            out.push(1u8);
            push_u64(&mut out, *t);
        },
    }
    push_u64(&mut out, nonce);
    push_bytes(&mut out, d);
    proof {
        assert(out@ =~= guarantee@ + target@ + u64_to_bytes(created_at) + exp_bytes(*expiration)
            + u64_to_bytes(nonce) + d@);
    }
    out
}

/// Flipping the payload of a verified envelope to one with a different
/// digest makes verification fail with a digest mismatch.
pub proof fn lemma_payload_tamper(m: EnvModel, p2: Seq<u8>, expected: Option<Seq<u8>>, now: u64)
    requires
        verify_verdict(m, expected, now) == Ok::<(), IpiisError>(()),
        digest_of(p2) != digest_of(m.payload),
    ensures
        verify_verdict(EnvModel { payload: p2, ..m }, expected, now) == Err::<(), IpiisError>(
            IpiisError::Signature(SigFault::DigestMismatch),
        ),
{
}

/// The eight bytes at a fixed offset of an envelope's wire form are the
/// big-endian length of its payload.
pub proof fn lemma_env_len_bytes(m: EnvModel)
    requires
        wf_model(m),
    ensures
        env_bytes(m).len() == 193 + m.payload.len(),
        forall|i: int|
            0 <= i < 8 ==> #[trigger] env_bytes(m)[185 + i] == u64_to_bytes(
                m.payload.len() as u64,
            )[i],
{
    assert(exp_bytes(m.expiration).len() == 9);
    assert(sign_input_of(m).len() == 121);
    assert forall|i: int| 0 <= i < 8 implies #[trigger] env_bytes(m)[185 + i] == u64_to_bytes(
        m.payload.len() as u64,
    )[i] by {
        assert(env_bytes(m)[185 + i] == field_bytes(m.payload)[i]);
        assert(field_bytes(m.payload)[i] == u64_to_bytes(m.payload.len() as u64)[i]);
    }
}

/// The expiration tag of an envelope's wire form sits at a fixed offset
/// and is zero or one.
pub proof fn lemma_env_tag_byte(m: EnvModel)
    requires
        wf_model(m),
    ensures
        env_bytes(m)[72] == exp_bytes(m.expiration)[0],
        env_bytes(m)[72] == 0 || env_bytes(m)[72] == 1,
        m.expiration is None ==> env_bytes(m)[72] == 0,
        m.expiration is Some ==> env_bytes(m)[72] == 1,
        forall|i: int|
            0 <= i < 8 ==> #[trigger] env_bytes(m)[73 + i] == exp_bytes(m.expiration)[1 + i],
{
    assert(exp_bytes(m.expiration).len() == 9);
    assert(sign_input_of(m).len() == 121);
    assert(env_bytes(m)[72] == sign_input_of(m)[72]);
    assert(sign_input_of(m)[72] == exp_bytes(m.expiration)[0]);
    assert forall|i: int| 0 <= i < 8 implies #[trigger] env_bytes(m)[73 + i] == exp_bytes(
        m.expiration,
    )[1 + i] by {
        assert(env_bytes(m)[73 + i] == sign_input_of(m)[73 + i]);
        assert(sign_input_of(m)[73 + i] == exp_bytes(m.expiration)[1 + i]);
    }
}

/// At any one position of a byte string there stands at most one
/// well-formed envelope: its embedded payload length pins where it ends.
#[verifier::rlimit(100)]
#[verifier::spinoff_prover]
pub proof fn lemma_env_at_pos_unique(
    bytes: Seq<u8>,
    pos: int,
    m1: EnvModel,
    end1: int,
    m2: EnvModel,
    end2: int,
)
    requires
        wf_model(m1),
        wf_model(m2),
        0 <= pos <= end1 <= bytes.len(),
        pos <= end2 <= bytes.len(),
        bytes.subrange(pos, end1) == env_bytes(m1),
        bytes.subrange(pos, end2) == env_bytes(m2),
    ensures
        end1 == end2,
        m1 == m2,
{
    lemma_env_len_bytes(m1);
    lemma_env_len_bytes(m2);
    let l1 = m1.payload.len() as u64;
    let l2 = m2.payload.len() as u64;
    assert(u64_to_bytes(l1) =~= u64_to_bytes(l2)) by {
        assert forall|i: int| 0 <= i < 8 implies u64_to_bytes(l1)[i] == u64_to_bytes(l2)[i] by {
            assert(bytes.subrange(pos, end1)[185 + i] == bytes[pos + 185 + i]);
            assert(bytes.subrange(pos, end2)[185 + i] == bytes[pos + 185 + i]);
            assert(env_bytes(m1)[185 + i] == u64_to_bytes(l1)[i]);
            assert(env_bytes(m2)[185 + i] == u64_to_bytes(l2)[i]);
        }
    }
    lemma_u64_round_trip(l1);
    lemma_u64_round_trip(l2);
    assert(m1.payload.len() == m2.payload.len());
    assert(end1 == pos + 193 + m1.payload.len());
    assert(end2 == pos + 193 + m2.payload.len());
    assert(env_bytes(m1) == env_bytes(m2));
    lemma_env_bytes_injective(m1, m2);
}

/// When the expiration region read at `pos` is neither a valid absent
/// form nor the present tag, no well-formed envelope stands at `pos`.
proof fn lemma_decode_envelope_tag_mismatch(bytes: Seq<u8>, pos: int, exp_word: u64)
    requires
        0 <= pos,
        pos + 193 <= bytes.len(),
        exp_word == crate::codec::u64_of_bytes(bytes.subrange(pos + 73, pos + 81)),
        (bytes[pos + 72] == 0 && exp_word != 0) || (bytes[pos + 72] != 0 && bytes[pos + 72] != 1),
    ensures
        forall|m: EnvModel, end: int|
            pos <= end <= bytes.len() && wf_model(m) ==> bytes.subrange(pos, end) != env_bytes(m),
{
    assert forall|m: EnvModel, end: int|
        pos <= end <= bytes.len() && wf_model(m) implies bytes.subrange(pos, end) != env_bytes(
        m,
    ) by {
        if bytes.subrange(pos, end) == env_bytes(m) {
            lemma_env_len_bytes(m);
            lemma_env_tag_byte(m);
            let sub = bytes.subrange(pos, end);
            assert(bytes[pos + 72] == sub[72]);
            assert(sub[72] == env_bytes(m)[72]);
            match m.expiration {
                None => {
                    assert(bytes[pos + 72] == 0);
                    assert forall|i: int| 0 <= i < 8 implies bytes.subrange(pos + 73, pos + 81)[i]
                        == u64_to_bytes(0)[i] by {
                        assert(bytes.subrange(pos + 73, pos + 81)[i] == sub[73 + i]);
                        assert(sub[73 + i] == env_bytes(m)[73 + i]);
                        assert(env_bytes(m)[73 + i] == exp_bytes(m.expiration)[1 + i]);
                        assert(exp_bytes(m.expiration)[1 + i] == u64_to_bytes(0)[i]);
                    }
                    assert(bytes.subrange(pos + 73, pos + 81) =~= u64_to_bytes(0));
                    lemma_u64_round_trip(0);
                },
                Some(_) => {
                    assert(bytes[pos + 72] == 1);
                },
            }
        }
    }
}

/// Reads a guarantee envelope back from its canonical wire form. Returns
/// the envelope and the position just past it; whatever is returned came
/// from exactly the consumed bytes, and on failure no well-formed
/// envelope stands at `pos`.
#[verifier::rlimit(100)]
pub fn decode_envelope(bytes: &Vec<u8>, pos: usize) -> (r: Option<(GuaranteeEnvelope, usize)>)
    requires
        pos <= bytes@.len(),
    ensures
        match r {
            Some((env, end)) => {
                &&& pos < end <= bytes@.len()
                &&& wf_model(env@)
                &&& bytes@.subrange(pos as int, end as int) == env_bytes(env@)
            },
            None => forall|m: EnvModel, end: int|
                pos <= end <= bytes@.len() && wf_model(m) ==> bytes@.subrange(pos as int, end)
                    != env_bytes(m),
        },
{
    let n = bytes.len();
    if n - pos < 193 {
        proof {
            assert forall|m: EnvModel, end: int|
                pos <= end <= bytes@.len() && wf_model(m) implies bytes@.subrange(pos as int, end)
                != env_bytes(m) by {
                lemma_env_len_bytes(m);
            }
        }
        return None;
    }
    let guarantee_bytes = read_bytes(bytes, pos, 32);
    let target_bytes = read_bytes(bytes, pos + 32, 32);
    let created_at = read_u64(bytes, pos + 64);
    let tag = bytes[pos + 72];
    let exp_word = read_u64(bytes, pos + 73);
    let expiration: Option<u64> = if tag == 0 {
        if exp_word != 0 {
            proof {
                lemma_decode_envelope_tag_mismatch(bytes@, pos as int, exp_word);
            }
            return None;
        }
        None
    } else if tag == 1 {
        Some(exp_word)
    } else {
        proof {
            lemma_decode_envelope_tag_mismatch(bytes@, pos as int, exp_word);
        }
        return None;
    };
    let nonce = read_u64(bytes, pos + 81);
    let digest_bytes = read_bytes(bytes, pos + 89, 32);
    let sig_bytes = read_bytes(bytes, pos + 121, 64);
    let (payload, end) = match read_field(bytes, pos + 185) {
        Some(r) => r,
        None => {
            proof {
                assert forall|m: EnvModel, end: int|
                    pos <= end <= bytes@.len() && wf_model(m) implies bytes@.subrange(
                    pos as int,
                    end,
                ) != env_bytes(m) by {
                    if bytes@.subrange(pos as int, end) == env_bytes(m) {
                        lemma_env_len_bytes(m);
                        let sub = bytes@.subrange(pos as int, end);
                        assert forall|i: int| 0 <= i < end - pos - 185 implies bytes@.subrange(
                            pos + 185,
                            end,
                        )[i] == field_bytes(m.payload)[i] by {
                            assert(bytes@.subrange(pos + 185, end)[i] == sub[185 + i]);
                            assert(sub[185 + i] == env_bytes(m)[185 + i]);
                            assert(env_bytes(m)[185 + i] == field_bytes(m.payload)[i]);
                        }
                        assert(bytes@.subrange(pos + 185, end) =~= field_bytes(m.payload));
                    }
                }
            }
            return None;
        },
    };
    let guarantee = match AccountId::from_bytes(guarantee_bytes) {
        Ok(id) => id,
        Err(_) => {
            proof {
                assert(false);
            }
            unreached()
        },
    };
    let target = match AccountId::from_bytes(target_bytes) {
        Ok(id) => id,
        Err(_) => {
            proof {
                assert(false);
            }
            unreached()
        },
    };
    let env = GuaranteeEnvelope {
        guarantee,
        target,
        created_at,
        expiration,
        nonce,
        digest: digest_bytes,
        payload,
        sig: sig_bytes,
    };
    proof {
        let m = env@;
        let p = pos as int;
        let sub = bytes@.subrange(p, end as int);
        lemma_u64_round_trip(created_at);
        lemma_u64_bytes_injective(bytes@.subrange(p + 64, p + 72), u64_to_bytes(created_at));
        lemma_u64_round_trip(exp_word);
        lemma_u64_bytes_injective(bytes@.subrange(p + 73, p + 81), u64_to_bytes(exp_word));
        lemma_u64_round_trip(nonce);
        lemma_u64_bytes_injective(bytes@.subrange(p + 81, p + 89), u64_to_bytes(nonce));
        assert forall|i: int| 0 <= i < 9 implies exp_bytes(m.expiration)[i] == bytes@.subrange(
            p + 72,
            p + 81,
        )[i] by {
            if i == 0 {
                assert(bytes@.subrange(p + 72, p + 81)[0] == bytes@[p + 72]);
            } else {
                assert(bytes@.subrange(p + 72, p + 81)[i] == bytes@[p + 72 + i]);
                assert(bytes@.subrange(p + 73, p + 81)[i - 1] == bytes@[p + 72 + i]);
                assert(exp_bytes(m.expiration)[i] == u64_to_bytes(exp_word)[i - 1]);
            }
        }
        assert(exp_bytes(m.expiration) =~= bytes@.subrange(p + 72, p + 81));
        assert(sign_input_of(m).len() == 121);
        assert(env_bytes(m).len() == 193 + m.payload.len());
        assert(sub.len() == env_bytes(m).len());
        assert(bytes@.subrange(p + 185, end as int) == field_bytes(m.payload));
        assert forall|i: int| 0 <= i < sub.len() implies sub[i] == env_bytes(m)[i] by {
            assert(sub[i] == bytes@[p + i]);
            if i < 32 {
                assert(env_bytes(m)[i] == m.guarantee[i]);
                assert(m.guarantee[i] == bytes@.subrange(p, p + 32)[i]);
            } else if i < 64 {
                assert(env_bytes(m)[i] == m.target[i - 32]);
                assert(m.target[i - 32] == bytes@.subrange(p + 32, p + 64)[i - 32]);
            } else if i < 72 {
                assert(env_bytes(m)[i] == u64_to_bytes(m.created_at)[i - 64]);
                assert(u64_to_bytes(m.created_at)[i - 64] == bytes@.subrange(p + 64, p + 72)[i
                    - 64]);
            } else if i < 81 {
                assert(env_bytes(m)[i] == exp_bytes(m.expiration)[i - 72]);
                assert(exp_bytes(m.expiration)[i - 72] == bytes@.subrange(p + 72, p + 81)[i - 72]);
            } else if i < 89 {
                assert(env_bytes(m)[i] == u64_to_bytes(m.nonce)[i - 81]);
                assert(u64_to_bytes(m.nonce)[i - 81] == bytes@.subrange(p + 81, p + 89)[i - 81]);
            } else if i < 121 {
                assert(env_bytes(m)[i] == m.digest[i - 89]);
                assert(m.digest[i - 89] == bytes@.subrange(p + 89, p + 121)[i - 89]);
            } else if i < 185 {
                assert(env_bytes(m)[i] == m.sig[i - 121]);
                assert(m.sig[i - 121] == bytes@.subrange(p + 121, p + 185)[i - 121]);
            } else {
                assert(env_bytes(m)[i] == field_bytes(m.payload)[i - 185]);
                assert(field_bytes(m.payload)[i - 185] == bytes@.subrange(p + 185, end as int)[i
                    - 185]);
            }
        }
        assert(sub =~= env_bytes(m));
    }
    Some((env, end))
}

/// The mathematical model of a countersigned envelope.
pub ghost struct GuarantorModel {
    pub inner: EnvModel,
    pub guarantor: Seq<u8>,
    pub gsig: Seq<u8>,
}

/// The bytes a guarantor signs: the digest of the full wire form of the
/// guarantee envelope it attests.
pub open spec fn counter_input(inner: EnvModel) -> Seq<u8> {
    digest_of(env_bytes(inner))
}

/// Whether the guarantor signature is right for the inner envelope.
pub open spec fn valid_guarantor(g: GuarantorModel) -> bool {
    signature_valid(g.guarantor, counter_input(g.inner), g.gsig)
}

/// A well-formed countersigned envelope.
pub open spec fn wf_guarantor(g: GuarantorModel) -> bool {
    &&& wf_model(g.inner)
    &&& g.guarantor.len() == ID_LEN
    &&& g.gsig.len() == 64
}

/// The verdict of countersigned verification: the inner envelope first,
/// then that the guarantor is who the verifier expects, then its
/// signature.
pub open spec fn guarantor_verdict(
    g: GuarantorModel,
    expected: Option<Seq<u8>>,
    expected_guarantor: Option<Seq<u8>>,
    now: u64,
) -> Result<(), IpiisError> {
    match verify_verdict(g.inner, expected, now) {
        Err(e) => Err(e),
        Ok(()) => if !target_ok_guarantor(g, expected_guarantor) {
            Err(IpiisError::Signature(SigFault::WrongTarget))
        } else if !signature_valid(g.guarantor, counter_input(g.inner), g.gsig) {
            Err(IpiisError::Signature(SigFault::BadSignature))
        } else {
            Ok(())
        },
    }
}

/// Whether the countersignature was made by the expected guarantor.
pub open spec fn target_ok_guarantor(g: GuarantorModel, expected: Option<Seq<u8>>) -> bool {
    match expected {
        Some(e) => g.guarantor == e,
        None => true,
    }
}

/// A guarantee envelope plus the guarantor's countersignature: the chain
/// of custody guarantee → guarantor.
#[derive(Debug)]
pub struct GuarantorEnvelope {
    pub inner: GuaranteeEnvelope,
    pub guarantor: AccountId,
    pub gsig: Vec<u8>,
}

impl View for GuarantorEnvelope {
    type V = GuarantorModel;

    open spec fn view(&self) -> GuarantorModel {
        GuarantorModel { inner: self.inner@, guarantor: self.guarantor@, gsig: self.gsig@ }
    }
}

impl GuarantorEnvelope {
    /// Countersigns a guarantee envelope: hashes its full wire form and
    /// signs that hash, attesting that the guarantor processed it.
    pub fn countersign(account: &Account, inner: GuaranteeEnvelope) -> (r: GuarantorEnvelope)
        requires
            account.wf(),
            wf_model(inner@),
        ensures
            r@.inner == inner@,
            r@.guarantor == account.pk(),
            r@.gsig == signature_of(account.seed(), counter_input(inner@)),
            valid_guarantor(r@),
            wf_guarantor(r@),
    {
        let bytes = inner.encode();
        let d = digest(&bytes);
        let gsig = account.sign(&d);
        GuarantorEnvelope { inner, guarantor: account.account_ref(), gsig }
    }

    /// Verifies the chain: the inner guarantee envelope, that the
    /// countersignature was made by the expected guarantor, and the
    /// countersignature itself — with a distinct error for each failing
    /// step.
    pub fn verify_at(
        &self,
        expected: Option<&AccountId>,
        expected_guarantor: Option<&AccountId>,
        now: u64,
    ) -> (r: Result<(), IpiisError>)
        requires
            wf_model(self@.inner),
        ensures
            r == guarantor_verdict(
                self@,
                match expected {
                    Some(e) => Some(e@),
                    None => None,
                },
                match expected_guarantor {
                    Some(e) => Some(e@),
                    None => None,
                },
                now,
            ),
    {
        match self.inner.verify_at(expected, now) {
            Err(e) => {
                return Err(e);
            },
            Ok(()) => {},
        }
        match expected_guarantor {
            Some(e) => {
                if !self.guarantor.same(e) {
                    return Err(IpiisError::Signature(SigFault::WrongTarget));
                }
            },
            None => {},
        }
        let bytes = self.inner.encode();
        let d = digest(&bytes);
        if !verify_signature(self.guarantor.as_bytes(), &d, &self.gsig) {
            return Err(IpiisError::Signature(SigFault::BadSignature));
        }
        Ok(())
    }

    /// Strips the countersignature, keeping the guarantee envelope.
    pub fn into_guarantee(self) -> (r: GuaranteeEnvelope)
        ensures
            r@ == self@.inner,
    {
        self.inner
    }

    /// The canonical wire form: the inner envelope's bytes, then the
    /// guarantor identity and countersignature.
    pub fn encode(&self) -> (r: Vec<u8>)
        requires
            wf_guarantor(self@),
        ensures
            r@ == guarantor_bytes(self@),
    {
        let mut out = self.inner.encode();
        push_bytes(&mut out, self.guarantor.as_bytes());
        push_bytes(&mut out, &self.gsig);
        proof {
            assert(out@ =~= guarantor_bytes(self@));
        }
        out
    }
}

/// The canonical wire form of a countersigned envelope.
pub open spec fn guarantor_bytes(g: GuarantorModel) -> Seq<u8> {
    env_bytes(g.inner) + g.guarantor + g.gsig
}

/// The wire form of a countersigned envelope starts with its inner
/// envelope's wire form.
proof fn lemma_guarantor_prefix(bytes: Seq<u8>, pos: int, g: GuarantorModel, end: int)
    requires
        wf_guarantor(g),
        0 <= pos <= end <= bytes.len(),
        bytes.subrange(pos, end) == guarantor_bytes(g),
    ensures
        end == pos + env_bytes(g.inner).len() + 96,
        bytes.subrange(pos, pos + env_bytes(g.inner).len()) == env_bytes(g.inner),
{
    lemma_env_len_bytes(g.inner);
    let el = env_bytes(g.inner).len();
    let sub = bytes.subrange(pos, end);
    assert(sub.len() == el + 96);
    assert forall|i: int| 0 <= i < el implies bytes.subrange(pos, pos + el)[i] == env_bytes(
        g.inner,
    )[i] by {
        assert(bytes.subrange(pos, pos + el)[i] == sub[i]);
        assert(sub[i] == guarantor_bytes(g)[i]);
        assert(guarantor_bytes(g)[i] == env_bytes(g.inner)[i]);
    }
    assert(bytes.subrange(pos, pos + el) =~= env_bytes(g.inner));
}

/// At any one position of a byte string there stands at most one
/// well-formed countersigned envelope.
pub proof fn lemma_guarantor_at_pos_unique(
    bytes: Seq<u8>,
    pos: int,
    g1: GuarantorModel,
    end1: int,
    g2: GuarantorModel,
    end2: int,
)
    requires
        wf_guarantor(g1),
        wf_guarantor(g2),
        0 <= pos <= end1 <= bytes.len(),
        pos <= end2 <= bytes.len(),
        bytes.subrange(pos, end1) == guarantor_bytes(g1),
        bytes.subrange(pos, end2) == guarantor_bytes(g2),
    ensures
        end1 == end2,
        g1 == g2,
{
    lemma_guarantor_prefix(bytes, pos, g1, end1);
    lemma_guarantor_prefix(bytes, pos, g2, end2);
    lemma_env_at_pos_unique(
        bytes,
        pos,
        g1.inner,
        pos + env_bytes(g1.inner).len(),
        g2.inner,
        pos + env_bytes(g2.inner).len(),
    );
    assert(end1 == end2);
    assert(guarantor_bytes(g1) == guarantor_bytes(g2));
    lemma_guarantor_bytes_injective(g1, g2);
}

/// Reads a countersigned envelope back from its canonical wire form; on
/// failure no well-formed countersigned envelope stands at `pos`.
pub fn decode_guarantor(bytes: &Vec<u8>, pos: usize) -> (r: Option<(GuarantorEnvelope, usize)>)
    requires
        pos <= bytes@.len(),
    ensures
        match r {
            Some((env, end)) => {
                &&& pos < end <= bytes@.len()
                &&& wf_guarantor(env@)
                &&& bytes@.subrange(pos as int, end as int) == guarantor_bytes(env@)
            },
            None => forall|g: GuarantorModel, end: int|
                pos <= end <= bytes@.len() && wf_guarantor(g) ==> bytes@.subrange(pos as int, end)
                    != guarantor_bytes(g),
        },
{
    let (inner, mid) = match decode_envelope(bytes, pos) {
        Some(r) => r,
        None => {
            proof {
                assert forall|g: GuarantorModel, end: int|
                    pos <= end <= bytes@.len() && wf_guarantor(g) implies bytes@.subrange(
                    pos as int,
                    end,
                ) != guarantor_bytes(g) by {
                    if bytes@.subrange(pos as int, end) == guarantor_bytes(g) {
                        lemma_guarantor_prefix(bytes@, pos as int, g, end);
                    }
                }
            }
            return None;
        },
    };
    if bytes.len() - mid < 96 {
        proof {
            assert forall|g: GuarantorModel, end: int|
                pos <= end <= bytes@.len() && wf_guarantor(g) implies bytes@.subrange(
                pos as int,
                end,
            ) != guarantor_bytes(g) by {
                if bytes@.subrange(pos as int, end) == guarantor_bytes(g) {
                    lemma_guarantor_prefix(bytes@, pos as int, g, end);
                    lemma_env_at_pos_unique(
                        bytes@,
                        pos as int,
                        inner@,
                        mid as int,
                        g.inner,
                        pos + env_bytes(g.inner).len(),
                    );
                }
            }
        }
        return None;
    }
    let guarantor_raw = read_bytes(bytes, mid, 32);
    let gsig = read_bytes(bytes, mid + 32, 64);
    let guarantor = match AccountId::from_bytes(guarantor_raw) {
        Ok(id) => id,
        Err(_) => {
            proof {
                assert(false);
            }
            unreached()
        },
    };
    let env = GuarantorEnvelope { inner, guarantor, gsig };
    let end = mid + 96;
    proof {
        let g = env@;
        let p = pos as int;
        let sub = bytes@.subrange(p, end as int);
        assert(env_bytes(g.inner).len() == mid - pos);
        assert forall|i: int| 0 <= i < sub.len() implies sub[i] == guarantor_bytes(g)[i] by {
            assert(sub[i] == bytes@[p + i]);
            if i < mid - pos {
                assert(guarantor_bytes(g)[i] == env_bytes(g.inner)[i]);
                assert(env_bytes(g.inner)[i] == bytes@.subrange(p, mid as int)[i]);
            } else if i < mid - pos + 32 {
                assert(guarantor_bytes(g)[i] == g.guarantor[i - (mid - pos)]);
                assert(g.guarantor[i - (mid - pos)] == bytes@.subrange(mid as int, mid + 32)[i - (
                mid - pos)]);
            } else {
                assert(guarantor_bytes(g)[i] == g.gsig[i - (mid - pos) - 32]);
                assert(g.gsig[i - (mid - pos) - 32] == bytes@.subrange(mid + 32, mid + 96)[i - (mid
                    - pos) - 32]);
            }
        }
        assert(sub =~= guarantor_bytes(g));
    }
    Some((env, end))
}

/// Stripping the guarantor countersignature from a verified countersigned
/// envelope leaves a guarantee envelope that still verifies.
pub proof fn lemma_strip_guarantor(
    g: GuarantorModel,
    expected: Option<Seq<u8>>,
    expected_guarantor: Option<Seq<u8>>,
    now: u64,
)
    requires
        guarantor_verdict(g, expected, expected_guarantor, now) == Ok::<(), IpiisError>(()),
    ensures
        verify_verdict(g.inner, expected, now) == Ok::<(), IpiisError>(()),
{
}

/// The canonical byte form pins the countersigned envelope.
#[verifier::rlimit(100)]
#[verifier::spinoff_prover]
pub proof fn lemma_guarantor_bytes_injective(g1: GuarantorModel, g2: GuarantorModel)
    requires
        wf_guarantor(g1),
        wf_guarantor(g2),
        guarantor_bytes(g1) == guarantor_bytes(g2),
    ensures
        g1 == g2,
{
    let e1 = env_bytes(g1.inner);
    let e2 = env_bytes(g2.inner);
    assert(exp_bytes(g1.inner.expiration).len() == 9);
    assert(exp_bytes(g2.inner.expiration).len() == 9);
    assert(e1.len() == 193 + g1.inner.payload.len());
    assert(e2.len() == 193 + g2.inner.payload.len());
    assert(guarantor_bytes(g1) == (e1 + g1.guarantor) + g1.gsig);
    assert(guarantor_bytes(g2) == (e2 + g2.guarantor) + g2.gsig);
    assert((e1 + g1.guarantor).len() == e1.len() + 32);
    assert((e2 + g2.guarantor).len() == e2.len() + 32);
    assert(((e1 + g1.guarantor) + g1.gsig).len() == e1.len() + 96);
    assert(((e2 + g2.guarantor) + g2.gsig).len() == e2.len() + 96);
    assert(e1.len() == e2.len());
    lemma_concat_split(e1 + g1.guarantor, g1.gsig, e2 + g2.guarantor, g2.gsig);
    lemma_concat_split(e1, g1.guarantor, e2, g2.guarantor);
    lemma_env_bytes_injective(g1.inner, g2.inner);
}

/// Splitting equal concatenations at equal lengths yields equal parts.
pub proof fn lemma_concat_split(a: Seq<u8>, b: Seq<u8>, c: Seq<u8>, d: Seq<u8>)
    requires
        a.len() == c.len(),
        a + b == c + d,
    ensures
        a == c,
        b == d,
{
    assert forall|i: int| 0 <= i < a.len() implies a[i] == c[i] by {
        assert((a + b)[i] == a[i]);
        assert((c + d)[i] == c[i]);
    }
    assert(a =~= c);
    assert((a + b).len() == a.len() + b.len());
    assert((c + d).len() == c.len() + d.len());
    assert(b.len() == d.len());
    assert forall|i: int| 0 <= i < b.len() implies b[i] == d[i] by {
        assert(0 <= a.len() + i < (a + b).len());
        assert((a + b)[a.len() + i] == b[i]);
        assert(0 <= c.len() + i < (c + d).len());
        assert((c + d)[c.len() + i] == d[i]);
    }
    assert(b =~= d);
}

/// Equal eight-byte encodings come from the same 64-bit word.
proof fn lemma_u64_to_bytes_injective(x: u64, y: u64)
    requires
        u64_to_bytes(x) == u64_to_bytes(y),
    ensures
        x == y,
{
    lemma_u64_round_trip(x);
    lemma_u64_round_trip(y);
}

/// The canonical byte form pins the envelope: two well-formed envelopes
/// with the same bytes are the same envelope.
#[verifier::rlimit(100)]
pub proof fn lemma_env_bytes_injective(m1: EnvModel, m2: EnvModel)
    requires
        wf_model(m1),
        wf_model(m2),
        env_bytes(m1) == env_bytes(m2),
    ensures
        m1 == m2,
{
    assert(exp_bytes(m1.expiration).len() == 9);
    assert(exp_bytes(m2.expiration).len() == 9);
    lemma_concat_split(
        sign_input_of(m1) + m1.sig,
        field_bytes(m1.payload),
        sign_input_of(m2) + m2.sig,
        field_bytes(m2.payload),
    );
    lemma_concat_split(sign_input_of(m1), m1.sig, sign_input_of(m2), m2.sig);
    let h1 = m1.guarantee + m1.target + u64_to_bytes(m1.created_at) + exp_bytes(m1.expiration)
        + u64_to_bytes(m1.nonce);
    let h2 = m2.guarantee + m2.target + u64_to_bytes(m2.created_at) + exp_bytes(m2.expiration)
        + u64_to_bytes(m2.nonce);
    lemma_concat_split(h1, m1.digest, h2, m2.digest);
    let g1 = m1.guarantee + m1.target + u64_to_bytes(m1.created_at) + exp_bytes(m1.expiration);
    let g2 = m2.guarantee + m2.target + u64_to_bytes(m2.created_at) + exp_bytes(m2.expiration);
    lemma_concat_split(g1, u64_to_bytes(m1.nonce), g2, u64_to_bytes(m2.nonce));
    lemma_u64_to_bytes_injective(m1.nonce, m2.nonce);
    let f1 = m1.guarantee + m1.target + u64_to_bytes(m1.created_at);
    let f2 = m2.guarantee + m2.target + u64_to_bytes(m2.created_at);
    lemma_concat_split(f1, exp_bytes(m1.expiration), f2, exp_bytes(m2.expiration));
    lemma_exp_bytes_injective(m1.expiration, m2.expiration);
    lemma_concat_split(
        m1.guarantee + m1.target,
        u64_to_bytes(m1.created_at),
        m2.guarantee + m2.target,
        u64_to_bytes(m2.created_at),
    );
    lemma_u64_to_bytes_injective(m1.created_at, m2.created_at);
    lemma_concat_split(m1.guarantee, m1.target, m2.guarantee, m2.target);
    lemma_concat_split(
        u64_to_bytes(m1.payload.len() as u64),
        m1.payload,
        u64_to_bytes(m2.payload.len() as u64),
        m2.payload,
    );
}

/// Equal nine-byte expiration encodings denote the same expiration.
proof fn lemma_exp_bytes_injective(e1: Option<u64>, e2: Option<u64>)
    requires
        exp_bytes(e1) == exp_bytes(e2),
    ensures
        e1 == e2,
{
    let s1 = exp_bytes(e1);
    let s2 = exp_bytes(e2);
    assert(s1[0] == s2[0]);
    match (e1, e2) {
        (None, None) => {},
        (Some(t1), Some(t2)) => {
            lemma_concat_split(seq![1u8], u64_to_bytes(t1), seq![1u8], u64_to_bytes(t2));
            lemma_u64_to_bytes_injective(t1, t2);
        },
        (None, Some(_)) => {
            assert(s1[0] == 0 && s2[0] == 1);
        },
        (Some(_), None) => {
            assert(s1[0] == 1 && s2[0] == 0);
        },
    }
}

/// Relies on std::time::SystemTime::now (read through duration_since the
/// epoch): the wall clock in milliseconds; nothing is assumed of its
/// value.
#[verifier::external_body]
pub fn now_millis() -> (r: u64) {
    match std::time::SystemTime::now().duration_since(std::time::UNIX_EPOCH) {
        Ok(d) => d.as_millis() as u64,
        Err(_) => 0,
    }
}

} // verus!
