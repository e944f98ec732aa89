//! Accounts: an Ed25519 keypair held for the life of a peer, the signing
//! and verification primitives, and the content digest. The cryptographic
//! calls are trusted; everything stated of them is a function of the seed,
//! the message and the key bytes alone.

use vstd::prelude::*;
use crate::errors::IpiisError;
use crate::types::{AccountId, Kind, ID_LEN};
use ed25519_dalek::Signer;

verus! {

#[verifier::external_type_specification]
#[verifier::external_body]
pub struct ExKeypair(ed25519_dalek::Keypair);

/// The 32 public-key bytes that Ed25519 derives from a 32-byte seed.
pub uninterp spec fn public_key_of(seed: Seq<u8>) -> Seq<u8>;

/// The 64 signature bytes that Ed25519 produces for a seed and a message.
pub uninterp spec fn signature_of(seed: Seq<u8>, msg: Seq<u8>) -> Seq<u8>;

/// Whether Ed25519 verification accepts `sig` for `msg` under the public
/// key bytes `pk`.
pub uninterp spec fn signature_valid(pk: Seq<u8>, msg: Seq<u8>, sig: Seq<u8>) -> bool;

/// The 32 digest bytes of a byte string.
pub uninterp spec fn digest_of(data: Seq<u8>) -> Seq<u8>;

/// A keypair owned by a peer: the full secret. The seed and public bytes
/// are plain copies of what the keypair was built from.
pub struct Account {
    seed_bytes: Vec<u8>,
    public_bytes: Vec<u8>,
    keypair: ed25519_dalek::Keypair,
}

impl Account {
    /// The seed this account was derived from.
    pub closed spec fn seed(&self) -> Seq<u8> {
        self.seed_bytes@
    }

    /// The account's public-key bytes: its identity.
    pub closed spec fn pk(&self) -> Seq<u8> {
        self.public_bytes@
    }

    /// A well-formed account's public bytes are exactly what Ed25519
    /// derives from its 32-byte seed.
    pub open spec fn wf(&self) -> bool {
        &&& self.seed().len() == ID_LEN
        &&& self.pk() == public_key_of(self.seed())
        &&& self.pk().len() == ID_LEN
    }

    /// Relies on ed25519_dalek::SecretKey::from_bytes, which accepts
    /// exactly the 32-byte strings, and ed25519_dalek::PublicKey::from,
    /// which derives the public key as a function of the seed alone.
    #[verifier::external_body]
    pub fn from_seed(seed: &Vec<u8>) -> (r: Result<Account, IpiisError>)
        ensures
            match r {
                Ok(a) => {
                    &&& a.seed() == seed@
                    &&& seed@.len() == ID_LEN
                    &&& a.wf()
                },
                Err(e) => seed@.len() != ID_LEN && e matches IpiisError::Parse,
            },
    {
        let secret = match ed25519_dalek::SecretKey::from_bytes(seed) {
            Ok(secret) => secret,
            Err(_) => return Err(IpiisError::Parse),
        };
        let public = ed25519_dalek::PublicKey::from(&secret);
        Ok(Account {
            seed_bytes: seed.clone(),
            public_bytes: public.to_bytes().to_vec(),
            keypair: ed25519_dalek::Keypair { secret, public },
        })
    }

    /// Generates an account from fresh randomness.
    pub fn generate() -> (r: Account)
        ensures
            r.wf(),
    {
        let seed = random_seed();
        match Account::from_seed(&seed) {
            Ok(a) => a,
            Err(_) => {
                proof {
                    assert(false);
                }
                unreached()
            },
        }
    }

    /// The public identity of this account.
    pub fn account_ref(&self) -> (r: AccountId)
        requires
            self.wf(),
        ensures
            r@ == self.pk(),
            r.wf(),
    {
        let n = self.public_bytes.len();
        let bytes = crate::codec::read_bytes(&self.public_bytes, 0, n);
        proof {
            assert(bytes@ =~= self.pk());
        }
        match AccountId::from_bytes(bytes) {
            Ok(id) => id,
            Err(_) => {
                proof {
                    assert(false);
                }
                unreached()
            },
        }
    }

    /// The raw keypair, read by the certificate builder's wrapper.
    #[verifier::external_body]
    pub(crate) fn keypair(&self) -> &ed25519_dalek::Keypair {
        &self.keypair
    }

    /// Relies on ed25519_dalek::Keypair::sign: deterministic in the key
    /// and the message, and producing a signature that verifies under the
    /// matching public key.
    #[verifier::external_body]
    pub fn sign(&self, msg: &Vec<u8>) -> (r: Vec<u8>)
        ensures
            r@ == signature_of(self.seed(), msg@),
            r@.len() == 64,
            signature_valid(public_key_of(self.seed()), msg@, r@),
    {
        self.keypair.sign(msg.as_slice()).to_bytes().to_vec()
    }
}

/// Relies on rand::random for 32 fresh bytes; nothing is assumed of their
/// values.
#[verifier::external_body]
pub fn random_seed() -> (r: Vec<u8>)
    ensures
        r@.len() == ID_LEN,
{
    rand::random::<[u8; 32]>().to_vec()
}

/// Relies on rand::random for a fresh 64-bit nonce; nothing is assumed
/// of its value.
#[verifier::external_body]
pub fn random_nonce() -> (r: u64) {
    rand::random::<u64>()
}

/// Relies on ed25519_dalek::PublicKey::verify (with PublicKey::from_bytes
/// and ed25519::Signature::from_bytes to decode the arguments): acceptance
/// is a function of the key bytes, the message and the signature bytes.
#[verifier::external_body]
pub fn verify_signature(pk: &Vec<u8>, msg: &Vec<u8>, sig: &Vec<u8>) -> (r: bool)
    ensures
        r == signature_valid(pk@, msg@, sig@),
{
    let pk = match ed25519_dalek::PublicKey::from_bytes(pk.as_slice()) {
        Ok(pk) => pk,
        Err(_) => return false,
    };
    let sig = match ed25519_dalek::ed25519::Signature::from_bytes(sig.as_slice()) {
        Ok(sig) => sig,
        Err(_) => return false,
    };
    pk.verify_strict(msg.as_slice(), &sig).is_ok()
}

/// Relies on blake3::hash: a 32-byte digest that is a function of the
/// input bytes alone.
#[verifier::external_body]
pub fn digest(data: &Vec<u8>) -> (r: Vec<u8>)
    ensures
        r@ == digest_of(data@),
        r@.len() == ID_LEN,
{
    blake3::hash(data.as_slice()).as_bytes().to_vec()
}

/// The kind naming a namespace: the digest of the namespace's bytes.
pub fn kind_digest(data: &Vec<u8>) -> (r: Kind)
    ensures
        r@ == digest_of(data@),
        r.wf(),
{
    let d = digest(data);
    match Kind::from_bytes(d) {
        Ok(k) => k,
        Err(_) => {
            proof {
                assert(false);
            }
            unreached()
        },
    }
}

} // verus!
