//! The identity certificate: a self-signed X.509 certificate derived
//! deterministically from an account's Ed25519 key, whose subject name is
//! the textual account reference with the reserved suffix. The TLS layer
//! accepts any peer certificate — identity is attested by the signed
//! envelopes, not by a certificate chain.

use vstd::prelude::*;
use vstd::string::StringExecFns;
use crate::account::Account;
use crate::errors::IpiisError;
use crate::types::{hex_of, to_hex, AccountId};
use ed25519::pkcs8::EncodePrivateKey;

verus! {

/// The TLS server name bound to an account: its textual reference, then
/// the reserved suffix.
pub open spec fn peer_name(account: Seq<u8>) -> Seq<char> {
    hex_of(account) + ".ipiis"@
}

/// Derives the TLS server name used during a handshake with `account`;
/// it matches the subject name that certificate generation uses.
pub fn get_name(account: &AccountId) -> (r: String)
    ensures
        r@ == peer_name(account@),
{
    let h = to_hex(account.as_bytes());
    h.concat(".ipiis")
}

/// The PKCS#8 document that the pkcs8 encoder produces for a keypair: a
/// function of the seed alone.
pub uninterp spec fn pkcs8_der_of(seed: Seq<u8>) -> Seq<u8>;

/// Relies on ed25519::pkcs8::KeypairBytes::to_pkcs8_der (via
/// ed25519_dalek::Keypair::to_bytes): a deterministic DER encoding of the
/// keypair. Encoding a keypair with its public half always succeeds and
/// yields the fixed 83-byte v2 document.
#[verifier::external_body]
fn account_pkcs8_der(account: &Account) -> (r: Result<Vec<u8>, IpiisError>)
    ensures
        r is Ok,
        r matches Ok(v) ==> v@ == pkcs8_der_of(account.seed()) && v@.len() == 83,
{
    let keypair_bytes = ed25519::pkcs8::KeypairBytes::from_bytes(&account.keypair().to_bytes());
    match keypair_bytes.to_pkcs8_der() {
        Ok(doc) => Ok(doc.as_bytes().to_vec()),
        Err(_) => Err(IpiisError::Parse),
    }
}

/// The pkcs8 document reshaped into the v2 form the certificate builder
/// accepts: the outer length patched, and the public-key element wrapped
/// in its context tag.
pub open spec fn fixed_der(s: Seq<u8>) -> Seq<u8> {
    s.update(1, 83u8).subrange(0, 48) + seq![161u8, 35u8, 3u8] + s.subrange(49, s.len() as int)
}

/// Patches the DER document in place: the length byte, then the two
/// context-tag bytes before the public key element.
pub fn fix_pkcs8_der(der: &Vec<u8>) -> (r: Vec<u8>)
    requires
        der@.len() >= 49,
    ensures
        r@ == fixed_der(der@),
{
    let n: usize = der.len();
    let mut out: Vec<u8> = Vec::new();
    let mut i: usize = 0;
    while i < 48
        invariant
            i <= 48,
            n == der@.len() >= 49,
            out@ == der@.update(1, 83u8).subrange(0, i as int),
        decreases 48 - i,
    {
        if i == 1 {
            out.push(83u8);
        } else {
            out.push(der[i]);
        }
        i = i + 1;
        proof {
            assert(out@ =~= der@.update(1, 83u8).subrange(0, i as int));
        }
    }
    out.push(161u8);
    out.push(35u8);
    out.push(3u8);
    let ghost head = out@;
    let mut j: usize = 49;
    while j < n
        invariant
            49 <= j <= n,
            n == der@.len(),
            out@ == head + der@.subrange(49, j as int),
        decreases n - j,
    {
        out.push(der[j]);
        j = j + 1;
        proof {
            assert(out@ =~= head + der@.subrange(49, j as int));
        }
    }
    proof {
        assert(out@ =~= fixed_der(der@));
    }
    out
}

/// The certificate bytes that the certificate builder derives from a DER
/// keypair and a subject name: deterministic, because the builder takes
/// its serial number from the public key's digest and signs with
/// deterministic Ed25519.
pub uninterp spec fn cert_der_of(der: Seq<u8>, name: Seq<char>) -> Seq<u8>;

/// Relies on rcgen: CertificateParams::new with the subject name, the
/// Ed25519 algorithm and KeyPair::from_der, then Certificate::from_params
/// with serialize_der and serialize_private_key_der. Every step is a
/// function of the key bytes and the name; KeyPair::from_der accepts the
/// patched v2 keypair document of a genuine keypair, Ed25519 signing does
/// not fail, and serialize_private_key_der hands back the stored input
/// document unchanged.
#[verifier::external_body]
fn build_certificate(der: &Vec<u8>, name: &String) -> (r: Result<(Vec<u8>, Vec<u8>), IpiisError>)
    requires
        exists|seed: Seq<u8>|
            seed.len() == crate::types::ID_LEN && der@ == #[trigger] fixed_der(pkcs8_der_of(seed)),
    ensures
        r is Ok,
        r matches Ok((key, cert)) ==> key@ == der@ && cert@ == cert_der_of(der@, name@),
{
    let mut params = rcgen::CertificateParams::new(vec![name.clone()]);
    params.alg = &rcgen::PKCS_ED25519;
    params.key_pair = match rcgen::KeyPair::from_der(der) {
        Ok(kp) => Some(kp),
        Err(_) => return Err(IpiisError::Parse),
    };
    let cert = match rcgen::Certificate::from_params(params) {
        Ok(cert) => cert,
        Err(_) => return Err(IpiisError::Parse),
    };
    let cert_der = match cert.serialize_der() {
        Ok(der) => der,
        Err(_) => return Err(IpiisError::Parse),
    };
    Ok((cert.serialize_private_key_der(), cert_der))
}

/// Generates the identity certificate of an account: the private-key
/// document and the single self-signed certificate, both deterministic
/// in the account.
pub fn generate(account: &Account) -> (r: Result<(Vec<u8>, Vec<u8>), IpiisError>)
    requires
        account.wf(),
    ensures
        r is Ok,
        r matches Ok((key, cert)) ==> {
            let der = fixed_der(pkcs8_der_of(account.seed()));
            key@ == der && cert@ == cert_der_of(der, peer_name(account.pk()))
        },
{
    let raw = match account_pkcs8_der(account) {
        Ok(raw) => raw,
        Err(_) => {
            proof {
                assert(false);
            }
            unreached()
        },
    };
    let der = fix_pkcs8_der(&raw);
    let name = get_name(&account.account_ref());
    proof {
        assert(der@ == fixed_der(pkcs8_der_of(account.seed())));
        assert(account.seed().len() == crate::types::ID_LEN);
    }
    build_certificate(&der, &name)
}

/// A certificate verifier that accepts any server certificate. Identity
/// is checked by the signed envelopes at the application layer; the
/// transport's TLS is used only for the encrypted channel.
pub struct ServerVerification {
    accept_any: bool,
}

impl ServerVerification {
    /// A verifier that accepts every certificate.
    pub fn new() -> (r: ServerVerification)
        ensures
            r.accepts_any(),
    {
        ServerVerification { accept_any: true }
    }

    /// Whether this verifier accepts every certificate.
    pub closed spec fn accepts_any(&self) -> bool {
        self.accept_any
    }

    /// The verdict for any presented certificate: accepted.
    pub fn verify_server_cert(&self, _end_entity: &Vec<u8>) -> (r: bool)
        requires
            self.accepts_any(),
        ensures
            r,
    {
        true
    }
}

} // verus!
