//! The error taxonomy of the substrate: what can go wrong while resolving,
//! parsing, verifying and dispatching, each failure as a distinct kind.

use vstd::prelude::*;
use vstd::string::{StrSliceExecFns, StringSliceAdditionalSpecFns};

verus! {

/// Why an envelope failed verification.
#[derive(Debug, PartialEq, Eq, Structural, Clone, Copy)]
pub enum SigFault {
    /// The envelope's target is not the identity that verified it.
    WrongTarget,
    /// The envelope's expiration lies before the verification time.
    Expired,
    /// The payload's digest differs from the digest the metadata names.
    DigestMismatch,
    /// The guarantee or guarantor signature does not check out.
    BadSignature,
}

/// Every failure the substrate reports.
#[derive(Debug)]
pub enum IpiisError {
    /// No address is known and no primary peer is configured to ask.
    Resolution,
    /// No address is known for the named target and no primary peer is
    /// configured to ask; the bytes are the target's identity.
    NoRoute(Vec<u8>),
    /// The routing table holds no entry for the key.
    NotFound,
    /// Bytes or an address were malformed.
    Parse,
    /// Envelope verification failed.
    Signature(SigFault),
    /// An administrative request was not self-signed.
    Authorization,
    /// The connection or stream failed.
    Transport,
    /// The embedded store failed.
    Storage,
    /// The target is the caller's own account, which needs no address to
    /// reach itself.
    SelfAddress,
    /// An unknown opcode, a malformed result flag, or a truncated frame.
    Protocol,
    /// The remote handler reported an error; the bytes are its message.
    Handler(Vec<u8>),
}

/// The textual form of each error, as the bytes a signed error reply
/// carries; a handler error carries its own message. Kept opaque so that
/// contracts can name a reply's text without unfolding the whole table.
#[verifier::opaque]
pub open spec fn error_text(e: IpiisError) -> Seq<u8> {
    match e {
        IpiisError::Resolution => "failed to get primary address".spec_bytes(),
        IpiisError::NoRoute(t) => "failed to get address: ".spec_bytes() + crate::types::hex_ascii(
            t@,
        ),
        IpiisError::NotFound => "not found".spec_bytes(),
        IpiisError::Parse => "failed to parse the data".spec_bytes(),
        IpiisError::Signature(_) => "failed to verify the signature".spec_bytes(),
        IpiisError::Authorization => "the request is not self-signed".spec_bytes(),
        IpiisError::Transport => "network error".spec_bytes(),
        IpiisError::Storage => "storage error".spec_bytes(),
        IpiisError::SelfAddress => "cannot get the address myself".spec_bytes(),
        IpiisError::Protocol => "cannot parse the request".spec_bytes(),
        IpiisError::Handler(m) => m@,
    }
}

impl IpiisError {
    /// The error's message, as the bytes a signed error reply carries.
    pub fn message_bytes(&self) -> (r: Vec<u8>)
        ensures
            r@ == error_text(*self),
    {
        proof {
            reveal(error_text);
        }
        match self {
            IpiisError::Resolution => "failed to get primary address".as_bytes_vec(),
            IpiisError::NoRoute(t) => {
                let mut r = "failed to get address: ".as_bytes_vec();
                let h = crate::types::to_hex_bytes(t);
                crate::codec::push_bytes(&mut r, &h);
                proof {
                    assert(r@ =~= error_text(*self));
                }
                r
            },
            IpiisError::NotFound => "not found".as_bytes_vec(),
            IpiisError::Parse => "failed to parse the data".as_bytes_vec(),
            IpiisError::Signature(_) => "failed to verify the signature".as_bytes_vec(),
            IpiisError::Authorization => "the request is not self-signed".as_bytes_vec(),
            IpiisError::Transport => "network error".as_bytes_vec(),
            IpiisError::Storage => "storage error".as_bytes_vec(),
            IpiisError::SelfAddress => "cannot get the address myself".as_bytes_vec(),
            IpiisError::Protocol => "cannot parse the request".as_bytes_vec(),
            IpiisError::Handler(m) => {
                let n = m.len();
                let r = crate::codec::read_bytes(m, 0, n);
                proof {
                    assert(r@ =~= m@);
                }
                r
            },
        }
    }

    /// Whether this error carries the given handler message.
    pub fn is_handler_message(&self, msg: &Vec<u8>) -> (r: bool)
        ensures
            r == (self matches IpiisError::Handler(m) && m@ == msg@),
    {
        match self {
            IpiisError::Handler(m) => crate::codec::bytes_eq(m, msg),
            _ => false,
        }
    }
}

} // verus!
