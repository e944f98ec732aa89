//! The typed field streams of the six routing-admin operations, and the
//! frames that carry them: an opcode byte and a guarantee envelope on the
//! way in; a result flag, a countersigned envelope and the response
//! fields on the way out.

use vstd::prelude::*;
use crate::codec::{field_bytes, push_bytes, push_field, read_bytes, read_field};
use crate::envelope::{env_bytes, guarantor_bytes, wf_model, wf_guarantor, GuaranteeEnvelope, GuarantorEnvelope, decode_envelope, decode_guarantor};
use crate::errors::IpiisError;
use crate::flag::{ACK_ERR, ACK_OK};
use crate::opcode::{opcode_byte, OpCode};
use crate::types::{addr_bytes, AccountId, Address, Kind, ID_LEN};

verus! {

/// A typed request: the inputs of one of the defined operations.
#[derive(Debug)]
pub enum Request {
    GetAccountPrimary { kind: Option<Kind> },
    SetAccountPrimary { kind: Option<Kind>, account: AccountId },
    DeleteAccountPrimary { kind: Option<Kind> },
    GetAddress { kind: Option<Kind>, account: AccountId },
    SetAddress { kind: Option<Kind>, account: AccountId, address: Address },
    DeleteAddress { kind: Option<Kind>, account: AccountId },
}

/// A typed response: the outputs of one of the defined operations.
#[derive(Debug)]
pub enum Response {
    GetAccountPrimary { account: AccountId, address: Option<Address> },
    SetAccountPrimary,
    DeleteAccountPrimary,
    GetAddress { address: Address },
    SetAddress,
    DeleteAddress,
}

/// The request payload of the legacy address-resolution operation.
pub struct ArpRequest {
    pub target: AccountId,
}

/// The response payload of the legacy address-resolution operation.
#[derive(Clone, Copy, Debug, PartialEq, Eq, Structural)]
pub struct ArpResponse {
    pub addr: Address,
}

/// The byte form of an optional kind: a tag, then the digest when
/// present.
pub open spec fn opt_kind_bytes(k: Option<Seq<u8>>) -> Seq<u8> {
    match k {
        None => seq![0u8],
        Some(s) => seq![1u8] + s,
    }
}

/// The byte form of an optional address: a tag, then the six address
/// bytes when present.
pub open spec fn opt_addr_bytes(a: Option<Address>) -> Seq<u8> {
    match a {
        None => seq![0u8],
        Some(addr) => seq![1u8] + addr_bytes(addr),
    }
}

/// The ghost view of an optional kind.
pub open spec fn opt_kind_view(k: Option<Kind>) -> Option<Seq<u8>> {
    match k {
        Some(kind) => Some(kind@),
        None => None,
    }
}

/// The operation a request belongs to.
pub open spec fn request_opcode(r: Request) -> OpCode {
    match r {
        Request::GetAccountPrimary { .. } => OpCode::GetAccountPrimary,
        Request::SetAccountPrimary { .. } => OpCode::SetAccountPrimary,
        Request::DeleteAccountPrimary { .. } => OpCode::DeleteAccountPrimary,
        Request::GetAddress { .. } => OpCode::GetAddress,
        Request::SetAddress { .. } => OpCode::SetAddress,
        Request::DeleteAddress { .. } => OpCode::DeleteAddress,
    }
}

/// The operation a response belongs to.
pub open spec fn response_opcode(r: Response) -> OpCode {
    match r {
        Response::GetAccountPrimary { .. } => OpCode::GetAccountPrimary,
        Response::SetAccountPrimary => OpCode::SetAccountPrimary,
        Response::DeleteAccountPrimary => OpCode::DeleteAccountPrimary,
        Response::GetAddress { .. } => OpCode::GetAddress,
        Response::SetAddress => OpCode::SetAddress,
        Response::DeleteAddress => OpCode::DeleteAddress,
    }
}

/// A request's identities hold whole digests and keys.
pub open spec fn wf_request(r: Request) -> bool {
    match r {
        Request::GetAccountPrimary { kind } => wf_opt_kind(kind),
        Request::SetAccountPrimary { kind, account } => wf_opt_kind(kind) && account@.len()
            == ID_LEN,
        Request::DeleteAccountPrimary { kind } => wf_opt_kind(kind),
        Request::GetAddress { kind, account } => wf_opt_kind(kind) && account@.len() == ID_LEN,
        Request::SetAddress { kind, account, .. } => wf_opt_kind(kind) && account@.len() == ID_LEN,
        Request::DeleteAddress { kind, account } => wf_opt_kind(kind) && account@.len() == ID_LEN,
    }
}

/// A response's identities hold whole keys.
pub open spec fn wf_response(r: Response) -> bool {
    match r {
        Response::GetAccountPrimary { account, .. } => account@.len() == ID_LEN,
        _ => true,
    }
}

/// An optional kind holds a whole digest when present.
pub open spec fn wf_opt_kind(k: Option<Kind>) -> bool {
    match k {
        Some(kind) => kind@.len() == ID_LEN,
        None => true,
    }
}

/// The payload bytes a request signs and sends: its fields in order.
pub open spec fn request_bytes(r: Request) -> Seq<u8> {
    match r {
        Request::GetAccountPrimary { kind } => opt_kind_bytes(opt_kind_view(kind)),
        Request::SetAccountPrimary { kind, account } => opt_kind_bytes(opt_kind_view(kind))
            + account@,
        Request::DeleteAccountPrimary { kind } => opt_kind_bytes(opt_kind_view(kind)),
        Request::GetAddress { kind, account } => opt_kind_bytes(opt_kind_view(kind)) + account@,
        Request::SetAddress { kind, account, address } => opt_kind_bytes(opt_kind_view(kind))
            + account@ + addr_bytes(address),
        Request::DeleteAddress { kind, account } => opt_kind_bytes(opt_kind_view(kind)) + account@,
    }
}

/// The payload bytes of a response: its fields in order.
pub open spec fn response_bytes(r: Response) -> Seq<u8> {
    match r {
        Response::GetAccountPrimary { account, address } => account@ + opt_addr_bytes(address),
        Response::SetAccountPrimary => Seq::empty(),
        Response::DeleteAccountPrimary => Seq::empty(),
        Response::GetAddress { address } => addr_bytes(address),
        Response::SetAddress => Seq::empty(),
        Response::DeleteAddress => Seq::empty(),
    }
}

/// Appends the byte form of an optional kind.
fn push_opt_kind(out: &mut Vec<u8>, kind: &Option<Kind>)
    ensures
        final(out)@ == old(out)@ + opt_kind_bytes(
            match kind {
                Some(k) => Some(k@),
                None => None,
            },
        ),
{
    match kind {
        None => {
            out.push(0u8);
            proof {
                assert(out@ =~= old(out)@ + opt_kind_bytes(None));
            }
        },
        Some(k) => {
            out.push(1u8);
            push_bytes(out, k.as_bytes());
            proof {
                assert(out@ =~= old(out)@ + opt_kind_bytes(Some(k@)));
            }
        },
    }
}

/// The operation a request belongs to, as a value.
pub fn request_opcode_of(r: &Request) -> (op: OpCode)
    ensures
        op == request_opcode(*r),
{
    match r {
        Request::GetAccountPrimary { .. } => OpCode::GetAccountPrimary,
        Request::SetAccountPrimary { .. } => OpCode::SetAccountPrimary,
        Request::DeleteAccountPrimary { .. } => OpCode::DeleteAccountPrimary,
        Request::GetAddress { .. } => OpCode::GetAddress,
        Request::SetAddress { .. } => OpCode::SetAddress,
        Request::DeleteAddress { .. } => OpCode::DeleteAddress,
    }
}

/// Encodes a request's fields to the payload bytes its envelope signs.
pub fn encode_request_payload(r: &Request) -> (out: Vec<u8>)
    ensures
        out@ == request_bytes(*r),
{
    let mut out: Vec<u8> = Vec::new();
    match r {
        Request::GetAccountPrimary { kind } => {
            push_opt_kind(&mut out, kind);
        },
        Request::SetAccountPrimary { kind, account } => {
            push_opt_kind(&mut out, kind);
            push_bytes(&mut out, account.as_bytes());
        },
        Request::DeleteAccountPrimary { kind } => {
            push_opt_kind(&mut out, kind);
        },
        Request::GetAddress { kind, account } => {
            push_opt_kind(&mut out, kind);
            push_bytes(&mut out, account.as_bytes());
        },
        Request::SetAddress { kind, account, address } => {
            push_opt_kind(&mut out, kind);
            push_bytes(&mut out, account.as_bytes());
            let ab = address.to_bytes();
            push_bytes(&mut out, &ab);
        },
        Request::DeleteAddress { kind, account } => {
            push_opt_kind(&mut out, kind);
            push_bytes(&mut out, account.as_bytes());
        },
    }
    proof {
        assert(out@ =~= request_bytes(*r));
    }
    out
}

/// Encodes a response's fields to the bytes that follow its envelope.
pub fn encode_response_payload(r: &Response) -> (out: Vec<u8>)
    ensures
        out@ == response_bytes(*r),
{
    let mut out: Vec<u8> = Vec::new();
    match r {
        Response::GetAccountPrimary { account, address } => {
            push_bytes(&mut out, account.as_bytes());
            match address {
                None => out.push(0u8),
                Some(addr) => {
                    out.push(1u8);
                    let ab = addr.to_bytes();
                    push_bytes(&mut out, &ab);
                },
            }
        },
        Response::GetAddress { address } => {
            let ab = address.to_bytes();
            push_bytes(&mut out, &ab);
        },
        _ => {},
    }
    proof {
        assert(out@ =~= response_bytes(*r));
    }
    out
}

/// Reads an optional kind from the head of a payload; returns it and the
/// position just past it.
fn read_opt_kind(bytes: &Vec<u8>) -> (r: Option<(Option<Kind>, usize)>)
    ensures
        match r {
            Some((k, end)) => {
                &&& end <= bytes@.len()
                &&& wf_opt_kind(k)
                &&& bytes@.subrange(0, end as int) == opt_kind_bytes(opt_kind_view(k))
            },
            None => bytes@.len() == 0 || (bytes@[0] != 0 && bytes@[0] != 1) || (bytes@[0] == 1
                && bytes@.len() < 1 + ID_LEN),
        },
{
    if bytes.len() == 0 {
        return None;
    }
    if bytes[0] == 0 {
        proof {
            assert(bytes@.subrange(0, 1) =~= opt_kind_bytes(None));
        }
        return Some((None, 1));
    }
    if bytes[0] != 1 {
        return None;
    }
    if bytes.len() < 1 + ID_LEN {
        return None;
    }
    let raw = read_bytes(bytes, 1, ID_LEN);
    let kind = match Kind::from_bytes(raw) {
        Ok(k) => k,
        Err(_) => {
            proof {
                assert(false);
            }
            unreached()
        },
    };
    proof {
        assert(bytes@.subrange(0, 1 + ID_LEN as int) =~= opt_kind_bytes(Some(kind@)));
    }
    Some((Some(kind), 1 + ID_LEN))
}

/// Reads an account reference at `pos`; returns it and the position just
/// past it.
fn read_account(bytes: &Vec<u8>, pos: usize) -> (r: Option<(AccountId, usize)>)
    requires
        pos <= bytes@.len(),
    ensures
        match r {
            Some((id, end)) => {
                &&& end == pos + ID_LEN <= bytes@.len()
                &&& id.wf()
                &&& id@ == bytes@.subrange(pos as int, end as int)
            },
            None => bytes@.len() < pos + ID_LEN,
        },
{
    if bytes.len() - pos < ID_LEN {
        return None;
    }
    let raw = read_bytes(bytes, pos, ID_LEN);
    match AccountId::from_bytes(raw) {
        Ok(id) => Some((id, pos + ID_LEN)),
        Err(_) => {
            proof {
                assert(false);
            }
            unreached()
        },
    }
}

/// Reads a request's fields back from its payload bytes. Exactly the
/// encodings of well-formed requests of the operation are accepted.
pub fn decode_request_payload(op: OpCode, bytes: &Vec<u8>) -> (r: Result<Request, IpiisError>)
    ensures
        match r {
            Ok(req) => {
                &&& request_opcode(req) == op
                &&& wf_request(req)
                &&& request_bytes(req) == bytes@
            },
            Err(e) => {
                &&& e matches IpiisError::Parse
                &&& forall|q: Request|
                    request_opcode(q) == op && wf_request(q) ==> request_bytes(q) != bytes@
            },
        },
{
    let (kind, mid) = match read_opt_kind(bytes) {
        Some(r) => r,
        None => {
            proof {
                lemma_no_request_on_bad_kind(op, bytes@);
            }
            return Err(IpiisError::Parse);
        },
    };
    match op {
        OpCode::GetAccountPrimary | OpCode::DeleteAccountPrimary => {
            if bytes.len() != mid {
                proof {
                    lemma_request_length_mismatch(op, bytes@, opt_kind_view(kind));
                }
                return Err(IpiisError::Parse);
            }
            let req = if matches!(op, OpCode::GetAccountPrimary) {
                Request::GetAccountPrimary { kind }
            } else {
                Request::DeleteAccountPrimary { kind }
            };
            proof {
                assert(request_bytes(req) =~= bytes@);
            }
            Ok(req)
        },
        OpCode::SetAccountPrimary | OpCode::GetAddress | OpCode::DeleteAddress => {
            let (account, end) = match read_account(bytes, mid) {
                Some(r) => r,
                None => {
                    proof {
                        lemma_request_length_mismatch(op, bytes@, opt_kind_view(kind));
                    }
                    return Err(IpiisError::Parse);
                },
            };
            if bytes.len() != end {
                proof {
                    lemma_request_length_mismatch(op, bytes@, opt_kind_view(kind));
                }
                return Err(IpiisError::Parse);
            }
            let req = if matches!(op, OpCode::SetAccountPrimary) {
                Request::SetAccountPrimary { kind, account }
            } else if matches!(op, OpCode::GetAddress) {
                Request::GetAddress { kind, account }
            } else {
                Request::DeleteAddress { kind, account }
            };
            proof {
                assert(request_bytes(req) =~= bytes@);
            }
            Ok(req)
        },
        OpCode::SetAddress => {
            let (account, mid2) = match read_account(bytes, mid) {
                Some(r) => r,
                None => {
                    proof {
                        lemma_request_length_mismatch(op, bytes@, opt_kind_view(kind));
                    }
                    return Err(IpiisError::Parse);
                },
            };
            if bytes.len() - mid2 != 6 {
                proof {
                    lemma_request_length_mismatch(op, bytes@, opt_kind_view(kind));
                }
                return Err(IpiisError::Parse);
            }
            let raw = read_bytes(bytes, mid2, 6);
            let address = match Address::parse(&raw) {
                Ok(a) => a,
                Err(_) => {
                    proof {
                        assert(false);
                    }
                    unreached()
                },
            };
            let req = Request::SetAddress { kind, account, address };
            proof {
                assert(request_bytes(req) =~= bytes@);
            }
            Ok(req)
        },
    }
}

/// The kind field of any request.
pub open spec fn request_kind(q: Request) -> Option<Kind> {
    match q {
        Request::GetAccountPrimary { kind } => kind,
        Request::SetAccountPrimary { kind, .. } => kind,
        Request::DeleteAccountPrimary { kind } => kind,
        Request::GetAddress { kind, .. } => kind,
        Request::SetAddress { kind, .. } => kind,
        Request::DeleteAddress { kind, .. } => kind,
    }
}

/// What follows the kind in a request's payload bytes.
pub open spec fn request_tail(q: Request) -> Seq<u8> {
    match q {
        Request::GetAccountPrimary { .. } => Seq::empty(),
        Request::SetAccountPrimary { account, .. } => account@,
        Request::DeleteAccountPrimary { .. } => Seq::empty(),
        Request::GetAddress { account, .. } => account@,
        Request::SetAddress { account, address, .. } => account@ + addr_bytes(address),
        Request::DeleteAddress { account, .. } => account@,
    }
}

/// How many bytes follow the kind in a well-formed request of each
/// operation.
pub open spec fn tail_len(op: OpCode) -> int {
    match op {
        OpCode::GetAccountPrimary => 0,
        OpCode::SetAccountPrimary => ID_LEN as int,
        OpCode::DeleteAccountPrimary => 0,
        OpCode::GetAddress => ID_LEN as int,
        OpCode::SetAddress => ID_LEN + 6,
        OpCode::DeleteAddress => ID_LEN as int,
    }
}

/// A request's payload bytes are its kind's byte form, then its tail.
pub proof fn lemma_request_decomposition(q: Request)
    ensures
        request_bytes(q) == opt_kind_bytes(opt_kind_view(request_kind(q))) + request_tail(q),
        wf_request(q) ==> request_tail(q).len() == tail_len(request_opcode(q)),
{
    match q {
        Request::GetAccountPrimary { kind } => {
            assert(request_bytes(q) =~= opt_kind_bytes(opt_kind_view(kind)) + Seq::empty());
        },
        Request::DeleteAccountPrimary { kind } => {
            assert(request_bytes(q) =~= opt_kind_bytes(opt_kind_view(kind)) + Seq::empty());
        },
        _ => {},
    }
}

/// The length of an optional kind's byte form, and its leading tag.
proof fn lemma_opt_kind_shape(k: Option<Seq<u8>>)
    ensures
        k is Some ==> opt_kind_bytes(k)[0] == 1 && opt_kind_bytes(k).len() == 1 + (match k {
            Some(s) => s.len(),
            None => 0,
        }),
        k is None ==> opt_kind_bytes(k) == seq![0u8],
        opt_kind_bytes(k).len() >= 1,
        opt_kind_bytes(k)[0] == 0 || opt_kind_bytes(k)[0] == 1,
        (opt_kind_bytes(k)[0] == 1) == (k is Some),
{
}

/// When the head of the payload is no optional kind, no well-formed
/// request of any operation has these payload bytes.
proof fn lemma_no_request_on_bad_kind(op: OpCode, bytes: Seq<u8>)
    requires
        bytes.len() == 0 || (bytes[0] != 0 && bytes[0] != 1) || (bytes[0] == 1 && bytes.len() < 1
            + ID_LEN),
    ensures
        forall|q: Request| request_opcode(q) == op && wf_request(q) ==> request_bytes(q) != bytes,
{
    assert forall|q: Request| request_opcode(q) == op && wf_request(q) implies request_bytes(q)
        != bytes by {
        let k = opt_kind_view(request_kind(q));
        let kb = opt_kind_bytes(k);
        lemma_request_decomposition(q);
        lemma_opt_kind_shape(k);
        if request_bytes(q) == bytes {
            assert(bytes.len() == kb.len() + request_tail(q).len());
            assert(bytes[0] == kb[0]);
            if k is Some {
                assert(bytes[0] == 1 && bytes.len() >= 1 + ID_LEN);
            } else {
                assert(bytes[0] == 0);
            }
        }
    }
}

/// When the bytes after the kind are not exactly one tail of the
/// operation, no well-formed request of that operation has these payload
/// bytes.
proof fn lemma_request_length_mismatch(op: OpCode, bytes: Seq<u8>, k: Option<Seq<u8>>)
    requires
        k matches Some(s) ==> s.len() == ID_LEN,
        opt_kind_bytes(k).len() <= bytes.len(),
        bytes.subrange(0, opt_kind_bytes(k).len() as int) == opt_kind_bytes(k),
        bytes.len() != opt_kind_bytes(k).len() + tail_len(op),
    ensures
        forall|q: Request| request_opcode(q) == op && wf_request(q) ==> request_bytes(q) != bytes,
{
    let kb = opt_kind_bytes(k);
    lemma_opt_kind_shape(k);
    assert(bytes[0] == kb[0]) by {
        assert(bytes.subrange(0, kb.len() as int)[0] == bytes[0]);
    }
    assert forall|q: Request| request_opcode(q) == op && wf_request(q) implies request_bytes(q)
        != bytes by {
        let kq = opt_kind_view(request_kind(q));
        let kbq = opt_kind_bytes(kq);
        lemma_request_decomposition(q);
        lemma_opt_kind_shape(kq);
        if request_bytes(q) == bytes {
            assert(bytes[0] == kbq[0]) by {
                assert((kbq + request_tail(q))[0] == kbq[0]);
            }
            assert((kq is Some) == (k is Some));
            assert(kbq.len() == kb.len());
            assert(bytes.len() == kbq.len() + request_tail(q).len());
            assert(request_tail(q).len() == tail_len(op));
        }
    }
}

/// Whether two requests are the same operation on the same values.
pub open spec fn request_matches(q1: Request, q2: Request) -> bool {
    &&& request_opcode(q1) == request_opcode(q2)
    &&& opt_kind_view(request_kind(q1)) == opt_kind_view(request_kind(q2))
    &&& request_tail(q1) == request_tail(q2)
    &&& match (q1, q2) {
        (
            Request::SetAddress { account: a1, address: d1, .. },
            Request::SetAddress { account: a2, address: d2, .. },
        ) => a1@ == a2@ && d1 == d2,
        (
            Request::SetAccountPrimary { account: a1, .. },
            Request::SetAccountPrimary { account: a2, .. },
        ) => a1@ == a2@,
        (Request::GetAddress { account: a1, .. }, Request::GetAddress { account: a2, .. }) => a1@
            == a2@,
        (Request::DeleteAddress { account: a1, .. }, Request::DeleteAddress { account: a2, .. }) =>
            a1@ == a2@,
        (Request::GetAccountPrimary { .. }, Request::GetAccountPrimary { .. }) => true,
        (Request::DeleteAccountPrimary { .. }, Request::DeleteAccountPrimary { .. }) => true,
        _ => false,
    }
}

/// Two well-formed requests of one operation with the same payload bytes
/// are the same request: encoding then decoding a request yields it back.
pub proof fn lemma_request_bytes_injective(q1: Request, q2: Request)
    requires
        wf_request(q1),
        wf_request(q2),
        request_opcode(q1) == request_opcode(q2),
        request_bytes(q1) == request_bytes(q2),
    ensures
        request_matches(q1, q2),
{
    let k1 = opt_kind_view(request_kind(q1));
    let k2 = opt_kind_view(request_kind(q2));
    let kb1 = opt_kind_bytes(k1);
    let kb2 = opt_kind_bytes(k2);
    lemma_request_decomposition(q1);
    lemma_request_decomposition(q2);
    lemma_opt_kind_shape(k1);
    lemma_opt_kind_shape(k2);
    let b = request_bytes(q1);
    assert(b[0] == kb1[0] && b[0] == kb2[0]) by {
        assert((kb1 + request_tail(q1))[0] == kb1[0]);
        assert((kb2 + request_tail(q2))[0] == kb2[0]);
    }
    assert((k1 is Some) == (k2 is Some));
    assert(kb1.len() == kb2.len());
    crate::envelope::lemma_concat_split(kb1, request_tail(q1), kb2, request_tail(q2));
    if k1 is Some {
        let s1 = match k1 {
            Some(s) => s,
            None => Seq::empty(),
        };
        let s2 = match k2 {
            Some(s) => s,
            None => Seq::empty(),
        };
        crate::envelope::lemma_concat_split(seq![1u8], s1, seq![1u8], s2);
    }
    match (q1, q2) {
        (
            Request::SetAddress { account: a1, address: d1, .. },
            Request::SetAddress { account: a2, address: d2, .. },
        ) => {
            crate::envelope::lemma_concat_split(a1@, addr_bytes(d1), a2@, addr_bytes(d2));
            crate::types::lemma_addr_bytes_round_trip(d1);
        },
        _ => {},
    }
}

/// Whether two responses are the same operation on the same values.
pub open spec fn response_matches(r1: Response, r2: Response) -> bool {
    &&& response_opcode(r1) == response_opcode(r2)
    &&& match (r1, r2) {
        (
            Response::GetAccountPrimary { account: a1, address: d1 },
            Response::GetAccountPrimary { account: a2, address: d2 },
        ) => a1@ == a2@ && d1 == d2,
        (Response::GetAddress { address: d1 }, Response::GetAddress { address: d2 }) => d1 == d2,
        (Response::SetAccountPrimary, Response::SetAccountPrimary) => true,
        (Response::DeleteAccountPrimary, Response::DeleteAccountPrimary) => true,
        (Response::SetAddress, Response::SetAddress) => true,
        (Response::DeleteAddress, Response::DeleteAddress) => true,
        _ => false,
    }
}

/// Two well-formed responses of one operation with the same payload bytes
/// are the same response: a response reconstructs exactly from its bytes.
pub proof fn lemma_response_bytes_injective(r1: Response, r2: Response)
    requires
        wf_response(r1),
        wf_response(r2),
        response_opcode(r1) == response_opcode(r2),
        response_bytes(r1) == response_bytes(r2),
    ensures
        response_matches(r1, r2),
{
    match (r1, r2) {
        (
            Response::GetAccountPrimary { account: a1, address: d1 },
            Response::GetAccountPrimary { account: a2, address: d2 },
        ) => {
            crate::envelope::lemma_concat_split(a1@, opt_addr_bytes(d1), a2@, opt_addr_bytes(d2));
            assert(opt_addr_bytes(d1)[0] == opt_addr_bytes(d2)[0]);
            match (d1, d2) {
                (Some(x1), Some(x2)) => {
                    crate::envelope::lemma_concat_split(
                        seq![1u8],
                        addr_bytes(x1),
                        seq![1u8],
                        addr_bytes(x2),
                    );
                    crate::types::lemma_addr_bytes_round_trip(x1);
                },
                (None, Some(_)) => {
                    assert(opt_addr_bytes(d1)[0] == 0 && opt_addr_bytes(d2)[0] == 1);
                },
                (Some(_), None) => {
                    assert(opt_addr_bytes(d1)[0] == 1 && opt_addr_bytes(d2)[0] == 0);
                },
                (None, None) => {},
            }
        },
        (Response::GetAddress { address: x1 }, Response::GetAddress { address: x2 }) => {
            crate::types::lemma_addr_bytes_round_trip(x1);
        },
        _ => {},
    }
}

/// The length and leading tag of a response's optional-address part.
proof fn lemma_response_shape(resp: Response)
    requires
        wf_response(resp),
    ensures
        resp matches Response::GetAccountPrimary { account, address } ==> {
            &&& response_bytes(resp).len() == (match address {
                None => 33int,
                Some(_) => 39int,
            })
            &&& response_bytes(resp)[32] == (match address {
                None => 0u8,
                Some(_) => 1u8,
            })
        },
        resp matches Response::GetAddress { .. } ==> response_bytes(resp).len() == 6,
        (resp matches Response::SetAccountPrimary || resp matches Response::DeleteAccountPrimary
            || resp matches Response::SetAddress || resp matches Response::DeleteAddress)
            ==> response_bytes(resp).len() == 0,
{
    match resp {
        Response::GetAccountPrimary { account, address } => {
            assert(opt_addr_bytes(address).len() == (match address {
                None => 1int,
                Some(_) => 7int,
            }));
            assert(response_bytes(resp)[32] == opt_addr_bytes(address)[0]);
        },
        _ => {},
    }
}

/// Reads a response's fields back from its payload bytes. Exactly the
/// encodings of well-formed responses of the operation are accepted.
pub fn decode_response_payload(op: OpCode, bytes: &Vec<u8>) -> (r: Result<Response, IpiisError>)
    ensures
        match r {
            Ok(resp) => {
                &&& response_opcode(resp) == op
                &&& wf_response(resp)
                &&& response_bytes(resp) == bytes@
            },
            Err(e) => {
                &&& e matches IpiisError::Parse
                &&& forall|resp: Response|
                    response_opcode(resp) == op && wf_response(resp) ==> response_bytes(resp)
                        != bytes@
            },
        },
{
    proof {
        assert forall|resp: Response| wf_response(resp) implies response_bytes(resp).len() == 0
            || response_bytes(resp).len() == 6 || response_bytes(resp).len() == 33
            || response_bytes(resp).len() == 39 by {
            lemma_response_shape(resp);
        }
    }
    match op {
        OpCode::GetAccountPrimary => {
            let (account, mid) = match read_account(bytes, 0) {
                Some(r) => r,
                None => {
                    proof {
                        assert forall|resp: Response|
                            response_opcode(resp) == op && wf_response(resp) implies
                            response_bytes(resp) != bytes@ by {
                            lemma_response_shape(resp);
                        }
                    }
                    return Err(IpiisError::Parse);
                },
            };
            if bytes.len() == mid + 1 {
                if bytes[mid] != 0 {
                    proof {
                        assert forall|resp: Response|
                            response_opcode(resp) == op && wf_response(resp) implies
                            response_bytes(resp) != bytes@ by {
                            lemma_response_shape(resp);
                        }
                    }
                    return Err(IpiisError::Parse);
                }
                let resp = Response::GetAccountPrimary { account, address: None };
                proof {
                    assert(response_bytes(resp) =~= bytes@);
                }
                Ok(resp)
            } else if bytes.len() == mid + 7 {
                if bytes[mid] != 1 {
                    proof {
                        assert forall|resp: Response|
                            response_opcode(resp) == op && wf_response(resp) implies
                            response_bytes(resp) != bytes@ by {
                            lemma_response_shape(resp);
                        }
                    }
                    return Err(IpiisError::Parse);
                }
                let raw = read_bytes(bytes, mid + 1, 6);
                let address = match Address::parse(&raw) {
                    Ok(a) => a,
                    Err(_) => {
                        proof {
                            assert(false);
                        }
                        unreached()
                    },
                };
                let resp = Response::GetAccountPrimary { account, address: Some(address) };
                proof {
                    assert(response_bytes(resp) =~= bytes@);
                }
                Ok(resp)
            } else {
                proof {
                    assert forall|resp: Response|
                        response_opcode(resp) == op && wf_response(resp) implies response_bytes(
                        resp,
                    ) != bytes@ by {
                        lemma_response_shape(resp);
                    }
                }
                Err(IpiisError::Parse)
            }
        },
        OpCode::GetAddress => {
            if bytes.len() != 6 {
                proof {
                    assert forall|resp: Response|
                        response_opcode(resp) == op && wf_response(resp) implies response_bytes(
                        resp,
                    ) != bytes@ by {
                        lemma_response_shape(resp);
                    }
                }
                return Err(IpiisError::Parse);
            }
            let raw = read_bytes(bytes, 0, 6);
            let address = match Address::parse(&raw) {
                Ok(a) => a,
                Err(_) => {
                    proof {
                        assert(false);
                    }
                    unreached()
                },
            };
            let resp = Response::GetAddress { address };
            proof {
                assert(response_bytes(resp) =~= bytes@);
            }
            Ok(resp)
        },
        OpCode::SetAccountPrimary => {
            if bytes.len() != 0 {
                proof {
                    assert forall|resp: Response|
                        response_opcode(resp) == op && wf_response(resp) implies response_bytes(
                        resp,
                    ) != bytes@ by {
                        lemma_response_shape(resp);
                    }
                }
                return Err(IpiisError::Parse);
            }
            proof {
                assert(response_bytes(Response::SetAccountPrimary) =~= bytes@);
            }
            Ok(Response::SetAccountPrimary)
        },
        OpCode::DeleteAccountPrimary => {
            if bytes.len() != 0 {
                proof {
                    assert forall|resp: Response|
                        response_opcode(resp) == op && wf_response(resp) implies response_bytes(
                        resp,
                    ) != bytes@ by {
                        lemma_response_shape(resp);
                    }
                }
                return Err(IpiisError::Parse);
            }
            proof {
                assert(response_bytes(Response::DeleteAccountPrimary) =~= bytes@);
            }
            Ok(Response::DeleteAccountPrimary)
        },
        OpCode::SetAddress => {
            if bytes.len() != 0 {
                proof {
                    assert forall|resp: Response|
                        response_opcode(resp) == op && wf_response(resp) implies response_bytes(
                        resp,
                    ) != bytes@ by {
                        lemma_response_shape(resp);
                    }
                }
                return Err(IpiisError::Parse);
            }
            proof {
                assert(response_bytes(Response::SetAddress) =~= bytes@);
            }
            Ok(Response::SetAddress)
        },
        OpCode::DeleteAddress => {
            if bytes.len() != 0 {
                proof {
                    assert forall|resp: Response|
                        response_opcode(resp) == op && wf_response(resp) implies response_bytes(
                        resp,
                    ) != bytes@ by {
                        lemma_response_shape(resp);
                    }
                }
                return Err(IpiisError::Parse);
            }
            proof {
                assert(response_bytes(Response::DeleteAddress) =~= bytes@);
            }
            Ok(Response::DeleteAddress)
        },
    }
}

/// The wire form of a request: the opcode tag byte, then the guarantee
/// envelope whose payload is the request's field bytes.
pub open spec fn request_frame_bytes(op: OpCode, m: crate::envelope::EnvModel) -> Seq<u8> {
    seq![opcode_byte(op)] + env_bytes(m)
}

/// The wire form of a successful response: the ACK|OK flag, the
/// countersigned request envelope, then the response fields as one
/// length-prefixed field.
pub open spec fn ok_frame_bytes(g: crate::envelope::GuarantorModel, resp: Seq<u8>) -> Seq<u8> {
    seq![ACK_OK] + guarantor_bytes(g) + field_bytes(resp)
}

/// The wire form of an error response: the ACK|ERR flag, then a
/// countersigned envelope whose payload is the error message.
pub open spec fn err_frame_bytes(g: crate::envelope::GuarantorModel) -> Seq<u8> {
    seq![ACK_ERR] + guarantor_bytes(g)
}

/// Encodes a request frame: the opcode tag, then the envelope.
pub fn encode_request_frame(op: OpCode, env: &GuaranteeEnvelope) -> (r: Vec<u8>)
    requires
        wf_model(env@),
    ensures
        r@ == request_frame_bytes(op, env@),
{
    let mut out: Vec<u8> = Vec::new();
    out.push(op.to_byte());
    let eb = env.encode();
    push_bytes(&mut out, &eb);
    proof {
        assert(out@ =~= request_frame_bytes(op, env@));
    }
    out
}

/// Reads a whole request frame: the opcode tag, then the envelope, with
/// nothing after it.
pub fn decode_request_frame(bytes: &Vec<u8>) -> (r: Result<(OpCode, GuaranteeEnvelope), IpiisError>)
    ensures
        match r {
            Ok((op, env)) => {
                &&& wf_model(env@)
                &&& bytes@ == request_frame_bytes(op, env@)
            },
            Err(e) => {
                &&& e matches IpiisError::Protocol
                &&& forall|op: OpCode, m: crate::envelope::EnvModel|
                    wf_model(m) ==> bytes@ != request_frame_bytes(op, m)
            },
        },
{
    if bytes.len() < 1 {
        proof {
            assert forall|op: OpCode, m: crate::envelope::EnvModel| wf_model(m) implies bytes@
                != request_frame_bytes(op, m) by {
                assert(request_frame_bytes(op, m).len() >= 1);
            }
        }
        return Err(IpiisError::Protocol);
    }
    let op = match OpCode::from_byte(bytes[0]) {
        Some(op) => op,
        None => {
            proof {
                assert forall|op2: OpCode, m: crate::envelope::EnvModel| wf_model(m) implies
                    bytes@ != request_frame_bytes(op2, m) by {
                    assert(request_frame_bytes(op2, m)[0] == opcode_byte(op2));
                }
            }
            return Err(IpiisError::Protocol);
        },
    };
    let (env, end) = match decode_envelope(bytes, 1) {
        Some(r) => r,
        None => {
            proof {
                assert forall|op2: OpCode, m: crate::envelope::EnvModel| wf_model(m) implies
                    bytes@ != request_frame_bytes(op2, m) by {
                    if bytes@ == request_frame_bytes(op2, m) {
                        lemma_frame_envelope_at_one(bytes@, m);
                    }
                }
            }
            return Err(IpiisError::Protocol);
        },
    };
    if end != bytes.len() {
        proof {
            assert forall|op2: OpCode, m: crate::envelope::EnvModel| wf_model(m) implies bytes@
                != request_frame_bytes(op2, m) by {
                if bytes@ == request_frame_bytes(op2, m) {
                    lemma_frame_envelope_at_one(bytes@, m);
                    crate::envelope::lemma_env_at_pos_unique(
                        bytes@,
                        1,
                        env@,
                        end as int,
                        m,
                        bytes@.len() as int,
                    );
                }
            }
        }
        return Err(IpiisError::Protocol);
    }
    proof {
        assert forall|i: int| 0 <= i < bytes@.len() implies bytes@[i] == request_frame_bytes(
            op,
            env@,
        )[i] by {
            if i >= 1 {
                assert(bytes@.subrange(1, end as int)[i - 1] == bytes@[i]);
            }
        }
        assert(bytes@ =~= request_frame_bytes(op, env@));
    }
    Ok((op, env))
}

/// The envelope of a request frame stands at position one and runs to
/// the frame's end.
proof fn lemma_frame_envelope_at_one(bytes: Seq<u8>, m: crate::envelope::EnvModel)
    requires
        wf_model(m),
        exists|op: OpCode| bytes == #[trigger] request_frame_bytes(op, m),
    ensures
        bytes.len() == 1 + env_bytes(m).len(),
        bytes.subrange(1, bytes.len() as int) == env_bytes(m),
{
    let op = choose|op: OpCode| bytes == request_frame_bytes(op, m);
    assert(bytes.len() == 1 + env_bytes(m).len());
    assert forall|i: int| 0 <= i < env_bytes(m).len() implies bytes.subrange(
        1,
        bytes.len() as int,
    )[i] == env_bytes(m)[i] by {
        assert(bytes.subrange(1, bytes.len() as int)[i] == bytes[1 + i]);
        assert(bytes[1 + i] == request_frame_bytes(op, m)[1 + i]);
        assert(request_frame_bytes(op, m)[1 + i] == env_bytes(m)[i]);
    }
    assert(bytes.subrange(1, bytes.len() as int) =~= env_bytes(m));
}

/// Encodes a successful response frame.
#[verifier::rlimit(100)]
#[verifier::spinoff_prover]
pub fn encode_ok_frame(genv: &GuarantorEnvelope, resp: &Response) -> (r: Vec<u8>)
    requires
        wf_guarantor(genv@),
    ensures
        r@ == ok_frame_bytes(genv@, response_bytes(*resp)),
{
    let gb = genv.encode();
    let pb = encode_response_payload(resp);
    let mut out: Vec<u8> = Vec::new();
    out.push(ACK_OK);
    proof {
        assert(out@ =~= seq![ACK_OK]);
    }
    push_bytes(&mut out, &gb);
    let ghost mid = out@;
    let n: usize = pb.len();
    proof {
        assert(n <= usize::MAX);
        assert(pb@.len() <= u64::MAX);
    }
    push_field(&mut out, &pb);
    proof {
        let g = genv@;
        let rb = response_bytes(*resp);
        assert(mid == seq![ACK_OK] + guarantor_bytes(g));
        assert(out@ == mid + field_bytes(rb));
        assert(out@ == ok_frame_bytes(g, rb));
    }
    out
}

/// Encodes an error response frame.
pub fn encode_err_frame(genv: &GuarantorEnvelope) -> (r: Vec<u8>)
    requires
        wf_guarantor(genv@),
    ensures
        r@ == err_frame_bytes(genv@),
{
    let mut out: Vec<u8> = Vec::new();
    out.push(ACK_ERR);
    proof {
        assert(out@ =~= seq![ACK_ERR]);
    }
    let gb = genv.encode();
    push_bytes(&mut out, &gb);
    proof {
        assert(out@ == err_frame_bytes(genv@));
    }
    out
}

/// A successful response frame ready for `op` at this verifier: some
/// countersigned envelope and typed response carried exactly by these
/// bytes, verifying against the server at `now`.
pub open spec fn ok_frame_ready(bytes: Seq<u8>, op: OpCode, server: Seq<u8>, now: u64) -> bool {
    exists|g: crate::envelope::GuarantorModel, resp: Response|
        {
            &&& bytes == #[trigger] ok_frame_bytes(g, response_bytes(resp))
            &&& wf_guarantor(g)
            &&& wf_response(resp)
            &&& response_opcode(resp) == op
            &&& crate::envelope::guarantor_verdict(g, Some(server), Some(server), now) == Ok::<
                (),
                IpiisError,
            >(())
        }
}

/// An error frame ready at this verifier: a countersigned envelope from
/// the server to this caller, carried exactly by these bytes and
/// verifying at `now`.
pub open spec fn err_frame_ready(bytes: Seq<u8>, me: Seq<u8>, server: Seq<u8>, now: u64) -> bool {
    exists|g: crate::envelope::GuarantorModel|
        {
            &&& bytes == #[trigger] err_frame_bytes(g)
            &&& wf_guarantor(g)
            &&& g.inner.guarantee == server
            &&& crate::envelope::guarantor_verdict(g, Some(me), Some(server), now) == Ok::<
                (),
                IpiisError,
            >(())
        }
}

/// The length word of a field stands at its head.
proof fn lemma_field_prefix(bytes: Seq<u8>, pos: int, d: Seq<u8>, end: int)
    requires
        0 <= pos <= end <= bytes.len(),
        d.len() <= u64::MAX,
        bytes.subrange(pos, end) == field_bytes(d),
    ensures
        end == pos + 8 + d.len(),
        bytes.subrange(pos, pos + 8) == crate::codec::u64_to_bytes(d.len() as u64),
{
    let w = crate::codec::u64_to_bytes(d.len() as u64);
    assert(bytes.subrange(pos, end).len() == field_bytes(d).len());
    assert(end - pos == 8 + d.len());
    assert forall|i: int| 0 <= i < 8 implies bytes.subrange(pos, pos + 8)[i] == w[i] by {
        assert(bytes.subrange(pos, pos + 8)[i] == bytes[pos + i]);
        assert(bytes.subrange(pos, end)[i] == bytes[pos + i]);
        assert(field_bytes(d)[i] == w[i]);
    }
    assert(bytes.subrange(pos, pos + 8) =~= w);
}

/// At any one position of a byte string there stands at most one
/// length-prefixed field.
proof fn lemma_field_at_pos_unique(
    bytes: Seq<u8>,
    pos: int,
    d1: Seq<u8>,
    end1: int,
    d2: Seq<u8>,
    end2: int,
)
    requires
        0 <= pos <= end1 <= bytes.len(),
        pos <= end2 <= bytes.len(),
        d1.len() <= u64::MAX,
        d2.len() <= u64::MAX,
        bytes.subrange(pos, end1) == field_bytes(d1),
        bytes.subrange(pos, end2) == field_bytes(d2),
    ensures
        end1 == end2,
        d1 == d2,
{
    lemma_field_prefix(bytes, pos, d1, end1);
    lemma_field_prefix(bytes, pos, d2, end2);
    crate::codec::lemma_u64_round_trip(d1.len() as u64);
    crate::codec::lemma_u64_round_trip(d2.len() as u64);
    assert(d1.len() == d2.len());
    assert(end1 == end2);
    assert(field_bytes(d1) == field_bytes(d2));
    crate::envelope::lemma_concat_split(
        crate::codec::u64_to_bytes(d1.len() as u64),
        d1,
        crate::codec::u64_to_bytes(d2.len() as u64),
        d2,
    );
}

/// The countersigned envelope of a successful response frame stands at
/// position one, followed by the response field.
proof fn lemma_ok_frame_layout(bytes: Seq<u8>, g: crate::envelope::GuarantorModel, rb: Seq<u8>)
    requires
        wf_guarantor(g),
        bytes == ok_frame_bytes(g, rb),
    ensures
        bytes.len() == 1 + guarantor_bytes(g).len() + 8 + rb.len(),
        bytes[0] == ACK_OK,
        bytes.subrange(1, 1 + guarantor_bytes(g).len() as int) == guarantor_bytes(g),
        bytes.subrange(1 + guarantor_bytes(g).len() as int, bytes.len() as int) == field_bytes(rb),
{
    let gl = guarantor_bytes(g).len() as int;
    assert(bytes[0] == ACK_OK);
    assert forall|i: int| 0 <= i < gl implies bytes.subrange(1, 1 + gl)[i] == guarantor_bytes(
        g,
    )[i] by {
        assert(bytes.subrange(1, 1 + gl)[i] == bytes[1 + i]);
        assert(bytes[1 + i] == ok_frame_bytes(g, rb)[1 + i]);
        assert(ok_frame_bytes(g, rb)[1 + i] == guarantor_bytes(g)[i]);
    }
    assert(bytes.subrange(1, 1 + gl) =~= guarantor_bytes(g));
    assert forall|i: int| 0 <= i < 8 + rb.len() implies bytes.subrange(1 + gl, bytes.len() as int)[
        i] == field_bytes(rb)[i] by {
        assert(bytes.subrange(1 + gl, bytes.len() as int)[i] == bytes[1 + gl + i]);
        assert(bytes[1 + gl + i] == ok_frame_bytes(g, rb)[1 + gl + i]);
        assert(ok_frame_bytes(g, rb)[1 + gl + i] == field_bytes(rb)[i]);
    }
    assert(bytes.subrange(1 + gl, bytes.len() as int) =~= field_bytes(rb));
}

/// The countersigned envelope of an error frame stands at position one
/// and runs to the frame's end.
proof fn lemma_err_frame_layout(bytes: Seq<u8>, g: crate::envelope::GuarantorModel)
    requires
        wf_guarantor(g),
        bytes == err_frame_bytes(g),
    ensures
        bytes.len() == 1 + guarantor_bytes(g).len(),
        bytes[0] == ACK_ERR,
        bytes.subrange(1, bytes.len() as int) == guarantor_bytes(g),
{
    assert(bytes[0] == ACK_ERR);
    assert forall|i: int| 0 <= i < guarantor_bytes(g).len() implies bytes.subrange(
        1,
        bytes.len() as int,
    )[i] == guarantor_bytes(g)[i] by {
        assert(bytes.subrange(1, bytes.len() as int)[i] == bytes[1 + i]);
        assert(bytes[1 + i] == err_frame_bytes(g)[1 + i]);
        assert(err_frame_bytes(g)[1 + i] == guarantor_bytes(g)[i]);
    }
    assert(bytes.subrange(1, bytes.len() as int) =~= guarantor_bytes(g));
}

/// Reads and verifies a whole response frame at the caller. On ACK|OK the
/// countersigned request envelope is verified against the server and the
/// typed response is reconstructed from exactly the bytes that followed;
/// on ACK|ERR the server-signed error message is surfaced as a handler
/// error; any other flag is a protocol error.
#[verifier::rlimit(100)]
#[verifier::spinoff_prover]
pub fn read_response(
    bytes: &Vec<u8>,
    op: OpCode,
    me: &AccountId,
    server: &AccountId,
    now: u64,
) -> (r: Result<(Response, GuarantorEnvelope), IpiisError>)
    ensures
        ok_frame_ready(bytes@, op, server@, now) ==> r is Ok,
        err_frame_ready(bytes@, me@, server@, now) ==> r matches Err(IpiisError::Handler(_)),
        match r {
            Ok((resp, genv)) => {
                &&& wf_guarantor(genv@)
                &&& wf_response(resp)
                &&& response_opcode(resp) == op
                &&& bytes@ == ok_frame_bytes(genv@, response_bytes(resp))
                &&& crate::envelope::guarantor_verdict(genv@, Some(server@), Some(server@), now)
                    == Ok::<(), IpiisError>(())
            },
            Err(IpiisError::Handler(msg)) => exists|g: crate::envelope::GuarantorModel|
                {
                    &&& #[trigger] err_frame_bytes(g) == bytes@
                    &&& wf_guarantor(g)
                    &&& g.inner.payload == msg@
                    &&& g.inner.guarantee == server@
                    &&& crate::envelope::guarantor_verdict(g, Some(me@), Some(server@), now)
                        == Ok::<(), IpiisError>(())
                },
            Err(IpiisError::Protocol) => true,
            Err(IpiisError::Parse) => true,
            Err(IpiisError::Signature(_)) => true,
            Err(_) => false,
        },
{
    if bytes.len() < 1 {
        proof {
            assert(!ok_frame_ready(bytes@, op, server@, now)) by {
                if ok_frame_ready(bytes@, op, server@, now) {
                    let (g, resp) = choose|g: crate::envelope::GuarantorModel, resp: Response|
                        {
                            &&& bytes@ == #[trigger] ok_frame_bytes(g, response_bytes(resp))
                            &&& wf_guarantor(g)
                            &&& wf_response(resp)
                            &&& response_opcode(resp) == op
                            &&& crate::envelope::guarantor_verdict(
                                g,
                                Some(server@),
                                Some(server@),
                                now,
                            ) == Ok::<(), IpiisError>(())
                        };
                    lemma_ok_frame_layout(bytes@, g, response_bytes(resp));
                }
            }
            assert(!err_frame_ready(bytes@, me@, server@, now)) by {
                if err_frame_ready(bytes@, me@, server@, now) {
                    let g = choose|g: crate::envelope::GuarantorModel|
                        {
                            &&& bytes@ == #[trigger] err_frame_bytes(g)
                            &&& wf_guarantor(g)
                            &&& g.inner.guarantee == server@
                            &&& crate::envelope::guarantor_verdict(g, Some(me@), Some(server@), now)
                                == Ok::<(), IpiisError>(())
                        };
                    lemma_err_frame_layout(bytes@, g);
                }
            }
        }
        return Err(IpiisError::Protocol);
    }
    match crate::flag::classify_flag(bytes[0]) {
        crate::flag::FlagClass::AckOk => {
            proof {
                assert(!err_frame_ready(bytes@, me@, server@, now)) by {
                    if err_frame_ready(bytes@, me@, server@, now) {
                        let g = choose|g: crate::envelope::GuarantorModel|
                            {
                                &&& bytes@ == #[trigger] err_frame_bytes(g)
                                &&& wf_guarantor(g)
                                &&& g.inner.guarantee == server@
                                &&& crate::envelope::guarantor_verdict(
                                    g,
                                    Some(me@),
                                    Some(server@),
                                    now,
                                ) == Ok::<(), IpiisError>(())
                            };
                        lemma_err_frame_layout(bytes@, g);
                    }
                }
            }
            let ghost ready = ok_frame_ready(bytes@, op, server@, now);
            let ghost (gw, respw) = choose|g: crate::envelope::GuarantorModel, resp: Response|
                {
                    &&& bytes@ == #[trigger] ok_frame_bytes(g, response_bytes(resp))
                    &&& wf_guarantor(g)
                    &&& wf_response(resp)
                    &&& response_opcode(resp) == op
                    &&& crate::envelope::guarantor_verdict(g, Some(server@), Some(server@), now)
                        == Ok::<(), IpiisError>(())
                };
            proof {
                if ready {
                    lemma_ok_frame_layout(bytes@, gw, response_bytes(respw));
                    lemma_response_shape(respw);
                }
            }
            let (genv, mid) = match decode_guarantor(bytes, 1) {
                Some(r) => r,
                None => {
                    proof {
                        if ready {
                            assert(bytes@.subrange(1, 1 + guarantor_bytes(gw).len() as int)
                                == guarantor_bytes(gw));
                        }
                    }
                    return Err(IpiisError::Protocol);
                },
            };
            proof {
                if ready {
                    crate::envelope::lemma_guarantor_at_pos_unique(
                        bytes@,
                        1,
                        genv@,
                        mid as int,
                        gw,
                        1 + guarantor_bytes(gw).len() as int,
                    );
                }
            }
            match genv.verify_at(Some(server), Some(server), now) {
                Ok(()) => {},
                Err(e) => {
                    return Err(downgrade_to_signature(e));
                },
            }
            let (payload, end) = match read_field(bytes, mid) {
                Some(r) => r,
                None => {
                    proof {
                        if ready {
                            assert(bytes@.subrange(mid as int, bytes@.len() as int) == field_bytes(
                                response_bytes(respw),
                            ));
                        }
                    }
                    return Err(IpiisError::Protocol);
                },
            };
            proof {
                if ready {
                    let n: usize = payload.len();
                    assert(payload@.len() <= u64::MAX);
                    lemma_field_at_pos_unique(
                        bytes@,
                        mid as int,
                        payload@,
                        end as int,
                        response_bytes(respw),
                        bytes@.len() as int,
                    );
                }
            }
            if end != bytes.len() {
                return Err(IpiisError::Protocol);
            }
            let resp = match decode_response_payload(op, &payload) {
                Ok(resp) => resp,
                Err(e) => {
                    return Err(e);
                },
            };
            proof {
                let f = ok_frame_bytes(genv@, response_bytes(resp));
                assert forall|i: int| 0 <= i < bytes@.len() implies bytes@[i] == f[i] by {
                    if 1 <= i < mid {
                        assert(bytes@.subrange(1, mid as int)[i - 1] == bytes@[i]);
                    } else if i >= mid {
                        assert(bytes@.subrange(mid as int, end as int)[i - mid] == bytes@[i]);
                    }
                }
                assert(bytes@ =~= f);
            }
            Ok((resp, genv))
        },
        crate::flag::FlagClass::AckErr => {
            proof {
                assert(!ok_frame_ready(bytes@, op, server@, now)) by {
                    if ok_frame_ready(bytes@, op, server@, now) {
                        let (g, resp) = choose|g: crate::envelope::GuarantorModel, resp: Response|
                            {
                                &&& bytes@ == #[trigger] ok_frame_bytes(g, response_bytes(resp))
                                &&& wf_guarantor(g)
                                &&& wf_response(resp)
                                &&& response_opcode(resp) == op
                                &&& crate::envelope::guarantor_verdict(
                                    g,
                                    Some(server@),
                                    Some(server@),
                                    now,
                                ) == Ok::<(), IpiisError>(())
                            };
                        lemma_ok_frame_layout(bytes@, g, response_bytes(resp));
                    }
                }
            }
            let ghost ready = err_frame_ready(bytes@, me@, server@, now);
            let ghost gw = choose|g: crate::envelope::GuarantorModel|
                {
                    &&& bytes@ == #[trigger] err_frame_bytes(g)
                    &&& wf_guarantor(g)
                    &&& g.inner.guarantee == server@
                    &&& crate::envelope::guarantor_verdict(g, Some(me@), Some(server@), now)
                        == Ok::<(), IpiisError>(())
                };
            proof {
                if ready {
                    lemma_err_frame_layout(bytes@, gw);
                }
            }
            let (genv, end) = match decode_guarantor(bytes, 1) {
                Some(r) => r,
                None => {
                    proof {
                        if ready {
                            assert(bytes@.subrange(1, bytes@.len() as int) == guarantor_bytes(gw));
                        }
                    }
                    return Err(IpiisError::Protocol);
                },
            };
            proof {
                if ready {
                    crate::envelope::lemma_guarantor_at_pos_unique(
                        bytes@,
                        1,
                        genv@,
                        end as int,
                        gw,
                        bytes@.len() as int,
                    );
                }
            }
            if end != bytes.len() {
                return Err(IpiisError::Protocol);
            }
            match genv.verify_at(Some(me), Some(server), now) {
                Ok(()) => {},
                Err(e) => {
                    return Err(downgrade_to_signature(e));
                },
            }
            if !crate::codec::bytes_eq(genv.inner.guarantee.as_bytes(), server.as_bytes()) {
                return Err(IpiisError::Signature(crate::errors::SigFault::WrongTarget));
            }
            let msg = crate::envelope::copy_vec(&genv.inner.payload);
            proof {
                let g = genv@;
                assert forall|i: int| 0 <= i < bytes@.len() implies bytes@[i] == err_frame_bytes(
                    g,
                )[i] by {
                    if i >= 1 {
                        assert(bytes@.subrange(1, end as int)[i - 1] == bytes@[i]);
                    }
                }
                assert(err_frame_bytes(g) =~= bytes@);
            }
            Err(IpiisError::Handler(msg))
        },
        crate::flag::FlagClass::Malformed => {
            proof {
                assert(!ok_frame_ready(bytes@, op, server@, now)) by {
                    if ok_frame_ready(bytes@, op, server@, now) {
                        let (g, resp) = choose|g: crate::envelope::GuarantorModel, resp: Response|
                            {
                                &&& bytes@ == #[trigger] ok_frame_bytes(g, response_bytes(resp))
                                &&& wf_guarantor(g)
                                &&& wf_response(resp)
                                &&& response_opcode(resp) == op
                                &&& crate::envelope::guarantor_verdict(
                                    g,
                                    Some(server@),
                                    Some(server@),
                                    now,
                                ) == Ok::<(), IpiisError>(())
                            };
                        lemma_ok_frame_layout(bytes@, g, response_bytes(resp));
                    }
                }
                assert(!err_frame_ready(bytes@, me@, server@, now)) by {
                    if err_frame_ready(bytes@, me@, server@, now) {
                        let g = choose|g: crate::envelope::GuarantorModel|
                            {
                                &&& bytes@ == #[trigger] err_frame_bytes(g)
                                &&& wf_guarantor(g)
                                &&& g.inner.guarantee == server@
                                &&& crate::envelope::guarantor_verdict(
                                    g,
                                    Some(me@),
                                    Some(server@),
                                    now,
                                ) == Ok::<(), IpiisError>(())
                            };
                        lemma_err_frame_layout(bytes@, g);
                    }
                }
            }
            Err(IpiisError::Protocol)
        },
    }
}

/// Keeps a verification failure in the signature family of errors.
fn downgrade_to_signature(e: IpiisError) -> (r: IpiisError)
    ensures
        e matches IpiisError::Signature(_) ==> r == e,
        r matches IpiisError::Signature(_) || r matches IpiisError::Protocol,
{
    match e {
        IpiisError::Signature(f) => IpiisError::Signature(f),
        _ => IpiisError::Protocol,
    }
}

/// The wire form of a request frame pins the opcode and the envelope.
pub proof fn lemma_request_frame_injective(
    op1: OpCode,
    m1: crate::envelope::EnvModel,
    op2: OpCode,
    m2: crate::envelope::EnvModel,
)
    requires
        wf_model(m1),
        wf_model(m2),
        request_frame_bytes(op1, m1) == request_frame_bytes(op2, m2),
    ensures
        op1 == op2,
        m1 == m2,
{
    let f1 = request_frame_bytes(op1, m1);
    let f2 = request_frame_bytes(op2, m2);
    assert(f1[0] == opcode_byte(op1) && f2[0] == opcode_byte(op2));
    crate::opcode::lemma_opcode_byte_injective(op1, op2);
    crate::envelope::lemma_concat_split(
        seq![opcode_byte(op1)],
        env_bytes(m1),
        seq![opcode_byte(op2)],
        env_bytes(m2),
    );
    crate::envelope::lemma_env_bytes_injective(m1, m2);
}

/// The wire form of an error frame pins the countersigned envelope.
pub proof fn lemma_err_frame_injective(
    g1: crate::envelope::GuarantorModel,
    g2: crate::envelope::GuarantorModel,
)
    requires
        wf_guarantor(g1),
        wf_guarantor(g2),
        err_frame_bytes(g1) == err_frame_bytes(g2),
    ensures
        g1 == g2,
{
    crate::envelope::lemma_concat_split(
        seq![ACK_ERR],
        guarantor_bytes(g1),
        seq![ACK_ERR],
        guarantor_bytes(g2),
    );
    crate::envelope::lemma_guarantor_bytes_injective(g1, g2);
}

/// The wire form of a successful response frame pins the countersigned
/// envelope and the response bytes: a response reconstructs byte for
/// byte at a matching receiver.
#[verifier::rlimit(100)]
#[verifier::spinoff_prover]
pub proof fn lemma_ok_frame_injective(
    g1: crate::envelope::GuarantorModel,
    p1: Seq<u8>,
    g2: crate::envelope::GuarantorModel,
    p2: Seq<u8>,
)
    requires
        wf_guarantor(g1),
        wf_guarantor(g2),
        ok_frame_bytes(g1, p1) == ok_frame_bytes(g2, p2),
    ensures
        g1 == g2,
        p1 == p2,
{
    let f1 = ok_frame_bytes(g1, p1);
    let f2 = ok_frame_bytes(g2, p2);
    let l1 = g1.inner.payload.len();
    let l2 = g2.inner.payload.len();
    lemma_inner_payload_len_visible(g1, p1);
    lemma_inner_payload_len_visible(g2, p2);
    assert(crate::codec::u64_to_bytes(l1 as u64) =~= crate::codec::u64_to_bytes(l2 as u64)) by {
        assert(forall|i: int|
            0 <= i < 8 ==> #[trigger] crate::codec::u64_to_bytes(l1 as u64)[i] == f1[186 + i]
                && crate::codec::u64_to_bytes(l2 as u64)[i] == f2[186 + i]);
    }
    crate::codec::lemma_u64_round_trip(l1 as u64);
    crate::codec::lemma_u64_round_trip(l2 as u64);
    assert(l1 == l2);
    assert(guarantor_bytes(g1).len() == 289 + l1);
    assert(guarantor_bytes(g2).len() == 289 + l2);
    crate::envelope::lemma_concat_split(
        seq![ACK_OK] + guarantor_bytes(g1),
        field_bytes(p1),
        seq![ACK_OK] + guarantor_bytes(g2),
        field_bytes(p2),
    );
    crate::envelope::lemma_concat_split(
        seq![ACK_OK],
        guarantor_bytes(g1),
        seq![ACK_OK],
        guarantor_bytes(g2),
    );
    crate::envelope::lemma_guarantor_bytes_injective(g1, g2);
    crate::envelope::lemma_concat_split(
        crate::codec::u64_to_bytes(p1.len() as u64),
        p1,
        crate::codec::u64_to_bytes(p2.len() as u64),
        p2,
    );
}

/// The eight bytes at a fixed offset of a successful response frame are
/// the length of the inner envelope's payload.
#[verifier::rlimit(100)]
#[verifier::spinoff_prover]
proof fn lemma_inner_payload_len_visible(g: crate::envelope::GuarantorModel, p: Seq<u8>)
    requires
        wf_guarantor(g),
    ensures
        guarantor_bytes(g).len() == 289 + g.inner.payload.len(),
        forall|i: int|
            0 <= i < 8 ==> #[trigger] ok_frame_bytes(g, p)[186 + i] == crate::codec::u64_to_bytes(
                g.inner.payload.len() as u64,
            )[i],
{
    let m = g.inner;
    let f = ok_frame_bytes(g, p);
    let gb = guarantor_bytes(g);
    let eb = env_bytes(m);
    assert(crate::envelope::exp_bytes(m.expiration).len() == 9);
    assert(crate::envelope::sign_input_of(m).len() == 121);
    assert(eb.len() == 193 + m.payload.len());
    assert(gb.len() == 289 + m.payload.len());
    assert forall|i: int| 0 <= i < 8 implies #[trigger] f[186 + i] == crate::codec::u64_to_bytes(
        m.payload.len() as u64,
    )[i] by {
        assert(f[186 + i] == (seq![ACK_OK] + gb)[186 + i]);
        assert((seq![ACK_OK] + gb)[186 + i] == gb[185 + i]);
        assert(gb[185 + i] == eb[185 + i]);
        assert(eb[185 + i] == field_bytes(m.payload)[i]);
        assert(field_bytes(m.payload)[i] == crate::codec::u64_to_bytes(m.payload.len() as u64)[i]);
    }
}

} // verus!
