//! The wire layer: length words, result flags, opcodes, typed payload
//! round trips, and whole frames read back by a matching receiver.

use ipiis::account::{kind_digest, Account};
use ipiis::codec::{bytes_eq, push_field, push_u64, read_field, read_u64};
use ipiis::errors::IpiisError;
use ipiis::flag::{classify_flag, FlagClass, ServerResult, ACK_ERR, ACK_OK};
use ipiis::io::{
    decode_request_frame, decode_request_payload, decode_response_payload, encode_request_payload,
    encode_response_payload, Request, Response,
};
use ipiis::opcode::{OpCode, Opcode, OPCODE_TEXT};
use ipiis::types::{to_hex, AccountId, Address, Kind};

fn seeded_account(b: u8) -> Account {
    Account::from_seed(&vec![b; 32]).unwrap()
}

#[test]
fn u64_words_round_trip_big_endian() {
    let mut out: Vec<u8> = Vec::new();
    push_u64(&mut out, 0x0102030405060708);
    assert_eq!(out, vec![1, 2, 3, 4, 5, 6, 7, 8]);
    assert_eq!(read_u64(&out, 0), 0x0102030405060708);

    let mut out2: Vec<u8> = Vec::new();
    push_u64(&mut out2, u64::MAX);
    assert_eq!(out2, vec![0xff; 8]);
    assert_eq!(read_u64(&out2, 0), u64::MAX);
}

#[test]
fn fields_are_length_prefixed() {
    let mut out: Vec<u8> = Vec::new();
    push_field(&mut out, &b"abc".to_vec());
    assert_eq!(out, vec![0, 0, 0, 0, 0, 0, 0, 3, b'a', b'b', b'c']);
    let (data, end) = read_field(&out, 0).unwrap();
    assert_eq!(data, b"abc".to_vec());
    assert_eq!(end, out.len());

    // a truncated field is refused
    let cut = out[..out.len() - 1].to_vec();
    assert!(read_field(&cut, 0).is_none());
}

#[test]
fn bytes_eq_is_exact() {
    assert!(bytes_eq(&b"xy".to_vec(), &b"xy".to_vec()));
    assert!(!bytes_eq(&b"xy".to_vec(), &b"xz".to_vec()));
    assert!(!bytes_eq(&b"xy".to_vec(), &b"xyz".to_vec()));
}

#[test]
fn result_flags_classify() {
    assert_eq!(ACK_OK, 0xC0);
    assert_eq!(ACK_ERR, 0xA0);
    assert!(matches!(classify_flag(ACK_OK), FlagClass::AckOk));
    assert!(matches!(classify_flag(ACK_ERR), FlagClass::AckErr));
    assert!(matches!(classify_flag(0x80), FlagClass::Malformed));
    assert!(matches!(classify_flag(0x00), FlagClass::Malformed));
    assert!(matches!(classify_flag(0xC1), FlagClass::Malformed));

    assert!(ServerResult::from_bits(0xC0).is_some());
    assert!(ServerResult::from_bits(0xC1).is_none());
    assert!(ServerResult::from_bits(0xE0).unwrap().contains_ack());
    assert_eq!(ServerResult::from_bits(0xA0).unwrap().bits(), 0xA0);
}

#[test]
fn opcodes_round_trip() {
    let all = [
        OpCode::GetAccountPrimary,
        OpCode::SetAccountPrimary,
        OpCode::DeleteAccountPrimary,
        OpCode::GetAddress,
        OpCode::SetAddress,
        OpCode::DeleteAddress,
    ];
    for (i, op) in all.iter().enumerate() {
        assert_eq!(op.to_byte() as usize, i);
        assert_eq!(OpCode::from_byte(op.to_byte()), Some(*op));
    }
    assert_eq!(OpCode::from_byte(6), None);

    // the legacy bit-set form
    let legacy: Opcode = Default::default();
    assert_eq!(legacy.bits(), OPCODE_TEXT);
    assert!(Opcode::from_bits(0x80).is_some());
    assert!(Opcode::from_bits(0x02).is_none());
}

fn sample_kind() -> Kind {
    kind_digest(&b"k".to_vec())
}

fn sample_account() -> AccountId {
    AccountId::from_bytes(vec![9; 32]).unwrap()
}

#[test]
fn request_payloads_round_trip() {
    let cases: Vec<(OpCode, Request)> = vec![
        (OpCode::GetAccountPrimary, Request::GetAccountPrimary { kind: None }),
        (OpCode::GetAccountPrimary, Request::GetAccountPrimary { kind: Some(sample_kind()) }),
        (
            OpCode::SetAccountPrimary,
            Request::SetAccountPrimary { kind: Some(sample_kind()), account: sample_account() },
        ),
        (OpCode::DeleteAccountPrimary, Request::DeleteAccountPrimary { kind: None }),
        (
            OpCode::GetAddress,
            Request::GetAddress { kind: None, account: sample_account() },
        ),
        (
            OpCode::SetAddress,
            Request::SetAddress {
                kind: Some(sample_kind()),
                account: sample_account(),
                address: Address::new(127, 0, 0, 1, 5001),
            },
        ),
        (
            OpCode::DeleteAddress,
            Request::DeleteAddress { kind: Some(sample_kind()), account: sample_account() },
        ),
    ];
    for (op, req) in cases {
        let bytes = encode_request_payload(&req);
        let back = decode_request_payload(op, &bytes).unwrap();
        assert_eq!(encode_request_payload(&back), bytes);
    }

    // bytes of the wrong shape are refused
    assert!(decode_request_payload(OpCode::GetAccountPrimary, &vec![2u8]).is_err());
    assert!(decode_request_payload(OpCode::GetAddress, &vec![0u8; 10]).is_err());
    assert!(decode_request_payload(OpCode::SetAddress, &vec![0u8; 33]).is_err());
}

#[test]
fn response_payloads_round_trip() {
    let cases: Vec<(OpCode, Response)> = vec![
        (
            OpCode::GetAccountPrimary,
            Response::GetAccountPrimary { account: sample_account(), address: None },
        ),
        (
            OpCode::GetAccountPrimary,
            Response::GetAccountPrimary {
                account: sample_account(),
                address: Some(Address::new(10, 1, 2, 3, 80)),
            },
        ),
        (OpCode::SetAccountPrimary, Response::SetAccountPrimary),
        (OpCode::DeleteAccountPrimary, Response::DeleteAccountPrimary),
        (OpCode::GetAddress, Response::GetAddress { address: Address::new(127, 0, 0, 1, 5001) }),
        (OpCode::SetAddress, Response::SetAddress),
        (OpCode::DeleteAddress, Response::DeleteAddress),
    ];
    for (op, resp) in cases {
        let bytes = encode_response_payload(&resp);
        let back = decode_response_payload(op, &bytes).unwrap();
        assert_eq!(encode_response_payload(&back), bytes);
    }
    assert!(decode_response_payload(OpCode::GetAddress, &vec![0u8; 5]).is_err());
    assert!(decode_response_payload(OpCode::SetAddress, &vec![1u8]).is_err());
}

#[test]
fn address_byte_form_is_exact() {
    let addr = Address::new(127, 0, 0, 1, 5001);
    let bytes = addr.to_bytes();
    assert_eq!(bytes, vec![127, 0, 0, 1, 0x13, 0x89]);
    assert_eq!(Address::parse(&bytes).unwrap(), addr);
    assert!(matches!(Address::parse(&vec![1, 2, 3]), Err(IpiisError::Parse)));
}

#[test]
fn hex_text_is_exact() {
    let h = to_hex(&vec![0x00, 0x0f, 0xa5, 0xff]);
    assert_eq!(h, "000fa5ff");
}

#[test]
fn request_frame_reaches_a_matching_server() {
    let client = ipiis::client::IpiisClient::new(seeded_account(30), None, None, "framing_cli")
        .unwrap();
    let server_acct = seeded_account(31);
    let server_ref = server_acct.account_ref();

    let req = Request::GetAddress { kind: None, account: sample_account() };
    let env = client.sign(&server_ref, &req);
    let frame = ipiis::io::encode_request_frame(OpCode::GetAddress, &env);

    let (op, env2) = decode_request_frame(&frame).unwrap();
    assert!(matches!(op, OpCode::GetAddress));
    assert!(env2.verify_at(Some(&server_ref), 2000).is_ok());
    let back = decode_request_payload(op, &env2.payload).unwrap();
    assert_eq!(encode_request_payload(&back), encode_request_payload(&req));

    // a truncated frame is refused
    let cut = frame[..frame.len() - 1].to_vec();
    assert!(decode_request_frame(&cut).is_err());
}
