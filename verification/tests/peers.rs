//! End-to-end exchanges between in-process peers: resolution through the
//! primary, kind-namespaced primaries, admin authorization, and error
//! propagation through the framing layer.

use ipiis::account::{kind_digest, Account};
use ipiis::client::{IpiisClient, Resolution};
use ipiis::errors::IpiisError;
use ipiis::io::{encode_request_frame, read_response, request_opcode_of, Request, Response};
use ipiis::opcode::OpCode;
use ipiis::server::{IpiisServer, ServerStep};
use ipiis::types::{AccountId, Address};

fn seeded_account(b: u8) -> Account {
    Account::from_seed(&vec![b; 32]).unwrap()
}

/// Carries one signed request from `from` to the server and returns the
/// reply bytes, following at most one forwarding hop through `upstream`.
fn exchange(
    from: &IpiisClient,
    server: &mut IpiisServer,
    upstream: Option<&mut IpiisServer>,
    req: &Request,
    now: u64,
) -> Vec<u8> {
    let server_ref = server.account_ref();
    let env = from.sign(&server_ref, req);
    let frame = encode_request_frame(request_opcode_of(req), &env);
    match server.handle_request_bytes(&frame, now) {
        ServerStep::Reply(bytes) => bytes,
        ServerStep::Forward { target, request, pending } => {
            let up = upstream.expect("no upstream peer to forward to");
            let up_ref = up.account_ref();
            assert!(target.same(&up_ref));
            let env2 = server.client.sign(&up_ref, &request);
            let frame2 = encode_request_frame(request_opcode_of(&request), &env2);
            let reply2 = match up.handle_request_bytes(&frame2, now) {
                ServerStep::Reply(bytes) => bytes,
                ServerStep::Forward { .. } => panic!("second hop forwarded again"),
            };
            let me2 = server.account_ref();
            match read_response(&reply2, request_opcode_of(&request), &me2, &up_ref, now) {
                Ok((resp, _genv)) => server.resume_with_response(pending, &resp, now),
                Err(e) => server.resume_with_failure(pending, &e),
            }
        },
    }
}

#[test]
fn three_hop_resolution() {
    let now: u64 = 1000;
    let c_acct = seeded_account(40);
    let c_ref = c_acct.account_ref();
    let c_addr = Address::new(127, 0, 0, 1, 5001);

    let e_acct = seeded_account(41);
    let e_ref = e_acct.account_ref();
    let e_addr = Address::new(127, 0, 0, 1, 5002);

    let n_acct = seeded_account(42);

    let _c = IpiisServer::new(c_acct, None, None).unwrap();
    let mut e = IpiisServer::new(e_acct, Some(c_ref.duplicate()), Some(c_addr)).unwrap();
    let mut n = IpiisClient::new(n_acct, Some(e_ref.duplicate()), Some(e_addr), "peers_n1")
        .unwrap();

    // the end peer does not know the root's address: it must ask its primary
    let plan = n.get_address(None, &c_ref);
    let (target, request) = match plan {
        Resolution::Ask { target, request } => (target, request),
        _ => panic!("expected a remote resolution step"),
    };
    assert!(target.same(&e_ref));

    // one exchange with the edge peer answers from its own table
    let reply = exchange(&n, &mut e, None, &request, now);
    let me = n.account_ref();
    let (resp, _genv) = read_response(&reply, OpCode::GetAddress, &me, &e_ref, now).unwrap();
    let addr = match resp {
        Response::GetAddress { address } => address,
        _ => panic!("wrong response shape"),
    };
    assert_eq!(addr, Address::new(127, 0, 0, 1, 5001));

    // the end peer caches what it learned
    n.accept_address(None, &c_ref, &addr).unwrap();
    assert!(matches!(n.get_address(None, &c_ref), Resolution::Found(a) if a == addr));
}

#[test]
fn kind_namespaced_primary_resolves_through_two_hops() {
    let now: u64 = 1000;
    let kind = kind_digest(&b"k".to_vec());
    let k_ref = AccountId::from_bytes(vec![77; 32]).unwrap();

    let c_acct = seeded_account(43);
    let c_ref = c_acct.account_ref();
    let c_addr = Address::new(127, 0, 0, 1, 5001);
    let e_acct = seeded_account(44);
    let e_ref = e_acct.account_ref();
    let e_addr = Address::new(127, 0, 0, 1, 5002);
    let n_acct = seeded_account(45);

    let mut c = IpiisServer::new(c_acct, None, None).unwrap();
    let mut e = IpiisServer::new(e_acct, Some(c_ref.duplicate()), Some(c_addr)).unwrap();
    let n = IpiisClient::new(n_acct, Some(e_ref.duplicate()), Some(e_addr), "peers_n2").unwrap();

    // the root designates the primary for the kind
    c.client.set_account_primary(Some(&kind), &k_ref).unwrap();

    // the end peer asks: edge misses, forwards to the root, caches, replies
    let plan = n.get_account_primary(Some(&kind));
    let (target, request) = match plan {
        Resolution::Ask { target, request } => (target, request),
        _ => panic!("expected a remote resolution step"),
    };
    assert!(target.same(&e_ref));

    let reply = exchange(&n, &mut e, Some(&mut c), &request, now);
    let me = n.account_ref();
    let (resp, _genv) =
        read_response(&reply, OpCode::GetAccountPrimary, &me, &e_ref, now).unwrap();
    match resp {
        Response::GetAccountPrimary { account, address } => {
            assert!(account.same(&k_ref));
            assert!(address.is_none());
        },
        _ => panic!("wrong response shape"),
    }

    // the edge peer now knows the kinded primary locally
    assert!(matches!(
        e.client.get_account_primary(Some(&kind)),
        Resolution::Found(a) if a.same(&k_ref)
    ));
}

#[test]
fn admin_op_without_self_signature_rejected() {
    let now: u64 = 1000;
    let c_acct = seeded_account(46);
    let c_ref = c_acct.account_ref();
    let x_acct = seeded_account(47);

    let mut c = IpiisServer::new(c_acct, None, None).unwrap();
    let x = IpiisClient::new(x_acct, None, None, "peers_x").unwrap();

    let req = Request::SetAccountPrimary {
        kind: None,
        account: AccountId::from_bytes(vec![5; 32]).unwrap(),
    };
    let reply = exchange(&x, &mut c, None, &req, now);
    let me = x.account_ref();
    let err = read_response(&reply, OpCode::SetAccountPrimary, &me, &c_ref, now).unwrap_err();
    let msg = match err {
        IpiisError::Handler(msg) => msg,
        other => panic!("expected a handler error, got {:?}", other),
    };
    assert_eq!(String::from_utf8(msg).unwrap(), "the request is not self-signed");

    // the root's table was not changed
    assert!(matches!(c.client.get_account_primary(None), Resolution::Failed(IpiisError::Resolution)));
}

#[test]
fn self_signed_admin_op_accepted() {
    let now: u64 = 1000;
    let c_acct = seeded_account(48);
    let c_ref = c_acct.account_ref();

    let mut c = IpiisServer::new(c_acct, None, None).unwrap();
    let k_ref = AccountId::from_bytes(vec![6; 32]).unwrap();

    // the server's own client signs towards itself: a self-signed envelope
    let req = Request::SetAccountPrimary { kind: None, account: k_ref.duplicate() };
    let env = c.client.sign(&c_ref, &req);
    let frame = encode_request_frame(OpCode::SetAccountPrimary, &env);
    let reply = match c.handle_request_bytes(&frame, now) {
        ServerStep::Reply(bytes) => bytes,
        _ => panic!("admin op must not forward"),
    };
    let (resp, _genv) =
        read_response(&reply, OpCode::SetAccountPrimary, &c_ref, &c_ref, now).unwrap();
    assert!(matches!(resp, Response::SetAccountPrimary));
    assert!(matches!(
        c.client.get_account_primary(None),
        Resolution::Found(a) if a.same(&k_ref)
    ));
}

#[test]
fn handler_error_text_propagates_exactly_and_stream_recovers() {
    let now: u64 = 1000;
    let s_acct = seeded_account(49);
    let s_ref = s_acct.account_ref();
    let x_acct = seeded_account(50);

    let mut s = IpiisServer::new(s_acct, None, None).unwrap();
    let x = IpiisClient::new(x_acct, None, None, "peers_boom").unwrap();
    let x_ref = x.account_ref();

    // a handler failure is carried as a signed error string, byte for byte
    let reply = s.make_error_reply(&x_ref, &IpiisError::Handler(b"boom".to_vec()));
    let err = read_response(&reply, OpCode::GetAddress, &x_ref, &s_ref, now).unwrap_err();
    match err {
        IpiisError::Handler(msg) => assert_eq!(String::from_utf8(msg).unwrap(), "boom"),
        other => panic!("expected a handler error, got {:?}", other),
    }

    // a later unrelated exchange on the same pair still succeeds
    let target = AccountId::from_bytes(vec![8; 32]).unwrap();
    let addr = Address::new(10, 0, 0, 9, 700);
    s.client.accept_address(None, &target, &addr).unwrap();
    let req = Request::GetAddress { kind: None, account: target };
    let reply2 = exchange(&x, &mut s, None, &req, now);
    let (resp, _genv) = read_response(&reply2, OpCode::GetAddress, &x_ref, &s_ref, now).unwrap();
    assert!(matches!(resp, Response::GetAddress { address } if address == addr));
}

#[test]
fn get_own_address_fails_at_the_client() {
    let n_acct = seeded_account(51);
    let n = IpiisClient::new(n_acct, None, None, "peers_self").unwrap();
    let n_ref = n.account_ref();
    assert!(matches!(
        n.get_address(None, &n_ref),
        Resolution::Failed(IpiisError::SelfAddress)
    ));
}

#[test]
fn expired_request_rejected_by_server() {
    let now: u64 = 10_000;
    let s_acct = seeded_account(52);
    let s_ref = s_acct.account_ref();
    let x_acct = seeded_account(53);
    let mut s = IpiisServer::new(s_acct, None, None).unwrap();
    let x = IpiisClient::new(x_acct, None, None, "peers_expired").unwrap();
    let x_ref = x.account_ref();

    // an envelope that expired one second ago
    let req = Request::GetAddress { kind: None, account: AccountId::from_bytes(vec![3; 32]).unwrap() };
    let payload = ipiis::io::encode_request_payload(&req);
    let env = ipiis::envelope::GuaranteeEnvelope::build_at(
        x.account_me(),
        &s_ref,
        payload,
        now - 5_000,
        Some(now - 1_000),
        1,
    );
    let frame = encode_request_frame(OpCode::GetAddress, &env);
    let reply = match s.handle_request_bytes(&frame, now) {
        ServerStep::Reply(bytes) => bytes,
        _ => panic!("an invalid envelope must not forward"),
    };
    let err = read_response(&reply, OpCode::GetAddress, &x_ref, &s_ref, now).unwrap_err();
    match err {
        IpiisError::Handler(msg) => {
            assert_eq!(String::from_utf8(msg).unwrap(), "failed to verify the signature")
        },
        other => panic!("expected a handler error, got {:?}", other),
    }
}
