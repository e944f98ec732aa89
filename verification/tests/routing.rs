//! The routing table: canonical keys, set/get/delete round trips, and the
//! self-address rule.

use ipiis::account::Account;
use ipiis::book::{to_key_canonical, AddressBook};
use ipiis::errors::IpiisError;
use ipiis::types::{parse_hex, to_hex_bytes, AccountId, Address, Kind};

fn seeded_account(b: u8) -> Account {
    Account::from_seed(&vec![b; 32]).unwrap()
}

fn kind_of(b: u8) -> Kind {
    Kind::from_bytes(vec![b; 32]).unwrap()
}

#[test]
fn key_canonical_flags_and_layout() {
    let kind = kind_of(7);
    let account = AccountId::from_bytes(vec![9; 32]).unwrap();

    let k00 = to_key_canonical(None, None);
    assert_eq!(k00, vec![0u8]);

    let k01 = to_key_canonical(None, Some(&account));
    assert_eq!(k01[0], 1u8);
    assert_eq!(&k01[1..], &[9u8; 32][..]);
    assert_eq!(k01.len(), 33);

    let k10 = to_key_canonical(Some(&kind), None);
    assert_eq!(k10[0], 2u8);
    assert_eq!(&k10[1..], &[7u8; 32][..]);

    let k11 = to_key_canonical(Some(&kind), Some(&account));
    assert_eq!(k11[0], 3u8);
    assert_eq!(&k11[1..33], &[7u8; 32][..]);
    assert_eq!(&k11[33..], &[9u8; 32][..]);
}

#[test]
fn set_then_get_returns_address_until_delete() {
    let me = seeded_account(1);
    let mut book = AddressBook::new(me, "routing_set_get").unwrap();
    let target = AccountId::from_bytes(vec![2; 32]).unwrap();
    let kind = kind_of(3);
    let addr = Address::new(127, 0, 0, 1, 5001);

    book.set(Some(&kind), &target, &addr).unwrap();
    assert_eq!(book.get(Some(&kind), &target).unwrap(), Some(addr));

    // a replacing set overwrites
    let addr2 = Address::new(10, 0, 0, 2, 6000);
    book.set(Some(&kind), &target, &addr2).unwrap();
    assert_eq!(book.get(Some(&kind), &target).unwrap(), Some(addr2));

    // the kindless entry is a different key
    assert_eq!(book.get(None, &target).unwrap(), None);

    book.delete(Some(&kind), &target).unwrap();
    assert_eq!(book.get(Some(&kind), &target).unwrap(), None);

    // deleting an absent entry is not an error
    book.delete(Some(&kind), &target).unwrap();
}

#[test]
fn primary_set_get_delete() {
    let me = seeded_account(4);
    let mut book = AddressBook::new(me, "routing_primary").unwrap();
    let primary = AccountId::from_bytes(vec![5; 32]).unwrap();
    let kind = kind_of(6);

    assert!(book.get_primary(None).unwrap().is_none());
    book.set_primary(None, &primary).unwrap();
    let got = book.get_primary(None).unwrap().unwrap();
    assert!(got.same(&primary));

    // the kinded primary is independent
    assert!(book.get_primary(Some(&kind)).unwrap().is_none());
    book.set_primary(Some(&kind), &primary).unwrap();
    assert!(book.get_primary(Some(&kind)).unwrap().unwrap().same(&primary));

    book.delete_primary(Some(&kind)).unwrap();
    assert!(book.get_primary(Some(&kind)).unwrap().is_none());
    assert!(book.get_primary(None).unwrap().unwrap().same(&primary));
}

#[test]
fn own_address_lookup_is_an_error() {
    let me = seeded_account(7);
    let me_ref = me.account_ref();
    let book = AddressBook::new(me, "routing_self").unwrap();

    let err = book.get(None, &me_ref).unwrap_err();
    assert!(matches!(err, IpiisError::SelfAddress));
    let msg = String::from_utf8(err.message_bytes()).unwrap();
    assert!(msg.contains("cannot get"));
    assert!(msg.contains("myself"));
}

#[test]
fn own_address_lookup_fails_even_when_stored() {
    let me = seeded_account(8);
    let me_ref = me.account_ref();
    let mut book = AddressBook::new(me, "routing_self_present").unwrap();
    let addr = Address::new(127, 0, 0, 1, 9000);
    book.set(None, &me_ref, &addr).unwrap();
    assert!(matches!(book.get(None, &me_ref), Err(IpiisError::SelfAddress)));
}

#[test]
fn unroutable_target_names_itself_in_the_error() {
    let me = seeded_account(9);
    let client =
        ipiis::client::IpiisClient::new(me, None, None, "routing_no_route").unwrap();
    let target = AccountId::from_bytes(vec![0xab; 32]).unwrap();
    let err = match client.get_address(None, &target) {
        ipiis::client::Resolution::Failed(e) => e,
        _ => panic!("expected a failure"),
    };
    let msg = String::from_utf8(err.message_bytes()).unwrap();
    assert_eq!(msg, format!("failed to get address: {}", "ab".repeat(32)));
}

#[test]
fn hex_text_round_trips_and_rejects_bad_digits() {
    let bytes = vec![0x00, 0x0f, 0xa5, 0xff];
    let text = to_hex_bytes(&bytes);
    assert_eq!(text, b"000fa5ff".to_vec());
    assert_eq!(parse_hex(&text).unwrap(), bytes);
    assert!(parse_hex(&b"0f0".to_vec()).is_err());
    assert!(parse_hex(&b"0g".to_vec()).is_err());
    assert!(parse_hex(&b"0F".to_vec()).is_err());
    assert_eq!(parse_hex(&Vec::new()).unwrap(), Vec::<u8>::new());
}
