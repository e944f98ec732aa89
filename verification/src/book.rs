//! The address book: a persistent key-value directory mapping
//! `(kind?, account?)` to a routing value, with a canonical collision-free
//! key encoding. The embedded store is trusted; everything on top of it is
//! verified against the store's contents map.

use vstd::prelude::*;
use crate::account::Account;
use crate::codec::push_bytes;
use crate::errors::IpiisError;
use crate::types::{addr_bytes, AccountId, Address, Kind, ID_LEN};

verus! {

#[verifier::external_body]
pub struct Store {
    db: sled::Db,
}

/// What the store holds: its keys and values as byte strings.
pub uninterp spec fn store_contents(s: Store) -> Map<Seq<u8>, Seq<u8>>;

impl Store {
    /// Relies on tempfile::tempdir for a fresh empty directory and on
    /// sled::open, which creates an empty database in an empty directory.
    /// The directory is kept for the life of the process.
    #[verifier::external_body]
    pub fn open_temp(name: &str) -> (r: Result<Store, IpiisError>)
        ensures
            match r {
                Ok(s) => store_contents(s) == Map::<Seq<u8>, Seq<u8>>::empty(),
                Err(e) => e matches IpiisError::Storage,
            },
    {
        let dir = match tempfile::tempdir() {
            Ok(dir) => dir,
            Err(_) => return Err(IpiisError::Storage),
        };
        let path = dir.keep().join(name);
        match sled::open(path) {
            Ok(db) => Ok(Store { db }),
            Err(_) => Err(IpiisError::Storage),
        }
    }

    /// Relies on sled::open: opens or creates the database at `path`.
    /// Nothing is assumed of what a pre-existing database holds.
    #[verifier::external_body]
    pub fn open_at(path: &str) -> (r: Result<Store, IpiisError>)
    {
        match sled::open(path) {
            Ok(db) => Ok(Store { db }),
            Err(_) => Err(IpiisError::Storage),
        }
    }

    /// Relies on sled::Tree::get: returns the value stored under the key,
    /// or nothing when the key is absent.
    #[verifier::external_body]
    pub fn get(&self, key: &Vec<u8>) -> (r: Result<Option<Vec<u8>>, IpiisError>)
        ensures
            match r {
                Ok(Some(v)) => store_contents(*self).contains_key(key@) && store_contents(
                    *self,
                )[key@] == v@,
                Ok(None) => !store_contents(*self).contains_key(key@),
                Err(e) => e matches IpiisError::Storage,
            },
    {
        match self.db.get(key) {
            Ok(Some(v)) => Ok(Some(v.to_vec())),
            Ok(None) => Ok(None),
            Err(_) => Err(IpiisError::Storage),
        }
    }

    /// Relies on sled::Tree::insert: an atomic single-key write.
    #[verifier::external_body]
    pub fn insert(&mut self, key: &Vec<u8>, value: &Vec<u8>) -> (r: Result<(), IpiisError>)
        ensures
            match r {
                Ok(()) => store_contents(*final(self)) == store_contents(*old(self)).insert(
                    key@,
                    value@,
                ),
                Err(e) => e matches IpiisError::Storage,
            },
    {
        match self.db.insert(key.as_slice(), value.as_slice()) {
            Ok(_) => Ok(()),
            Err(_) => Err(IpiisError::Storage),
        }
    }

    /// Relies on sled::Tree::remove: an atomic single-key erase; removing
    /// an absent key is not an error.
    #[verifier::external_body]
    pub fn remove(&mut self, key: &Vec<u8>) -> (r: Result<(), IpiisError>)
        ensures
            match r {
                Ok(()) => store_contents(*final(self)) == store_contents(*old(self)).remove(key@),
                Err(e) => e matches IpiisError::Storage,
            },
    {
        match self.db.remove(key.as_slice()) {
            Ok(_) => Ok(()),
            Err(_) => Err(IpiisError::Storage),
        }
    }
}

/// The flag byte of a canonical key: bit 1 set when a kind is present,
/// bit 0 when an account is present.
pub open spec fn key_flag(kind: Option<Seq<u8>>, account: Option<Seq<u8>>) -> u8 {
    ((if kind is Some {
        2u8
    } else {
        0u8
    }) + (if account is Some {
        1u8
    } else {
        0u8
    })) as u8
}

/// The canonical key: the flag byte, the kind bytes or nothing, then the
/// account bytes or nothing.
pub open spec fn key_of(kind: Option<Seq<u8>>, account: Option<Seq<u8>>) -> Seq<u8> {
    seq![key_flag(kind, account)] + (match kind {
        Some(k) => k,
        None => Seq::empty(),
    }) + (match account {
        Some(a) => a,
        None => Seq::empty(),
    })
}

/// The four key variants cannot collide: equal canonical keys built from
/// 32-byte parts have equal parts.
pub proof fn lemma_key_canonical_injective(
    k1: Option<Seq<u8>>,
    a1: Option<Seq<u8>>,
    k2: Option<Seq<u8>>,
    a2: Option<Seq<u8>>,
)
    requires
        k1 matches Some(k) ==> k.len() == ID_LEN,
        k2 matches Some(k) ==> k.len() == ID_LEN,
        a1 matches Some(a) ==> a.len() == ID_LEN,
        a2 matches Some(a) ==> a.len() == ID_LEN,
        key_of(k1, a1) == key_of(k2, a2),
    ensures
        k1 == k2,
        a1 == a2,
{
    let s1 = key_of(k1, a1);
    let s2 = key_of(k2, a2);
    assert(s1[0] == key_flag(k1, a1) && s2[0] == key_flag(k2, a2));
    assert(k1 is Some == k2 is Some && a1 is Some == a2 is Some);
    match (k1, k2) {
        (Some(ka), Some(kb)) => {
            assert(ka =~= kb) by {
                assert(forall|i: int| 0 <= i < ID_LEN ==> s1[1 + i] == ka[i] && s2[1 + i] == kb[i]);
            }
            match (a1, a2) {
                (Some(aa), Some(ab)) => {
                    assert(aa =~= ab) by {
                        assert(forall|i: int|
                            0 <= i < ID_LEN ==> s1[33 + i] == aa[i] && s2[33 + i] == ab[i]);
                    }
                },
                (None, None) => {},
                _ => {},
            }
        },
        (None, None) => {
            match (a1, a2) {
                (Some(aa), Some(ab)) => {
                    assert(aa =~= ab) by {
                        assert(forall|i: int|
                            0 <= i < ID_LEN ==> s1[1 + i] == aa[i] && s2[1 + i] == ab[i]);
                    }
                },
                (None, None) => {},
                _ => {},
            }
        },
        _ => {},
    }
}

/// Builds the canonical key for a kind and an account, either optional.
pub fn to_key_canonical(kind: Option<&Kind>, account: Option<&AccountId>) -> (r: Vec<u8>)
    ensures
        r@ == key_of(
            match kind {
                Some(k) => Some(k@),
                None => None,
            },
            match account {
                Some(a) => Some(a@),
                None => None,
            },
        ),
{
    let flag: u8 = (if kind.is_some() {
        2u8
    } else {
        0u8
    }) + (if account.is_some() {
        1u8
    } else {
        0u8
    });
    let mut r: Vec<u8> = Vec::new();
    r.push(flag);
    match kind {
        Some(k) => push_bytes(&mut r, k.as_bytes()),
        None => {},
    }
    match account {
        Some(a) => push_bytes(&mut r, a.as_bytes()),
        None => {},
    }
    proof {
        let gk = match kind {
            Some(k) => Some(k@),
            None => None::<Seq<u8>>,
        };
        let ga = match account {
            Some(a) => Some(a@),
            None => None::<Seq<u8>>,
        };
        assert(r@ =~= key_of(gk, ga));
    }
    r
}

/// The ghost view of a kind argument.
pub open spec fn kind_view(kind: Option<&Kind>) -> Option<Seq<u8>> {
    match kind {
        Some(k) => Some(k@),
        None => None,
    }
}

/// A persistent directory of routing entries, owned by one account.
pub struct AddressBook {
    account: Account,
    my_ref: AccountId,
    store: Store,
}

impl AddressBook {
    /// What the book's store holds.
    pub closed spec fn table(&self) -> Map<Seq<u8>, Seq<u8>> {
        store_contents(self.store)
    }

    /// The identity that owns the book.
    pub closed spec fn me(&self) -> Seq<u8> {
        self.my_ref@
    }

    /// The owning account, exposed for signing.
    pub closed spec fn account_model(&self) -> Account {
        self.account
    }

    /// A well-formed book caches its owner's identity.
    pub open spec fn wf(&self) -> bool {
        &&& self.account_model().wf()
        &&& self.me() == self.account_model().pk()
        &&& self.me().len() == ID_LEN
    }

    /// Opens a book over a fresh temporary store.
    pub fn new(account_me: Account, book_path: &str) -> (r: Result<AddressBook, IpiisError>)
        requires
            account_me.wf(),
        ensures
            match r {
                Ok(book) => {
                    &&& book.wf()
                    &&& book.account_model() == account_me
                    &&& book.me() == account_me.pk()
                    &&& book.table() == Map::<Seq<u8>, Seq<u8>>::empty()
                },
                Err(e) => e matches IpiisError::Storage,
            },
    {
        let store = match Store::open_temp(book_path) {
            Ok(s) => s,
            Err(e) => {
                return Err(e);
            },
        };
        let my_ref = account_me.account_ref();
        Ok(AddressBook { account: account_me, my_ref, store })
    }

    /// Opens a book over the durable store at `path`; whatever the store
    /// already holds is kept.
    pub fn new_at(account_me: Account, path: &str) -> (r: Result<AddressBook, IpiisError>)
        requires
            account_me.wf(),
        ensures
            match r {
                Ok(book) => {
                    &&& book.wf()
                    &&& book.account_model() == account_me
                    &&& book.me() == account_me.pk()
                },
                Err(e) => e matches IpiisError::Storage,
            },
    {
        let store = match Store::open_at(path) {
            Ok(s) => s,
            Err(_) => {
                return Err(IpiisError::Storage);
            },
        };
        let my_ref = account_me.account_ref();
        Ok(AddressBook { account: account_me, my_ref, store })
    }

    /// The public identity of the book's owner.
    pub fn account_ref(&self) -> (r: AccountId)
        requires
            self.wf(),
        ensures
            r@ == self.me(),
            r.wf(),
    {
        self.my_ref.duplicate()
    }

    /// The owning account, for signing envelopes.
    pub fn account_me(&self) -> (r: &Account)
        ensures
            r == self.account_model(),
    {
        &self.account
    }

    /// Looks up the address stored for `(kind, target)`. Absence is not an
    /// error — but the book's own account is refused outright, whatever is
    /// stored: a peer needs no address to reach itself.
    pub fn get(&self, kind: Option<&Kind>, target: &AccountId) -> (r: Result<
        Option<Address>,
        IpiisError,
    >)
        requires
            self.wf(),
        ensures
            (r matches Err(IpiisError::SelfAddress)) <==> target@ == self.me(),
            ({
                let key = key_of(kind_view(kind), Some(target@));
                match r {
                    Ok(Some(addr)) => target@ != self.me() && self.table().contains_key(key)
                        && self.table()[key] == addr_bytes(addr),
                    Ok(None) => target@ != self.me() && !self.table().contains_key(key),
                    Err(IpiisError::SelfAddress) => target@ == self.me(),
                    Err(IpiisError::Parse) => target@ != self.me() && self.table().contains_key(
                        key,
                    ) && self.table()[key].len() != 6,
                    Err(IpiisError::Storage) => target@ != self.me(),
                    Err(_) => false,
                }
            }),
    {
        if self.my_ref.same(target) {
            return Err(IpiisError::SelfAddress);
        }
        let key = to_key_canonical(kind, Some(target));
        match self.store.get(&key) {
            Ok(Some(value)) => {
                match Address::parse(&value) {
                    Ok(addr) => Ok(Some(addr)),
                    Err(_) => Err(IpiisError::Parse),
                }
            },
            Ok(None) => Ok(None),
            Err(e) => Err(e),
        }
    }

    /// Looks up the primary account designated for `kind`; absence is not
    /// an error.
    pub fn get_primary(&self, kind: Option<&Kind>) -> (r: Result<Option<AccountId>, IpiisError>)
        requires
            self.wf(),
        ensures
            ({
                let key = key_of(kind_view(kind), None);
                match r {
                    Ok(Some(id)) => self.table().contains_key(key) && self.table()[key] == id@
                        && id.wf(),
                    Ok(None) => !self.table().contains_key(key),
                    Err(IpiisError::Parse) => self.table().contains_key(key) && self.table()[
                        key].len() != ID_LEN,
                    Err(IpiisError::Storage) => true,
                    Err(_) => false,
                }
            }),
    {
        let key = to_key_canonical(kind, None);
        match self.store.get(&key) {
            Ok(Some(value)) => {
                match AccountId::from_bytes(value) {
                    Ok(id) => Ok(Some(id)),
                    Err(_) => Err(IpiisError::Parse),
                }
            },
            Ok(None) => Ok(None),
            Err(e) => Err(e),
        }
    }

    /// Stores `address` for `(kind, target)`. The typed address denotes
    /// exactly one socket address, so no further validation is owed.
    pub fn set(&mut self, kind: Option<&Kind>, target: &AccountId, address: &Address) -> (r: Result<
        (),
        IpiisError,
    >)
        requires
            old(self).wf(),
        ensures
            final(self).wf(),
            final(self).account_model() == old(self).account_model(),
            final(self).me() == old(self).me(),
            match r {
                Ok(()) => final(self).table() == old(self).table().insert(
                    key_of(kind_view(kind), Some(target@)),
                    addr_bytes(*address),
                ),
                Err(e) => e matches IpiisError::Storage,
            },
    {
        let key = to_key_canonical(kind, Some(target));
        let value = address.to_bytes();
        self.store.insert(&key, &value)
    }

    /// Designates `account` as the primary for `kind`.
    pub fn set_primary(&mut self, kind: Option<&Kind>, account: &AccountId) -> (r: Result<
        (),
        IpiisError,
    >)
        requires
            old(self).wf(),
        ensures
            final(self).wf(),
            final(self).account_model() == old(self).account_model(),
            final(self).me() == old(self).me(),
            match r {
                Ok(()) => final(self).table() == old(self).table().insert(
                    key_of(kind_view(kind), None),
                    account@,
                ),
                Err(e) => e matches IpiisError::Storage,
            },
    {
        let key = to_key_canonical(kind, None);
        let value = crate::envelope::copy_vec(account.as_bytes());
        self.store.insert(&key, &value)
    }

    /// Erases the entry for `(kind, target)`; absence is not an error.
    pub fn delete(&mut self, kind: Option<&Kind>, target: &AccountId) -> (r: Result<
        (),
        IpiisError,
    >)
        requires
            old(self).wf(),
        ensures
            final(self).wf(),
            final(self).account_model() == old(self).account_model(),
            final(self).me() == old(self).me(),
            match r {
                Ok(()) => final(self).table() == old(self).table().remove(
                    key_of(kind_view(kind), Some(target@)),
                ),
                Err(e) => e matches IpiisError::Storage,
            },
    {
        let key = to_key_canonical(kind, Some(target));
        self.store.remove(&key)
    }

    /// Erases the primary designation for `kind`; absence is not an error.
    pub fn delete_primary(&mut self, kind: Option<&Kind>) -> (r: Result<(), IpiisError>)
        requires
            old(self).wf(),
        ensures
            final(self).wf(),
            final(self).account_model() == old(self).account_model(),
            final(self).me() == old(self).me(),
            match r {
                Ok(()) => final(self).table() == old(self).table().remove(
                    key_of(kind_view(kind), None),
                ),
                Err(e) => e matches IpiisError::Storage,
            },
    {
        let key = to_key_canonical(kind, None);
        self.store.remove(&key)
    }
}

/// After a set, a get with the same kind and account sees exactly the
/// written address, and no other; a delete then removes it, and a
/// replacing set overwrites it.
pub proof fn lemma_set_then_get(
    m: Map<Seq<u8>, Seq<u8>>,
    kind: Option<Seq<u8>>,
    account: Seq<u8>,
    addr: Address,
    addr2: Address,
)
    ensures
        ({
            let key = key_of(kind, Some(account));
            let m2 = m.insert(key, addr_bytes(addr));
            &&& m2.contains_key(key)
            &&& m2[key] == addr_bytes(addr)
            &&& forall|a: Address| m2[key] == addr_bytes(a) ==> a == addr
            &&& !m2.remove(key).contains_key(key)
            &&& m2.insert(key, addr_bytes(addr2))[key] == addr_bytes(addr2)
        }),
{
    let key = key_of(kind, Some(account));
    let m2 = m.insert(key, addr_bytes(addr));
    assert forall|a: Address| m2[key] == addr_bytes(a) implies a == addr by {
        crate::types::lemma_addr_bytes_round_trip(addr);
    }
}

} // verus!
