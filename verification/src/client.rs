//! The identity-keyed caller: local routing-table lookups, the recursive
//! resolution decision through the designated primary, write-through with
//! upstream propagation for a root peer, and request signing. The
//! transport that carries the resulting frames lives outside the library.

use vstd::prelude::*;
use crate::account::{random_nonce, Account};
use crate::book::{key_of, kind_view, AddressBook};
use crate::envelope::{now_millis, not_expired, valid_guarantee, verify_verdict, wf_model, GuaranteeEnvelope, GuarantorEnvelope};
use crate::errors::IpiisError;
use crate::io::{request_bytes, wf_request, Request};
use crate::types::{addr_bytes, AccountId, Address, Kind};

verus! {

/// What a lookup decided: the value was known locally, a primary peer
/// must be asked, or the lookup failed outright.
pub enum Resolution<T> {
    Found(T),
    Ask { target: AccountId, request: Request },
    Failed(IpiisError),
}

/// The write-through decision of a root peer: nothing more to do, or a
/// request to send upstream.
pub enum Propagate {
    Done,
    Upstream { target: AccountId, request: Request },
}

/// Whether an optional kind argument holds a whole digest.
pub open spec fn wf_kind_arg(kind: Option<&Kind>) -> bool {
    match kind {
        Some(k) => k.wf(),
        None => true,
    }
}

/// An identity-keyed RPC caller: one account and its address book.
pub struct IpiisClient {
    book: AddressBook,
}

impl IpiisClient {
    /// The client's routing table.
    pub closed spec fn table(&self) -> Map<Seq<u8>, Seq<u8>> {
        self.book.table()
    }

    /// The client's own identity.
    pub closed spec fn me(&self) -> Seq<u8> {
        self.book.me()
    }

    /// The owning account.
    pub closed spec fn account_model(&self) -> Account {
        self.book.account_model()
    }

    /// A well-formed client is a well-formed book.
    pub open spec fn wf(&self) -> bool {
        &&& self.account_model().wf()
        &&& self.me() == self.account_model().pk()
        &&& self.me().len() == crate::types::ID_LEN
    }


    /// Opens a client over a fresh book, seeding the designated primary
    /// and its address when they are known at start-up.
    pub fn new(
        account_me: Account,
        account_primary: Option<AccountId>,
        primary_address: Option<Address>,
        book_path: &str,
    ) -> (r: Result<IpiisClient, IpiisError>)
        requires
            account_me.wf(),
        ensures
            match r {
                Ok(c) => {
                    &&& c.wf()
                    &&& c.me() == account_me.pk()
                    &&& c.account_model() == account_me
                    &&& c.table() == (match account_primary {
                        None => Map::<Seq<u8>, Seq<u8>>::empty(),
                        Some(p) => {
                            let seeded = Map::<Seq<u8>, Seq<u8>>::empty().insert(
                                key_of(None, None),
                                p@,
                            );
                            match primary_address {
                                None => seeded,
                                Some(a) => seeded.insert(key_of(None, Some(p@)), addr_bytes(a)),
                            }
                        },
                    })
                },
                Err(e) => e matches IpiisError::Storage,
            },
    {
        let mut book = match AddressBook::new(account_me, book_path) {
            Ok(b) => b,
            Err(e) => {
                return Err(e);
            },
        };
        match account_primary {
            None => {},
            Some(p) => {
                match book.set_primary(None, &p) {
                    Ok(()) => {},
                    Err(e) => {
                        return Err(e);
                    },
                }
                match primary_address {
                    None => {},
                    Some(a) => {
                        match book.set(None, &p, &a) {
                            Ok(()) => {},
                            Err(e) => {
                                return Err(e);
                            },
                        }
                    },
                }
            },
        }
        Ok(IpiisClient { book })
    }

    /// Opens a client over the durable book at `path`, keeping whatever
    /// the store already holds, and seeding the designated primary and its
    /// address when they are known at start-up.
    pub fn new_at(
        account_me: Account,
        account_primary: Option<AccountId>,
        primary_address: Option<Address>,
        path: &str,
    ) -> (r: Result<IpiisClient, IpiisError>)
        requires
            account_me.wf(),
            account_primary matches Some(p) ==> p.wf(),
        ensures
            match r {
                Ok(c) => {
                    &&& c.wf()
                    &&& c.me() == account_me.pk()
                    &&& c.account_model() == account_me
                    &&& match account_primary {
                        None => true,
                        Some(p) => {
                            &&& c.table().contains_key(key_of(None, None))
                            &&& c.table()[key_of(None, None)] == p@
                            &&& match primary_address {
                                None => true,
                                Some(a) => c.table().contains_key(key_of(None, Some(p@)))
                                    && c.table()[key_of(None, Some(p@))] == addr_bytes(a),
                            }
                        },
                    }
                },
                Err(e) => e matches IpiisError::Storage,
            },
    {
        let mut book = match AddressBook::new_at(account_me, path) {
            Ok(b) => b,
            Err(e) => {
                return Err(e);
            },
        };
        match account_primary {
            None => {},
            Some(p) => {
                match book.set_primary(None, &p) {
                    Ok(()) => {},
                    Err(e) => {
                        return Err(e);
                    },
                }
                match primary_address {
                    None => {},
                    Some(a) => {
                        match book.set(None, &p, &a) {
                            Ok(()) => {},
                            Err(e) => {
                                return Err(e);
                            },
                        }
                        proof {
                            assert(key_of(None, Some(p@)).len() == 1 + p@.len());
                            assert(key_of(None, None).len() == 1);
                        }
                    },
                }
            },
        }
        Ok(IpiisClient { book })
    }

    /// The public identity of this client's account.
    pub fn account_ref(&self) -> (r: AccountId)
        requires
            self.wf(),
        ensures
            r@ == self.me(),
            r.wf(),
    {
        self.book.account_ref()
    }

    /// The owning account. The secret never leaves it; only signing uses
    /// it.
    pub fn account_me(&self) -> (r: &Account)
        ensures
            r == self.account_model(),
    {
        self.book.account_me()
    }

    /// Looks up the address stored for `(kind, target)` locally, with the
    /// book's self-address rule.
    pub fn lookup_address(&self, kind: Option<&Kind>, target: &AccountId) -> (r: Result<
        Option<Address>,
        IpiisError,
    >)
        requires
            self.wf(),
        ensures
            (r matches Err(IpiisError::SelfAddress)) <==> target@ == self.me(),
            ({
                let key = key_of(kind_view(kind), Some(target@));
                match r {
                    Ok(Some(addr)) => target@ != self.me() && self.table().contains_key(key)
                        && self.table()[key] == addr_bytes(addr),
                    Ok(None) => target@ != self.me() && !self.table().contains_key(key),
                    Err(IpiisError::SelfAddress) => target@ == self.me(),
                    Err(IpiisError::Parse) => target@ != self.me() && self.table().contains_key(
                        key,
                    ) && self.table()[key].len() != 6,
                    Err(IpiisError::Storage) => target@ != self.me(),
                    Err(_) => false,
                }
            }),
    {
        self.book.get(kind, target)
    }

    /// The name of the transport this caller speaks.
    pub fn protocol(&self) -> (r: String)
        ensures
            r@ == "tcp"@,
    {
        "tcp".to_owned()
    }

    /// Resolves the primary account for `kind`: found locally, or — when
    /// the kind is named and a root primary is known — a request to ask
    /// that root, or a failure when there is no upstream to ask.
    pub fn get_account_primary(&self, kind: Option<&Kind>) -> (r: Resolution<AccountId>)
        requires
            self.wf(),
            wf_kind_arg(kind),
        ensures
            ({
                let pkey = key_of(kind_view(kind), None);
                let rootkey = key_of(None, None);
                match r {
                    Resolution::Found(id) => self.table().contains_key(pkey) && self.table()[pkey]
                        == id@ && id.wf(),
                    Resolution::Ask { target, request } => {
                        &&& !self.table().contains_key(pkey)
                        &&& kind is Some
                        &&& self.table().contains_key(rootkey)
                        &&& target@ == self.table()[rootkey]
                        &&& target.wf()
                        &&& wf_request(request)
                        &&& request matches Request::GetAccountPrimary { kind: k }
                            && crate::io::opt_kind_view(k) == kind_view(kind)
                    },
                    Resolution::Failed(IpiisError::Resolution) => !self.table().contains_key(pkey)
                        && (kind is None || !self.table().contains_key(rootkey)),
                    Resolution::Failed(IpiisError::Parse) => (self.table().contains_key(pkey)
                        && self.table()[pkey].len() != crate::types::ID_LEN) || (!self.table(
                    ).contains_key(pkey) && kind is Some && self.table().contains_key(rootkey)
                        && self.table()[rootkey].len() != crate::types::ID_LEN),
                    Resolution::Failed(IpiisError::Storage) => true,
                    Resolution::Failed(_) => false,
                }
            }),
    {
        match self.book.get_primary(kind) {
            Ok(Some(id)) => Resolution::Found(id),
            Ok(None) => {
                match kind {
                    Some(k) => {
                        match self.book.get_primary(None) {
                            Ok(Some(root)) => Resolution::Ask {
                                target: root,
                                request: Request::GetAccountPrimary { kind: Some(k.duplicate()) },
                            },
                            Ok(None) => Resolution::Failed(IpiisError::Resolution),
                            Err(e) => Resolution::Failed(e),
                        }
                    },
                    None => Resolution::Failed(IpiisError::Resolution),
                }
            },
            Err(e) => Resolution::Failed(e),
        }
    }

    /// Caches a primary learned from upstream, and its address when one
    /// came along.
    pub fn accept_account_primary(
        &mut self,
        kind: &Kind,
        account: &AccountId,
        address: &Option<Address>,
    ) -> (r: Result<(), IpiisError>)
        requires
            old(self).wf(),
        ensures
            final(self).wf(),
            final(self).me() == old(self).me(),
            final(self).account_model() == old(self).account_model(),
            match r {
                Ok(()) => final(self).table() == (match address {
                    None => old(self).table().insert(key_of(Some(kind@), None), account@),
                    Some(a) => old(self).table().insert(key_of(Some(kind@), None), account@).insert(
                        key_of(Some(kind@), Some(account@)),
                        addr_bytes(*a),
                    ),
                }),
                Err(e) => e matches IpiisError::Storage,
            },
    {
        match self.book.set_primary(Some(kind), account) {
            Ok(()) => {},
            Err(e) => {
                return Err(e);
            },
        }
        match address {
            None => Ok(()),
            Some(a) => self.book.set(Some(kind), account, a),
        }
    }

    /// Resolves the address of `target`: found locally, or a request to
    /// ask the root primary, or a failure when there is no one to ask —
    /// and an error when asking for this client's own address.
    pub fn get_address(&self, kind: Option<&Kind>, target: &AccountId) -> (r: Resolution<Address>)
        requires
            self.wf(),
            wf_kind_arg(kind),
            target.wf(),
        ensures
            ({
                let akey = key_of(kind_view(kind), Some(target@));
                let rootkey = key_of(None, None);
                match r {
                    Resolution::Found(addr) => target@ != self.me() && self.table().contains_key(
                        akey,
                    ) && self.table()[akey] == addr_bytes(addr),
                    Resolution::Ask { target: root, request } => {
                        &&& !self.table().contains_key(akey)
                        &&& target@ != self.me()
                        &&& self.table().contains_key(rootkey)
                        &&& root@ == self.table()[rootkey]
                        &&& root.wf()
                        &&& wf_request(request)
                        &&& request matches Request::GetAddress { kind: k, account }
                            && crate::io::opt_kind_view(k) == kind_view(kind) && account@
                            == target@
                    },
                    Resolution::Failed(IpiisError::SelfAddress) => target@ == self.me(),
                    Resolution::Failed(IpiisError::NoRoute(t)) => !self.table().contains_key(akey)
                        && target@ != self.me() && !self.table().contains_key(rootkey) && t@
                        == target@,
                    Resolution::Failed(IpiisError::Parse) => target@ != self.me() && ((self.table(
                    ).contains_key(akey) && self.table()[akey].len() != 6) || (!self.table(
                    ).contains_key(akey) && self.table().contains_key(rootkey) && self.table()[
                        rootkey].len() != crate::types::ID_LEN)),
                    Resolution::Failed(IpiisError::Storage) => true,
                    Resolution::Failed(_) => false,
                }
            }),
    {
        match self.book.get(kind, target) {
            Ok(Some(addr)) => Resolution::Found(addr),
            Ok(None) => {
                match self.book.get_primary(None) {
                    Ok(Some(root)) => {
                        let k2: Option<Kind> = match kind {
                            Some(k) => Some(k.duplicate()),
                            None => None,
                        };
                        Resolution::Ask {
                            target: root,
                            request: Request::GetAddress { kind: k2, account: target.duplicate() },
                        }
                    },
                    Ok(None) => Resolution::Failed(
                        IpiisError::NoRoute(crate::envelope::copy_vec(target.as_bytes())),
                    ),
                    Err(e) => Resolution::Failed(e),
                }
            },
            Err(e) => Resolution::Failed(e),
        }
    }

    /// Caches an address learned from upstream.
    pub fn accept_address(
        &mut self,
        kind: Option<&Kind>,
        target: &AccountId,
        address: &Address,
    ) -> (r: Result<(), IpiisError>)
        requires
            old(self).wf(),
        ensures
            final(self).wf(),
            final(self).me() == old(self).me(),
            final(self).account_model() == old(self).account_model(),
            match r {
                Ok(()) => final(self).table() == old(self).table().insert(
                    key_of(kind_view(kind), Some(target@)),
                    addr_bytes(*address),
                ),
                Err(e) => e matches IpiisError::Storage,
            },
    {
        self.book.set(kind, target, address)
    }

    /// Designates `account` as the primary for `kind` locally; a root
    /// peer — one whose own identity is the designated root primary —
    /// also propagates the write upstream to make it observable.
    pub fn set_account_primary(&mut self, kind: Option<&Kind>, account: &AccountId) -> (r: Result<
        Propagate,
        IpiisError,
    >)
        requires
            old(self).wf(),
            wf_kind_arg(kind),
            account.wf(),
        ensures
            final(self).wf(),
            final(self).me() == old(self).me(),
            final(self).account_model() == old(self).account_model(),
            match r {
                Ok(p) => {
                    let t2 = old(self).table().insert(key_of(kind_view(kind), None), account@);
                    &&& final(self).table() == t2
                    &&& match p {
                        Propagate::Done => !(t2.contains_key(key_of(None, None)) && t2[key_of(
                            None,
                            None,
                        )] == old(self).me()),
                        Propagate::Upstream { target, request } => {
                            &&& t2.contains_key(key_of(None, None))
                            &&& t2[key_of(None, None)] == old(self).me()
                            &&& target@ == old(self).me()
                            &&& wf_request(request)
                            &&& request matches Request::SetAccountPrimary { kind: k, account: a }
                                && crate::io::opt_kind_view(k) == kind_view(kind) && a@ == account@
                        },
                    }
                },
                Err(e) => e matches IpiisError::Storage || e matches IpiisError::Parse,
            },
    {
        match self.book.set_primary(kind, account) {
            Ok(()) => {},
            Err(e) => {
                return Err(e);
            },
        }
        match self.book.get_primary(None) {
            Ok(Some(primary)) => {
                let me = self.book.account_ref();
                if me.same(&primary) {
                    let k2: Option<Kind> = match kind {
                        Some(k) => Some(k.duplicate()),
                        None => None,
                    };
                    Ok(
                        Propagate::Upstream {
                            target: primary,
                            request: Request::SetAccountPrimary {
                                kind: k2,
                                account: account.duplicate(),
                            },
                        },
                    )
                } else {
                    Ok(Propagate::Done)
                }
            },
            Ok(None) => Ok(Propagate::Done),
            Err(e) => Err(e),
        }
    }

    /// Stores `address` for `(kind, target)` locally; a root peer also
    /// propagates the write upstream.
    pub fn set_address(
        &mut self,
        kind: Option<&Kind>,
        target: &AccountId,
        address: &Address,
    ) -> (r: Result<Propagate, IpiisError>)
        requires
            old(self).wf(),
            wf_kind_arg(kind),
            target.wf(),
        ensures
            final(self).wf(),
            final(self).me() == old(self).me(),
            final(self).account_model() == old(self).account_model(),
            match r {
                Ok(p) => {
                    let t2 = old(self).table().insert(
                        key_of(kind_view(kind), Some(target@)),
                        addr_bytes(*address),
                    );
                    &&& final(self).table() == t2
                    &&& match p {
                        Propagate::Done => !(t2.contains_key(key_of(None, None)) && t2[key_of(
                            None,
                            None,
                        )] == old(self).me()),
                        Propagate::Upstream { target: up, request } => {
                            &&& t2.contains_key(key_of(None, None))
                            &&& t2[key_of(None, None)] == old(self).me()
                            &&& up@ == old(self).me()
                            &&& wf_request(request)
                            &&& request matches Request::SetAddress {
                                kind: k,
                                account: a,
                                address: d,
                            } && crate::io::opt_kind_view(k) == kind_view(kind) && a@ == target@
                                && d == *address
                        },
                    }
                },
                Err(e) => e matches IpiisError::Storage || e matches IpiisError::Parse,
            },
    {
        match self.book.set(kind, target, address) {
            Ok(()) => {},
            Err(e) => {
                return Err(e);
            },
        }
        match self.book.get_primary(None) {
            Ok(Some(primary)) => {
                let me = self.book.account_ref();
                if me.same(&primary) {
                    let k2: Option<Kind> = match kind {
                        Some(k) => Some(k.duplicate()),
                        None => None,
                    };
                    Ok(
                        Propagate::Upstream {
                            target: primary,
                            request: Request::SetAddress {
                                kind: k2,
                                account: target.duplicate(),
                                address: *address,
                            },
                        },
                    )
                } else {
                    Ok(Propagate::Done)
                }
            },
            Ok(None) => Ok(Propagate::Done),
            Err(e) => Err(e),
        }
    }

    /// Erases the primary designation for `kind` locally; a root peer
    /// also propagates the erase upstream.
    pub fn delete_account_primary(&mut self, kind: Option<&Kind>) -> (r: Result<
        Propagate,
        IpiisError,
    >)
        requires
            old(self).wf(),
            wf_kind_arg(kind),
        ensures
            final(self).wf(),
            final(self).me() == old(self).me(),
            final(self).account_model() == old(self).account_model(),
            match r {
                Ok(p) => {
                    let t2 = old(self).table().remove(key_of(kind_view(kind), None));
                    &&& final(self).table() == t2
                    &&& match p {
                        Propagate::Done => !(t2.contains_key(key_of(None, None)) && t2[key_of(
                            None,
                            None,
                        )] == old(self).me()),
                        Propagate::Upstream { target, request } => {
                            &&& t2.contains_key(key_of(None, None))
                            &&& t2[key_of(None, None)] == old(self).me()
                            &&& target@ == old(self).me()
                            &&& wf_request(request)
                            &&& request matches Request::DeleteAccountPrimary { kind: k }
                                && crate::io::opt_kind_view(k) == kind_view(kind)
                        },
                    }
                },
                Err(e) => e matches IpiisError::Storage || e matches IpiisError::Parse,
            },
    {
        match self.book.delete_primary(kind) {
            Ok(()) => {},
            Err(e) => {
                return Err(e);
            },
        }
        match self.book.get_primary(None) {
            Ok(Some(primary)) => {
                let me = self.book.account_ref();
                if me.same(&primary) {
                    let k2: Option<Kind> = match kind {
                        Some(k) => Some(k.duplicate()),
                        None => None,
                    };
                    Ok(
                        Propagate::Upstream {
                            target: primary,
                            request: Request::DeleteAccountPrimary { kind: k2 },
                        },
                    )
                } else {
                    Ok(Propagate::Done)
                }
            },
            Ok(None) => Ok(Propagate::Done),
            Err(e) => Err(e),
        }
    }

    /// Erases the address stored for `(kind, target)` locally; a root
    /// peer also propagates the erase upstream.
    pub fn delete_address(&mut self, kind: Option<&Kind>, target: &AccountId) -> (r: Result<
        Propagate,
        IpiisError,
    >)
        requires
            old(self).wf(),
            wf_kind_arg(kind),
            target.wf(),
        ensures
            final(self).wf(),
            final(self).me() == old(self).me(),
            final(self).account_model() == old(self).account_model(),
            match r {
                Ok(p) => {
                    let t2 = old(self).table().remove(key_of(kind_view(kind), Some(target@)));
                    &&& final(self).table() == t2
                    &&& match p {
                        Propagate::Done => !(t2.contains_key(key_of(None, None)) && t2[key_of(
                            None,
                            None,
                        )] == old(self).me()),
                        Propagate::Upstream { target: up, request } => {
                            &&& t2.contains_key(key_of(None, None))
                            &&& t2[key_of(None, None)] == old(self).me()
                            &&& up@ == old(self).me()
                            &&& wf_request(request)
                            &&& request matches Request::DeleteAddress { kind: k, account: a }
                                && crate::io::opt_kind_view(k) == kind_view(kind) && a@ == target@
                        },
                    }
                },
                Err(e) => e matches IpiisError::Storage || e matches IpiisError::Parse,
            },
    {
        match self.book.delete(kind, target) {
            Ok(()) => {},
            Err(e) => {
                return Err(e);
            },
        }
        match self.book.get_primary(None) {
            Ok(Some(primary)) => {
                let me = self.book.account_ref();
                if me.same(&primary) {
                    let k2: Option<Kind> = match kind {
                        Some(k) => Some(k.duplicate()),
                        None => None,
                    };
                    Ok(
                        Propagate::Upstream {
                            target: primary,
                            request: Request::DeleteAddress {
                                kind: k2,
                                account: target.duplicate(),
                            },
                        },
                    )
                } else {
                    Ok(Propagate::Done)
                }
            },
            Ok(None) => Ok(Propagate::Done),
            Err(e) => Err(e),
        }
    }

    /// Signs a request towards `target`: a guarantee envelope over the
    /// request's payload bytes, created now, with a fresh nonce and no
    /// expiration.
    pub fn sign(&self, target: &AccountId, request: &Request) -> (r: GuaranteeEnvelope)
        requires
            self.wf(),
            target.wf(),
        ensures
            r@.guarantee == self.me(),
            r@.target == target@,
            r@.payload == request_bytes(*request),
            r@.expiration is None,
            valid_guarantee(r@),
            wf_model(r@),
            forall|now: u64| verify_verdict(r@, Some(target@), now) == Ok::<(), IpiisError>(()),
    {
        let payload = crate::io::encode_request_payload(request);
        let n: usize = payload.len();
        proof {
            assert(n <= usize::MAX);
            assert(payload@.len() <= u64::MAX);
        }
        let env = GuaranteeEnvelope::build_at(
            self.book.account_me(),
            target,
            payload,
            now_millis(),
            None,
            random_nonce(),
        );
        proof {
            assert(not_expired(env@, 0u64));
        }
        env
    }

    /// Countersigns a guarantee envelope as this peer: the guarantor's
    /// attestation that the request was processed.
    pub fn sign_as_guarantor(&self, msg: GuaranteeEnvelope) -> (r: GuarantorEnvelope)
        requires
            self.wf(),
            wf_model(msg@),
        ensures
            r@.inner == msg@,
            r@.guarantor == self.me(),
            crate::envelope::valid_guarantor(r@),
            crate::envelope::wf_guarantor(r@),
    {
        GuarantorEnvelope::countersign(self.book.account_me(), msg)
    }
}

} // verus!
