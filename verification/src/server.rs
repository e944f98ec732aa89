//! The server core: per-stream dispatch of the six routing-admin
//! operations. A stream's bytes are decoded, the guarantee envelope is
//! verified against this peer, administrative writes demand a self-signed
//! envelope, and every outcome is answered with a countersigned reply or
//! a signed error string. The listener and the tasks that feed bytes in
//! live outside the library.

use vstd::prelude::*;
use crate::account::Account;
use crate::book::key_of;
use crate::client::{IpiisClient, Resolution};
use crate::envelope::{now_millis, wf_model, wf_guarantor, valid_guarantor, GuaranteeEnvelope, GuarantorEnvelope, GuarantorModel};
use crate::errors::{error_text, IpiisError};
use crate::opcode::OpCode;
use crate::io::{err_frame_bytes, ok_frame_bytes, response_bytes, response_opcode, wf_request, wf_response, Request, Response};
use crate::types::{addr_bytes, AccountId, Address, Kind};

verus! {

/// What a handler decided: a finished typed response, or an outbound
/// request to the named peer whose reply the handler needs first.
pub enum HandlerOutcome {
    Done(Response),
    Remote { target: AccountId, request: Request },
}

/// What the dispatcher decided for one stream: the reply bytes to write
/// back, or an outbound request to perform, with what is needed to finish
/// afterwards.
pub enum ServerStep {
    Reply(Vec<u8>),
    Forward { target: AccountId, request: Request, pending: Pending },
}

/// A suspended stream: the verified request envelope and the request,
/// kept until the upstream reply arrives.
pub struct Pending {
    pub env: GuaranteeEnvelope,
    pub request: Request,
}

/// A well-formed suspension.
pub open spec fn wf_pending(p: Pending) -> bool {
    &&& wf_model(p.env@)
    &&& wf_request(p.request)
}

/// An error frame signed by this peer that carries exactly this text.
pub open spec fn is_error_reply(b: Seq<u8>, me: Seq<u8>, text: Seq<u8>) -> bool {
    exists|g: GuarantorModel|
        {
            &&& b == #[trigger] err_frame_bytes(g)
            &&& wf_guarantor(g)
            &&& g.guarantor == me
            &&& g.inner.guarantee == me
            &&& g.inner.payload == text
            &&& valid_guarantor(g)
            &&& crate::envelope::valid_guarantee(g.inner)
        }
}

/// A successful reply frame countersigning exactly this request envelope
/// and carrying a typed response of the request's own operation.
pub open spec fn is_ok_reply_for(
    b: Seq<u8>,
    m: crate::envelope::EnvModel,
    op: OpCode,
    me: Seq<u8>,
) -> bool {
    exists|g: GuarantorModel, resp: Response|
        {
            &&& b == #[trigger] ok_frame_bytes(g, response_bytes(resp))
            &&& g.inner == m
            &&& g.guarantor == me
            &&& wf_guarantor(g)
            &&& wf_response(resp)
            &&& response_opcode(resp) == op
            &&& valid_guarantor(g)
        }
}

/// The errors a handler itself can report.
pub open spec fn handler_error(e: IpiisError) -> bool {
    match e {
        IpiisError::Resolution => true,
        IpiisError::NoRoute(_) => true,
        IpiisError::Parse => true,
        IpiisError::Storage => true,
        IpiisError::SelfAddress => true,
        IpiisError::Authorization => true,
        _ => false,
    }
}

/// An error frame signed by this peer whose text is some handler error's.
pub open spec fn is_handler_error_reply(b: Seq<u8>, me: Seq<u8>) -> bool {
    exists|e: IpiisError| handler_error(e) && #[trigger] is_error_reply(b, me, error_text(e))
}

/// Whether a request is one of the administrative writes, which only a
/// self-signed caller may make.
pub open spec fn is_admin_request(q: Request) -> bool {
    match q {
        Request::SetAccountPrimary { .. } => true,
        Request::DeleteAccountPrimary { .. } => true,
        Request::SetAddress { .. } => true,
        Request::DeleteAddress { .. } => true,
        _ => false,
    }
}

/// The table an administrative request leaves behind when it succeeds.
pub open spec fn admin_effect(q: Request, t: Map<Seq<u8>, Seq<u8>>) -> Map<Seq<u8>, Seq<u8>> {
    match q {
        Request::SetAccountPrimary { kind, account } => t.insert(
            key_of(crate::io::opt_kind_view(kind), None),
            account@,
        ),
        Request::DeleteAccountPrimary { kind } => t.remove(
            key_of(crate::io::opt_kind_view(kind), None),
        ),
        Request::SetAddress { kind, account, address } => t.insert(
            key_of(crate::io::opt_kind_view(kind), Some(account@)),
            addr_bytes(address),
        ),
        Request::DeleteAddress { kind, account } => t.remove(
            key_of(crate::io::opt_kind_view(kind), Some(account@)),
        ),
        _ => t,
    }
}

/// A reply frame this peer may write: a countersigned success frame, or
/// an error frame signed by this peer.
pub open spec fn well_formed_reply(b: Seq<u8>, me: Seq<u8>) -> bool {
    ||| exists|g: GuarantorModel, resp: Response|
        {
            &&& b == #[trigger] ok_frame_bytes(g, response_bytes(resp))
            &&& wf_guarantor(g)
            &&& wf_response(resp)
            &&& g.guarantor == me
            &&& valid_guarantor(g)
        }
    ||| exists|g: GuarantorModel|
        {
            &&& b == #[trigger] err_frame_bytes(g)
            &&& wf_guarantor(g)
            &&& g.guarantor == me
            &&& g.inner.guarantee == me
            &&& valid_guarantor(g)
        }
}

/// Whether an upstream reply has the shape the suspended request needs.
pub open spec fn resume_matches(q: Request, resp: Response) -> bool {
    match (q, resp) {
        (
            Request::GetAccountPrimary { kind: Some(_) },
            Response::GetAccountPrimary { .. },
        ) => true,
        (Request::GetAddress { .. }, Response::GetAddress { .. }) => true,
        _ => false,
    }
}

/// The kind field of a suspended request.
pub open spec fn request_kind_of(q: Request) -> Option<Kind> {
    crate::io::request_kind(q)
}

/// The account view of a suspended address request.
pub open spec fn request_account_view(q: Request) -> Seq<u8> {
    match q {
        Request::GetAddress { account, .. } => account@,
        _ => Seq::empty(),
    }
}

/// The address of an upstream address reply.
pub open spec fn response_address_of(resp: Response) -> Address {
    match resp {
        Response::GetAddress { address } => address,
        _ => Address { a: 0, b: 0, c: 0, d: 0, port: 0 },
    }
}

/// A listening peer: a client for its own outbound calls, plus the
/// dispatch logic below. The transport endpoint lives outside the
/// library.
pub struct IpiisServer {
    pub client: IpiisClient,
}

impl IpiisServer {
    /// The server's routing table.
    pub open spec fn table(&self) -> Map<Seq<u8>, Seq<u8>> {
        self.client.table()
    }

    /// The server's own identity.
    pub open spec fn me(&self) -> Seq<u8> {
        self.client.me()
    }

    /// The owning account.
    pub open spec fn account_model(&self) -> Account {
        self.client.account_model()
    }

    pub open spec fn wf(&self) -> bool {
        self.client.wf()
    }

    /// Opens a server over a fresh book, seeding the designated primary
    /// and its address when known.
    pub fn new(
        account_me: Account,
        account_primary: Option<AccountId>,
        primary_address: Option<Address>,
    ) -> (r: Result<IpiisServer, IpiisError>)
        requires
            account_me.wf(),
        ensures
            match r {
                Ok(s) => {
                    &&& s.wf()
                    &&& s.me() == account_me.pk()
                    &&& s.account_model() == account_me
                    &&& s.table() == (match account_primary {
                        None => Map::<Seq<u8>, Seq<u8>>::empty(),
                        Some(p) => {
                            let seeded = Map::<Seq<u8>, Seq<u8>>::empty().insert(
                                key_of(None, None),
                                p@,
                            );
                            match primary_address {
                                None => seeded,
                                Some(a) => seeded.insert(key_of(None, Some(p@)), addr_bytes(a)),
                            }
                        },
                    })
                },
                Err(e) => e matches IpiisError::Storage,
            },
    {
        match IpiisClient::new(
            account_me,
            account_primary,
            primary_address,
            "ipiis_server_address_db",
        ) {
            Ok(client) => Ok(IpiisServer { client }),
            Err(e) => Err(e),
        }
    }

    /// The public identity of this server's account.
    pub fn account_ref(&self) -> (r: AccountId)
        requires
            self.wf(),
        ensures
            r@ == self.me(),
            r.wf(),
    {
        self.client.account_ref()
    }

    /// Builds the signed error reply for a failed stream: an error frame
    /// whose envelope asserts the error's text from this peer to the
    /// caller.
    pub fn make_error_reply(&self, caller: &AccountId, e: &IpiisError) -> (r: Vec<u8>)
        requires
            self.wf(),
            caller.wf(),
        ensures
            well_formed_reply(r@, self.me()),
            is_error_reply(r@, self.me(), error_text(*e)),
            handler_error(*e) ==> is_handler_error_reply(r@, self.me()),
            exists|g: GuarantorModel|
                {
                    &&& r@ == #[trigger] err_frame_bytes(g)
                    &&& g.inner.payload == error_text(*e)
                    &&& g.inner.guarantee == self.me()
                    &&& g.inner.target == caller@
                    &&& g.inner.expiration is None
                    &&& g.guarantor == self.me()
                    &&& wf_guarantor(g)
                    &&& crate::envelope::valid_guarantee(g.inner)
                    &&& valid_guarantor(g)
                },
    {
        let msg = e.message_bytes();
        let n: usize = msg.len();
        proof {
            assert(n <= usize::MAX);
            assert(msg@.len() <= u64::MAX);
        }
        let env = GuaranteeEnvelope::build_at(
            self.client.account_me(),
            caller,
            msg,
            now_millis(),
            None,
            crate::account::random_nonce(),
        );
        let genv = GuarantorEnvelope::countersign(self.client.account_me(), env);
        let out = crate::io::encode_err_frame(&genv);
        proof {
            assert(out@ == err_frame_bytes(genv@));
        }
        out
    }

    /// Serves `GetAccountPrimary`: the primary for the kind, read locally
    /// or fetched through the root primary, together with its locally
    /// known address.
    pub fn handle_get_account_primary(&self, kind: &Option<Kind>) -> (r: Result<
        HandlerOutcome,
        IpiisError,
    >)
        requires
            self.wf(),
            crate::io::wf_opt_kind(*kind),
        ensures
            ({
                let kv = crate::io::opt_kind_view(*kind);
                let pkey = key_of(kv, None);
                match r {
                    Ok(HandlerOutcome::Done(Response::GetAccountPrimary { account, address })) => {
                        &&& self.table().contains_key(pkey)
                        &&& self.table()[pkey] == account@
                        &&& account.wf()
                        &&& match address {
                            Some(a) => self.table().contains_key(key_of(kv, Some(account@)))
                                && self.table()[key_of(kv, Some(account@))] == addr_bytes(a),
                            None => !self.table().contains_key(key_of(kv, Some(account@)))
                                && account@ != self.me(),
                        }
                    },
                    Ok(HandlerOutcome::Done(_)) => false,
                    Ok(HandlerOutcome::Remote { target, request }) => {
                        &&& !self.table().contains_key(pkey)
                        &&& kind is Some
                        &&& self.table().contains_key(key_of(None, None))
                        &&& target@ == self.table()[key_of(None, None)]
                        &&& target.wf()
                        &&& wf_request(request)
                        &&& request matches Request::GetAccountPrimary { kind: k }
                            && crate::io::opt_kind_view(k) == kv
                    },
                    Err(IpiisError::Resolution) => !self.table().contains_key(pkey) && (
                    kind is None || !self.table().contains_key(key_of(None, None))),
                    Err(IpiisError::SelfAddress) => true,
                    Err(IpiisError::Parse) => true,
                    Err(IpiisError::Storage) => true,
                    Err(_) => false,
                }
            }),
    {
        let kref: Option<&Kind> = match kind {
            Some(k) => Some(k),
            None => None,
        };
        match self.client.get_account_primary(kref) {
            Resolution::Found(account) => {
                match self.client.lookup_address(kref, &account) {
                    Ok(address) => Ok(
                        HandlerOutcome::Done(Response::GetAccountPrimary { account, address }),
                    ),
                    Err(e) => Err(e),
                }
            },
            Resolution::Ask { target, request } => Ok(HandlerOutcome::Remote { target, request }),
            Resolution::Failed(e) => Err(e),
        }
    }

    /// Serves `GetAddress`: the target's address, read locally or fetched
    /// through the root primary.
    pub fn handle_get_address(&self, kind: &Option<Kind>, account: &AccountId) -> (r: Result<
        HandlerOutcome,
        IpiisError,
    >)
        requires
            self.wf(),
            crate::io::wf_opt_kind(*kind),
            account.wf(),
        ensures
            ({
                let kv = crate::io::opt_kind_view(*kind);
                let akey = key_of(kv, Some(account@));
                match r {
                    Ok(HandlerOutcome::Done(Response::GetAddress { address })) => {
                        &&& self.table().contains_key(akey)
                        &&& self.table()[akey] == addr_bytes(address)
                    },
                    Ok(HandlerOutcome::Done(_)) => false,
                    Ok(HandlerOutcome::Remote { target, request }) => {
                        &&& !self.table().contains_key(akey)
                        &&& account@ != self.me()
                        &&& self.table().contains_key(key_of(None, None))
                        &&& target@ == self.table()[key_of(None, None)]
                        &&& target.wf()
                        &&& wf_request(request)
                        &&& request matches Request::GetAddress { kind: k, account: a }
                            && crate::io::opt_kind_view(k) == kv && a@ == account@
                    },
                    Err(IpiisError::SelfAddress) => account@ == self.me(),
                    Err(IpiisError::NoRoute(t)) => !self.table().contains_key(akey) && account@
                        != self.me() && !self.table().contains_key(key_of(None, None)) && t@
                        == account@,
                    Err(IpiisError::Parse) => true,
                    Err(IpiisError::Storage) => true,
                    Err(_) => false,
                }
            }),
    {
        let kref: Option<&Kind> = match kind {
            Some(k) => Some(k),
            None => None,
        };
        match self.client.get_address(kref, account) {
            Resolution::Found(address) => Ok(HandlerOutcome::Done(Response::GetAddress { address })),
            Resolution::Ask { target, request } => Ok(HandlerOutcome::Remote { target, request }),
            Resolution::Failed(e) => Err(e),
        }
    }

    /// Serves `SetAccountPrimary`. Only a self-signed envelope — the
    /// caller claiming to be this very peer — may change the server's
    /// primary designation; any other caller is refused.
    pub fn handle_set_account_primary(
        &mut self,
        env: &GuaranteeEnvelope,
        kind: &Option<Kind>,
        account: &AccountId,
    ) -> (r: Result<Response, IpiisError>)
        requires
            old(self).wf(),
            crate::io::wf_opt_kind(*kind),
            account.wf(),
        ensures
            final(self).wf(),
            final(self).me() == old(self).me(),
            env@.guarantee != env@.target ==> r == Err::<Response, IpiisError>(
                IpiisError::Authorization,
            ) && final(self).table() == old(self).table(),
            match r {
                Ok(resp) => {
                    &&& env@.guarantee == env@.target
                    &&& resp == Response::SetAccountPrimary
                    &&& final(self).table() == old(self).table().insert(
                        key_of(crate::io::opt_kind_view(*kind), None),
                        account@,
                    )
                },
                Err(IpiisError::Authorization) => env@.guarantee != env@.target && final(self).table() == old(self).table(),
                Err(IpiisError::Storage) => true,
                Err(IpiisError::Parse) => true,
                Err(_) => false,
            },
    {
        match env.ensure_self_signed() {
            Ok(()) => {},
            Err(e) => {
                return Err(e);
            },
        }
        let kref: Option<&Kind> = match kind {
            Some(k) => Some(k),
            None => None,
        };
        match self.client.set_account_primary(kref, account) {
            Ok(_) => Ok(Response::SetAccountPrimary),
            Err(e) => Err(e),
        }
    }

    /// Serves `DeleteAccountPrimary`; self-signed callers only.
    pub fn handle_delete_account_primary(
        &mut self,
        env: &GuaranteeEnvelope,
        kind: &Option<Kind>,
    ) -> (r: Result<Response, IpiisError>)
        requires
            old(self).wf(),
            crate::io::wf_opt_kind(*kind),
        ensures
            final(self).wf(),
            final(self).me() == old(self).me(),
            env@.guarantee != env@.target ==> r == Err::<Response, IpiisError>(
                IpiisError::Authorization,
            ) && final(self).table() == old(self).table(),
            match r {
                Ok(resp) => {
                    &&& env@.guarantee == env@.target
                    &&& resp == Response::DeleteAccountPrimary
                    &&& final(self).table() == old(self).table().remove(
                        key_of(crate::io::opt_kind_view(*kind), None),
                    )
                },
                Err(IpiisError::Authorization) => env@.guarantee != env@.target && final(self).table() == old(self).table(),
                Err(IpiisError::Storage) => true,
                Err(IpiisError::Parse) => true,
                Err(_) => false,
            },
    {
        match env.ensure_self_signed() {
            Ok(()) => {},
            Err(e) => {
                return Err(e);
            },
        }
        let kref: Option<&Kind> = match kind {
            Some(k) => Some(k),
            None => None,
        };
        match self.client.delete_account_primary(kref) {
            Ok(_) => Ok(Response::DeleteAccountPrimary),
            Err(e) => Err(e),
        }
    }

    /// Serves `SetAddress`; self-signed callers only.
    pub fn handle_set_address(
        &mut self,
        env: &GuaranteeEnvelope,
        kind: &Option<Kind>,
        account: &AccountId,
        address: &Address,
    ) -> (r: Result<Response, IpiisError>)
        requires
            old(self).wf(),
            crate::io::wf_opt_kind(*kind),
            account.wf(),
        ensures
            final(self).wf(),
            final(self).me() == old(self).me(),
            env@.guarantee != env@.target ==> r == Err::<Response, IpiisError>(
                IpiisError::Authorization,
            ) && final(self).table() == old(self).table(),
            match r {
                Ok(resp) => {
                    &&& env@.guarantee == env@.target
                    &&& resp == Response::SetAddress
                    &&& final(self).table() == old(self).table().insert(
                        key_of(crate::io::opt_kind_view(*kind), Some(account@)),
                        addr_bytes(*address),
                    )
                },
                Err(IpiisError::Authorization) => env@.guarantee != env@.target && final(self).table() == old(self).table(),
                Err(IpiisError::Storage) => true,
                Err(IpiisError::Parse) => true,
                Err(_) => false,
            },
    {
        match env.ensure_self_signed() {
            Ok(()) => {},
            Err(e) => {
                return Err(e);
            },
        }
        let kref: Option<&Kind> = match kind {
            Some(k) => Some(k),
            None => None,
        };
        match self.client.set_address(kref, account, address) {
            Ok(_) => Ok(Response::SetAddress),
            Err(e) => Err(e),
        }
    }

    /// Serves `DeleteAddress`; self-signed callers only.
    pub fn handle_delete_address(
        &mut self,
        env: &GuaranteeEnvelope,
        kind: &Option<Kind>,
        account: &AccountId,
    ) -> (r: Result<Response, IpiisError>)
        requires
            old(self).wf(),
            crate::io::wf_opt_kind(*kind),
            account.wf(),
        ensures
            final(self).wf(),
            final(self).me() == old(self).me(),
            env@.guarantee != env@.target ==> r == Err::<Response, IpiisError>(
                IpiisError::Authorization,
            ) && final(self).table() == old(self).table(),
            match r {
                Ok(resp) => {
                    &&& env@.guarantee == env@.target
                    &&& resp == Response::DeleteAddress
                    &&& final(self).table() == old(self).table().remove(
                        key_of(crate::io::opt_kind_view(*kind), Some(account@)),
                    )
                },
                Err(IpiisError::Authorization) => env@.guarantee != env@.target && final(self).table() == old(self).table(),
                Err(IpiisError::Storage) => true,
                Err(IpiisError::Parse) => true,
                Err(_) => false,
            },
    {
        match env.ensure_self_signed() {
            Ok(()) => {},
            Err(e) => {
                return Err(e);
            },
        }
        let kref: Option<&Kind> = match kind {
            Some(k) => Some(k),
            None => None,
        };
        match self.client.delete_address(kref, account) {
            Ok(_) => Ok(Response::DeleteAddress),
            Err(e) => Err(e),
        }
    }

    /// Handles one whole stream: decodes the frame, verifies the
    /// guarantee envelope against this peer at `now`, dispatches to the
    /// operation's handler, and answers with a countersigned reply, a
    /// signed error string, or an outbound request to finish later.
    #[verifier::rlimit(100)]
    #[verifier::spinoff_prover]
    pub fn handle_request_bytes(&mut self, bytes: &Vec<u8>, now: u64) -> (r: ServerStep)
        requires
            old(self).wf(),
        ensures
            final(self).wf(),
            final(self).me() == old(self).me(),
            match r {
                ServerStep::Reply(b) => well_formed_reply(b@, old(self).me()),
                ServerStep::Forward { target, request, pending } => {
                    &&& target.wf()
                    &&& wf_request(request)
                    &&& wf_pending(pending)
                },
            },
            (forall|op2: OpCode, m: crate::envelope::EnvModel|
                wf_model(m) ==> bytes@ != crate::io::request_frame_bytes(op2, m)) ==> {
                &&& final(self).table() == old(self).table()
                &&& r matches ServerStep::Reply(b) && is_error_reply(
                    b@,
                    old(self).me(),
                    error_text(IpiisError::Protocol),
                )
            },
            forall|op2: OpCode, m: crate::envelope::EnvModel|
                bytes@ == crate::io::request_frame_bytes(op2, m) && wf_model(m) ==> match crate::envelope::verify_verdict(
                    m,
                    Some(old(self).me()),
                    now,
                ) {
                    Err(e) => {
                        &&& final(self).table() == old(self).table()
                        &&& r matches ServerStep::Reply(b) && is_error_reply(
                            b@,
                            old(self).me(),
                            error_text(e),
                        )
                    },
                    Ok(()) => {
                        &&& (match r {
                            ServerStep::Reply(b) => is_ok_reply_for(b@, m, op2, old(self).me())
                                || is_handler_error_reply(b@, old(self).me()),
                            ServerStep::Forward { pending, .. } => pending.env@ == m
                                && crate::io::request_bytes(pending.request) == m.payload
                                && crate::io::request_opcode(pending.request) == op2,
                        })
                        &&& ((forall|q: Request|
                            crate::io::request_opcode(q) == op2 && wf_request(q)
                                ==> crate::io::request_bytes(q) != m.payload) ==> {
                            &&& final(self).table() == old(self).table()
                            &&& r matches ServerStep::Reply(b) && is_error_reply(
                                b@,
                                old(self).me(),
                                error_text(IpiisError::Parse),
                            )
                        })
                        &&& (forall|q: Request|
                            crate::io::request_opcode(q) == op2 && wf_request(q)
                                && crate::io::request_bytes(q) == m.payload && is_admin_request(q)
                                && m.guarantee != m.target ==> final(self).table() == old(
                                self,
                            ).table() && (r matches ServerStep::Reply(b) && is_error_reply(
                                b@,
                                old(self).me(),
                                error_text(IpiisError::Authorization),
                            )))
                    },
                },
    {
        let me = self.client.account_ref();
        let (op, env) = match crate::io::decode_request_frame(bytes) {
            Ok(r) => r,
            Err(e) => {
                return ServerStep::Reply(self.make_error_reply(&me, &e));
            },
        };
        proof {
            assert forall|op2: OpCode, m: crate::envelope::EnvModel|
                bytes@ == crate::io::request_frame_bytes(op2, m) && wf_model(m) implies op2 == op
                && m == env@ by {
                crate::io::lemma_request_frame_injective(op2, m, op, env@);
            }
        }
        match env.verify_at(Some(&me), now) {
            Ok(()) => {},
            Err(e) => {
                return ServerStep::Reply(self.make_error_reply(&env.guarantee, &e));
            },
        }
        let req = match crate::io::decode_request_payload(op, &env.payload) {
            Ok(req) => req,
            Err(e) => {
                return ServerStep::Reply(self.make_error_reply(&env.guarantee, &e));
            },
        };
        proof {
            assert forall|q: Request|
                crate::io::request_opcode(q) == op && wf_request(q) && crate::io::request_bytes(q)
                    == env@.payload implies crate::io::request_matches(q, req) by {
                crate::io::lemma_request_bytes_injective(q, req);
            }
        }
        self.dispatch(op, env, req)
    }

    /// Runs the operation's handler on a decoded, verified request and
    /// frames what it decided: the countersigned response, a signed error,
    /// or the outbound request the handler needs answered first.
    #[verifier::rlimit(100)]
    #[verifier::spinoff_prover]
    fn dispatch(&mut self, op: OpCode, env: GuaranteeEnvelope, req: Request) -> (r: ServerStep)
        requires
            old(self).wf(),
            wf_model(env@),
            wf_request(req),
            crate::io::request_opcode(req) == op,
            crate::io::request_bytes(req) == env@.payload,
        ensures
            final(self).wf(),
            final(self).me() == old(self).me(),
            match r {
                ServerStep::Reply(b) => {
                    &&& well_formed_reply(b@, old(self).me())
                    &&& is_ok_reply_for(b@, env@, op, old(self).me()) || is_handler_error_reply(
                        b@,
                        old(self).me(),
                    )
                },
                ServerStep::Forward { target, request, pending } => {
                    &&& target.wf()
                    &&& wf_request(request)
                    &&& wf_pending(pending)
                    &&& pending.env@ == env@
                    &&& crate::io::request_bytes(pending.request) == env@.payload
                    &&& crate::io::request_opcode(pending.request) == op
                },
            },
            is_admin_request(req) && env@.guarantee != env@.target ==> final(self).table() == old(
                self,
            ).table() && (r matches ServerStep::Reply(b) && is_error_reply(
                b@,
                old(self).me(),
                error_text(IpiisError::Authorization),
            )),
    {
        match &req {
            Request::GetAccountPrimary { .. } | Request::GetAddress { .. } => self.dispatch_lookup(
                op,
                env,
                req,
            ),
            _ => self.dispatch_admin(op, env, req),
        }
    }

    /// The two lookup operations: local answer, or a forward through the
    /// root primary.
    #[verifier::rlimit(100)]
    #[verifier::spinoff_prover]
    fn dispatch_lookup(&mut self, op: OpCode, env: GuaranteeEnvelope, req: Request) -> (r:
        ServerStep)
        requires
            old(self).wf(),
            wf_model(env@),
            wf_request(req),
            crate::io::request_opcode(req) == op,
            crate::io::request_bytes(req) == env@.payload,
            req matches Request::GetAccountPrimary { .. } || req matches Request::GetAddress {
                ..
            },
        ensures
            final(self).wf(),
            final(self).me() == old(self).me(),
            match r {
                ServerStep::Reply(b) => {
                    &&& well_formed_reply(b@, old(self).me())
                    &&& is_ok_reply_for(b@, env@, op, old(self).me()) || is_handler_error_reply(
                        b@,
                        old(self).me(),
                    )
                },
                ServerStep::Forward { target, request, pending } => {
                    &&& target.wf()
                    &&& wf_request(request)
                    &&& wf_pending(pending)
                    &&& pending.env@ == env@
                    &&& crate::io::request_bytes(pending.request) == env@.payload
                    &&& crate::io::request_opcode(pending.request) == op
                },
            },
    {
        let outcome: Result<HandlerOutcome, IpiisError> = match &req {
            Request::GetAccountPrimary { kind } => self.handle_get_account_primary(kind),
            Request::GetAddress { kind, account } => self.handle_get_address(kind, account),
            _ => {
                proof {
                    assert(false);
                }
                unreached()
            },
        };
        match outcome {
            Ok(HandlerOutcome::Done(resp)) => ServerStep::Reply(self.make_ok_reply(env, &resp)),
            Ok(HandlerOutcome::Remote { target, request }) => ServerStep::Forward {
                target,
                request,
                pending: Pending { env, request: req },
            },
            Err(e) => ServerStep::Reply(self.make_error_reply(&env.guarantee, &e)),
        }
    }

    /// The four administrative writes: self-signed callers only.
    #[verifier::rlimit(100)]
    #[verifier::spinoff_prover]
    fn dispatch_admin(&mut self, op: OpCode, env: GuaranteeEnvelope, req: Request) -> (r:
        ServerStep)
        requires
            old(self).wf(),
            wf_model(env@),
            wf_request(req),
            crate::io::request_opcode(req) == op,
            crate::io::request_bytes(req) == env@.payload,
            is_admin_request(req),
        ensures
            final(self).wf(),
            final(self).me() == old(self).me(),
            match r {
                ServerStep::Reply(b) => {
                    &&& well_formed_reply(b@, old(self).me())
                    &&& is_ok_reply_for(b@, env@, op, old(self).me()) || is_handler_error_reply(
                        b@,
                        old(self).me(),
                    )
                },
                ServerStep::Forward { .. } => false,
            },
            env@.guarantee != env@.target ==> final(self).table() == old(self).table() && (
            r matches ServerStep::Reply(b) && is_error_reply(
                b@,
                old(self).me(),
                error_text(IpiisError::Authorization),
            )),
    {
        let outcome: Result<Response, IpiisError> = match &req {
            Request::SetAccountPrimary { kind, account } => self.handle_set_account_primary(
                &env,
                kind,
                account,
            ),
            Request::DeleteAccountPrimary { kind } => self.handle_delete_account_primary(
                &env,
                kind,
            ),
            Request::SetAddress { kind, account, address } => self.handle_set_address(
                &env,
                kind,
                account,
                address,
            ),
            Request::DeleteAddress { kind, account } => self.handle_delete_address(
                &env,
                kind,
                account,
            ),
            _ => {
                proof {
                    assert(false);
                }
                unreached()
            },
        };
        match outcome {
            Ok(resp) => ServerStep::Reply(self.make_ok_reply(env, &resp)),
            Err(e) => ServerStep::Reply(self.make_error_reply(&env.guarantee, &e)),
        }
    }

    /// Countersigns the request envelope and frames the typed response.
    #[verifier::rlimit(100)]
    #[verifier::spinoff_prover]
    pub fn make_ok_reply(&self, env: GuaranteeEnvelope, resp: &Response) -> (r: Vec<u8>)
        requires
            self.wf(),
            wf_model(env@),
            wf_response(*resp),
        ensures
            well_formed_reply(r@, self.me()),
            exists|g: GuarantorModel|
                {
                    &&& r@ == #[trigger] ok_frame_bytes(g, response_bytes(*resp))
                    &&& g.inner == env@
                    &&& g.guarantor == self.me()
                    &&& wf_guarantor(g)
                    &&& valid_guarantor(g)
                },
            is_ok_reply_for(r@, env@, response_opcode(*resp), self.me()),
    {
        let genv = self.client.sign_as_guarantor(env);
        let out = crate::io::encode_ok_frame(&genv, resp);
        proof {
            assert(out@ == ok_frame_bytes(genv@, response_bytes(*resp)));
        }
        out
    }

    /// Finishes a suspended stream once the upstream reply arrived and
    /// was verified: caches what was learned, and frames the reply to the
    /// original caller.
    pub fn resume_with_response(&mut self, pending: Pending, remote: &Response, now: u64) -> (r:
        Vec<u8>)
        requires
            old(self).wf(),
            wf_pending(pending),
            wf_response(*remote),
        ensures
            final(self).wf(),
            final(self).me() == old(self).me(),
            well_formed_reply(r@, old(self).me()),
            (pending.request matches Request::GetAddress { kind, account } && *remote
                matches Response::GetAddress { address }) ==> ({
                ||| {
                    &&& final(self).table() == old(self).table().insert(
                        key_of(crate::io::opt_kind_view(request_kind_of(pending.request)), Some(request_account_view(pending.request))),
                        addr_bytes(response_address_of(*remote)),
                    )
                    &&& is_ok_reply_for(r@, pending.env@, OpCode::GetAddress, old(self).me())
                }
                ||| is_error_reply(r@, old(self).me(), error_text(IpiisError::Storage))
            }),
            (pending.request matches Request::GetAccountPrimary { kind: Some(_) } && *remote
                matches Response::GetAccountPrimary { .. }) ==> (is_ok_reply_for(
                r@,
                pending.env@,
                OpCode::GetAccountPrimary,
                old(self).me(),
            ) || is_error_reply(r@, old(self).me(), error_text(IpiisError::Storage))),
            !resume_matches(pending.request, *remote) ==> final(self).table() == old(
                self,
            ).table() && is_error_reply(r@, old(self).me(), error_text(IpiisError::Protocol)),
    {
        match (&pending.request, remote) {
            (
                Request::GetAccountPrimary { kind: Some(k) },
                Response::GetAccountPrimary { account, address },
            ) => {
                match self.client.accept_account_primary(k, account, address) {
                    Ok(()) => {},
                    Err(e) => {
                        return self.make_error_reply(&pending.env.guarantee, &e);
                    },
                }
                let resp = Response::GetAccountPrimary {
                    account: account.duplicate(),
                    address: *address,
                };
                self.make_ok_reply(pending.env, &resp)
            },
            (Request::GetAddress { kind, account }, Response::GetAddress { address }) => {
                let kref: Option<&Kind> = match kind {
                    Some(k) => Some(k),
                    None => None,
                };
                match self.client.accept_address(kref, account, address) {
                    Ok(()) => {},
                    Err(e) => {
                        return self.make_error_reply(&pending.env.guarantee, &e);
                    },
                }
                self.make_ok_reply(pending.env, &Response::GetAddress { address: *address })
            },
            _ => self.make_error_reply(&pending.env.guarantee, &IpiisError::Protocol),
        }
    }

    /// Finishes a suspended stream whose upstream call failed: the
    /// original caller gets the error, signed by this peer.
    pub fn resume_with_failure(&mut self, pending: Pending, e: &IpiisError) -> (r: Vec<u8>)
        requires
            old(self).wf(),
            wf_pending(pending),
        ensures
            final(self).wf(),
            final(self).me() == old(self).me(),
            well_formed_reply(r@, old(self).me()),
            exists|g: GuarantorModel|
                {
                    &&& r@ == #[trigger] err_frame_bytes(g)
                    &&& g.inner.payload == error_text(*e)
                },
    {
        self.make_error_reply(&pending.env.guarantee, e)
    }
}

} // verus!
