//! Registrars administer the clients of an authorization server.
//!
//! A registrar knows each client's redirect URIs, the scope it is allowed
//! and how it proves its identity. When a request comes in, the registrar
//! settles where the client is sent back to and which scope it gets.

use vstd::prelude::*;
use crate::client::{slice_view, Client, ClientView, EncodedClient};
use crate::scope::Scope;
use crate::string_map::StringMap;
use crate::text::lemma_push_contains;
use crate::uri::RedirectUri;

verus! {

/// Why a registrar turns a request down.
#[derive(Clone, Copy, Debug, PartialEq, Eq, Structural)]
pub enum RegistrarError {
    /// No client has the given id.
    NotFound,
    /// The client did not prove its identity.
    Unauthorized,
    /// A scope was requested and nothing of it is allowed to the client.
    ScopeMismatch,
    /// The client's redirect URI cannot be told: none was given and the
    /// client does not have exactly one, or the client would be left with
    /// none.
    AmbiguousRedirect,
    /// The given redirect URI is not one of the client's.
    MismatchedRedirect,
}

impl RegistrarError {
    /// Whether the error is about the redirect URI.
    pub open spec fn about_redirect(self) -> bool {
        self == RegistrarError::AmbiguousRedirect || self == RegistrarError::MismatchedRedirect
    }
}

/// A client id with the redirect URI that a request names, if it names one.
#[derive(Debug, PartialEq, Eq)]
pub struct ClientUrl {
    pub client_id: String,
    pub redirect_uri: Option<RedirectUri>,
}

/// A client with the redirect URI that was chosen for a request. The URI is
/// one of the client's registered ones.
#[derive(Debug, PartialEq, Eq)]
pub struct BoundClient {
    pub client_id: String,
    pub redirect_uri: RedirectUri,
}

/// What is put before the resource owner: a client, its redirect URI and the
/// scope that was negotiated. It becomes a grant once the owner approves.
#[derive(Debug, PartialEq, Eq)]
pub struct PreGrant {
    pub client_id: String,
    pub redirect_uri: RedirectUri,
    pub scope: Scope,
}

/// The view of a redirect URI that may be absent.
pub open spec fn uri_view(uri: Option<RedirectUri>) -> Option<Seq<char>> {
    match uri {
        Some(u) => Some(u@),
        None => None,
    }
}

/// The view of a scope that may be absent.
pub open spec fn scope_view(scope: Option<Scope>) -> Option<Set<Seq<char>>> {
    match scope {
        Some(s) => Some(s@),
        None => None,
    }
}

/// The ids of a list of records, in the same order.
pub open spec fn record_ids(records: Seq<EncodedClient>) -> Seq<Seq<char>> {
    Seq::new(records.len(), |i: int| records[i]@.client_id)
}

/// The mathematical model of a registrar.
#[verifier::ext_equal]
pub struct RegistrarState {
    /// The registered clients, by their ids.
    pub clients: Map<Seq<char>, ClientView>,
}

impl RegistrarState {
    /// Every client is stored under its own id, has a redirect URI and has
    /// none twice.
    pub open spec fn wf(self) -> bool {
        forall|id: Seq<char>| #[trigger]
            self.clients.contains_key(id) ==> self.clients[id].client_id == id
                && self.clients[id].redirectable()
    }

    /// The redirect URI to which a request of the client `client_id` is
    /// bound. A URI that the request names must be registered; where it
    /// names none, the client must have exactly one.
    pub open spec fn bound_redirect(self, client_id: Seq<char>, requested: Option<Seq<char>>)
        -> Result<Seq<char>, RegistrarError> {
        if !self.clients.contains_key(client_id) {
            Err(RegistrarError::NotFound)
        } else {
            let uris = self.clients[client_id].redirect_uris;
            match requested {
                Some(uri) => if uris.contains(uri) {
                    Ok(uri)
                } else {
                    Err(RegistrarError::MismatchedRedirect)
                },
                None => if uris.len() == 1 {
                    Ok(uris[0])
                } else {
                    Err(RegistrarError::AmbiguousRedirect)
                },
            }
        }
    }

    /// The scope that a bound client gets. A client that asks for none gets
    /// all that it is allowed. One that asks for a scope gets what of it is
    /// allowed: all of it where all of it is allowed, the empty scope where
    /// it asks for the empty scope. It is turned down only where it asks for
    /// something and nothing of that is allowed.
    pub open spec fn negotiate(
        self,
        client_id: Seq<char>,
        redirect_uri: Seq<char>,
        requested: Option<Set<Seq<char>>>,
    ) -> Result<Set<Seq<char>>, RegistrarError> {
        if !self.clients.contains_key(client_id) {
            Err(RegistrarError::NotFound)
        } else if !self.clients[client_id].redirect_uris.contains(redirect_uri) {
            Err(RegistrarError::MismatchedRedirect)
        } else {
            let allowed = self.clients[client_id].default_scope;
            match requested {
                None => Ok(allowed),
                Some(asked) => if asked != Set::<Seq<char>>::empty() && asked.intersect(allowed)
                    == Set::<Seq<char>>::empty() {
                    Err(RegistrarError::ScopeMismatch)
                } else {
                    Ok(asked.intersect(allowed))
                },
            }
        }
    }

    /// Whether the client `client_id` proves its identity with `passphrase`.
    pub open spec fn check(self, client_id: Seq<char>, passphrase: Option<Seq<u8>>) -> Result<
        (),
        RegistrarError,
    > {
        if !self.clients.contains_key(client_id) {
            Err(RegistrarError::NotFound)
        } else if self.clients[client_id].authenticates(passphrase) {
            Ok(())
        } else {
            Err(RegistrarError::Unauthorized)
        }
    }

    /// The state after `record` was stored, in place of any record of the
    /// same id.
    pub open spec fn register(self, record: ClientView) -> Self {
        RegistrarState { clients: self.clients.insert(record.client_id, record) }
    }

    /// The state after `uri` was added to the redirect URIs of `client_id`.
    pub open spec fn add_uri(self, client_id: Seq<char>, uri: Seq<char>) -> Result<
        Self,
        RegistrarError,
    > {
        if !self.clients.contains_key(client_id) {
            Err(RegistrarError::NotFound)
        } else {
            Ok(
                RegistrarState {
                    clients: self.clients.insert(client_id, self.clients[client_id].with_uri(uri)),
                },
            )
        }
    }

    /// The state after `uri` was taken from the redirect URIs of
    /// `client_id`. The last redirect URI of a client cannot be taken.
    pub open spec fn del_uri(self, client_id: Seq<char>, uri: Seq<char>) -> Result<
        Self,
        RegistrarError,
    > {
        if !self.clients.contains_key(client_id) {
            Err(RegistrarError::NotFound)
        } else if !self.clients[client_id].redirect_uris.contains(uri) {
            Err(RegistrarError::MismatchedRedirect)
        } else if self.clients[client_id].redirect_uris.len() <= 1 {
            Err(RegistrarError::AmbiguousRedirect)
        } else {
            Ok(
                RegistrarState {
                    clients: self.clients.insert(
                        client_id,
                        self.clients[client_id].without_uri(uri),
                    ),
                },
            )
        }
    }

    /// The state after the client `client_id` was removed.
    pub open spec fn del_client(self, client_id: Seq<char>) -> Result<Self, RegistrarError> {
        if !self.clients.contains_key(client_id) {
            Err(RegistrarError::NotFound)
        } else {
            Ok(RegistrarState { clients: self.clients.remove(client_id) })
        }
    }

    /// The ids of the clients that have every extension that `query` asks
    /// for.
    pub open spec fn answering(self, query: Map<Seq<char>, Seq<char>>) -> Set<Seq<char>> {
        Set::new(|id: Seq<char>| self.clients.contains_key(id) && self.clients[id].answers(query))
    }
}

/// Registrars validate clients, their redirect URIs and the scope they ask
/// for.
///
/// A request that is turned down changes nothing.
pub trait Registrar {
    /// The model of the store.
    spec fn view(&self) -> RegistrarState;

    /// Settles the redirect URI of a request.
    fn bound_redirect(&self, bound: ClientUrl) -> (chosen: Result<BoundClient, RegistrarError>)
        ensures
            self@.wf(),
            match chosen {
                Ok(b) => b.client_id@ == bound.client_id@ && self@.bound_redirect(
                    bound.client_id@,
                    uri_view(bound.redirect_uri),
                ) == Ok::<Seq<char>, RegistrarError>(b.redirect_uri@),
                Err(e) => self@.bound_redirect(bound.client_id@, uri_view(bound.redirect_uri))
                    == Err::<Seq<char>, RegistrarError>(e),
            },
    ;

    /// Settles the scope of a request: never more than the client is
    /// allowed.
    fn negotiate(&self, client: BoundClient, scope: Option<Scope>) -> (agreed: Result<
        PreGrant,
        RegistrarError,
    >)
        ensures
            self@.wf(),
            match agreed {
                Ok(p) => p.client_id@ == client.client_id@ && p.redirect_uri@
                    == client.redirect_uri@ && self@.negotiate(
                    client.client_id@,
                    client.redirect_uri@,
                    scope_view(scope),
                ) == Ok::<Set<Seq<char>>, RegistrarError>(p.scope@),
                Err(e) => self@.negotiate(
                    client.client_id@,
                    client.redirect_uri@,
                    scope_view(scope),
                ) == Err::<Set<Seq<char>>, RegistrarError>(e),
            },
    ;

    /// Tests whether a client proves its identity.
    fn check(&self, client_id: &str, passphrase: Option<&[u8]>) -> (proved: Result<
        (),
        RegistrarError,
    >)
        ensures
            self@.wf(),
            proved == self@.check(client_id@, slice_view(passphrase)),
    ;

    /// Stores a client, in place of any client of the same id. Only a
    /// client whose passphrase cannot be encoded is turned down.
    fn register(&mut self, client: Client) -> (stored: Result<(), RegistrarError>)
        ensures
            final(self)@.wf(),
            match stored {
                Ok(_) => {
                    &&& client@.encodable()
                    &&& final(self)@.clients.contains_key(client@.client_id)
                    &&& final(self)@.clients[client@.client_id].encodes(client@)
                    &&& final(self)@ == old(self)@.register(
                        final(self)@.clients[client@.client_id],
                    )
                },
                Err(e) => {
                    &&& e == RegistrarError::Unauthorized
                    &&& !client@.encodable()
                    &&& final(self)@ == old(self)@
                },
            },
    ;

    /// The record of a client, if there is one.
    fn query(&self, client_id: &str) -> (record: Option<EncodedClient>)
        ensures
            self@.wf(),
            match record {
                Some(r) => self@.clients.contains_key(client_id@) && r@
                    == self@.clients[client_id@],
                None => !self@.clients.contains_key(client_id@),
            },
    ;

    /// The records of the clients that have every extension that `query`
    /// asks for, each once, in no particular order.
    fn query_by_extensions(&self, query: StringMap<String>) -> (records: Vec<EncodedClient>)
        ensures
            self@.wf(),
            record_ids(records@).no_duplicates(),
            record_ids(records@).to_set() == self@.answering(query@),
            forall|i: int|
                0 <= i < records@.len() ==> (#[trigger] records@[i])@
                    == self@.clients[records@[i]@.client_id],
    ;

    /// Adds a redirect URI to a client's. Adding one that the client has
    /// changes nothing.
    fn add_uri(&mut self, client_id: &str, uri: RedirectUri) -> (added: Result<
        (),
        RegistrarError,
    >)
        ensures
            final(self)@.wf(),
            match old(self)@.add_uri(client_id@, uri@) {
                Ok(s) => added is Ok && final(self)@ == s,
                Err(e) => added == Err::<(), RegistrarError>(e) && final(self)@ == old(self)@,
            },
    ;

    /// Takes a redirect URI from a client's. The last one cannot be taken.
    fn del_uri(&mut self, client_id: &str, uri: RedirectUri) -> (deleted: Result<
        (),
        RegistrarError,
    >)
        ensures
            final(self)@.wf(),
            match old(self)@.del_uri(client_id@, uri@) {
                Ok(s) => deleted is Ok && final(self)@ == s,
                Err(e) => deleted == Err::<(), RegistrarError>(e) && final(self)@ == old(self)@,
            },
    ;

    /// Removes a client.
    fn del_client(&mut self, client_id: &str) -> (deleted: Result<(), RegistrarError>)
        ensures
            final(self)@.wf(),
            match old(self)@.del_client(client_id@) {
                Ok(s) => deleted is Ok && final(self)@ == s,
                Err(e) => deleted == Err::<(), RegistrarError>(e) && final(self)@ == old(self)@,
            },
    ;
}

/// A registrar that keeps its clients in memory.
#[derive(Debug)]
pub struct InMemoryRegistrar {
    clients: StringMap<EncodedClient>,
}

impl InMemoryRegistrar {
    #[verifier::type_invariant]
    spec fn in_order(self) -> bool {
        (RegistrarState { clients: self.clients@ }).wf()
    }

    /// A registrar without clients.
    pub fn new() -> (store: Self)
        ensures
            store@ == (RegistrarState { clients: Map::empty() }),
    {
        InMemoryRegistrar { clients: StringMap::new() }
    }

    /// The number of clients.
    pub fn len(&self) -> (n: usize)
        ensures
            n == self@.clients.dom().len(),
    {
        self.clients.len()
    }

    /// Stores a record, in place of any record of the same id.
    pub fn register_encoded(&mut self, record: EncodedClient)
        ensures
            final(self)@.wf(),
            final(self)@ == old(self)@.register(record@),
    {
        proof {
            use_type_invariant(&*self);
        }
        let key = record.client_id().to_owned();
        let _ = record.redirect_uris();
        self.put(key, record);
    }

    fn put(&mut self, key: String, record: EncodedClient)
        requires
            record@.client_id == key@,
            record@.redirectable(),
        ensures
            final(self)@.wf(),
            final(self)@.clients == old(self)@.clients.insert(key@, record@),
    {
        proof {
            use_type_invariant(&*self);
        }
        let mut clients: StringMap<EncodedClient> = StringMap::new();
        std::mem::swap(&mut clients, &mut self.clients);
        clients.insert(key, record);
        self.clients = clients;
    }
}

impl Registrar for InMemoryRegistrar {
    closed spec fn view(&self) -> RegistrarState {
        RegistrarState { clients: self.clients@ }
    }

    fn bound_redirect(&self, bound: ClientUrl) -> (chosen: Result<BoundClient, RegistrarError>) {
        proof {
            use_type_invariant(self);
        }
        let record = match self.clients.get(bound.client_id.as_str()) {
            Some(record) => record,
            None => {
                return Err(RegistrarError::NotFound);
            },
        };
        let uris = record.redirect_uris();
        match bound.redirect_uri {
            Some(uri) => {
                if record.has_redirect_uri(&uri) {
                    Ok(BoundClient { client_id: bound.client_id, redirect_uri: uri })
                } else {
                    Err(RegistrarError::MismatchedRedirect)
                }
            },
            None => {
                if uris.len() == 1 {
                    Ok(BoundClient { client_id: bound.client_id, redirect_uri: uris[0].clone() })
                } else {
                    Err(RegistrarError::AmbiguousRedirect)
                }
            },
        }
    }

    fn negotiate(&self, client: BoundClient, scope: Option<Scope>) -> (agreed: Result<
        PreGrant,
        RegistrarError,
    >) {
        proof {
            use_type_invariant(self);
        }
        let record = match self.clients.get(client.client_id.as_str()) {
            Some(record) => record,
            None => {
                return Err(RegistrarError::NotFound);
            },
        };
        if !record.has_redirect_uri(&client.redirect_uri) {
            return Err(RegistrarError::MismatchedRedirect);
        }
        let agreed = match scope {
            Some(asked) => {
                let common = asked.intersect(record.default_scope());
                if common.is_empty() && !asked.is_empty() {
                    return Err(RegistrarError::ScopeMismatch);
                }
                common
            },
            None => record.default_scope().clone(),
        };
        Ok(
            PreGrant {
                client_id: client.client_id,
                redirect_uri: client.redirect_uri,
                scope: agreed,
            },
        )
    }

    fn check(&self, client_id: &str, passphrase: Option<&[u8]>) -> (proved: Result<
        (),
        RegistrarError,
    >) {
        proof {
            use_type_invariant(self);
        }
        match self.clients.get(client_id) {
            Some(record) => {
                if record.authenticates(passphrase) {
                    Ok(())
                } else {
                    Err(RegistrarError::Unauthorized)
                }
            },
            None => Err(RegistrarError::NotFound),
        }
    }

    fn register(&mut self, client: Client) -> (stored: Result<(), RegistrarError>) {
        proof {
            use_type_invariant(&*self);
        }
        match client.encode() {
            Some(record) => {
                self.register_encoded(record);
                Ok(())
            },
            None => Err(RegistrarError::Unauthorized),
        }
    }

    fn query(&self, client_id: &str) -> (record: Option<EncodedClient>) {
        proof {
            use_type_invariant(self);
        }
        match self.clients.get(client_id) {
            Some(record) => Some(record.clone()),
            None => None,
        }
    }

    fn query_by_extensions(&self, query: StringMap<String>) -> (records: Vec<EncodedClient>) {
        proof {
            use_type_invariant(self);
        }
        let n = self.clients.len();
        let mut records: Vec<EncodedClient> = Vec::new();
        let mut i: usize = 0;
        while i < n
            invariant
                i <= n,
                n == self.clients.keys().len(),
                self@.wf(),
                self.clients.keys().no_duplicates(),
                self@.clients.dom() == self.clients.keys().to_set(),
                record_ids(records@).no_duplicates(),
                forall|j: int|
                    0 <= j < records@.len() ==> {
                        &&& self.clients.keys().take(i as int).contains(
                            #[trigger] record_ids(records@)[j],
                        )
                        &&& self@.clients[record_ids(records@)[j]] == records@[j]@
                        &&& records@[j]@.answers(query@)
                    },
                forall|p: int|
                    0 <= p < i && self@.clients[#[trigger] self.clients.keys()[p]].answers(query@)
                        ==> record_ids(records@).contains(self.clients.keys()[p]),
            decreases n - i,
        {
            let ghost keys = self.clients.keys();
            let ghost seen = keys.take(i as int);
            let ghost ids = record_ids(records@);
            let record = self.clients.value_at(i);
            let picked = record.answers(&query);
            if picked {
                proof {
                    assert(self@.clients.contains_key(keys[i as int]));
                    if ids.contains(keys[i as int]) {
                        let j = ids.index_of(keys[i as int]);
                        assert(seen.contains(ids[j]));
                        let p = seen.index_of(ids[j]);
                        assert(keys[p] == keys[i as int]);
                    }
                }
                records.push(record.clone());
                assert(record_ids(records@) =~= ids.push(keys[i as int]));
            }
            proof {
                let next = keys.take(i + 1);
                assert(next =~= seen.push(keys[i as int]));
                let now_ids = record_ids(records@);
                assert forall|j: int| 0 <= j < records@.len() implies {
                    &&& next.contains(#[trigger] now_ids[j])
                    &&& self@.clients[now_ids[j]] == records@[j]@
                    &&& records@[j]@.answers(query@)
                } by {
                    lemma_push_contains(seen, keys[i as int], now_ids[j]);
                    if j < ids.len() {
                        assert(now_ids[j] == ids[j]);
                    }
                }
                assert forall|p: int|
                    0 <= p < i + 1 && self@.clients[#[trigger] keys[p]].answers(
                        query@,
                    ) implies now_ids.contains(keys[p]) by {
                    lemma_push_contains(ids, keys[i as int], keys[p]);
                }
            }
            i += 1;
        }
        proof {
            let keys = self.clients.keys();
            let ids = record_ids(records@);
            assert(keys.take(n as int) == keys);
            assert forall|id: Seq<char>| ids.to_set().contains(id) <==> self@.answering(
                query@,
            ).contains(id) by {
                if ids.contains(id) {
                    let j = ids.index_of(id);
                    assert(keys.contains(ids[j]));
                    assert(keys.to_set().contains(id));
                }
                if self@.answering(query@).contains(id) {
                    assert(keys.to_set().contains(id));
                    let p = keys.index_of(id);
                    assert(keys[p] == id);
                }
            }
            assert(ids.to_set() =~= self@.answering(query@));
            assert forall|j: int| 0 <= j < records@.len() implies (#[trigger] records@[j])@
                == self@.clients[records@[j]@.client_id] by {
                assert(ids[j] == records@[j]@.client_id);
            }
        }
        records
    }

    fn add_uri(&mut self, client_id: &str, uri: RedirectUri) -> (added: Result<
        (),
        RegistrarError,
    >) {
        proof {
            use_type_invariant(&*self);
        }
        let updated = match self.clients.get(client_id) {
            Some(record) => record.with_uri(uri),
            None => {
                return Err(RegistrarError::NotFound);
            },
        };
        let _ = updated.redirect_uris();
        self.put(client_id.to_owned(), updated);
        Ok(())
    }

    fn del_uri(&mut self, client_id: &str, uri: RedirectUri) -> (deleted: Result<
        (),
        RegistrarError,
    >) {
        proof {
            use_type_invariant(&*self);
        }
        let record = match self.clients.get(client_id) {
            Some(record) => record,
            None => {
                return Err(RegistrarError::NotFound);
            },
        };
        let updated = match record.without_uri(&uri) {
            Some(updated) => updated,
            None => {
                return if record.has_redirect_uri(&uri) {
                    Err(RegistrarError::AmbiguousRedirect)
                } else {
                    Err(RegistrarError::MismatchedRedirect)
                };
            },
        };
        let _ = updated.redirect_uris();
        self.put(client_id.to_owned(), updated);
        Ok(())
    }

    fn del_client(&mut self, client_id: &str) -> (deleted: Result<(), RegistrarError>) {
        proof {
            use_type_invariant(&*self);
        }
        let mut clients: StringMap<EncodedClient> = StringMap::new();
        std::mem::swap(&mut clients, &mut self.clients);
        let taken = clients.remove(client_id);
        self.clients = clients;
        match taken {
            Some(_) => Ok(()),
            None => Err(RegistrarError::NotFound),
        }
    }
}

/// The scope that a negotiation settles on never exceeds what the client is
/// allowed, and never exceeds what was asked for.
pub proof fn law_negotiated_scope_is_allowed(
    s: RegistrarState,
    client_id: Seq<char>,
    redirect_uri: Seq<char>,
    requested: Option<Set<Seq<char>>>,
)
    ensures
        s.negotiate(client_id, redirect_uri, requested) matches Ok(agreed) ==> {
            &&& s.clients.contains_key(client_id)
            &&& agreed.subset_of(s.clients[client_id].default_scope)
            &&& requested matches Some(asked) ==> agreed.subset_of(asked)
        },
{
}

/// A client that asks for a scope that it is allowed gets that scope, the
/// empty scope included: a negotiation fails over the scope only where
/// something is asked for that is not allowed.
pub proof fn law_allowed_scope_is_granted(
    s: RegistrarState,
    client_id: Seq<char>,
    redirect_uri: Seq<char>,
    asked: Set<Seq<char>>,
)
    requires
        s.clients.contains_key(client_id),
        s.clients[client_id].redirect_uris.contains(redirect_uri),
    ensures
        asked.subset_of(s.clients[client_id].default_scope) ==> s.negotiate(
            client_id,
            redirect_uri,
            Some(asked),
        ) == Ok::<Set<Seq<char>>, RegistrarError>(asked),
        s.negotiate(client_id, redirect_uri, Some(asked)) is Err ==> !asked.subset_of(
            s.clients[client_id].default_scope,
        ),
{
    let allowed = s.clients[client_id].default_scope;
    if asked.subset_of(allowed) {
        assert(asked.intersect(allowed) =~= asked);
    }
}

/// The redirect URI to which a request is bound is one of the client's
/// registered URIs, and is the one that the request names where it names
/// one.
pub proof fn law_bound_uri_is_registered(
    s: RegistrarState,
    client_id: Seq<char>,
    requested: Option<Seq<char>>,
)
    ensures
        s.bound_redirect(client_id, requested) matches Ok(uri) ==> {
            &&& s.clients.contains_key(client_id)
            &&& s.clients[client_id].redirect_uris.contains(uri)
            &&& requested matches Some(named) ==> uri == named
        },
{
    if s.bound_redirect(client_id, requested) is Ok && requested is None {
        let uris = s.clients[client_id].redirect_uris;
        assert(uris[0] == uris[0]);
    }
}

/// A client's only redirect URI cannot be taken from it. And should a client
/// be without any redirect URI, a request of it is turned down over the
/// redirect URI, not as if the client were unknown.
pub proof fn law_client_stays_redirectable(
    s: RegistrarState,
    client_id: Seq<char>,
    uri: Seq<char>,
    requested: Option<Seq<char>>,
)
    requires
        s.clients.contains_key(client_id),
    ensures
        s.clients[client_id].redirect_uris.len() == 1 ==> s.del_uri(client_id, uri) is Err,
        s.clients[client_id].redirect_uris.len() == 0 ==> (s.bound_redirect(client_id, requested)
            matches Err(e) && e.about_redirect() && e != RegistrarError::NotFound),
{
}

/// A client that was just registered proves its identity with the passphrase
/// that it was registered with, and a public client by giving none.
pub proof fn law_registered_client_authenticates(
    s: RegistrarState,
    record: ClientView,
    client: crate::client::ClientSpec,
)
    requires
        record.encodes(client),
    ensures
        s.register(record).check(client.client_id, client.passphrase) == Ok::<(), RegistrarError>(
            (),
        ),
{
}

/// Whatever is done to a registrar that is in order leaves it in order:
/// every client stays under its own id, with a redirect URI and none twice.
pub proof fn law_registrar_stays_in_order(
    s: RegistrarState,
    record: ClientView,
    client_id: Seq<char>,
    uri: Seq<char>,
)
    requires
        s.wf(),
    ensures
        record.redirectable() ==> s.register(record).wf(),
        s.add_uri(client_id, uri) matches Ok(t) ==> t.wf(),
        s.del_uri(client_id, uri) matches Ok(t) ==> t.wf(),
        s.del_client(client_id) matches Ok(t) ==> t.wf(),
{
    if s.clients.contains_key(client_id) {
        let before = s.clients[client_id];
        lemma_with_uri_redirectable(before, uri);
        if before.redirect_uris.contains(uri) && before.redirect_uris.len() > 1 {
            lemma_without_uri_redirectable(before, uri);
        }
    }
}

/// A redirect URI that was added is registered, and one that was taken is
/// not; the client's other redirect URIs are not touched.
pub proof fn law_uri_changes_take_effect(
    s: RegistrarState,
    client_id: Seq<char>,
    uri: Seq<char>,
    other: Seq<char>,
)
    requires
        s.wf(),
        other != uri,
    ensures
        s.add_uri(client_id, uri) matches Ok(t) ==> {
            &&& t.clients[client_id].redirect_uris.contains(uri)
            &&& t.clients[client_id].redirect_uris.contains(other)
                == s.clients[client_id].redirect_uris.contains(other)
        },
        s.del_uri(client_id, uri) matches Ok(t) ==> {
            &&& !t.clients[client_id].redirect_uris.contains(uri)
            &&& t.clients[client_id].redirect_uris.contains(other)
                == s.clients[client_id].redirect_uris.contains(other)
        },
{
    if s.clients.contains_key(client_id) {
        let before = s.clients[client_id];
        let uris = before.redirect_uris;
        lemma_push_contains(uris, uri, uri);
        lemma_push_contains(uris, uri, other);
        if uris.contains(uri) && uris.len() > 1 {
            let at = uris.index_of(uri);
            let rest = uris.remove(at);
            assert(before.without_uri(uri).redirect_uris == rest);
            if rest.contains(uri) {
                let j = rest.index_of(uri);
                let from = if j < at { j } else { j + 1 };
                assert(uris[from] == uri);
            }
            if rest.contains(other) {
                let j = rest.index_of(other);
                let from = if j < at { j } else { j + 1 };
                assert(uris[from] == other);
            }
            if uris.contains(other) {
                let from = uris.index_of(other);
                let j = if from < at { from } else { from - 1 };
                assert(rest[j] == other);
            }
        }
    }
}

proof fn lemma_with_uri_redirectable(record: ClientView, uri: Seq<char>)
    requires
        record.redirectable(),
    ensures
        record.with_uri(uri).redirectable(),
        record.with_uri(uri).client_id == record.client_id,
{
    if !record.redirect_uris.contains(uri) {
        let uris = record.redirect_uris;
        let more = uris.push(uri);
        assert forall|a: int, b: int| 0 <= a < more.len() && 0 <= b < more.len() && a
            != b implies more[a] != more[b] by {
            if a < uris.len() {
                assert(uris[a] == more[a]);
            }
            if b < uris.len() {
                assert(uris[b] == more[b]);
            }
        }
    }
}

proof fn lemma_without_uri_redirectable(record: ClientView, uri: Seq<char>)
    requires
        record.redirectable(),
        record.redirect_uris.contains(uri),
        record.redirect_uris.len() > 1,
    ensures
        record.without_uri(uri).redirectable(),
        record.without_uri(uri).client_id == record.client_id,
{
    let uris = record.redirect_uris;
    let at = uris.index_of(uri);
    let rest = uris.remove(at);
    assert forall|a: int, b: int| 0 <= a < rest.len() && 0 <= b < rest.len() && a != b implies rest[a]
        != rest[b] by {
        let from_a = if a < at { a } else { a + 1 };
        let from_b = if b < at { b } else { b + 1 };
        assert(rest[a] == uris[from_a]);
        assert(rest[b] == uris[from_b]);
    }
}

} // verus!
