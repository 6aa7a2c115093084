//! Clients: the registrants of an authorization server.

use vstd::prelude::*;
use vstd::slice::slice_to_vec;
use oxide_auth::primitives::registrar::{Argon2, PasswordPolicy};
use crate::scope::Scope;
use crate::string_map::StringMap;
use crate::text::{byte_len, str_eq};
use crate::uri::RedirectUri;

verus! {

/// The most bytes that a client id or a passphrase may have for the
/// passphrase to be encoded: the hash function takes no more.
pub const MAX_ENCODED_INPUT: usize = 0xFFFF_FFFF;

/// Whether the passphrase policy takes `passphrase` for the passphrase of
/// the client `client_id` that was stored as `passdata`. It stands for the
/// verdict of `oxide_auth`'s `Argon2` policy; nothing else is known of it.
pub uninterp spec fn passphrase_accepted(
    client_id: Seq<char>,
    passphrase: Seq<u8>,
    passdata: Seq<u8>,
) -> bool;

/// Whether `passdata` is what the passphrase policy made of some passphrase
/// of the client `client_id`.
pub open spec fn encoded_for(client_id: Seq<char>, passdata: Seq<u8>) -> bool {
    exists|p: Seq<u8>| #[trigger] passphrase_accepted(client_id, p, passdata)
}

/// Encodes a passphrase with `PasswordPolicy::store` of `oxide_auth`'s
/// `Argon2` policy: the Argon2id hash of the passphrase, with the client id
/// as associated data, under a salt of 32 bytes drawn at random, in the
/// hash's text encoding. The salt makes two calls differ, so the data itself
/// is not stated; what is stated is that the policy's check accepts the data
/// for the same client id and passphrase, since the check recomputes the
/// hash from what the data holds. The call panics on an input longer than
/// the hash function takes: such inputs are left out. It also panics where
/// the system's source of random numbers cannot be set up, which no input
/// decides and no contract can leave out: like running out of memory, it
/// ends the program.
#[verifier::external_body]
fn argon2_store(client_id: &str, passphrase: &[u8]) -> (passdata: Vec<u8>)
    requires
        byte_len(client_id@) <= MAX_ENCODED_INPUT,
        passphrase@.len() <= MAX_ENCODED_INPUT,
    ensures
        passphrase_accepted(client_id@, passphrase@, passdata@),
{
    Argon2::default().store(client_id, passphrase)
}

/// Checks a passphrase with `PasswordPolicy::check` of `oxide_auth`'s
/// `Argon2` policy, which recomputes the hash with the parameters and the
/// salt that `passdata` holds and compares the two hashes in constant time.
/// The verdict is a function of the three arguments; an error of the policy
/// counts as a refusal. The data names the cost of the hash, so only data
/// that the policy made for this client id is handed to it.
#[verifier::external_body]
fn argon2_check(client_id: &str, passphrase: &[u8], passdata: &[u8]) -> (accepted: bool)
    requires
        encoded_for(client_id@, passdata@),
    ensures
        accepted == passphrase_accepted(client_id@, passphrase@, passdata@),
{
    Argon2::default().check(client_id, passphrase, passdata).is_ok()
}

/// The canonical texts of a list of redirect URIs.
pub open spec fn uri_texts(uris: Seq<RedirectUri>) -> Seq<Seq<char>> {
    Seq::new(uris.len(), |i: int| uris[i]@)
}

/// The view of bytes that may be absent.
pub open spec fn bytes_view(bytes: Option<Vec<u8>>) -> Option<Seq<u8>> {
    match bytes {
        Some(b) => Some(b@),
        None => None,
    }
}

/// What a [`Client`] declares, as plain mathematical values.
#[verifier::ext_equal]
pub struct ClientSpec {
    pub client_id: Seq<char>,
    /// The registered redirect URIs: at least one, none twice.
    pub redirect_uris: Seq<Seq<char>>,
    /// The scope that the client is allowed, and gets where it asks for none.
    pub default_scope: Set<Seq<char>>,
    /// The passphrase of a confidential client; none for a public client.
    pub passphrase: Option<Seq<u8>>,
    pub extensions: Map<Seq<char>, Seq<char>>,
}

/// What an [`EncodedClient`] holds, as plain mathematical values.
#[verifier::ext_equal]
pub struct ClientView {
    pub client_id: Seq<char>,
    /// The registered redirect URIs.
    pub redirect_uris: Seq<Seq<char>>,
    /// The scope that the client is allowed, and gets where it asks for none.
    pub default_scope: Set<Seq<char>>,
    /// The encoded passphrase of a confidential client; none for a public
    /// client.
    pub passdata: Option<Seq<u8>>,
    pub extensions: Map<Seq<char>, Seq<char>>,
}

impl ClientView {
    /// A record is in order when it has a redirect URI and none twice.
    pub open spec fn redirectable(self) -> bool {
        self.redirect_uris.len() >= 1 && self.redirect_uris.no_duplicates()
    }

    /// Whether this record is `client` with its passphrase encoded.
    pub open spec fn encodes(self, client: ClientSpec) -> bool {
        &&& self.client_id == client.client_id
        &&& self.redirect_uris == client.redirect_uris
        &&& self.default_scope == client.default_scope
        &&& self.extensions == client.extensions
        &&& match client.passphrase {
            Some(p) => self.passdata matches Some(d) && passphrase_accepted(self.client_id, p, d),
            None => self.passdata is None,
        }
    }

    /// Whether the record has every extension that `query` asks for, with
    /// the value that it asks for.
    pub open spec fn answers(self, query: Map<Seq<char>, Seq<char>>) -> bool {
        forall|k: Seq<char>| #[trigger]
            query.contains_key(k) ==> self.extensions.contains_key(k) && self.extensions[k]
                == query[k]
    }

    /// The record with one more redirect URI, unless it has it already.
    pub open spec fn with_uri(self, uri: Seq<char>) -> Self {
        if self.redirect_uris.contains(uri) {
            self
        } else {
            ClientView { redirect_uris: self.redirect_uris.push(uri), ..self }
        }
    }

    /// The record without the redirect URI `uri`.
    pub open spec fn without_uri(self, uri: Seq<char>) -> Self {
        ClientView {
            redirect_uris: self.redirect_uris.remove(self.redirect_uris.index_of(uri)),
            ..self
        }
    }
}

fn position_of(uris: &Vec<RedirectUri>, uri: &RedirectUri) -> (at: Option<usize>)
    ensures
        match at {
            Some(i) => i < uris@.len() && uri_texts(uris@)[i as int] == uri@,
            None => !uri_texts(uris@).contains(uri@),
        },
{
    let mut i: usize = 0;
    while i < uris.len()
        invariant
            i <= uris@.len(),
            forall|j: int| 0 <= j < i ==> uri_texts(uris@)[j] != uri@,
        decreases uris@.len() - i,
    {
        if str_eq(uris[i].as_str(), uri.as_str()) {
            return Some(i);
        }
        i += 1;
    }
    None
}

fn copy_uris(uris: &Vec<RedirectUri>) -> (copy: Vec<RedirectUri>)
    ensures
        uri_texts(copy@) == uri_texts(uris@),
{
    let mut copy: Vec<RedirectUri> = Vec::new();
    let mut i: usize = 0;
    while i < uris.len()
        invariant
            i <= uris@.len(),
            copy@.len() == i,
            forall|j: int| 0 <= j < i ==> copy@[j]@ == uris@[j]@,
        decreases uris@.len() - i,
    {
        copy.push(uris[i].clone());
        i += 1;
    }
    assert(uri_texts(copy@) =~= uri_texts(uris@));
    copy
}

fn copy_bytes(bytes: &Option<Vec<u8>>) -> (copy: Option<Vec<u8>>)
    ensures
        bytes_view(copy) == bytes_view(*bytes),
{
    match bytes {
        Some(b) => Some(slice_to_vec(b.as_slice())),
        None => None,
    }
}

fn copy_extensions(extensions: &StringMap<String>) -> (copy: StringMap<String>)
    ensures
        copy@ == extensions@,
{
    let mut copy: StringMap<String> = StringMap::new();
    let n = extensions.len();
    let mut i: usize = 0;
    while i < n
        invariant
            i <= n,
            n == extensions.keys().len(),
            extensions@.dom() == extensions.keys().to_set(),
            forall|k: Seq<char>| #[trigger]
                copy@.contains_key(k) <==> extensions.keys().take(i as int).contains(k),
            forall|k: Seq<char>| #[trigger]
                copy@.contains_key(k) ==> extensions@.contains_key(k) && copy@[k] == extensions@[k],
        decreases n - i,
    {
        let ghost seen = extensions.keys().take(i as int);
        let key = extensions.key_at(i).clone();
        let value = extensions.value_at(i).clone();
        copy.insert(key, value);
        proof {
            assert(extensions.keys().take(i + 1) =~= seen.push(extensions.keys()[i as int]));
            assert forall|k: Seq<char>| #[trigger]
                copy@.contains_key(k) <==> extensions.keys().take(i + 1).contains(k) by {
                crate::text::lemma_push_contains(seen, extensions.keys()[i as int], k);
            }
        }
        i += 1;
    }
    proof {
        assert(extensions.keys().take(n as int) == extensions.keys());
        assert(copy@ =~= extensions@);
    }
    copy
}

/// A client as it asks to be registered, with its passphrase in the clear.
pub struct Client {
    client_id: String,
    redirect_uris: Vec<RedirectUri>,
    default_scope: Scope,
    passphrase: Option<Vec<u8>>,
    extensions: StringMap<String>,
}

impl View for Client {
    type V = ClientSpec;

    closed spec fn view(&self) -> ClientSpec {
        ClientSpec {
            client_id: self.client_id@,
            redirect_uris: uri_texts(self.redirect_uris@),
            default_scope: self.default_scope@,
            passphrase: bytes_view(self.passphrase),
            extensions: self.extensions@,
        }
    }
}

impl Client {
    #[verifier::type_invariant]
    spec fn redirectable(self) -> bool {
        uri_texts(self.redirect_uris@).len() >= 1 && uri_texts(self.redirect_uris@).no_duplicates()
    }

    /// A public client: one that cannot keep a secret and has none.
    pub fn public(client_id: &str, redirect_uri: RedirectUri, default_scope: Scope) -> (client:
        Self)
        ensures
            client@ == (ClientSpec {
                client_id: client_id@,
                redirect_uris: seq![redirect_uri@],
                default_scope: default_scope@,
                passphrase: None,
                extensions: Map::empty(),
            }),
    {
        let mut redirect_uris: Vec<RedirectUri> = Vec::new();
        redirect_uris.push(redirect_uri);
        assert(uri_texts(redirect_uris@) =~= seq![redirect_uri@]);
        Client {
            client_id: client_id.to_owned(),
            redirect_uris,
            default_scope,
            passphrase: None,
            extensions: StringMap::new(),
        }
    }

    /// A confidential client: one that proves its identity with
    /// `passphrase`.
    pub fn confidential(
        client_id: &str,
        redirect_uri: RedirectUri,
        default_scope: Scope,
        passphrase: &[u8],
    ) -> (client: Self)
        ensures
            client@ == (ClientSpec {
                client_id: client_id@,
                redirect_uris: seq![redirect_uri@],
                default_scope: default_scope@,
                passphrase: Some(passphrase@),
                extensions: Map::empty(),
            }),
    {
        let mut redirect_uris: Vec<RedirectUri> = Vec::new();
        redirect_uris.push(redirect_uri);
        assert(uri_texts(redirect_uris@) =~= seq![redirect_uri@]);
        Client {
            client_id: client_id.to_owned(),
            redirect_uris,
            default_scope,
            passphrase: Some(slice_to_vec(passphrase)),
            extensions: StringMap::new(),
        }
    }

    /// The client with one more redirect URI, unless it has it already.
    pub fn with_redirect_uri(self, uri: RedirectUri) -> (client: Self)
        ensures
            client@ == (ClientSpec {
                redirect_uris: if self@.redirect_uris.contains(uri@) {
                    self@.redirect_uris
                } else {
                    self@.redirect_uris.push(uri@)
                },
                ..self@
            }),
            client@.redirect_uris.len() >= 1,
            client@.redirect_uris.no_duplicates(),
    {
        proof {
            use_type_invariant(&self);
        }
        let Client { client_id, redirect_uris, default_scope, passphrase, extensions } = self;
        let mut redirect_uris = redirect_uris;
        let ghost before = redirect_uris@;
        if position_of(&redirect_uris, &uri).is_none() {
            redirect_uris.push(uri);
            assert(uri_texts(redirect_uris@) =~= uri_texts(before).push(uri@));
        }
        Client { client_id, redirect_uris, default_scope, passphrase, extensions }
    }

    /// The client with the extension `key` set to `value`.
    pub fn with_extension(self, key: String, value: String) -> (client: Self)
        ensures
            client@ == (ClientSpec {
                extensions: self@.extensions.insert(key@, value@),
                ..self@
            }),
    {
        proof {
            use_type_invariant(&self);
        }
        let Client { client_id, redirect_uris, default_scope, passphrase, extensions } = self;
        let mut extensions = extensions;
        extensions.insert(key, value);
        Client { client_id, redirect_uris, default_scope, passphrase, extensions }
    }

    /// The client's id.
    pub fn client_id(&self) -> (id: &str)
        ensures
            id@ == self@.client_id,
    {
        self.client_id.as_str()
    }

    /// Encodes the passphrase, so that the client can be stored. The result
    /// is `None` for a confidential client whose id or passphrase is longer
    /// than the encoding takes, and for no other.
    pub fn encode(self) -> (encoded: Option<EncodedClient>)
        ensures
            match encoded {
                Some(e) => e@.encodes(self@) && e@.redirectable() && self@.encodable(),
                None => !self@.encodable(),
            },
    {
        proof {
            use_type_invariant(&self);
        }
        let Client { client_id, redirect_uris, default_scope, passphrase, extensions } = self;
        let passdata = match passphrase {
            Some(p) => {
                if client_id.as_str().as_bytes().len() > MAX_ENCODED_INPUT || p.len()
                    > MAX_ENCODED_INPUT {
                    return None;
                }
                let stored = argon2_store(client_id.as_str(), p.as_slice());
                assert(passphrase_accepted(client_id@, p@, stored@));
                Some(stored)
            },
            None => None,
        };
        Some(EncodedClient { client_id, redirect_uris, default_scope, passdata, extensions })
    }
}

impl ClientSpec {
    /// Whether the client's passphrase can be encoded: a public client has
    /// none; a confidential client's id and passphrase must not be longer
    /// than the encoding takes.
    pub open spec fn encodable(self) -> bool {
        self.passphrase matches Some(p) ==> byte_len(self.client_id) <= MAX_ENCODED_INPUT && p.len()
            <= MAX_ENCODED_INPUT
    }
}

/// A client as a registrar stores it, with its passphrase encoded. The
/// passphrase itself is not in the record.
#[derive(Debug)]
pub struct EncodedClient {
    client_id: String,
    redirect_uris: Vec<RedirectUri>,
    default_scope: Scope,
    passdata: Option<Vec<u8>>,
    extensions: StringMap<String>,
}

impl View for EncodedClient {
    type V = ClientView;

    closed spec fn view(&self) -> ClientView {
        ClientView {
            client_id: self.client_id@,
            redirect_uris: uri_texts(self.redirect_uris@),
            default_scope: self.default_scope@,
            passdata: bytes_view(self.passdata),
            extensions: self.extensions@,
        }
    }
}

impl EncodedClient {
    #[verifier::type_invariant]
    spec fn in_order(self) -> bool {
        &&& uri_texts(self.redirect_uris@).len() >= 1
        &&& uri_texts(self.redirect_uris@).no_duplicates()
        &&& self.passdata matches Some(d) ==> encoded_for(self.client_id@, d@)
    }

    /// The client's id.
    pub fn client_id(&self) -> (id: &str)
        ensures
            id@ == self@.client_id,
    {
        self.client_id.as_str()
    }

    /// The registered redirect URIs: at least one, none twice.
    pub fn redirect_uris(&self) -> (uris: &Vec<RedirectUri>)
        ensures
            uri_texts(uris@) == self@.redirect_uris,
            self@.redirectable(),
    {
        proof {
            use_type_invariant(self);
        }
        &self.redirect_uris
    }

    /// The scope that the client is allowed.
    pub fn default_scope(&self) -> (scope: &Scope)
        ensures
            scope@ == self@.default_scope,
    {
        &self.default_scope
    }

    /// Whether the client has a passphrase.
    pub fn is_confidential(&self) -> (confidential: bool)
        ensures
            confidential == self@.passdata is Some,
    {
        self.passdata.is_some()
    }

    /// The value of the extension `key`, if the client has it.
    pub fn extension(&self, key: &str) -> (value: Option<&String>)
        ensures
            match value {
                Some(v) => self@.extensions.contains_key(key@) && self@.extensions[key@] == v@,
                None => !self@.extensions.contains_key(key@),
            },
    {
        self.extensions.get(key)
    }

    /// Whether `uri` is one of the registered redirect URIs.
    pub fn has_redirect_uri(&self, uri: &RedirectUri) -> (found: bool)
        ensures
            found == self@.redirect_uris.contains(uri@),
    {
        position_of(&self.redirect_uris, uri).is_some()
    }

    /// Whether the client proves its identity with `passphrase`: a public
    /// client by giving none, a confidential client by giving the one that
    /// was encoded.
    pub fn authenticates(&self, passphrase: Option<&[u8]>) -> (accepted: bool)
        ensures
            accepted == self@.authenticates(slice_view(passphrase)),
    {
        proof {
            use_type_invariant(self);
        }
        match (&self.passdata, passphrase) {
            (None, None) => true,
            (Some(stored), Some(given)) => argon2_check(
                self.client_id.as_str(),
                given,
                stored.as_slice(),
            ),
            _ => false,
        }
    }

    /// Whether the record has every extension that `query` asks for, with
    /// the value that it asks for.
    pub fn answers(&self, query: &StringMap<String>) -> (yes: bool)
        ensures
            yes == self@.answers(query@),
    {
        let n = query.len();
        let mut i: usize = 0;
        while i < n
            invariant
                i <= n,
                n == query.keys().len(),
                query@.dom() == query.keys().to_set(),
                forall|j: int|
                    0 <= j < i ==> self@.extensions.contains_key(#[trigger] query.keys()[j])
                        && self@.extensions[query.keys()[j]] == query@[query.keys()[j]],
            decreases n - i,
        {
            let wanted = query.value_at(i);
            let same = match self.extensions.get(query.key_at(i).as_str()) {
                Some(value) => str_eq(value.as_str(), wanted.as_str()),
                None => false,
            };
            if !same {
                assert(query@.contains_key(query.keys()[i as int]));
                return false;
            }
            i += 1;
        }
        proof {
            assert forall|k: Seq<char>| #[trigger] query@.contains_key(k) implies self@.extensions.contains_key(
                k,
            ) && self@.extensions[k] == query@[k] by {
                assert(query.keys().to_set().contains(k));
                let j = query.keys().index_of(k);
                assert(query.keys()[j] == k);
            }
        }
        true
    }

    /// The record with one more redirect URI, unless it has it already.
    pub fn with_uri(&self, uri: RedirectUri) -> (record: Self)
        ensures
            record@ == self@.with_uri(uri@),
    {
        proof {
            use_type_invariant(self);
        }
        let mut redirect_uris = copy_uris(&self.redirect_uris);
        let ghost before = redirect_uris@;
        if position_of(&redirect_uris, &uri).is_none() {
            redirect_uris.push(uri);
            assert(uri_texts(redirect_uris@) =~= uri_texts(before).push(uri@));
        }
        EncodedClient {
            client_id: self.client_id.clone(),
            redirect_uris,
            default_scope: self.default_scope.clone(),
            passdata: copy_bytes(&self.passdata),
            extensions: copy_extensions(&self.extensions),
        }
    }

    /// The record without the redirect URI `uri`, where it is one of the
    /// record's and not the only one.
    pub fn without_uri(&self, uri: &RedirectUri) -> (record: Option<Self>)
        ensures
            match record {
                Some(r) => self@.redirect_uris.contains(uri@) && self@.redirect_uris.len() > 1
                    && r@ == self@.without_uri(uri@),
                None => !self@.redirect_uris.contains(uri@) || self@.redirect_uris.len() <= 1,
            },
    {
        proof {
            use_type_invariant(self);
        }
        let at = match position_of(&self.redirect_uris, uri) {
            Some(i) => i,
            None => {
                return None;
            },
        };
        if self.redirect_uris.len() <= 1 {
            return None;
        }
        let mut redirect_uris = copy_uris(&self.redirect_uris);
        redirect_uris.remove(at);
        proof {
            let old_texts = uri_texts(self.redirect_uris@);
            let rest = uri_texts(redirect_uris@);
            assert(old_texts[at as int] == uri@);
            assert(old_texts.index_of(uri@) == at);
            assert(rest =~= old_texts.remove(at as int));
            assert forall|a: int, b: int|
                0 <= a < rest.len() && 0 <= b < rest.len() && a != b implies rest[a] != rest[b] by {
                let from_a = if a < at { a } else { a + 1 };
                let from_b = if b < at { b } else { b + 1 };
                assert(rest[a] == old_texts[from_a]);
                assert(rest[b] == old_texts[from_b]);
            }
        }
        Some(
            EncodedClient {
                client_id: self.client_id.clone(),
                redirect_uris,
                default_scope: self.default_scope.clone(),
                passdata: copy_bytes(&self.passdata),
                extensions: copy_extensions(&self.extensions),
            },
        )
    }
}

/// The view of a byte string that may be absent.
pub open spec fn slice_view(bytes: Option<&[u8]>) -> Option<Seq<u8>> {
    match bytes {
        Some(b) => Some(b@),
        None => None,
    }
}

impl ClientView {
    /// Whether the client proves its identity with `passphrase`.
    pub open spec fn authenticates(self, passphrase: Option<Seq<u8>>) -> bool {
        match (self.passdata, passphrase) {
            (None, None) => true,
            (Some(stored), Some(given)) => passphrase_accepted(self.client_id, given, stored),
            _ => false,
        }
    }
}

impl Clone for EncodedClient {
    fn clone(&self) -> (copy: Self)
        ensures
            copy@ == self@,
    {
        proof {
            use_type_invariant(self);
        }
        EncodedClient {
            client_id: self.client_id.clone(),
            redirect_uris: copy_uris(&self.redirect_uris),
            default_scope: self.default_scope.clone(),
            passdata: copy_bytes(&self.passdata),
            extensions: copy_extensions(&self.extensions),
        }
    }
}

} // verus!
