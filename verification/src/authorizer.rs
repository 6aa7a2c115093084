//! Authorizers exchange a grant for an authorization code and, once, the
//! code for the grant.
//!
//! Every code goes through two states: it is issued, with its grant, and it
//! is extracted, after which it is gone. A code that has outlived the
//! authorizer's time to live can no longer be redeemed.

use vstd::prelude::*;
use crate::generator::{TokenGenerator, MIN_TAG_BYTES};
use crate::grant::{grant_view, Grant, GrantView, Time};
use crate::string_map::StringMap;
use crate::text::byte_len;

verus! {

/// What an authorizer keeps for a code.
pub struct CodeRecord {
    pub grant: GrantView,
    /// The authorizer's time when the code was issued.
    pub issued: nat,
}

/// The mathematical model of an authorizer.
#[verifier::ext_equal]
pub struct AuthorizerState {
    /// The codes that were issued and not yet extracted.
    pub codes: Map<Seq<char>, CodeRecord>,
    /// The authorizer's time.
    pub now: nat,
    /// How long a code can be redeemed after it was issued.
    pub ttl: nat,
}

impl AuthorizerState {
    /// A new code must be long enough and must not be outstanding.
    pub open spec fn accepts(self, code: Seq<char>) -> bool {
        byte_len(code) >= MIN_TAG_BYTES && !self.codes.contains_key(code)
    }

    /// A code can be redeemed while it is outstanding and not older than the
    /// time to live.
    pub open spec fn redeemable(self, code: Seq<char>) -> bool {
        self.codes.contains_key(code) && self.now - self.codes[code].issued <= self.ttl
    }

    /// The state after `code` was issued for `grant`.
    pub open spec fn authorize(self, code: Seq<char>, grant: GrantView) -> Self {
        AuthorizerState {
            codes: self.codes.insert(code, CodeRecord { grant, issued: self.now }),
            ..self
        }
    }

    /// What presenting `code` yields.
    pub open spec fn extracted(self, code: Seq<char>) -> Option<GrantView> {
        if self.redeemable(code) {
            Some(self.codes[code].grant)
        } else {
            None
        }
    }

    /// The state after `code` was presented: the code is gone, whether or
    /// not it could be redeemed.
    pub open spec fn extract(self, code: Seq<char>) -> Self {
        AuthorizerState { codes: self.codes.remove(code), ..self }
    }

    /// The state after the authorizer was told the time. Time never goes
    /// back.
    pub open spec fn at(self, now: nat) -> Self {
        AuthorizerState { now: if now > self.now { now } else { self.now }, ..self }
    }

    /// What becomes of what a generator handed out: a code, where the
    /// generator made one and the authorizer accepts it.
    pub open spec fn code_of(self, tag: Result<String, ()>) -> Option<Seq<char>> {
        match tag {
            Ok(c) => if self.accepts(c@) {
                Some(c@)
            } else {
                None
            },
            Err(_) => None,
        }
    }
}

/// Authorizers create and redeem authorization codes.
///
/// A failure (`Err`) never changes the store. Absence (`Ok(None)`) is no
/// failure: the request was in order and nothing was found.
pub trait Authorizer {
    /// The model of the store.
    spec fn view(&self) -> AuthorizerState;

    /// Issues a code for `grant`. The code is new: it is not outstanding.
    fn authorize(&mut self, grant: Grant) -> (code: Result<String, ()>)
        ensures
            match code {
                Ok(c) => old(self)@.accepts(c@) && final(self)@ == old(self)@.authorize(
                    c@,
                    grant@,
                ),
                Err(_) => final(self)@ == old(self)@,
            },
    ;

    /// Redeems `code`: hands back its grant and forgets the code, so that it
    /// cannot be used twice.
    fn extract(&mut self, code: &str) -> (grant: Result<Option<Grant>, ()>)
        ensures
            match grant {
                Ok(found) => grant_view(found) == old(self)@.extracted(code@) && final(self)@
                    == old(self)@.extract(code@),
                Err(_) => final(self)@ == old(self)@,
            },
    ;
}

/// A grant as an [`InMemoryAuthorizer`] stores it.
struct StoredCode {
    grant: Grant,
    issued: Time,
}

impl View for StoredCode {
    type V = CodeRecord;

    closed spec fn view(&self) -> CodeRecord {
        CodeRecord { grant: self.grant@, issued: self.issued as nat }
    }
}

/// An authorizer that keeps its codes in memory.
///
/// The codes come from a generator chosen at construction. The time is what
/// its owner last told it with [`InMemoryAuthorizer::set_time`].
pub struct InMemoryAuthorizer<G> {
    generator: G,
    usage: u64,
    codes: StringMap<StoredCode>,
    now: Time,
    ttl: Time,
}

impl<G: TokenGenerator> InMemoryAuthorizer<G> {
    /// The generator from which the codes come, in its present state.
    pub closed spec fn generator(&self) -> G {
        self.generator
    }

    /// The number that the generator is handed with the next grant. It
    /// moves on with every code that is issued, and starts again after the
    /// greatest.
    pub closed spec fn usage(&self) -> u64 {
        self.usage
    }

    /// An authorizer without codes, at time zero, whose codes can be redeemed
    /// for `ttl` seconds.
    pub fn new(generator: G, ttl: Time) -> (store: Self)
        ensures
            store@ == (AuthorizerState { codes: Map::empty(), now: 0, ttl: ttl as nat }),
            store.generator() == generator,
            store.usage() == 0,
    {
        InMemoryAuthorizer { generator, usage: 0, codes: StringMap::new(), now: 0, ttl }
    }

    /// Tells the authorizer the time. An earlier time than it already has is
    /// ignored.
    pub fn set_time(&mut self, now: Time)
        ensures
            final(self)@ == old(self)@.at(now as nat),
            final(self).generator() == old(self).generator(),
            final(self).usage() == old(self).usage(),
    {
        if now > self.now {
            self.now = now;
        }
    }

    /// The authorizer's time.
    pub fn time(&self) -> (now: Time)
        ensures
            now == self@.now,
    {
        self.now
    }

    /// The number of outstanding codes.
    pub fn len(&self) -> (n: usize)
        ensures
            n == self@.codes.dom().len(),
    {
        self.codes.len()
    }

    /// Stores `grant` under `code`, if the code is accepted: long enough and
    /// not outstanding. The generator is not asked.
    pub fn import(&mut self, code: String, grant: Grant) -> (stored: Result<String, ()>)
        ensures
            match stored {
                Ok(c) => c@ == code@ && old(self)@.accepts(code@) && final(self)@ == old(
                    self,
                )@.authorize(code@, grant@),
                Err(_) => !old(self)@.accepts(code@) && final(self)@ == old(self)@,
            },
            final(self).generator() == old(self).generator(),
            final(self).usage() == old(self).usage(),
    {
        if code.as_str().as_bytes().len() < MIN_TAG_BYTES || self.codes.contains_key(code.as_str()) {
            return Err(());
        }
        let handed = code.clone();
        self.codes.insert(code, StoredCode { grant, issued: self.now });
        Ok(handed)
    }
}

impl<G: TokenGenerator> Authorizer for InMemoryAuthorizer<G> {
    closed spec fn view(&self) -> AuthorizerState {
        AuthorizerState { codes: self.codes@, now: self.now as nat, ttl: self.ttl as nat }
    }

    /// Asks the generator once, for `grant` and the present usage number,
    /// and issues what it hands out, if that is a code that the authorizer
    /// accepts. It fails where the generator fails or hands out anything
    /// else, and only there.
    fn authorize(&mut self, grant: Grant) -> (code: Result<String, ()>)
        ensures
            exists|tag: Result<String, ()>, g: &mut G|
                mut_ref_current(g) == old(self).generator()
                    && mut_ref_future(g) == final(self).generator()
                    && #[trigger] call_ensures(G::generate, (g, old(self).usage(), &grant), tag)
                    && match old(self)@.code_of(tag) {
                    Some(c) => {
                        &&& code matches Ok(k) && k@ == c
                        &&& final(self).usage() == old(self).usage().wrapping_add(1)
                    },
                    None => code is Err && final(self).usage() == old(self).usage(),
                },
    {
        let tag = self.generator.generate(self.usage, &grant);
        let ghost handed = tag;
        let ghost asked = self.generator;
        assert(exists|g: &mut G|
            mut_ref_current(g) == old(self).generator() && mut_ref_future(g) == asked
                && #[trigger] call_ensures(G::generate, (g, old(self).usage(), &grant), handed));
        match tag {
            Ok(code) => {
                let stored = self.import(code, grant);
                if stored.is_ok() {
                    self.usage = self.usage.wrapping_add(1);
                }
                stored
            },
            Err(_) => Err(()),
        }
    }

    /// Never fails, and does not ask the generator.
    fn extract(&mut self, code: &str) -> (grant: Result<Option<Grant>, ()>)
        ensures
            grant is Ok,
            final(self).generator() == old(self).generator(),
            final(self).usage() == old(self).usage(),
    {
        match self.codes.remove(code) {
            Some(stored) => {
                if self.now <= stored.issued || self.now - stored.issued <= self.ttl {
                    Ok(Some(stored.grant))
                } else {
                    Ok(None)
                }
            },
            None => Ok(None),
        }
    }
}

/// A code that was just issued yields its grant exactly once: the first
/// presentation hands back the grant it was issued for, every later one
/// nothing.
pub proof fn law_code_is_redeemed_once(s: AuthorizerState, code: Seq<char>, grant: GrantView)
    requires
        s.accepts(code),
    ensures
        s.authorize(code, grant).extracted(code) == Some(grant),
        s.authorize(code, grant).extract(code).extracted(code) == None::<GrantView>,
        s.authorize(code, grant).extract(code) == s,
{
    assert(s.codes.insert(code, CodeRecord { grant, issued: s.now }).remove(code) =~= s.codes);
}

/// Of two presentations of one code, in whatever state, at most one yields a
/// grant: the second finds nothing, whatever the first found, and the first
/// finds the grant exactly where the code could be redeemed.
pub proof fn law_no_double_spend(s: AuthorizerState, code: Seq<char>)
    ensures
        s.extract(code).extracted(code) == None::<GrantView>,
        s.extracted(code) is Some <==> s.redeemable(code),
        s.extract(code).extract(code) == s.extract(code),
{
    assert(s.codes.remove(code).remove(code) =~= s.codes.remove(code));
}

/// Once a code has outlived the time to live it stays out of reach, however
/// the time moves on.
pub proof fn law_expired_code_stays_absent(s: AuthorizerState, code: Seq<char>, now: nat)
    requires
        !s.redeemable(code),
    ensures
        s.at(now).extracted(code) == None::<GrantView>,
{
}

} // verus!
