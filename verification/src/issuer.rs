//! Issuers exchange a grant for an access token, with or without a refresh
//! token, and hand the grant back when a token is presented.
//!
//! Access tokens and refresh tokens live in two spaces of their own. A token
//! that was ever handed out is never handed out again, in either space.

use vstd::prelude::*;
use crate::generator::{generate_tokens, TokenGenerator, MIN_TAG_BYTES};
use crate::grant::{grant_view, Grant, GrantView, Time};
use crate::string_map::StringMap;
use crate::text::{byte_len, holds, texts};

verus! {

/// What a client gets for a grant.
#[derive(Debug, PartialEq, Eq)]
pub struct IssuedToken {
    /// The access token.
    pub token: String,
    /// The refresh token, if one was issued.
    pub refresh: Option<String>,
    /// The last moment at which the access token is valid.
    pub until: Time,
}

/// What a client gets for a refresh token.
#[derive(Debug, PartialEq, Eq)]
pub struct RefreshedToken {
    /// The new access token.
    pub token: String,
    /// The new refresh token. Where it is set, the refresh token that was
    /// presented is no longer valid.
    pub refresh: Option<String>,
    /// The last moment at which the new access token is valid.
    pub until: Time,
}

fn copy_token(token: &Option<String>) -> (copy: Option<String>)
    ensures
        token_view(copy) == token_view(*token),
{
    match token {
        Some(t) => Some(t.clone()),
        None => None,
    }
}

impl Clone for IssuedToken {
    fn clone(&self) -> (copy: Self)
        ensures
            copy.token@ == self.token@,
            token_view(copy.refresh) == token_view(self.refresh),
            copy.until == self.until,
    {
        IssuedToken {
            token: self.token.clone(),
            refresh: copy_token(&self.refresh),
            until: self.until,
        }
    }
}

impl Clone for RefreshedToken {
    fn clone(&self) -> (copy: Self)
        ensures
            copy.token@ == self.token@,
            token_view(copy.refresh) == token_view(self.refresh),
            copy.until == self.until,
    {
        RefreshedToken {
            token: self.token.clone(),
            refresh: copy_token(&self.refresh),
            until: self.until,
        }
    }
}

/// The view of a token that may be absent.
pub open spec fn token_view(token: Option<String>) -> Option<Seq<char>> {
    match token {
        Some(t) => Some(t@),
        None => None,
    }
}

/// What an issuer does about refresh tokens. The choice is made once, when
/// the issuer is built.
#[derive(Clone, Copy, Debug, PartialEq, Eq)]
pub struct IssuerPolicy {
    /// Whether a refresh token is issued along with an access token.
    pub refresh_tokens: bool,
    /// Whether a refresh replaces the refresh token that was presented.
    pub rotate: bool,
}

/// The mathematical model of an issuer.
#[verifier::ext_equal]
pub struct IssuerState {
    /// The access tokens and their grants.
    pub access: Map<Seq<char>, GrantView>,
    /// The refresh tokens that can still be used, and their grants.
    pub refresh: Map<Seq<char>, GrantView>,
    /// The refresh tokens that were replaced.
    pub spent: Set<Seq<char>>,
    /// The issuer's time.
    pub now: nat,
    pub policy: IssuerPolicy,
}

impl IssuerState {
    /// Whether `token` was ever handed out.
    pub open spec fn known(self, token: Seq<char>) -> bool {
        self.access.contains_key(token) || self.refresh.contains_key(token) || self.spent.contains(
            token,
        )
    }

    /// A new token must be long enough and must never have been handed out.
    pub open spec fn accepts(self, token: Seq<char>) -> bool {
        byte_len(token) >= MIN_TAG_BYTES && !self.known(token)
    }

    /// A new access token and a new refresh token must both be accepted and
    /// must differ.
    pub open spec fn accepts_pair(self, access: Seq<char>, refresh: Option<Seq<char>>) -> bool {
        &&& self.accepts(access)
        &&& refresh matches Some(r) ==> self.accepts(r) && r != access
    }

    /// The grant that presenting `token` as an access token yields: none
    /// for a token that is unknown or whose grant is no longer valid.
    pub open spec fn token_grant(self, token: Seq<char>) -> Option<GrantView> {
        if self.access.contains_key(token) && self.access[token].live_at(self.now) {
            Some(self.access[token])
        } else {
            None
        }
    }

    /// The grant that presenting `token` as a refresh token yields.
    pub open spec fn refresh_grant(self, token: Seq<char>) -> Option<GrantView> {
        if self.refresh.contains_key(token) && self.refresh[token].live_at(self.now) {
            Some(self.refresh[token])
        } else {
            None
        }
    }

    /// The state after `access`, and `refresh` if there is one, were issued
    /// for `grant`.
    pub open spec fn issue(
        self,
        access: Seq<char>,
        refresh: Option<Seq<char>>,
        grant: GrantView,
    ) -> Self {
        IssuerState {
            access: self.access.insert(access, grant),
            refresh: match refresh {
                Some(r) => self.refresh.insert(r, grant),
                None => self.refresh,
            },
            ..self
        }
    }

    /// The state after the refresh token `presented` was used. With a new
    /// refresh token, `presented` is spent and the new one takes its place
    /// in one step; without, `presented` stays and is bound to `grant`.
    pub open spec fn renew(
        self,
        presented: Seq<char>,
        access: Seq<char>,
        refresh: Option<Seq<char>>,
        grant: GrantView,
    ) -> Self {
        match refresh {
            Some(r) => IssuerState {
                access: self.access.insert(access, grant),
                refresh: self.refresh.remove(presented).insert(r, grant),
                spent: self.spent.insert(presented),
                ..self
            },
            None => IssuerState {
                access: self.access.insert(access, grant),
                refresh: self.refresh.insert(presented, grant),
                ..self
            },
        }
    }

    /// The state after the issuer was told the time. Time never goes back.
    pub open spec fn at(self, now: nat) -> Self {
        IssuerState { now: if now > self.now { now } else { self.now }, ..self }
    }

    /// What becomes of the tokens that a generator handed out: they are
    /// issued as they are where the issuer accepts the pair, and not at all
    /// where it does not.
    pub open spec fn tokens_of(self, access: Seq<char>, refresh: Option<Seq<char>>) -> Option<
        (Seq<char>, Option<Seq<char>>),
    > {
        if self.accepts_pair(access, refresh) {
            Some((access, refresh))
        } else {
            None
        }
    }
}

/// What becomes of what an asking of the generator gave: the tokens, where
/// the generator made them and the issuer accepts them.
pub open spec fn tokens_asked(state: IssuerState, asked: Result<(String, Option<String>), ()>)
    -> Option<(Seq<char>, Option<Seq<char>>)> {
    match asked {
        Ok(pair) => state.tokens_of(pair.0@, token_view(pair.1)),
        Err(_) => None,
    }
}

/// The tokens that an issue ended with, if it ended well.
pub open spec fn issued_tokens(issued: Result<IssuedToken, ()>) -> Option<
    (Seq<char>, Option<Seq<char>>),
> {
    match issued {
        Ok(t) => Some((t.token@, token_view(t.refresh))),
        Err(_) => None,
    }
}

/// The tokens that a refresh ended with, if it ended well.
pub open spec fn renewed_tokens(renewed: Result<RefreshedToken, ()>) -> Option<
    (Seq<char>, Option<Seq<char>>),
> {
    match renewed {
        Ok(t) => Some((t.token@, token_view(t.refresh))),
        Err(_) => None,
    }
}

/// The usage number after an issue or a refresh: two further where tokens
/// were issued, the same where none were.
pub open spec fn usage_after(usage: u64, tokens: Option<(Seq<char>, Option<Seq<char>>)>) -> u64 {
    if tokens is Some {
        usage.wrapping_add(2)
    } else {
        usage
    }
}

/// Issuers create access and refresh tokens and recover the grant from them.
///
/// A failure (`Err`) never changes the store. Absence (`Ok(None)`) is no
/// failure, and does not tell an unknown token from an expired one.
pub trait Issuer {
    /// The model of the store.
    spec fn view(&self) -> IssuerState;

    /// Issues an access token for `grant`, and a refresh token where the
    /// policy says so. Both are new.
    fn issue(&mut self, grant: Grant) -> (issued: Result<IssuedToken, ()>)
        ensures
            match issued {
                Ok(t) => {
                    &&& t.refresh is Some <==> old(self)@.policy.refresh_tokens
                    &&& t.until == grant.until
                    &&& old(self)@.accepts_pair(t.token@, token_view(t.refresh))
                    &&& final(self)@ == old(self)@.issue(t.token@, token_view(t.refresh), grant@)
                },
                Err(_) => final(self)@ == old(self)@,
            },
    ;

    /// Exchanges the refresh token `refresh` for a new access token bound to
    /// `grant`. Where the policy rotates, a new refresh token replaces the
    /// one presented, in the same step. The refresh token must be in use and
    /// its grant still valid.
    fn refresh(&mut self, refresh: &str, grant: Grant) -> (renewed: Result<RefreshedToken, ()>)
        ensures
            old(self)@.refresh_grant(refresh@) is None ==> renewed is Err,
            match renewed {
                Ok(t) => {
                    &&& t.refresh is Some <==> old(self)@.policy.rotate
                    &&& t.until == grant.until
                    &&& old(self)@.accepts_pair(t.token@, token_view(t.refresh))
                    &&& final(self)@ == old(self)@.renew(
                        refresh@,
                        t.token@,
                        token_view(t.refresh),
                        grant@,
                    )
                },
                Err(_) => final(self)@ == old(self)@,
            },
    ;

    /// The grant of an access token. The token stays in use.
    fn recover_token(&self, token: &str) -> (grant: Result<Option<Grant>, ()>)
        ensures
            grant matches Ok(found) ==> grant_view(found) == self@.token_grant(token@),
    ;

    /// The grant of a refresh token. The token stays in use.
    fn recover_refresh(&self, token: &str) -> (grant: Result<Option<Grant>, ()>)
        ensures
            grant matches Ok(found) ==> grant_view(found) == self@.refresh_grant(token@),
    ;
}

/// An issuer that keeps its tokens in memory.
///
/// The tokens come from a generator chosen at construction. The time is what
/// its owner last told it with [`InMemoryIssuer::set_time`].
pub struct InMemoryIssuer<G> {
    generator: G,
    usage: u64,
    access: StringMap<Grant>,
    refresh: StringMap<Grant>,
    spent: Vec<String>,
    now: Time,
    policy: IssuerPolicy,
}

impl<G: TokenGenerator> InMemoryIssuer<G> {
    /// The generator from which the tokens come, in its present state.
    pub closed spec fn generator(&self) -> G {
        self.generator
    }

    /// The number that the generator is handed for the next access token;
    /// for the refresh token that goes with it, it is handed the number
    /// after. It moves on by two whenever tokens are issued, and starts
    /// again after the greatest.
    pub closed spec fn usage(&self) -> u64 {
        self.usage
    }

    /// An issuer without tokens, at time zero.
    pub fn new(generator: G, policy: IssuerPolicy) -> (store: Self)
        ensures
            store@ == (IssuerState {
                access: Map::empty(),
                refresh: Map::empty(),
                spent: Set::empty(),
                now: 0,
                policy,
            }),
            store.generator() == generator,
            store.usage() == 0,
    {
        let spent: Vec<String> = Vec::new();
        assert(texts(spent@).to_set() =~= Set::<Seq<char>>::empty());
        InMemoryIssuer {
            generator,
            usage: 0,
            access: StringMap::new(),
            refresh: StringMap::new(),
            spent,
            now: 0,
            policy,
        }
    }

    /// Tells the issuer the time. An earlier time than it already has is
    /// ignored.
    pub fn set_time(&mut self, now: Time)
        ensures
            final(self)@ == old(self)@.at(now as nat),
            final(self).generator() == old(self).generator(),
            final(self).usage() == old(self).usage(),
    {
        if now > self.now {
            self.now = now;
        }
    }

    /// The issuer's time.
    pub fn time(&self) -> (now: Time)
        ensures
            now == self@.now,
    {
        self.now
    }

    /// What the issuer does about refresh tokens.
    pub fn policy(&self) -> (policy: IssuerPolicy)
        ensures
            policy == self@.policy,
    {
        self.policy
    }

    fn is_known(&self, token: &str) -> (known: bool)
        ensures
            known == self@.known(token@),
    {
        self.access.contains_key(token) || self.refresh.contains_key(token) || holds(
            &self.spent,
            token,
        )
    }

    fn is_accepted(&self, token: &str) -> (accepted: bool)
        ensures
            accepted == self@.accepts(token@),
    {
        token.as_bytes().len() >= MIN_TAG_BYTES && !self.is_known(token)
    }

    fn is_accepted_pair(&self, access: &str, refresh: &Option<String>) -> (accepted: bool)
        ensures
            accepted == self@.accepts_pair(access@, token_view(*refresh)),
    {
        if !self.is_accepted(access) {
            return false;
        }
        match refresh {
            Some(r) => self.is_accepted(r.as_str()) && !crate::text::str_eq(r.as_str(), access),
            None => true,
        }
    }

    /// Stores `grant` under the access token `access` and, where there is
    /// one, under the refresh token `refresh`, if the tokens are accepted:
    /// long enough, never handed out before, and different from each other.
    pub fn import(&mut self, access: String, refresh: Option<String>, grant: Grant) -> (issued:
        Result<IssuedToken, ()>)
        ensures
            match issued {
                Ok(t) => {
                    &&& t.token@ == access@
                    &&& token_view(t.refresh) == token_view(refresh)
                    &&& t.until == grant.until
                    &&& old(self)@.accepts_pair(access@, token_view(refresh))
                    &&& final(self)@ == old(self)@.issue(access@, token_view(refresh), grant@)
                },
                Err(_) => !old(self)@.accepts_pair(access@, token_view(refresh)) && final(self)@
                    == old(self)@,
            },
            final(self).generator() == old(self).generator(),
            final(self).usage() == old(self).usage(),
    {
        if !self.is_accepted_pair(access.as_str(), &refresh) {
            return Err(());
        }
        let until = grant.until;
        let handed_refresh = copy_token(&refresh);
        match refresh {
            Some(r) => {
                self.refresh.insert(r, grant.clone());
            },
            None => {},
        }
        self.access.insert(access.clone(), grant);
        Ok(IssuedToken { token: access, refresh: handed_refresh, until })
    }

    /// Uses the refresh token `presented`: stores `grant` under the new
    /// access token `access`. With a new refresh token `refresh`, the
    /// presented one is spent and the new one stored in its place; without,
    /// the presented one is bound to `grant`. Nothing happens unless the
    /// presented token is in use with a valid grant and the new tokens are
    /// accepted.
    pub fn renew(
        &mut self,
        presented: &str,
        access: String,
        refresh: Option<String>,
        grant: Grant,
    ) -> (renewed: Result<RefreshedToken, ()>)
        ensures
            match renewed {
                Ok(t) => {
                    &&& t.token@ == access@
                    &&& token_view(t.refresh) == token_view(refresh)
                    &&& t.until == grant.until
                    &&& old(self)@.refresh_grant(presented@) is Some
                    &&& old(self)@.accepts_pair(access@, token_view(refresh))
                    &&& final(self)@ == old(self)@.renew(
                        presented@,
                        access@,
                        token_view(refresh),
                        grant@,
                    )
                },
                Err(_) => {
                    &&& old(self)@.refresh_grant(presented@) is None || !old(self)@.accepts_pair(
                        access@,
                        token_view(refresh),
                    )
                    &&& final(self)@ == old(self)@
                },
            },
            final(self).generator() == old(self).generator(),
            final(self).usage() == old(self).usage(),
    {
        if !self.is_usable_refresh(presented) || !self.is_accepted_pair(access.as_str(), &refresh) {
            return Err(());
        }
        let until = grant.until;
        let handed_refresh = copy_token(&refresh);
        match refresh {
            Some(r) => {
                let ghost spent_before = self.spent@;
                self.refresh.remove(presented);
                self.refresh.insert(r, grant.clone());
                self.spent.push(presented.to_owned());
                proof {
                    assert(texts(self.spent@) =~= texts(spent_before).push(presented@));
                    assert(texts(spent_before).push(presented@).to_set() =~= texts(
                        spent_before,
                    ).to_set().insert(presented@)) by {
                        crate::text::lemma_push_to_set(texts(spent_before), presented@);
                    }
                }
            },
            None => {
                self.refresh.insert(presented.to_owned(), grant.clone());
            },
        }
        self.access.insert(access.clone(), grant);
        Ok(RefreshedToken { token: access, refresh: handed_refresh, until })
    }

    fn is_usable_refresh(&self, token: &str) -> (usable: bool)
        ensures
            usable == self@.refresh_grant(token@) is Some,
    {
        match self.refresh.get(token) {
            Some(grant) => grant.is_live_at(self.now),
            None => false,
        }
    }
}

impl<G: TokenGenerator> Issuer for InMemoryIssuer<G> {
    closed spec fn view(&self) -> IssuerState {
        IssuerState {
            access: self.access@,
            refresh: self.refresh@,
            spent: texts(self.spent@).to_set(),
            now: self.now as nat,
            policy: self.policy,
        }
    }

    /// Asks the generator, for an access token and, where the policy issues
    /// refresh tokens, for a refresh token as well, and issues what it hands
    /// out if the issuer accepts it. It fails where the generator fails or
    /// hands out anything else, and only there.
    fn issue(&mut self, grant: Grant) -> (issued: Result<IssuedToken, ()>)
        ensures
            exists|asked: Result<(String, Option<String>), ()>, g: &mut G|
                mut_ref_current(g) == old(self).generator()
                    && mut_ref_future(g) == final(self).generator()
                    && #[trigger] call_ensures(
                    generate_tokens::<G>,
                    (g, old(self).usage(), old(self)@.policy.refresh_tokens, &grant),
                    asked,
                ) && issued_tokens(issued) == tokens_asked(old(self)@, asked),
            final(self).usage() == usage_after(old(self).usage(), issued_tokens(issued)),
    {
        let asked = generate_tokens(&mut self.generator, self.usage, self.policy.refresh_tokens, &grant);
        let ghost handed = asked;
        let ghost after = self.generator;
        assert(exists|g: &mut G|
            mut_ref_current(g) == old(self).generator() && mut_ref_future(g) == after
                && #[trigger] call_ensures(
                generate_tokens::<G>,
                (g, old(self).usage(), old(self)@.policy.refresh_tokens, &grant),
                handed,
            ));
        let (access, refresh) = match asked {
            Ok(pair) => pair,
            Err(_) => {
                return Err(());
            },
        };
        let issued = self.import(access, refresh, grant);
        if issued.is_ok() {
            self.usage = self.usage.wrapping_add(2);
        }
        issued
    }

    /// Fails at once, without asking the generator, where the refresh token
    /// cannot be used. Else it asks the generator, for an access token and,
    /// where the policy rotates, for a refresh token as well, and issues
    /// what it hands out if the issuer accepts it. It fails where the
    /// generator fails or hands out anything else.
    fn refresh(&mut self, refresh: &str, grant: Grant) -> (renewed: Result<RefreshedToken, ()>)
        ensures
            old(self)@.refresh_grant(refresh@) is None ==> final(self).generator() == old(
                self,
            ).generator(),
            old(self)@.refresh_grant(refresh@) is Some ==> exists|
                asked: Result<(String, Option<String>), ()>,
                g: &mut G,
            |
                mut_ref_current(g) == old(self).generator()
                    && mut_ref_future(g) == final(self).generator()
                    && #[trigger] call_ensures(
                    generate_tokens::<G>,
                    (g, old(self).usage(), old(self)@.policy.rotate, &grant),
                    asked,
                ) && renewed_tokens(renewed) == tokens_asked(old(self)@, asked),
            final(self).usage() == usage_after(old(self).usage(), renewed_tokens(renewed)),
    {
        if !self.is_usable_refresh(refresh) {
            return Err(());
        }
        let asked = generate_tokens(&mut self.generator, self.usage, self.policy.rotate, &grant);
        let ghost handed = asked;
        let ghost after = self.generator;
        assert(exists|g: &mut G|
            mut_ref_current(g) == old(self).generator() && mut_ref_future(g) == after
                && #[trigger] call_ensures(
                generate_tokens::<G>,
                (g, old(self).usage(), old(self)@.policy.rotate, &grant),
                handed,
            ));
        let (access, rotated) = match asked {
            Ok(pair) => pair,
            Err(_) => {
                return Err(());
            },
        };
        let renewed = self.renew(refresh, access, rotated, grant);
        if renewed.is_ok() {
            self.usage = self.usage.wrapping_add(2);
        }
        renewed
    }

    /// Never fails.
    fn recover_token(&self, token: &str) -> (grant: Result<Option<Grant>, ()>)
        ensures
            grant is Ok,
    {
        match self.access.get(token) {
            Some(grant) => {
                if grant.is_live_at(self.now) {
                    Ok(Some(grant.clone()))
                } else {
                    Ok(None)
                }
            },
            None => Ok(None),
        }
    }

    /// Never fails.
    fn recover_refresh(&self, token: &str) -> (grant: Result<Option<Grant>, ()>)
        ensures
            grant is Ok,
    {
        match self.refresh.get(token) {
            Some(grant) => {
                if grant.is_live_at(self.now) {
                    Ok(Some(grant.clone()))
                } else {
                    Ok(None)
                }
            },
            None => Ok(None),
        }
    }
}

/// A token that was just issued hands back its grant up to the grant's last
/// moment and nothing after it, however the time moves on. The same holds of
/// the refresh token that was issued with it.
pub proof fn law_issued_token_is_recovered_until_expiry(
    s: IssuerState,
    access: Seq<char>,
    refresh: Option<Seq<char>>,
    grant: GrantView,
    later: nat,
)
    requires
        s.accepts_pair(access, refresh),
    ensures
        ({
            let t = s.issue(access, refresh, grant).at(later);
            &&& t.now <= grant.until ==> t.token_grant(access) == Some(grant)
            &&& t.now > grant.until ==> t.token_grant(access) == None::<GrantView>
            &&& refresh matches Some(r) ==> {
                &&& t.now <= grant.until ==> t.refresh_grant(r) == Some(grant)
                &&& t.now > grant.until ==> t.refresh_grant(r) == None::<GrantView>
            }
        }),
{
}

/// A refresh that rotates invalidates the refresh token that was presented,
/// and puts the new one in use, in one step: afterwards the presented token
/// yields no grant, so that a second refresh with it fails, and it is never
/// accepted as a new token again.
pub proof fn law_rotation_invalidates_presented_token(
    s: IssuerState,
    presented: Seq<char>,
    access: Seq<char>,
    refresh: Seq<char>,
    grant: GrantView,
    later: nat,
)
    requires
        s.refresh_grant(presented) is Some,
        s.accepts_pair(access, Some(refresh)),
    ensures
        ({
            let t = s.renew(presented, access, Some(refresh), grant);
            &&& t.refresh_grant(presented) == None::<GrantView>
            &&& t.at(later).refresh_grant(presented) == None::<GrantView>
            &&& !t.accepts(presented)
            &&& t.refresh.contains_key(refresh)
            &&& t.refresh[refresh] == grant
            &&& t.access.contains_key(access)
            &&& t.access[access] == grant
        }),
{
}

/// A refresh that does not rotate leaves the presented refresh token in use
/// and binds it to the grant that came with the refresh.
pub proof fn law_refresh_without_rotation_keeps_token(
    s: IssuerState,
    presented: Seq<char>,
    access: Seq<char>,
    grant: GrantView,
)
    requires
        s.refresh_grant(presented) is Some,
        s.accepts_pair(access, None),
    ensures
        ({
            let t = s.renew(presented, access, None, grant);
            &&& t.refresh.contains_key(presented)
            &&& t.refresh[presented] == grant
            &&& t.spent == s.spent
        }),
{
}

/// No token is handed out twice: whatever an issuer has handed out it knows
/// for ever, and it accepts as new only what it does not know.
pub proof fn law_tokens_are_never_reused(
    s: IssuerState,
    token: Seq<char>,
    presented: Seq<char>,
    access: Seq<char>,
    refresh: Option<Seq<char>>,
    grant: GrantView,
    later: nat,
)
    requires
        s.known(token),
    ensures
        !s.accepts(token),
        s.issue(access, refresh, grant).known(token),
        s.renew(presented, access, refresh, grant).known(token),
        s.at(later).known(token),
{
}

} // verus!
