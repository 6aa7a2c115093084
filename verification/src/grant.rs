//! Grants: the record of an approved authorization.

use vstd::prelude::*;
use crate::scope::Scope;
use crate::uri::RedirectUri;

verus! {

/// A point in time, in seconds since an epoch that the caller chooses.
pub type Time = u64;

/// The record of an approved authorization.
///
/// A grant does not change once it is made. Codes and tokens are issued for
/// it, and it is handed back when one of them is presented.
#[derive(Debug, PartialEq, Eq)]
pub struct Grant {
    /// The owner of the resource.
    pub owner_id: String,
    /// The client to which the grant was made.
    pub client_id: String,
    /// What the client may do.
    pub scope: Scope,
    /// Where the client is sent back to.
    pub redirect_uri: RedirectUri,
    /// When the grant was made.
    pub issued_at: Time,
    /// The last moment at which the grant is valid.
    pub until: Time,
}

/// What a [`Grant`] holds, as plain mathematical values.
#[verifier::ext_equal]
pub struct GrantView {
    pub owner_id: Seq<char>,
    pub client_id: Seq<char>,
    pub scope: Set<Seq<char>>,
    pub redirect_uri: Seq<char>,
    pub issued_at: nat,
    pub until: nat,
}

impl GrantView {
    /// A grant is valid up to and including its last moment.
    pub open spec fn live_at(self, now: nat) -> bool {
        now <= self.until
    }
}

impl View for Grant {
    type V = GrantView;

    open spec fn view(&self) -> GrantView {
        GrantView {
            owner_id: self.owner_id@,
            client_id: self.client_id@,
            scope: self.scope@,
            redirect_uri: self.redirect_uri@,
            issued_at: self.issued_at as nat,
            until: self.until as nat,
        }
    }
}

impl Grant {
    /// Whether the grant is still valid at `now`.
    pub fn is_live_at(&self, now: Time) -> (live: bool)
        ensures
            live == self@.live_at(now as nat),
    {
        now <= self.until
    }
}

impl Clone for Grant {
    fn clone(&self) -> (copy: Self)
        ensures
            copy@ == self@,
    {
        Grant {
            owner_id: self.owner_id.clone(),
            client_id: self.client_id.clone(),
            scope: self.scope.clone(),
            redirect_uri: self.redirect_uri.clone(),
            issued_at: self.issued_at,
            until: self.until,
        }
    }
}

/// The view of a grant that may be absent.
pub open spec fn grant_view(grant: Option<Grant>) -> Option<GrantView> {
    match grant {
        Some(g) => Some(g@),
        None => None,
    }
}

} // verus!
