//! Redirect URIs: the endpoints to which a client may be sent back.

use vstd::prelude::*;
use vstd::std_specs::cmp::PartialEqSpecImpl;
use crate::text::str_eq;

verus! {

/// The canonical text of the URL that `text` denotes, or `None` where `text`
/// is not a URL. It stands for what the parser of the `url` crate makes of
/// `text`; nothing else is known of it.
pub uninterp spec fn url_canonical(text: Seq<char>) -> Option<Seq<char>>;

/// Parses `text` with `url::Url::parse` and hands back the serialization of
/// the URL that was parsed. The parser reads its argument and nothing else,
/// so that its result has a name: `url_canonical(text)`, which is `None`
/// exactly where the parser reports an error.
#[verifier::external_body]
fn parse_url(text: &str) -> (canonical: Option<String>)
    ensures
        match canonical {
            Some(c) => url_canonical(text@) == Some(c@),
            None => url_canonical(text@) is None,
        },
{
    url::Url::parse(text).ok().map(String::from)
}

/// A redirect URI in canonical form.
///
/// Two redirect URIs are the same when their canonical texts are: that is
/// the policy by which a requested URI is matched against the registered ones.
#[derive(Debug)]
pub struct RedirectUri {
    text: String,
}

impl View for RedirectUri {
    type V = Seq<char>;

    closed spec fn view(&self) -> Seq<char> {
        self.text@
    }
}

impl RedirectUri {
    #[verifier::type_invariant]
    spec fn canonical(self) -> bool {
        exists|source: Seq<char>| #[trigger] url_canonical(source) == Some(self.text@)
    }

    /// Reads a redirect URI. The result is `None` where `text` is not a URL,
    /// else the URL in canonical form.
    pub fn parse(text: &str) -> (uri: Option<Self>)
        ensures
            match uri {
                Some(u) => url_canonical(text@) == Some(u@),
                None => url_canonical(text@) is None,
            },
    {
        match parse_url(text) {
            Some(canonical) => Some(RedirectUri { text: canonical }),
            None => None,
        }
    }

    /// The canonical text.
    pub fn as_str(&self) -> (text: &str)
        ensures
            text@ == self@,
    {
        self.text.as_str()
    }
}

impl Clone for RedirectUri {
    fn clone(&self) -> (copy: Self)
        ensures
            copy@ == self@,
    {
        proof {
            use_type_invariant(self);
        }
        RedirectUri { text: self.text.clone() }
    }
}

impl PartialEq for RedirectUri {
    fn eq(&self, other: &Self) -> (same: bool) {
        str_eq(self.text.as_str(), other.text.as_str())
    }
}

impl Eq for RedirectUri {}

impl PartialEqSpecImpl for RedirectUri {
    open spec fn obeys_eq_spec() -> bool {
        true
    }

    open spec fn eq_spec(&self, other: &Self) -> bool {
        self@ == other@
    }
}

} // verus!
