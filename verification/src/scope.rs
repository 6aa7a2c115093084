//! Scopes: sets of permission strings.

use vstd::prelude::*;
use vstd::std_specs::cmp::PartialEqSpecImpl;
use crate::text::{holds, lemma_push_contains, lemma_push_to_set, texts};

verus! {

/// A set of permission strings.
///
/// A scope is fulfilled when all of its permissions are; `a` is below `b`
/// when every permission of `a` is also one of `b`.
#[derive(Debug)]
pub struct Scope {
    tokens: Vec<String>,
}

impl View for Scope {
    type V = Set<Seq<char>>;

    closed spec fn view(&self) -> Set<Seq<char>> {
        texts(self.tokens@).to_set()
    }
}

impl Scope {
    #[verifier::type_invariant]
    spec fn distinct_tokens(self) -> bool {
        texts(self.tokens@).no_duplicates()
    }

    /// The scope without any permission.
    pub fn new() -> (scope: Self)
        ensures
            scope@ == Set::<Seq<char>>::empty(),
    {
        let scope = Scope { tokens: Vec::new() };
        assert(scope@ =~= Set::<Seq<char>>::empty());
        scope
    }

    /// The scope that holds exactly the given permissions.
    pub fn from_tokens(tokens: Vec<String>) -> (scope: Self)
        ensures
            scope@ == texts(tokens@).to_set(),
    {
        let mut kept: Vec<String> = Vec::new();
        let mut i: usize = 0;
        while i < tokens.len()
            invariant
                i <= tokens@.len(),
                texts(kept@).no_duplicates(),
                texts(kept@).to_set() == texts(tokens@.take(i as int)).to_set(),
            decreases tokens@.len() - i,
        {
            let ghost before = kept@;
            let was_kept = holds(&kept, tokens[i].as_str());
            if !was_kept {
                kept.push(tokens[i].clone());
                assert(texts(kept@) =~= texts(before).push(tokens@[i as int]@));
            }
            proof {
                let seen = texts(tokens@.take(i as int));
                let next = texts(tokens@.take(i + 1));
                assert(next =~= seen.push(tokens@[i as int]@));
                assert(texts(kept@).to_set() =~= texts(before).to_set().insert(
                    tokens@[i as int]@,
                )) by {
                    if was_kept {
                        assert(texts(kept@) == texts(before));
                    } else {
                        lemma_push_to_set(texts(before), tokens@[i as int]@);
                    }
                }
                lemma_push_to_set(seen, tokens@[i as int]@);
            }
            i += 1;
        }
        assert(tokens@.take(tokens@.len() as int) == tokens@);
        Scope { tokens: kept }
    }

    /// The number of permissions.
    pub fn len(&self) -> (n: usize)
        ensures
            self@.finite(),
            n == self@.len(),
    {
        proof {
            use_type_invariant(self);
            texts(self.tokens@).unique_seq_to_set();
            vstd::seq_lib::seq_to_set_is_finite(texts(self.tokens@));
        }
        self.tokens.len()
    }

    /// Whether the scope holds no permission.
    pub fn is_empty(&self) -> (empty: bool)
        ensures
            empty == (self@ == Set::<Seq<char>>::empty()),
    {
        proof {
            if self.tokens@.len() > 0 {
                assert(texts(self.tokens@)[0] == self.tokens@[0]@);
                assert(self@.contains(self.tokens@[0]@));
            } else {
                assert(self@ =~= Set::<Seq<char>>::empty());
            }
        }
        self.tokens.len() == 0
    }

    /// Whether `token` is one of the permissions.
    pub fn contains(&self, token: &str) -> (found: bool)
        ensures
            found == self@.contains(token@),
    {
        holds(&self.tokens, token)
    }

    /// Whether every permission of this scope is also one of `other`.
    pub fn is_subset_of(&self, other: &Scope) -> (below: bool)
        ensures
            below == self@.subset_of(other@),
    {
        let mut i: usize = 0;
        while i < self.tokens.len()
            invariant
                i <= self.tokens@.len(),
                forall|j: int| 0 <= j < i ==> other@.contains(#[trigger] texts(self.tokens@)[j]),
            decreases self.tokens@.len() - i,
        {
            if !other.contains(self.tokens[i].as_str()) {
                assert(self@.contains(texts(self.tokens@)[i as int]));
                return false;
            }
            i += 1;
        }
        true
    }

    /// The permissions that this scope and `other` have in common.
    pub fn intersect(&self, other: &Scope) -> (common: Self)
        ensures
            common@ == self@.intersect(other@),
    {
        proof {
            use_type_invariant(self);
        }
        let mut kept: Vec<String> = Vec::new();
        let mut i: usize = 0;
        while i < self.tokens.len()
            invariant
                i <= self.tokens@.len(),
                texts(self.tokens@).no_duplicates(),
                texts(kept@).no_duplicates(),
                forall|t: Seq<char>| #[trigger]
                    texts(kept@).contains(t) <==> other@.contains(t) && texts(
                        self.tokens@.take(i as int),
                    ).contains(t),
            decreases self.tokens@.len() - i,
        {
            let ghost before = kept@;
            let ghost seen = texts(self.tokens@.take(i as int));
            let ghost token = self.tokens@[i as int]@;
            let shared = other.contains(self.tokens[i].as_str());
            if shared {
                proof {
                    if texts(before).contains(token) {
                        let j = seen.index_of(token);
                        assert(texts(self.tokens@)[j] == token);
                        assert(texts(self.tokens@)[i as int] == token);
                    }
                }
                kept.push(self.tokens[i].clone());
                assert(texts(kept@) =~= texts(before).push(token));
            }
            proof {
                let next = texts(self.tokens@.take(i + 1));
                assert(next =~= seen.push(token));
                assert forall|t: Seq<char>| #[trigger]
                    texts(kept@).contains(t) <==> other@.contains(t) && next.contains(t) by {
                    lemma_push_contains(seen, token, t);
                    if shared {
                        lemma_push_contains(texts(before), token, t);
                    }
                }
            }
            i += 1;
        }
        assert(self.tokens@.take(self.tokens@.len() as int) == self.tokens@);
        let common = Scope { tokens: kept };
        assert(common@ =~= self@.intersect(other@));
        common
    }

    /// The permissions, each once, in no particular order.
    pub fn tokens(&self) -> (tokens: Vec<String>)
        ensures
            texts(tokens@).to_set() == self@,
            texts(tokens@).no_duplicates(),
    {
        proof {
            use_type_invariant(self);
        }
        let mut copy: Vec<String> = Vec::new();
        let mut i: usize = 0;
        while i < self.tokens.len()
            invariant
                i <= self.tokens@.len(),
                texts(copy@) == texts(self.tokens@.take(i as int)),
            decreases self.tokens@.len() - i,
        {
            let ghost before = copy@;
            copy.push(self.tokens[i].clone());
            proof {
                let token = self.tokens@[i as int]@;
                assert(texts(copy@) =~= texts(before).push(token));
                assert(texts(self.tokens@.take(i + 1)) =~= texts(
                    self.tokens@.take(i as int),
                ).push(token));
            }
            i += 1;
        }
        assert(self.tokens@.take(self.tokens@.len() as int) == self.tokens@);
        copy
    }
}

impl Clone for Scope {
    fn clone(&self) -> (copy: Self)
        ensures
            copy@ == self@,
    {
        Scope { tokens: self.tokens() }
    }
}

impl PartialEq for Scope {
    fn eq(&self, other: &Self) -> (same: bool) {
        let same = self.is_subset_of(other) && other.is_subset_of(self);
        assert(same == (self@ =~= other@));
        same
    }
}

impl Eq for Scope {}

impl PartialEqSpecImpl for Scope {
    open spec fn obeys_eq_spec() -> bool {
        true
    }

    open spec fn eq_spec(&self, other: &Self) -> bool {
        self@ == other@
    }
}

} // verus!
