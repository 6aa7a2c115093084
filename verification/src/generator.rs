//! The source of codes and tokens.

use vstd::prelude::*;
use crate::grant::Grant;

verus! {

/// The least number of bytes that a code or token must have: fewer cannot
/// hold 128 bits of entropy.
pub const MIN_TAG_BYTES: usize = 16;

/// A source of codes and tokens.
///
/// A generator may draw random bytes and ignore its input, or sign the
/// grant; `usage` changes from call to call, so that one grant can be tagged
/// more than once. Nothing is asked of a generator here. The stores accept a
/// tag only after they have tested it themselves, and state what they return
/// over what a call of their generator gives: what a generator promises of
/// itself holds of the store that is built on it.
pub trait TokenGenerator {
    /// Makes a code or token for `grant`.
    fn generate(&mut self, usage: u64, grant: &Grant) -> Result<String, ()>;
}

/// Asks `generator` for an access token, with `grant` and the number
/// `usage`, and then, where `both` are wanted, for a refresh token, with
/// `grant` and the number after `usage`. A failure of the generator ends the
/// asking. The tokens come back as the generator made them; whether they
/// are fit to be issued is for the issuer to tell.
pub fn generate_tokens<G: TokenGenerator>(
    generator: &mut G,
    usage: u64,
    both: bool,
    grant: &Grant,
) -> (asked: Result<(String, Option<String>), ()>)
    ensures
        exists|first: Result<String, ()>, g1: &mut G|
            mut_ref_current(g1) == *old(generator) && #[trigger] call_ensures(
                G::generate,
                (g1, usage, grant),
                first,
            ) && match first {
                Err(_) => asked is Err && *final(generator) == mut_ref_future(g1),
                Ok(a) => if !both {
                    &&& *final(generator) == mut_ref_future(g1)
                    &&& asked == Ok::<(String, Option<String>), ()>((a, None))
                } else {
                    exists|second: Result<String, ()>, g2: &mut G|
                        mut_ref_current(g2) == mut_ref_future(g1)
                            && mut_ref_future(g2) == *final(generator)
                            && #[trigger] call_ensures(
                            G::generate,
                            (g2, usage.wrapping_add(1), grant),
                            second,
                        ) && match second {
                            Err(_) => asked is Err,
                            Ok(r) => asked == Ok::<(String, Option<String>), ()>((a, Some(r))),
                        }
                },
            },
{
    let first = generator.generate(usage, grant);
    let ghost handed = first;
    let ghost after_first = *generator;
    assert(exists|g1: &mut G|
        mut_ref_current(g1) == *old(generator) && mut_ref_future(g1) == after_first
            && #[trigger] call_ensures(G::generate, (g1, usage, grant), handed));
    let access = match first {
        Ok(token) => token,
        Err(_) => {
            return Err(());
        },
    };
    if !both {
        return Ok((access, None));
    }
    let second = generator.generate(usage.wrapping_add(1), grant);
    let ghost handed_next = second;
    let ghost after_second = *generator;
    assert(exists|g2: &mut G|
        mut_ref_current(g2) == after_first && mut_ref_future(g2) == after_second
            && #[trigger] call_ensures(G::generate, (g2, usage.wrapping_add(1), grant), handed_next));
    match second {
        Ok(refresh) => Ok((access, Some(refresh))),
        Err(_) => Err(()),
    }
}

} // verus!
