//! Comparison of string slices and byte strings.

use vstd::prelude::*;

verus! {

/// The number of bytes that the UTF-8 encoding of `s` occupies.
pub open spec fn byte_len(s: Seq<char>) -> nat {
    vstd::utf8::encode_utf8(s).len()
}

/// The texts that a sequence of strings holds, in the same order.
pub open spec fn texts(strings: Seq<String>) -> Seq<Seq<char>> {
    Seq::new(strings.len(), |i: int| strings[i]@)
}

/// Two texts with the same UTF-8 encoding are the same text.
pub proof fn lemma_encoding_injective(a: Seq<char>, b: Seq<char>)
    requires
        vstd::utf8::encode_utf8(a) == vstd::utf8::encode_utf8(b),
    ensures
        a == b,
{
    vstd::utf8::encode_utf8_decode_utf8(a);
    vstd::utf8::encode_utf8_decode_utf8(b);
}

/// Whether two byte strings are equal, element by element.
pub fn bytes_eq(a: &[u8], b: &[u8]) -> (same: bool)
    ensures
        same == (a@ == b@),
{
    if a.len() != b.len() {
        return false;
    }
    let mut i: usize = 0;
    while i < a.len()
        invariant
            a.len() == b.len(),
            i <= a.len(),
            a@.take(i as int) == b@.take(i as int),
        decreases a.len() - i,
    {
        if a[i] != b[i] {
            return false;
        }
        proof {
            assert(a@.take(i + 1) == a@.take(i as int).push(a@[i as int]));
            assert(b@.take(i + 1) == b@.take(i as int).push(b@[i as int]));
        }
        i += 1;
    }
    proof {
        assert(a@.take(a.len() as int) == a@);
        assert(b@.take(b.len() as int) == b@);
    }
    true
}

/// Whether two string slices hold the same text.
pub fn str_eq(a: &str, b: &str) -> (same: bool)
    ensures
        same == (a@ == b@),
{
    let same = bytes_eq(a.as_bytes(), b.as_bytes());
    proof {
        if same {
            lemma_encoding_injective(a@, b@);
        }
    }
    same
}

/// A text is in a sequence with one more element where it is in the
/// sequence or is that element.
pub proof fn lemma_push_contains(s: Seq<Seq<char>>, last: Seq<char>, t: Seq<char>)
    ensures
        s.push(last).contains(t) <==> s.contains(t) || t == last,
{
    let pushed = s.push(last);
    if s.contains(t) {
        let j = s.index_of(t);
        assert(pushed[j] == t);
    }
    if t == last {
        assert(pushed[s.len() as int] == t);
    }
    if pushed.contains(t) {
        let j = pushed.index_of(t);
        if j < s.len() {
            assert(s[j] == t);
        }
    }
}

/// The set of a sequence with one more element.
pub proof fn lemma_push_to_set(s: Seq<Seq<char>>, last: Seq<char>)
    ensures
        s.push(last).to_set() == s.to_set().insert(last),
{
    assert forall|t: Seq<char>| s.push(last).to_set().contains(t) <==> s.to_set().insert(
        last,
    ).contains(t) by {
        lemma_push_contains(s, last, t);
    }
    assert(s.push(last).to_set() =~= s.to_set().insert(last));
}

/// Whether `text` is one of `strings`.
pub fn holds(strings: &Vec<String>, text: &str) -> (found: bool)
    ensures
        found == texts(strings@).contains(text@),
{
    let mut i: usize = 0;
    while i < strings.len()
        invariant
            i <= strings@.len(),
            forall|j: int| 0 <= j < i ==> texts(strings@)[j] != text@,
        decreases strings@.len() - i,
    {
        if str_eq(strings[i].as_str(), text) {
            assert(texts(strings@)[i as int] == text@);
            return true;
        }
        i += 1;
    }
    false
}

} // verus!
