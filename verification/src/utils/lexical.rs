//! The lexicographic order of byte strings.

use vstd::prelude::*;

verus! {

/// Holds when, from position `from` on, `a` comes before `b` in
/// lexicographic order or is equal to it, the bytes before `from` being
/// taken as equal.
pub open spec fn lex_le_from(a: Seq<u8>, b: Seq<u8>, from: int) -> bool
    decreases a.len() - from,
{
    if from < 0 || from >= a.len() {
        true
    } else if from >= b.len() {
        false
    } else if a[from] < b[from] {
        true
    } else if a[from] > b[from] {
        false
    } else {
        lex_le_from(a, b, from + 1)
    }
}

/// Holds when `a` comes before `b` in lexicographic order or is equal to it.
pub open spec fn lex_le(a: Seq<u8>, b: Seq<u8>) -> bool {
    lex_le_from(a, b, 0)
}

/// Of two byte strings, one comes before the other or they are equal.
pub proof fn lemma_lex_le_total(a: Seq<u8>, b: Seq<u8>, from: int)
    requires
        0 <= from,
    ensures
        lex_le_from(a, b, from) || lex_le_from(b, a, from),
    decreases a.len() - from,
{
    if from < a.len() && from < b.len() && a[from] == b[from] {
        lemma_lex_le_total(a, b, from + 1);
    }
}

/// The lexicographic order is transitive.
pub proof fn lemma_lex_le_transitive(a: Seq<u8>, b: Seq<u8>, c: Seq<u8>, from: int)
    requires
        0 <= from,
        lex_le_from(a, b, from),
        lex_le_from(b, c, from),
    ensures
        lex_le_from(a, c, from),
    decreases a.len() - from,
{
    if from < a.len() && a[from] == b[from] && b[from] == c[from] {
        lemma_lex_le_transitive(a, b, c, from + 1);
    }
}

/// Two byte strings each of which comes no later than the other are equal
/// from `from` on.
pub proof fn lemma_lex_le_antisymmetric(a: Seq<u8>, b: Seq<u8>, from: int)
    requires
        0 <= from <= a.len(),
        from <= b.len(),
        lex_le_from(a, b, from),
        lex_le_from(b, a, from),
    ensures
        a.len() == b.len(),
        forall|i: int| from <= i < a.len() ==> a[i] == b[i],
    decreases a.len() - from,
{
    if from < a.len() {
        lemma_lex_le_antisymmetric(a, b, from + 1);
    }
}

/// Tells whether `a` comes before `b` in lexicographic order or is equal to
/// it.
pub fn bytes_le(a: &[u8], b: &[u8]) -> (le: bool)
    ensures
        le == lex_le(a@, b@),
{
    let mut index: usize = 0;
    while index < a.len()
        invariant
            index <= a@.len(),
            lex_le(a@, b@) == lex_le_from(a@, b@, index as int),
        decreases a@.len() - index,
    {
        if index >= b.len() {
            return false;
        }
        if a[index] < b[index] {
            return true;
        }
        if a[index] > b[index] {
            return false;
        }
        index = index + 1;
    }
    true
}

} // verus!
