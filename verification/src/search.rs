//! Searching a byte string for a word.

use vstd::prelude::*;

verus! {

/// `word` stands in `hay` at index `i`.
pub open spec fn occurs_at(hay: Seq<u8>, word: Seq<u8>, i: int) -> bool {
    0 <= i && i + word.len() <= hay.len() && hay.subrange(i, i + word.len()) == word
}

/// `word` stands somewhere in `hay`.
pub open spec fn mentions(hay: Seq<u8>, word: Seq<u8>) -> bool {
    exists|i: int| occurs_at(hay, word, i)
}

/// Whether two byte strings are equal.
pub fn bytes_equal(a: &[u8], b: &[u8]) -> (equal: bool)
    ensures
        equal == (a@ == b@),
{
    if a.len() != b.len() {
        return false;
    }
    let mut k: usize = 0;
    while k < a.len()
        invariant
            a.len() == b.len(),
            k <= a.len(),
            forall|j: int| 0 <= j < k ==> a@[j] == b@[j],
        decreases a.len() - k,
    {
        if a[k] != b[k] {
            return false;
        }
        k += 1;
    }
    assert(a@ =~= b@);
    true
}

/// Whether `word` stands in `hay` at index `i`.
pub fn starts_at(hay: &[u8], word: &[u8], i: usize) -> (found: bool)
    ensures
        found == occurs_at(hay@, word@, i as int),
{
    if word.len() > hay.len() || i > hay.len() - word.len() {
        return false;
    }
    let mut k: usize = 0;
    while k < word.len()
        invariant
            i + word.len() <= hay.len(),
            k <= word.len(),
            forall|j: int| 0 <= j < k ==> hay@[i + j] == word@[j],
        decreases word.len() - k,
    {
        if hay[i + k] != word[k] {
            assert(hay@.subrange(i as int, i + word.len())[k as int] != word@[k as int]);
            return false;
        }
        k += 1;
    }
    assert(hay@.subrange(i as int, i + word.len()) =~= word@);
    true
}

/// Whether `word` stands somewhere in `hay`.
pub fn contains(hay: &[u8], word: &[u8]) -> (found: bool)
    ensures
        found == mentions(hay@, word@),
{
    if word.len() > hay.len() {
        return false;
    }
    let last: usize = hay.len() - word.len();
    let mut i: usize = 0;
    while i < last
        invariant
            last == hay.len() - word.len(),
            i <= last,
            forall|j: int| 0 <= j < i ==> !occurs_at(hay@, word@, j),
        decreases last - i,
    {
        if starts_at(hay, word, i) {
            return true;
        }
        i += 1;
    }
    starts_at(hay, word, last)
}

} // verus!
