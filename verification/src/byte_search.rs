//! Searching a byte string for the right-most occurrence of another.

use vstd::prelude::*;

verus! {

/// `needle` occurs in `hay` at offset `pos`.
pub open spec fn occurs_at(hay: Seq<u8>, needle: Seq<u8>, pos: int) -> bool {
    &&& 0 <= pos
    &&& pos + needle.len() <= hay.len()
    &&& hay.subrange(pos, pos + needle.len()) == needle
}

/// `needle` occurs in `hay` at `pos` and nowhere to the right of it.
pub open spec fn is_last_occurrence(hay: Seq<u8>, needle: Seq<u8>, pos: int) -> bool {
    &&& occurs_at(hay, needle, pos)
    &&& forall|q: int| pos < q ==> !occurs_at(hay, needle, q)
}

/// Offset of the right-most occurrence of `needle` in `hay`, if there is one.
pub open spec fn last_occurrence(hay: Seq<u8>, needle: Seq<u8>) -> Option<int> {
    if exists|p: int| occurs_at(hay, needle, p) {
        Some(choose|p: int| is_last_occurrence(hay, needle, p))
    } else {
        None
    }
}

/// A right-most occurrence is the value of [`last_occurrence`].
pub proof fn lemma_last_occurrence_is(hay: Seq<u8>, needle: Seq<u8>, pos: int)
    requires
        is_last_occurrence(hay, needle, pos),
    ensures
        last_occurrence(hay, needle) == Some(pos),
{
    assert(occurs_at(hay, needle, pos));
    let p = choose|p: int| is_last_occurrence(hay, needle, p);
    assert(is_last_occurrence(hay, needle, p));
    if p < pos {
        assert(!occurs_at(hay, needle, pos));
    } else if pos < p {
        assert(!occurs_at(hay, needle, p));
    }
}

/// Where there is an occurrence, [`last_occurrence`] names the right-most one;
/// where there is none, it is `None`.
pub proof fn lemma_last_occurrence(hay: Seq<u8>, needle: Seq<u8>)
    ensures
        match last_occurrence(hay, needle) {
            Some(p) => is_last_occurrence(hay, needle, p),
            None => forall|q: int| !occurs_at(hay, needle, q),
        },
{
    if exists|p: int| occurs_at(hay, needle, p) {
        lemma_some_last(hay, needle, hay.len() - needle.len());
    }
}

/// Among the offsets up to `from`, either none is an occurrence or one is the
/// right-most of them.
proof fn lemma_some_last(hay: Seq<u8>, needle: Seq<u8>, from: int)
    requires
        forall|q: int| from < q ==> !occurs_at(hay, needle, q),
        exists|p: int| occurs_at(hay, needle, p),
    ensures
        exists|p: int| is_last_occurrence(hay, needle, p),
    decreases from + 1,
{
    if from < 0 {
        let p = choose|p: int| occurs_at(hay, needle, p);
        assert(false);
    } else if occurs_at(hay, needle, from) {
        assert(is_last_occurrence(hay, needle, from));
    } else {
        assert forall|q: int| from - 1 < q implies !occurs_at(hay, needle, q) by {
            if q != from {
                assert(from < q);
            }
        }
        lemma_some_last(hay, needle, from - 1);
    }
}

/// Whether `needle` occurs in `hay` at `pos`.
pub fn matches_at(hay: &[u8], needle: &[u8], pos: usize) -> (found: bool)
    requires
        pos + needle@.len() <= hay@.len(),
    ensures
        found == occurs_at(hay@, needle@, pos as int),
{
    let n = needle.len();
    let len = hay.len();
    let mut i: usize = 0;
    while i < n
        invariant
            n == needle@.len(),
            len == hay@.len(),
            i <= n,
            pos + n <= len,
            forall|k: int| 0 <= k < i ==> hay@[pos + k] == needle@[k],
        decreases n - i,
    {
        if hay[pos + i] != needle[i] {
            assert(hay@.subrange(pos as int, pos + n)[i as int] == hay@[pos + i]);
            return false;
        }
        i += 1;
    }
    assert(hay@.subrange(pos as int, pos + n) =~= needle@);
    true
}

/// Offset of the right-most occurrence of `needle` in `hay`.
///
/// An empty `needle` occurs at every offset, the length of `hay` included.
pub fn rfind(hay: &[u8], needle: &[u8]) -> (found: Option<usize>)
    ensures
        match found {
            Some(p) => is_last_occurrence(hay@, needle@, p as int) && last_occurrence(
                hay@,
                needle@,
            ) == Some(p as int),
            None => last_occurrence(hay@, needle@) is None,
        },
{
    if needle.len() > hay.len() {
        assert forall|q: int| !occurs_at(hay@, needle@, q) by {}
        return None;
    }
    let mut pos: usize = hay.len() - needle.len();
    loop
        invariant
            pos + needle@.len() <= hay@.len(),
            forall|q: int| pos < q ==> !occurs_at(hay@, needle@, q),
        decreases pos,
    {
        if matches_at(hay, needle, pos) {
            proof {
                lemma_last_occurrence_is(hay@, needle@, pos as int);
            }
            return Some(pos);
        }
        if pos == 0 {
            assert forall|q: int| !occurs_at(hay@, needle@, q) by {}
            return None;
        }
        pos -= 1;
    }
}

} // verus!
