//! Searching a byte sequence for a byte or for a pair of bytes.

use vstd::prelude::*;
use vstd::slice::slice_index_get;

verus! {

/// The least index `i >= from` with `s[i] == b`, if there is one.
pub open spec fn find_byte(s: Seq<u8>, from: int, b: u8) -> Option<int>
    decreases s.len() - from,
{
    if from < 0 || from >= s.len() {
        None
    } else if s[from] == b {
        Some(from)
    } else {
        find_byte(s, from + 1, b)
    }
}

/// The least index `i >= from` with `s[i] == b0` and `s[i + 1] == b1`, if
/// there is one.
pub open spec fn find_pair(s: Seq<u8>, from: int, b0: u8, b1: u8) -> Option<int>
    decreases s.len() - from,
{
    if from < 0 || from + 1 >= s.len() {
        None
    } else if s[from] == b0 && s[from + 1] == b1 {
        Some(from)
    } else {
        find_pair(s, from + 1, b0, b1)
    }
}

/// Whether the pair `b0 b1` stands at index `j` of `s`.
pub open spec fn pair_at(s: Seq<u8>, j: int, b0: u8, b1: u8) -> bool {
    0 <= j && j + 1 < s.len() && s[j] == b0 && s[j + 1] == b1
}

/// `find_byte` returns the first occurrence at or after `from`, and `None`
/// exactly when there is no occurrence.
pub proof fn lemma_find_byte(s: Seq<u8>, from: int, b: u8)
    requires
        0 <= from,
    ensures
        match find_byte(s, from, b) {
            Some(i) => from <= i < s.len() && s[i] == b && forall|j: int|
                from <= j < i ==> s[j] != b,
            None => forall|j: int| from <= j < s.len() ==> s[j] != b,
        },
    decreases s.len() - from,
{
    if from < s.len() && s[from] != b {
        lemma_find_byte(s, from + 1, b);
    }
}

/// `find_pair` returns the first occurrence of the pair at or after `from`,
/// and `None` exactly when there is no occurrence.
pub proof fn lemma_find_pair(s: Seq<u8>, from: int, b0: u8, b1: u8)
    requires
        0 <= from,
    ensures
        match find_pair(s, from, b0, b1) {
            Some(i) => from <= i && pair_at(s, i, b0, b1) && forall|j: int|
                from <= j < i ==> !pair_at(s, j, b0, b1),
            None => forall|j: int| from <= j ==> !pair_at(s, j, b0, b1),
        },
    decreases s.len() - from,
{
    if from + 1 < s.len() && !(s[from] == b0 && s[from + 1] == b1) {
        lemma_find_pair(s, from + 1, b0, b1);
    }
}

/// Position of the first `b` in `bytes` at or after `from`.
pub fn position_of_byte(bytes: &[u8], from: usize, b: u8) -> (r: Option<usize>)
    ensures
        match r {
            Some(i) => find_byte(bytes@, from as int, b) == Some(i as int) && from <= i
                < bytes@.len(),
            None => find_byte(bytes@, from as int, b).is_none(),
        },
{
    let mut i: usize = from;
    while i < bytes.len()
        invariant
            from <= i,
            find_byte(bytes@, from as int, b) == find_byte(bytes@, i as int, b),
        decreases bytes.len() - i,
    {
        if *slice_index_get(bytes, i) == b {
            return Some(i);
        }
        i = i + 1;
    }
    None
}

/// Position of the first pair `b0 b1` in `bytes` at or after `from`.
pub fn position_of_pair(bytes: &[u8], from: usize, b0: u8, b1: u8) -> (r: Option<usize>)
    ensures
        match r {
            Some(i) => find_pair(bytes@, from as int, b0, b1) == Some(i as int) && from <= i
                && i + 1 < bytes@.len(),
            None => find_pair(bytes@, from as int, b0, b1).is_none(),
        },
{
    let mut i: usize = from;
    while i < bytes.len() && i + 1 < bytes.len()
        invariant
            from <= i,
            find_pair(bytes@, from as int, b0, b1) == find_pair(bytes@, i as int, b0, b1),
        decreases bytes.len() - i,
    {
        if *slice_index_get(bytes, i) == b0 && *slice_index_get(bytes, i + 1) == b1 {
            return Some(i);
        }
        i = i + 1;
    }
    None
}

} // verus!
