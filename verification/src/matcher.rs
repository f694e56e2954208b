//! Byte-pattern matching: locating every occurrence of a fixed pattern
//! inside a byte buffer.

use vstd::prelude::*;

verus! {

/// Pattern `p` occurs in buffer `b` at position `i`.
pub open spec fn matches_at(b: Seq<u8>, p: Seq<u8>, i: int) -> bool {
    0 <= i && i + p.len() <= b.len() && b.subrange(i, i + p.len()) == p
}

/// The ordered sequence of all positions `>= i` at which `p` occurs in `b`.
pub open spec fn match_offsets_from(b: Seq<u8>, p: Seq<u8>, i: int) -> Seq<int>
    decreases b.len() - i,
{
    if p.len() == 0 || i < 0 || i + p.len() > b.len() {
        Seq::empty()
    } else if matches_at(b, p, i) {
        seq![i] + match_offsets_from(b, p, i + 1)
    } else {
        match_offsets_from(b, p, i + 1)
    }
}

/// The ordered sequence of all positions at which `p` occurs in `b`.
pub open spec fn match_offsets(b: Seq<u8>, p: Seq<u8>) -> Seq<int> {
    match_offsets_from(b, p, 0)
}

/// Every listed position is a genuine occurrence at or after the scan start.
pub proof fn lemma_match_offsets_from_sound(b: Seq<u8>, p: Seq<u8>, i: int, k: int)
    requires
        0 <= k < match_offsets_from(b, p, i).len(),
    ensures
        matches_at(b, p, match_offsets_from(b, p, i)[k]),
        match_offsets_from(b, p, i)[k] >= i,
    decreases b.len() - i,
{
    if p.len() == 0 || i < 0 || i + p.len() > b.len() {
    } else if matches_at(b, p, i) {
        if k == 0 {
        } else {
            lemma_match_offsets_from_sound(b, p, i + 1, k - 1);
        }
    } else {
        lemma_match_offsets_from_sound(b, p, i + 1, k);
    }
}

/// Every genuine occurrence at or after the scan start is listed.
pub proof fn lemma_match_offsets_from_complete(b: Seq<u8>, p: Seq<u8>, i: int, j: int)
    requires
        p.len() > 0,
        0 <= i <= j,
        matches_at(b, p, j),
    ensures
        match_offsets_from(b, p, i).contains(j),
    decreases j - i,
{
    if i == j {
        assert(match_offsets_from(b, p, i)[0] == j);
    } else {
        lemma_match_offsets_from_complete(b, p, i + 1, j);
        let tail = match_offsets_from(b, p, i + 1);
        let witness = choose|k: int| 0 <= k < tail.len() && tail[k] == j;
        if matches_at(b, p, i) {
            assert(match_offsets_from(b, p, i)[witness + 1] == j);
        } else {
            assert(match_offsets_from(b, p, i)[witness] == j);
        }
    }
}

/// The listed positions are strictly increasing.
pub proof fn lemma_match_offsets_from_sorted(b: Seq<u8>, p: Seq<u8>, i: int, k1: int, k2: int)
    requires
        0 <= k1 < k2 < match_offsets_from(b, p, i).len(),
    ensures
        match_offsets_from(b, p, i)[k1] < match_offsets_from(b, p, i)[k2],
    decreases b.len() - i,
{
    if p.len() == 0 || i < 0 || i + p.len() > b.len() {
    } else if matches_at(b, p, i) {
        if k1 == 0 {
            lemma_match_offsets_from_sound(b, p, i + 1, k2 - 1);
        } else {
            lemma_match_offsets_from_sorted(b, p, i + 1, k1 - 1, k2 - 1);
        }
    } else {
        lemma_match_offsets_from_sorted(b, p, i + 1, k1, k2);
    }
}

/// If `j` is the earliest occurrence of `p` in `b`, it heads the match list.
pub proof fn lemma_match_offsets_first(b: Seq<u8>, p: Seq<u8>, j: int)
    requires
        p.len() > 0,
        matches_at(b, p, j),
        forall|m: int| 0 <= m < j ==> !matches_at(b, p, m),
    ensures
        match_offsets(b, p).len() > 0,
        match_offsets(b, p)[0] == j,
{
    lemma_match_offsets_from_complete(b, p, 0, j);
    let ms = match_offsets(b, p);
    let witness = choose|k: int| 0 <= k < ms.len() && ms[k] == j;
    lemma_match_offsets_from_sound(b, p, 0, 0);
    if ms[0] != j {
        lemma_match_offsets_from_sorted(b, p, 0, 0, witness);
        assert(!matches_at(b, p, ms[0]));
    }
}

/// If `p` occurs nowhere in `b`, the match list is empty.
pub proof fn lemma_match_offsets_empty(b: Seq<u8>, p: Seq<u8>)
    requires
        forall|j: int| !matches_at(b, p, j),
    ensures
        match_offsets(b, p) == Seq::<int>::empty(),
{
    let ms = match_offsets(b, p);
    if ms.len() > 0 {
        lemma_match_offsets_from_sound(b, p, 0, 0);
    }
    assert(ms =~= Seq::<int>::empty());
}

/// Does `pattern` occur in `buffer` at position `i`?
fn bytes_match_at(buffer: &[u8], pattern: &[u8], i: usize) -> (r: bool)
    requires
        i + pattern@.len() <= buffer@.len(),
    ensures
        r == matches_at(buffer@, pattern@, i as int),
{
    let pat_len = pattern.len();
    let buf_len = buffer.len();
    let mut k: usize = 0;
    while k < pat_len
        invariant
            i + pattern@.len() <= buffer@.len(),
            buffer@.len() <= usize::MAX,
            pat_len == pattern@.len(),
            0 <= k <= pat_len,
            forall|m: int| 0 <= m < k ==> buffer@[i + m] == pattern@[m],
        decreases pat_len - k,
    {
        if buffer[i + k] != pattern[k] {
            proof {
                let sub = buffer@.subrange(i as int, i + pattern@.len());
                assert(sub[k as int] == buffer@[i + k]);
            }
            return false;
        }
        k += 1;
    }
    proof {
        let sub = buffer@.subrange(i as int, i + pattern@.len());
        assert(sub =~= pattern@);
    }
    true
}

/// All starting offsets at which `pattern` occurs in `buffer`, left to right.
///
/// Returns an empty vector, never an error, when the pattern is longer than
/// the buffer or no occurrence exists.
pub fn find_all_matches(buffer: &[u8], pattern: &[u8]) -> (r: Vec<usize>)
    requires
        pattern@.len() > 0,
    ensures
        r@.map_values(|x: usize| x as int) == match_offsets(buffer@, pattern@),
{
    let mut result: Vec<usize> = Vec::new();
    if pattern.len() > buffer.len() {
        proof {
            assert(result@.map_values(|x: usize| x as int) =~= match_offsets(buffer@, pattern@));
        }
        return result;
    }
    let bound = buffer.len() - pattern.len();
    let mut i: usize = 0;
    while i <= bound
        invariant
            pattern@.len() > 0,
            buffer@.len() <= usize::MAX,
            bound == buffer@.len() - pattern@.len(),
            0 <= i <= bound + 1,
            result@.map_values(|x: usize| x as int) + match_offsets_from(buffer@, pattern@, i as int)
                == match_offsets(buffer@, pattern@),
        decreases bound + 1 - i,
    {
        let ghost prev = result@;
        if bytes_match_at(buffer, pattern, i) {
            result.push(i);
            proof {
                assert(result@.map_values(|x: usize| x as int)
                    =~= prev.map_values(|x: usize| x as int) + seq![i as int]);
                assert(prev.map_values(|x: usize| x as int) + match_offsets_from(buffer@, pattern@, i as int)
                    =~= result@.map_values(|x: usize| x as int)
                        + match_offsets_from(buffer@, pattern@, i + 1));
            }
        }
        i += 1;
    }
    proof {
        assert(match_offsets_from(buffer@, pattern@, i as int) =~= Seq::<int>::empty());
        assert(result@.map_values(|x: usize| x as int)
            =~= result@.map_values(|x: usize| x as int) + Seq::<int>::empty());
    }
    result
}

/// The earliest starting offset at which `signature` occurs in `buffer`,
/// or `None` when it occurs nowhere.
pub fn find_static_signature(buffer: &[u8], signature: &[u8]) -> (r: Option<usize>)
    requires
        signature@.len() > 0,
    ensures
        match r {
            Some(i) => match_offsets(buffer@, signature@).len() > 0
                && match_offsets(buffer@, signature@)[0] == i as int
                && matches_at(buffer@, signature@, i as int),
            None => match_offsets(buffer@, signature@) == Seq::<int>::empty()
                && (forall|j: int| !matches_at(buffer@, signature@, j)),
        },
{
    if signature.len() > buffer.len() {
        proof {
            lemma_match_offsets_empty(buffer@, signature@);
        }
        return None;
    }
    let bound = buffer.len() - signature.len();
    let mut i: usize = 0;
    while i <= bound
        invariant
            signature@.len() > 0,
            buffer@.len() <= usize::MAX,
            bound == buffer@.len() - signature@.len(),
            0 <= i <= bound + 1,
            forall|j: int| 0 <= j < i ==> !matches_at(buffer@, signature@, j),
        decreases bound + 1 - i,
    {
        if bytes_match_at(buffer, signature, i) {
            proof {
                lemma_match_offsets_first(buffer@, signature@, i as int);
            }
            return Some(i);
        }
        i += 1;
    }
    proof {
        lemma_match_offsets_empty(buffer@, signature@);
    }
    None
}

} // verus!

