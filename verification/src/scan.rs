use vstd::prelude::*;

verus! {

/// The pattern `pat` occurs in `text` starting at position `j`.
pub open spec fn match_at(text: Seq<u8>, pat: Seq<u8>, j: int) -> bool {
    &&& 0 <= j
    &&& j + pat.len() <= text.len()
    &&& text.subrange(j, j + pat.len() as int) == pat
}

/// How many non-overlapping occurrences of `pat` a left-to-right scan
/// of `text` finds from position `i` on: at each match the scan jumps
/// past it, otherwise it advances one byte.
pub open spec fn count_from(text: Seq<u8>, pat: Seq<u8>, i: int) -> nat
    decreases text.len() - i when pat.len() > 0
{
    if i < 0 || i + pat.len() > text.len() {
        0
    } else if match_at(text, pat, i) {
        1 + count_from(text, pat, i + pat.len() as int)
    } else {
        count_from(text, pat, i + 1)
    }
}

/// How many non-overlapping occurrences of `pat` occur in `text`,
/// leftmost first.
pub open spec fn count_matches(text: Seq<u8>, pat: Seq<u8>) -> nat {
    count_from(text, pat, 0)
}

/// `pat` occurs somewhere in `text`.
pub open spec fn contains_match(text: Seq<u8>, pat: Seq<u8>) -> bool {
    count_matches(text, pat) > 0
}

/// The scan from `i` finds at most one occurrence per position left.
proof fn lemma_count_from_le(text: Seq<u8>, pat: Seq<u8>, i: int)
    requires
        pat.len() > 0,
    ensures
        count_from(text, pat, i) <= (if i < 0 || text.len() - i < 0 {
            0
        } else {
            text.len() - i
        }),
    decreases text.len() - i,
{
    if i >= 0 && i + pat.len() <= text.len() {
        if match_at(text, pat, i) {
            lemma_count_from_le(text, pat, i + pat.len() as int);
        } else {
            lemma_count_from_le(text, pat, i + 1);
        }
    }
}

fn matches_at(text: &[u8], pat: &[u8], j: usize) -> (r: bool)
    requires
        j + pat@.len() <= text@.len(),
    ensures
        r == match_at(text@, pat@, j as int),
{
    let text_len = text.len();
    let mut k: usize = 0;
    while k < pat.len()
        invariant
            0 <= k <= pat@.len(),
            j + pat@.len() <= text@.len(),
            text_len == text@.len(),
            forall|m: int| 0 <= m < k ==> text@[j + m] == pat@[m],
        decreases pat@.len() - k,
    {
        if text[j + k] != pat[k] {
            proof {
                assert(text@.subrange(j as int, j + pat@.len() as int)[k as int] != pat@[k as int]);
            }
            return false;
        }
        k += 1;
    }
    proof {
        assert(text@.subrange(j as int, j + pat@.len() as int) =~= pat@);
    }
    true
}

/// How often `pat` occurs in `text`: non-overlapping occurrences,
/// scanned leftmost first.
pub fn count_occurrences(text: &[u8], pat: &[u8]) -> (r: usize)
    requires
        pat@.len() >= 1,
    ensures
        r as nat == count_matches(text@, pat@),
{
    if text.len() < pat.len() {
        return 0;
    }
    let last: usize = text.len() - pat.len();
    let mut i: usize = 0;
    let mut count: usize = 0;
    while i <= last
        invariant
            0 <= i,
            pat@.len() >= 1,
            last == text@.len() - pat@.len(),
            last < usize::MAX,
            text@.len() <= usize::MAX,
            count_matches(text@, pat@) == count + count_from(text@, pat@, i as int),
            count <= i,
        decreases text@.len() - i,
    {
        proof {
            lemma_count_from_le(text@, pat@, i as int);
        }
        if matches_at(text, pat, i) {
            count += 1;
            i += pat.len();
        } else {
            i += 1;
        }
    }
    count
}

/// Whether `pat` occurs anywhere in `text`.
pub fn occurs_in(text: &[u8], pat: &[u8]) -> (r: bool)
    requires
        pat@.len() >= 1,
    ensures
        r == contains_match(text@, pat@),
{
    count_occurrences(text, pat) > 0
}

} // verus!
