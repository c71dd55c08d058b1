//! Whitespace trimming over character sequences, shared by the reply
//! unwrapping and the note validation.

use vstd::prelude::*;

verus! {

/// The whitespace characters the trimming recognises.
pub open spec fn is_space(c: char) -> bool {
    c == ' ' || c == '\t' || c == '\n' || c == '\r'
}

/// Whether one character counts as whitespace.
pub fn char_is_space(c: char) -> (r: bool)
    ensures
        r == is_space(c),
{
    c == ' ' || c == '\t' || c == '\n' || c == '\r'
}

/// The sequence with its leading whitespace removed.
pub open spec fn trim_start_spec(s: Seq<char>) -> Seq<char>
    decreases s.len(),
{
    if s.len() > 0 && is_space(s[0]) {
        trim_start_spec(s.drop_first())
    } else {
        s
    }
}

/// The sequence with its trailing whitespace removed.
pub open spec fn trim_end_spec(s: Seq<char>) -> Seq<char>
    decreases s.len(),
{
    if s.len() > 0 && is_space(s.last()) {
        trim_end_spec(s.drop_last())
    } else {
        s
    }
}

/// The sequence with whitespace removed at both ends.
pub open spec fn trim_spec(s: Seq<char>) -> Seq<char> {
    trim_end_spec(trim_start_spec(s))
}

/// Trimming the start keeps a suffix: it equals skipping the leading run of
/// whitespace, however long that run is.
pub proof fn lemma_trim_start_window(s: Seq<char>, i: int)
    requires
        0 <= i <= s.len(),
        forall|k: int| 0 <= k < i ==> is_space(s[k]),
        i == s.len() || !is_space(s[i]),
    ensures
        trim_start_spec(s) == s.skip(i),
    decreases i,
{
    if i == 0 {
        assert(s.skip(0) =~= s);
    } else {
        let d = s.drop_first();
        assert(forall|k: int| 0 <= k < i - 1 ==> is_space(d[k]));
        lemma_trim_start_window(d, i - 1);
        assert(d.skip(i - 1) =~= s.skip(i));
    }
}

/// Trimming the end keeps a prefix: it equals taking everything before the
/// trailing run of whitespace.
pub proof fn lemma_trim_end_window(s: Seq<char>, j: int)
    requires
        0 <= j <= s.len(),
        forall|k: int| j <= k < s.len() ==> is_space(s[k]),
        j == 0 || !is_space(s[j - 1]),
    ensures
        trim_end_spec(s) == s.take(j),
    decreases s.len() - j,
{
    if j == s.len() {
        assert(s.take(j) =~= s);
    } else {
        let d = s.drop_last();
        assert(forall|k: int| j <= k < d.len() ==> is_space(d[k]));
        lemma_trim_end_window(d, j);
        assert(d.take(j) =~= s.take(j));
    }
}

/// Scan a window of a string for its whitespace-trimmed core: the returned
/// pair of indices delimits exactly the trim of the given window.
pub(crate) fn trim_window(s: &str, lo0: usize, hi0: usize) -> (w: (usize, usize))
    requires
        lo0 <= hi0 <= s@.len(),
    ensures
        lo0 <= w.0 <= w.1 <= hi0,
        trim_spec(s@.subrange(lo0 as int, hi0 as int)) == s@.subrange(w.0 as int, w.1 as int),
{
    let mut lo = lo0;
    while lo < hi0 && char_is_space(s.get_char(lo))
        invariant
            lo0 <= lo <= hi0 <= s@.len(),
            forall|k: int| lo0 <= k < lo ==> is_space(s@[k]),
        decreases hi0 - lo,
    {
        lo = lo + 1;
    }
    let mut hi = hi0;
    while hi > lo && char_is_space(s.get_char(hi - 1))
        invariant
            lo <= hi <= hi0 <= s@.len(),
            forall|k: int| hi <= k < hi0 ==> is_space(s@[k]),
        decreases hi,
    {
        hi = hi - 1;
    }
    proof {
        let sub = s@.subrange(lo0 as int, hi0 as int);
        let i = lo - lo0;
        assert(forall|k: int| 0 <= k < i ==> is_space(sub[k]));
        lemma_trim_start_window(sub, i as int);
        let t1 = sub.skip(i as int);
        let j = hi - lo;
        assert(forall|k: int| j <= k < t1.len() ==> is_space(t1[k]));
        lemma_trim_end_window(t1, j as int);
        assert(t1.take(j as int) =~= s@.subrange(lo as int, hi as int));
    }
    (lo, hi)
}

} // verus!
