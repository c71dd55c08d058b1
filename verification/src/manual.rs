//! Manual-entry helpers: quick-note validation and the data-URI form a saved
//! screenshot is handed back in.

use vstd::prelude::*;

use crate::encoding::{b64_encode, b64_encode_of};
use crate::textops::trim_spec;
use crate::textops::trim_window;

verus! {

/// A quick note is accepted exactly when it holds any non-whitespace text.
pub fn note_content_is_valid(content: &str) -> (r: bool)
    ensures
        r == (trim_spec(content@).len() != 0),
{
    let n = content.unicode_len();
    let (lo, hi) = trim_window(content, 0, n);
    proof {
        assert(content@.subrange(0, n as int) =~= content@);
    }
    hi > lo
}

/// Index of the first newline in a text, or -1 where there is none.
pub open spec fn first_nl(s: Seq<char>) -> int
    decreases s.len(),
{
    if s.len() == 0 {
        -1
    } else if s[0] == '\n' {
        0
    } else if first_nl(s.drop_first()) < 0 {
        -1
    } else {
        first_nl(s.drop_first()) + 1
    }
}

/// What the first-newline index means: it points at the first newline, or
/// is negative exactly when the text holds none.
pub proof fn lemma_first_nl(s: Seq<char>)
    ensures
        first_nl(s) >= 0 ==> first_nl(s) < s.len() && s[first_nl(s)] == '\n',
        first_nl(s) < 0 ==> forall|k: int| 0 <= k < s.len() ==> s[k] != '\n',
    decreases s.len(),
{
    if s.len() > 0 && s[0] != '\n' {
        lemma_first_nl(s.drop_first());
        if first_nl(s) < 0 {
            assert forall|k: int| 0 <= k < s.len() implies s[k] != '\n' by {
                if k > 0 {
                    assert(s.drop_first()[k - 1] == s[k]);
                }
            }
        }
    }
}

/// Scanning a prefix without newlines up to position `j` determines the
/// first-newline index.
proof fn lemma_first_nl_window(s: Seq<char>, j: int)
    requires
        0 <= j <= s.len(),
        forall|k: int| 0 <= k < j ==> s[k] != '\n',
        j == s.len() || s[j] == '\n',
    ensures
        j == s.len() ==> first_nl(s) < 0,
        j < s.len() ==> first_nl(s) == j,
    decreases j,
{
    if j == 0 {
        if s.len() > 0 && s[0] != '\n' {
            lemma_first_nl(s);
        }
    } else {
        let d = s.drop_first();
        assert(forall|k: int| 0 <= k < j - 1 ==> d[k] != '\n');
        lemma_first_nl_window(d, j - 1);
    }
}

/// A split-off line with one carriage return stripped where the line ended
/// in a carriage-return/newline pair.
pub open spec fn strip_cr(line: Seq<char>) -> Seq<char> {
    if line.len() > 0 && line.last() == '\r' {
        line.drop_last()
    } else {
        line
    }
}

/// The lines of a text: split at newlines, each split-off line with its
/// trailing carriage return stripped; a final line ending yields no extra
/// empty line.
pub open spec fn spec_lines(s: Seq<char>) -> Seq<Seq<char>>
    decreases s.len(),
    via spec_lines_decreases
{
    if s.len() == 0 {
        Seq::empty()
    } else {
        let i = first_nl(s);
        if i < 0 {
            seq![s]
        } else {
            seq![strip_cr(s.take(i))] + spec_lines(s.skip(i + 1))
        }
    }
}

#[via_fn]
proof fn spec_lines_decreases(s: Seq<char>) {
    lemma_first_nl(s);
}

/// Lines joined by single newlines, with no trailing newline.
pub open spec fn spec_join_nl(ls: Seq<Seq<char>>) -> Seq<char>
    decreases ls.len(),
{
    if ls.len() == 0 {
        Seq::empty()
    } else if ls.len() == 1 {
        ls[0]
    } else {
        ls[0] + "\n"@ + spec_join_nl(ls.drop_first())
    }
}

/// Joining works line by line from the left: appending one line appends a
/// separator (except to an empty join) and the line.
pub proof fn lemma_join_push(ls: Seq<Seq<char>>, l: Seq<char>)
    ensures
        spec_join_nl(ls.push(l)) == if ls.len() == 0 {
            l
        } else {
            spec_join_nl(ls) + "\n"@ + l
        },
    decreases ls.len(),
{
    if ls.len() == 0 {
        assert(ls.push(l)[0] == l);
        assert(spec_join_nl(ls.push(l)) == l);
    } else if ls.len() == 1 {
        assert(ls.push(l)[0] == ls[0]);
        assert(ls.push(l).drop_first() =~= seq![l]);
        assert(spec_join_nl(seq![l]) == l);
        assert(spec_join_nl(ls) == ls[0]);
    } else {
        assert(ls.push(l)[0] == ls[0]);
        assert(ls.push(l).drop_first() =~= ls.drop_first().push(l));
        lemma_join_push(ls.drop_first(), l);
        assert(ls[0] + "\n"@ + (spec_join_nl(ls.drop_first()) + "\n"@ + l) =~= (ls[0] + "\n"@
            + spec_join_nl(ls.drop_first())) + "\n"@ + l);
    }
}

/// The last `n` lines of a text, rejoined by newlines.
pub open spec fn spec_tail_lines(s: Seq<char>, n: int) -> Seq<char> {
    let ls = spec_lines(s);
    if ls.len() <= n {
        spec_join_nl(ls)
    } else {
        spec_join_nl(ls.skip(ls.len() - n))
    }
}

/// The last `n` lines of a log text, joined by newlines: lines are split at
/// newlines, a trailing carriage return is stripped from each split-off
/// line, and a final line ending does not count as an extra empty line.
#[verifier::rlimit(40)]
pub fn tail_lines(content: &str, n: usize) -> (r: String)
    ensures
        r@ == spec_tail_lines(content@, n as int),
{
    let len = content.unicode_len();
    let mut lines: Vec<String> = Vec::new();
    let mut start: usize = 0;
    let mut i: usize = 0;
    proof {
        assert(content@.skip(0) =~= content@);
        assert(lines.deep_view() + spec_lines(content@) =~= spec_lines(content@));
    }
    while i < len
        invariant
            start <= i <= len == content@.len(),
            forall|k: int| start <= k < i ==> content@[k] != '\n',
            spec_lines(content@) == lines.deep_view() + spec_lines(content@.skip(start as int)),
        decreases len - i,
    {
        if content.get_char(i) == '\n' {
            let line_end = if i > start && content.get_char(i - 1) == '\r' {
                i - 1
            } else {
                i
            };
            let line = content.substring_char(start, line_end).to_owned();
            let ghost dv0 = lines.deep_view();
            let ghost u = content@.skip(start as int);
            proof {
                assert(forall|k: int| 0 <= k < i - start ==> u[k] != '\n');
                lemma_first_nl_window(u, i - start);
                assert(strip_cr(u.take(i - start)) =~= line@);
                assert(u.skip(i - start + 1) =~= content@.skip(i + 1));
                assert(spec_lines(u) == seq![line@] + spec_lines(content@.skip(i + 1)));
            }
            lines.push(line);
            proof {
                assert(lines.deep_view() =~= dv0.push(line@));
                assert(dv0 + (seq![line@] + spec_lines(content@.skip(i + 1))) =~= dv0.push(
                    line@,
                ) + spec_lines(content@.skip(i + 1)));
            }
            start = i + 1;
        }
        i = i + 1;
    }
    let ghost ls = spec_lines(content@);
    if start < len {
        let line = content.substring_char(start, len).to_owned();
        let ghost dv0 = lines.deep_view();
        let ghost u = content@.skip(start as int);
        proof {
            assert(forall|k: int| 0 <= k < u.len() ==> u[k] != '\n');
            lemma_first_nl_window(u, u.len() as int);
            assert(u =~= line@);
            assert(spec_lines(u) == seq![line@]);
        }
        lines.push(line);
        proof {
            assert(lines.deep_view() =~= dv0.push(line@));
            assert(dv0 + seq![line@] =~= dv0.push(line@));
            assert(lines.deep_view() == ls);
        }
    } else {
        proof {
            assert(content@.skip(start as int).len() == 0);
            assert(spec_lines(content@.skip(start as int)) == Seq::<Seq<char>>::empty());
            assert(lines.deep_view() + Seq::<Seq<char>>::empty() =~= lines.deep_view());
            assert(lines.deep_view() == ls);
        }
    }
    let total = lines.len();
    let start_idx: usize = if total > n {
        total - n
    } else {
        0
    };
    let mut out = String::new();
    let mut k: usize = start_idx;
    proof {
        assert(ls.subrange(start_idx as int, start_idx as int) =~= Seq::<Seq<char>>::empty());
    }
    while k < total
        invariant
            start_idx <= k <= total == lines@.len(),
            lines.deep_view() == ls,
            out@ == spec_join_nl(ls.subrange(start_idx as int, k as int)),
        decreases total - k,
    {
        if k > start_idx {
            out.append("\n");
        }
        out.append(lines[k].as_str());
        proof {
            let prefix = ls.subrange(start_idx as int, k as int);
            lemma_join_push(prefix, ls[k as int]);
            assert(prefix.push(ls[k as int]) =~= ls.subrange(start_idx as int, k + 1));
            if k > start_idx {
                assert(out@ =~= spec_join_nl(prefix) + "\n"@ + ls[k as int]);
            } else {
                assert(prefix.len() == 0);
            }
            assert(out@ =~= spec_join_nl(ls.subrange(start_idx as int, k + 1)));
        }
        k = k + 1;
    }
    proof {
        if total <= n {
            assert(ls.subrange(start_idx as int, total as int) =~= ls);
        } else {
            assert(ls.subrange(start_idx as int, total as int) =~= ls.skip(ls.len() - n));
        }
    }
    out
}

/// The data-URI form of an encoded image, as the front end previews it.
pub fn screenshot_data_uri(image_bytes: &Vec<u8>) -> (r: String)
    ensures
        r@ == "data:image/png;base64,"@ + b64_encode_of(image_bytes@),
{
    let mut r = String::from_str("data:image/png;base64,");
    let b64 = b64_encode(image_bytes);
    r.append(b64.as_str());
    r
}

} // verus!
