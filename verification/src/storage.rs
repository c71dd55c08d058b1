//! Record selection: the record type the durable log keeps, the timestamp
//! order on RFC 3339 texts, and the "today's records, newest first" query
//! logic. Reading rows and writing rows is the store's own work; which rows
//! belong to today and in what order they are handed out is decided here.

use vstd::prelude::*;
use vstd::multiset::Multiset;
use vstd::seq_lib::lemma_multiset_commutative;

verus! {

broadcast use
    vstd::seq_lib::group_to_multiset_ensures,
    vstd::multiset::group_multiset_axioms,
;

/// One unit of the durable append-only log.
#[derive(Debug, Clone)]
pub struct Record {
    pub id: i64,
    pub timestamp: String,
    pub source_type: String,
    pub content: String,
    pub screenshot_path: Option<String>,
}

/// Lexicographic order on texts by code point, the order RFC 3339 UTC
/// timestamps of one format sort chronologically in.
pub open spec fn lex_le(a: Seq<char>, b: Seq<char>) -> bool
    decreases a.len(),
{
    if a.len() == 0 {
        true
    } else if b.len() == 0 {
        false
    } else if (a[0] as u32) == (b[0] as u32) {
        lex_le(a.drop_first(), b.drop_first())
    } else {
        (a[0] as u32) < (b[0] as u32)
    }
}

/// The order is total: of any two texts one is less-or-equal the other.
pub proof fn lemma_lex_le_total(a: Seq<char>, b: Seq<char>)
    ensures
        lex_le(a, b) || lex_le(b, a),
    decreases a.len(),
{
    if a.len() > 0 && b.len() > 0 && (a[0] as u32) == (b[0] as u32) {
        lemma_lex_le_total(a.drop_first(), b.drop_first());
    }
}

/// The order is transitive.
pub proof fn lemma_lex_le_trans(a: Seq<char>, b: Seq<char>, c: Seq<char>)
    requires
        lex_le(a, b),
        lex_le(b, c),
    ensures
        lex_le(a, c),
    decreases a.len(),
{
    if a.len() > 0 {
        if (a[0] as u32) == (b[0] as u32) && (b[0] as u32) == (c[0] as u32) {
            lemma_lex_le_trans(a.drop_first(), b.drop_first(), c.drop_first());
        }
    }
}

/// With an equal prefix of scalars, the order is decided by the remainders.
proof fn lemma_lex_le_skip(a: Seq<char>, b: Seq<char>, i: int)
    requires
        0 <= i <= a.len(),
        i <= b.len(),
        forall|k: int| 0 <= k < i ==> (a[k] as u32) == (b[k] as u32),
    ensures
        lex_le(a, b) == lex_le(a.skip(i), b.skip(i)),
    decreases i,
{
    if i == 0 {
        assert(a.skip(0) =~= a);
        assert(b.skip(0) =~= b);
    } else {
        let da = a.drop_first();
        let db = b.drop_first();
        assert(forall|k: int| 0 <= k < i - 1 ==> (da[k] as u32) == (db[k] as u32));
        lemma_lex_le_skip(da, db, i - 1);
        assert(da.skip(i - 1) =~= a.skip(i));
        assert(db.skip(i - 1) =~= b.skip(i));
    }
}

/// Compare two texts in the lexicographic code-point order.
pub fn str_lex_le(a: &str, b: &str) -> (r: bool)
    ensures
        r == lex_le(a@, b@),
{
    let na = a.unicode_len();
    let nb = b.unicode_len();
    let mut i: usize = 0;
    while i < na && i < nb
        invariant
            na == a@.len(),
            nb == b@.len(),
            i <= na,
            i <= nb,
            forall|k: int| 0 <= k < i ==> (a@[k] as u32) == (b@[k] as u32),
        decreases na - i,
    {
        let ca = a.get_char(i) as u32;
        let cb = b.get_char(i) as u32;
        if ca != cb {
            proof {
                lemma_lex_le_skip(a@, b@, i as int);
            }
            return ca < cb;
        }
        i = i + 1;
    }
    proof {
        lemma_lex_le_skip(a@, b@, i as int);
        if i == na {
            assert(a@.skip(i as int).len() == 0);
        } else {
            assert(b@.skip(i as int).len() == 0);
            assert(a@.skip(i as int).len() > 0);
        }
    }
    na <= nb
}

/// The subsequence of records whose timestamp is at or after `day_start`,
/// in their stored order.
pub open spec fn records_on_or_after(records: Seq<Record>, day_start: Seq<char>) -> Seq<Record>
    decreases records.len(),
{
    if records.len() == 0 {
        Seq::empty()
    } else {
        let rest = records_on_or_after(records.drop_first(), day_start);
        if lex_le(day_start, records.first().timestamp@) {
            seq![records.first()] + rest
        } else {
            rest
        }
    }
}

/// Today's records: of all stored records exactly those whose timestamp is
/// at or after the given start of the day, ordered by timestamp descending
/// (newest first; equal timestamps in no particular order).
#[verifier::rlimit(40)]
pub fn get_today_records_sync(records: Vec<Record>, day_start: &str) -> (r: Vec<Record>)
    ensures
        r@.to_multiset() == records_on_or_after(records@, day_start@).to_multiset(),
        forall|i: int, j: int|
            0 <= i < j < r@.len() ==> lex_le(r@[j].timestamp@, r@[i].timestamp@),
{
    let mut rest = records;
    let ghost all = rest@;
    let mut out: Vec<Record> = Vec::new();
    proof {
        assert(Seq::<Record>::empty().to_multiset() =~= Multiset::<Record>::empty());
        assert(out@.to_multiset().add(records_on_or_after(rest@, day_start@).to_multiset())
            =~= records_on_or_after(all, day_start@).to_multiset());
    }
    while rest.len() > 0
        invariant
            out@.to_multiset().add(records_on_or_after(rest@, day_start@).to_multiset())
                == records_on_or_after(all, day_start@).to_multiset(),
            forall|i: int, j: int|
                0 <= i < j < out@.len() ==> lex_le(out@[j].timestamp@, out@[i].timestamp@),
        decreases rest.len(),
    {
        let ghost rest0 = rest@;
        let rec = rest.remove(0);
        proof {
            assert(rest@ =~= rest0.drop_first());
            assert(records_on_or_after(rest0, day_start@) == if lex_le(
                day_start@,
                rec.timestamp@,
            ) {
                seq![rec] + records_on_or_after(rest@, day_start@)
            } else {
                records_on_or_after(rest@, day_start@)
            });
        }
        if str_lex_le(day_start, rec.timestamp.as_str()) {
            proof {
                lemma_multiset_commutative(
                    seq![rec],
                    records_on_or_after(rest@, day_start@),
                );
                assert(seq![rec] =~= Seq::<Record>::empty().push(rec));
                assert(Seq::<Record>::empty().to_multiset() =~= Multiset::<Record>::empty());
                assert(seq![rec].to_multiset() =~= Multiset::<Record>::empty().insert(rec));
            }
            let ghost out0 = out@;
            let mut pos: usize = 0;
            while pos < out.len() && !str_lex_le(
                out[pos].timestamp.as_str(),
                rec.timestamp.as_str(),
            )
                invariant
                    pos <= out@.len(),
                    out@ == out0,
                    forall|k: int| 0 <= k < pos ==> !lex_le(out@[k].timestamp@, rec.timestamp@),
                decreases out@.len() - pos,
            {
                pos = pos + 1;
            }
            out.insert(pos, rec);
            proof {
                assert(out@ =~= out0.insert(pos as int, rec));
                assert forall|i: int, j: int|
                    0 <= i < j < out@.len() implies lex_le(
                    out@[j].timestamp@,
                    out@[i].timestamp@,
                ) by {
                    if j < pos {
                    } else if i < pos && j == pos {
                        lemma_lex_le_total(out0[i].timestamp@, rec.timestamp@);
                    } else if i < pos && j > pos {
                    } else if i == pos && j > pos {
                        if j - 1 > pos {
                            lemma_lex_le_trans(
                                out0[j - 1].timestamp@,
                                out0[pos as int].timestamp@,
                                rec.timestamp@,
                            );
                        }
                    }
                }
            }
        }
    }
    proof {
        assert(records_on_or_after(rest@, day_start@) == Seq::<Record>::empty());
        assert(Seq::<Record>::empty().to_multiset() =~= Multiset::<Record>::empty());
    }
    out
}

/// All of today's records for the daily summary: the same selection and
/// order as `get_today_records_sync`.
pub fn get_all_today_records_for_summary(records: Vec<Record>, day_start: &str) -> (r: Vec<
    Record,
>)
    ensures
        r@.to_multiset() == records_on_or_after(records@, day_start@).to_multiset(),
        forall|i: int, j: int|
            0 <= i < j < r@.len() ==> lex_le(r@[j].timestamp@, r@[i].timestamp@),
{
    get_today_records_sync(records, day_start)
}

} // verus!
