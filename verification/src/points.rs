//! Price points and the stable sort that orders a series chronologically.

use vstd::multiset::Multiset;
use vstd::prelude::*;

verus! {

/// One tariff record: a price that applies from `starts_at_ms` until the
/// start of the following record. The price is stored in millionths of the
/// currency unit per kWh; the start is a Unix timestamp in milliseconds (UTC).
#[derive(Clone, Copy, PartialEq, Eq, Structural, Debug)]
pub struct PricePoint {
    pub total_micro: i64,
    pub starts_at_ms: i64,
}

/// Start times are non-decreasing: each record ends where the next begins.
pub open spec fn sorted_by_start(s: Seq<PricePoint>) -> bool {
    forall|i: int, j: int| 0 <= i <= j < s.len() ==> s[i].starts_at_ms <= s[j].starts_at_ms
}

/// Where a stable sort places `x` in `s`: scanning from the back, `x` lands
/// after every element whose start does not exceed its own, so a new record
/// always follows existing records with the same start time.
pub open spec fn insert_by_start(s: Seq<PricePoint>, x: PricePoint) -> Seq<PricePoint>
    decreases s.len(),
{
    if s.len() == 0 {
        seq![x]
    } else if s.last().starts_at_ms <= x.starts_at_ms {
        s.push(x)
    } else {
        insert_by_start(s.drop_last(), x).push(s.last())
    }
}

/// The stable sort of `s` by `starts_at_ms`.
pub open spec fn sort_by_start(s: Seq<PricePoint>) -> Seq<PricePoint>
    decreases s.len(),
{
    if s.len() == 0 {
        Seq::empty()
    } else {
        insert_by_start(sort_by_start(s.drop_last()), s.last())
    }
}

pub proof fn lemma_insert_len(s: Seq<PricePoint>, x: PricePoint)
    ensures
        insert_by_start(s, x).len() == s.len() + 1,
    decreases s.len(),
{
    if s.len() > 0 && !(s.last().starts_at_ms <= x.starts_at_ms) {
        lemma_insert_len(s.drop_last(), x);
    }
}

pub proof fn lemma_insert_multiset(s: Seq<PricePoint>, x: PricePoint)
    ensures
        insert_by_start(s, x).to_multiset() == s.to_multiset().insert(x),
    decreases s.len(),
{
    broadcast use vstd::seq_lib::group_to_multiset_ensures;

    if s.len() == 0 {
        assert(seq![x] =~= Seq::<PricePoint>::empty().push(x));
        assert(Seq::<PricePoint>::empty().push(x).to_multiset()
            =~= Seq::<PricePoint>::empty().to_multiset().insert(x));
        assert(s.to_multiset() =~= Multiset::<PricePoint>::empty());
    } else if s.last().starts_at_ms <= x.starts_at_ms {
    } else {
        lemma_insert_multiset(s.drop_last(), x);
        assert(s.drop_last().push(s.last()) =~= s);
        assert(insert_by_start(s, x).to_multiset()
            =~= s.drop_last().to_multiset().insert(x).insert(s.last()));
        assert(s.to_multiset() =~= s.drop_last().to_multiset().insert(s.last()));
        assert(s.drop_last().to_multiset().insert(x).insert(s.last())
            =~= s.drop_last().to_multiset().insert(s.last()).insert(x));
    }
}

pub proof fn lemma_insert_preserves_sorted(s: Seq<PricePoint>, x: PricePoint)
    requires
        sorted_by_start(s),
    ensures
        sorted_by_start(insert_by_start(s, x)),
    decreases s.len(),
{
    if s.len() == 0 {
    } else if s.last().starts_at_ms <= x.starts_at_ms {
    } else {
        lemma_insert_preserves_sorted(s.drop_last(), x);
        lemma_insert_len(s.drop_last(), x);
        let t = insert_by_start(s.drop_last(), x);
        lemma_insert_high_bound(s.drop_last(), x);
        assert forall|i: int, j: int|
            0 <= i <= j < t.push(s.last()).len() implies t.push(s.last())[i].starts_at_ms
            <= t.push(s.last())[j].starts_at_ms by {
            if j < t.len() {
            } else {
                if i < t.len() {
                    assert(t[i].starts_at_ms <= s.last().starts_at_ms);
                }
            }
        }
    }
}

/// Every element of `insert_by_start(s, x)` is bounded by the larger of `x`
/// and the elements of `s`.
proof fn lemma_insert_high_bound(s: Seq<PricePoint>, x: PricePoint)
    requires
        sorted_by_start(s),
    ensures
        forall|i: int|
            0 <= i < insert_by_start(s, x).len() ==> #[trigger] insert_by_start(
                s,
                x,
            )[i].starts_at_ms <= if s.len() > 0 && s.last().starts_at_ms > x.starts_at_ms {
                s.last().starts_at_ms
            } else {
                x.starts_at_ms
            },
    decreases s.len(),
{
    if s.len() == 0 {
    } else if s.last().starts_at_ms <= x.starts_at_ms {
    } else {
        lemma_insert_high_bound(s.drop_last(), x);
        lemma_insert_len(s.drop_last(), x);
    }
}

/// Sorting yields a sorted sequence with the same records.
pub proof fn lemma_sort_ensures(s: Seq<PricePoint>)
    ensures
        sorted_by_start(sort_by_start(s)),
        sort_by_start(s).to_multiset() == s.to_multiset(),
        sort_by_start(s).len() == s.len(),
    decreases s.len(),
{
    broadcast use vstd::seq_lib::group_to_multiset_ensures;

    if s.len() == 0 {
        assert(sort_by_start(s) =~= Seq::<PricePoint>::empty());
        assert(Seq::<PricePoint>::empty().to_multiset() =~= Multiset::<PricePoint>::empty());
    } else {
        lemma_sort_ensures(s.drop_last());
        lemma_insert_preserves_sorted(sort_by_start(s.drop_last()), s.last());
        lemma_insert_multiset(sort_by_start(s.drop_last()), s.last());
        lemma_insert_len(sort_by_start(s.drop_last()), s.last());
        assert(s.drop_last().push(s.last()) =~= s);
        assert(s.to_multiset() =~= s.drop_last().to_multiset().insert(s.last()));
    }
}

/// A series that is already in chronological order is left exactly as it is:
/// sorting what was saved sorted gives the same series back.
pub proof fn lemma_sort_of_sorted_is_identity(s: Seq<PricePoint>)
    requires
        sorted_by_start(s),
    ensures
        sort_by_start(s) == s,
    decreases s.len(),
{
    if s.len() == 0 {
        assert(sort_by_start(s) =~= s);
    } else {
        lemma_sort_of_sorted_is_identity(s.drop_last());
        lemma_sort_ensures(s.drop_last());
        if sort_by_start(s.drop_last()).len() == 0 {
            assert(insert_by_start(s.drop_last(), s.last()) =~= seq![s.last()]);
            assert(sort_by_start(s) =~= s);
        } else {
            assert(s.drop_last().last().starts_at_ms <= s.last().starts_at_ms);
            assert(sort_by_start(s) =~= s.drop_last().push(s.last()));
            assert(s.drop_last().push(s.last()) =~= s);
        }
    }
}

/// `insert_by_start` splits `s` at the scan position `j`: everything at or
/// after `j` strictly exceeds `x`, everything before does not, and `x` goes
/// exactly there.
proof fn lemma_insert_at_position(s: Seq<PricePoint>, x: PricePoint, j: int)
    requires
        0 <= j <= s.len(),
        forall|k: int| j <= k < s.len() ==> s[k].starts_at_ms > x.starts_at_ms,
        j == 0 || s[j - 1].starts_at_ms <= x.starts_at_ms,
    ensures
        insert_by_start(s, x) == s.insert(j, x),
    decreases s.len(),
{
    if s.len() == 0 {
        assert(insert_by_start(s, x) =~= s.insert(0, x));
    } else if s.last().starts_at_ms <= x.starts_at_ms {
        assert(j == s.len());
        assert(s.push(x) =~= s.insert(s.len() as int, x));
    } else {
        assert(j < s.len());
        lemma_insert_at_position(s.drop_last(), x, j);
        assert(insert_by_start(s.drop_last(), x).push(s.last()) =~= s.drop_last().insert(
            j,
            x,
        ).push(s.last()));
        assert(s.drop_last().insert(j, x).push(s.last()) =~= s.insert(j, x));
    }
}

/// Sorts the records chronologically with a stable insertion sort.
pub fn sort_points(points: Vec<PricePoint>) -> (r: Vec<PricePoint>)
    ensures
        r@ == sort_by_start(points@),
{
    let mut out: Vec<PricePoint> = Vec::new();
    let mut i: usize = 0;
    proof {
        assert(points@.subrange(0, 0) =~= Seq::<PricePoint>::empty());
    }
    while i < points.len()
        invariant
            i <= points.len(),
            out@ == sort_by_start(points@.subrange(0, i as int)),
        decreases points.len() - i,
    {
        let x = points[i];
        let mut j: usize = out.len();
        while j > 0 && out[j - 1].starts_at_ms > x.starts_at_ms
            invariant
                j <= out.len(),
                forall|k: int| j <= k < out@.len() ==> out@[k].starts_at_ms > x.starts_at_ms,
            decreases j,
        {
            j = j - 1;
        }
        proof {
            lemma_insert_at_position(out@, x, j as int);
            assert(points@.subrange(0, i + 1).drop_last() =~= points@.subrange(0, i as int));
            assert(points@.subrange(0, i + 1).last() == points@[i as int]);
        }
        out.insert(j, x);
        i = i + 1;
    }
    proof {
        assert(points@.subrange(0, points@.len() as int) =~= points@);
    }
    out
}

} // verus!
