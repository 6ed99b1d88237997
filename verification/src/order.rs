//! Rows in the order of a text.
use crate::table::{self, Row};
use crate::text;
use vstd::prelude::*;

verus! {

/// A row that sorts by a text.
pub trait SortedRow: Row {
    /// The text that rows are sorted by.
    spec fn sort_key(v: Self::V) -> Seq<char>;

    /// Whether the row comes strictly before another.
    fn sorts_before(&self, other: &Self) -> (r: bool)
        ensures
            r == text::text_before(Self::sort_key(self@), Self::sort_key(other@)),
    ;
}

/// Where a row goes among sorted rows: behind those that it does not come before.
pub open spec fn place<R: SortedRow>(rows: Seq<R::V>, v: R::V) -> int
    decreases rows.len(),
{
    if rows.len() == 0 {
        0
    } else if text::text_before(R::sort_key(v), R::sort_key(rows.last())) {
        place::<R>(rows.drop_last(), v)
    } else {
        rows.len() as int
    }
}

/// Rows in order; of those with equal texts, the one that stood first stays first.
pub open spec fn sorted<R: SortedRow>(rows: Seq<R::V>) -> Seq<R::V>
    decreases rows.len(),
{
    if rows.len() == 0 {
        rows
    } else {
        let rest = sorted::<R>(rows.drop_last());
        rest.insert(place::<R>(rest, rows.last()), rows.last())
    }
}

/// Whether no row comes before one that stands before it.
pub open spec fn in_order<R: SortedRow>(rows: Seq<R::V>) -> bool {
    forall|i: int, j: int|
        0 <= i < j < rows.len() ==> !text::text_before(
            R::sort_key(#[trigger] rows[j]),
            R::sort_key(#[trigger] rows[i]),
        )
}

proof fn lemma_place<R: SortedRow>(rows: Seq<R::V>, v: R::V)
    requires
        in_order::<R>(rows),
    ensures
        0 <= place::<R>(rows, v) <= rows.len(),
        forall|i: int|
            0 <= i < place::<R>(rows, v) ==> !text::text_before(
                R::sort_key(v),
                R::sort_key(#[trigger] rows[i]),
            ),
        forall|i: int|
            place::<R>(rows, v) <= i < rows.len() ==> text::text_before(
                R::sort_key(v),
                R::sort_key(#[trigger] rows[i]),
            ),
    decreases rows.len(),
{
    if rows.len() > 0 {
        let rest = rows.drop_last();
        if text::text_before(R::sort_key(v), R::sort_key(rows.last())) {
            assert(in_order::<R>(rest)) by {
                assert forall|i: int, j: int| 0 <= i < j < rest.len() implies !text::text_before(
                    R::sort_key(#[trigger] rest[j]),
                    R::sort_key(#[trigger] rest[i]),
                ) by {
                    assert(rest[i] == rows[i] && rest[j] == rows[j]);
                }
            }
            lemma_place::<R>(rest, v);
            let p = place::<R>(rest, v);
            assert forall|i: int| 0 <= i < p implies !text::text_before(
                R::sort_key(v),
                R::sort_key(#[trigger] rows[i]),
            ) by {
                assert(rest[i] == rows[i]);
            }
            assert forall|i: int| p <= i < rows.len() implies text::text_before(
                R::sort_key(v),
                R::sort_key(#[trigger] rows[i]),
            ) by {
                if i < rest.len() {
                    assert(rest[i] == rows[i]);
                }
            }
        } else {
            assert forall|i: int| 0 <= i < rows.len() implies !text::text_before(
                R::sort_key(v),
                R::sort_key(#[trigger] rows[i]),
            ) by {
                let last = rows[rows.len() - 1];
                if i < rows.len() - 1 && text::text_before(R::sort_key(v), R::sort_key(rows[i])) {
                    text::lemma_text_order(
                        R::sort_key(v),
                        R::sort_key(rows[i]),
                        R::sort_key(last),
                    );
                    assert(!text::text_before(R::sort_key(last), R::sort_key(rows[i])));
                    text::lemma_text_order(
                        R::sort_key(rows[i]),
                        R::sort_key(last),
                        R::sort_key(rows[i]),
                    );
                }
            }
        }
    }
}

/// Sorting puts rows in order and keeps all of them.
pub proof fn lemma_sorted<R: SortedRow>(rows: Seq<R::V>)
    ensures
        in_order::<R>(sorted::<R>(rows)),
        sorted::<R>(rows).to_multiset() == rows.to_multiset(),
        sorted::<R>(rows).len() == rows.len(),
    decreases rows.len(),
{
    broadcast use vstd::seq_lib::group_to_multiset_ensures;

    if rows.len() > 0 {
        let rest = sorted::<R>(rows.drop_last());
        let v = rows.last();
        lemma_sorted::<R>(rows.drop_last());
        lemma_place::<R>(rest, v);
        let p = place::<R>(rest, v);
        let all = rest.insert(p, v);
        assert forall|i: int, j: int| 0 <= i < j < all.len() implies !text::text_before(
            R::sort_key(#[trigger] all[j]),
            R::sort_key(#[trigger] all[i]),
        ) by {
            if i < p {
                assert(all[i] == rest[i]);
            } else if i > p {
                assert(all[i] == rest[i - 1]);
            }
            if j < p {
                assert(all[j] == rest[j]);
            } else if j > p {
                assert(all[j] == rest[j - 1]);
            }
            if i == p && j > p {
                text::lemma_text_order(
                    R::sort_key(v),
                    R::sort_key(rest[j - 1]),
                    R::sort_key(v),
                );
            }
        }
        assert(all.to_multiset() =~= rest.to_multiset().insert(v));
        assert(rows.drop_last().push(v) =~= rows);
    }
}

/// Rows in order.
pub(crate) fn sort_rows<R: SortedRow>(rows: Vec<R>) -> (r: Vec<R>)
    ensures
        table::row_views(r@) == sorted::<R>(table::row_views(rows@)),
{
    let ghost all = table::row_views(rows@);
    let mut out: Vec<R> = Vec::new();
    let mut i: usize = 0;
    assert(table::row_views(out@) =~= sorted::<R>(all.take(0)));
    while i < rows.len()
        invariant
            i <= rows.len(),
            all == table::row_views(rows@),
            out@.len() == i,
            table::row_views(out@) == sorted::<R>(all.take(i as int)),
        decreases rows.len() - i,
    {
        let ghost rest = table::row_views(out@);
        let ghost v = all[i as int];
        let row = rows[i].dup();
        assert(row@ == v);
        let mut p: usize = out.len();
        assert(rest.take(p as int) =~= rest);
        while p > 0 && row.sorts_before(&out[p - 1])
            invariant
                p <= out.len(),
                rest == table::row_views(out@),
                row@ == v,
                place::<R>(rest, v) == place::<R>(rest.take(p as int), v),
            decreases p,
        {
            let ghost now = rest.take(p as int);
            assert(now.last() == out@[p - 1]@);
            assert(now.drop_last() =~= rest.take(p - 1));
            p = p - 1;
        }
        proof {
            let now = rest.take(p as int);
            if p > 0 {
                assert(now.last() == out@[p - 1]@);
            }
            assert(place::<R>(rest, v) == p);
            assert(all.take(i + 1).drop_last() =~= all.take(i as int));
            assert(all.take(i + 1).last() == v);
        }
        out.insert(p, row);
        assert(table::row_views(out@) =~= rest.insert(p as int, v));
        i = i + 1;
    }
    assert(all.take(i as int) =~= all);
    out
}

} // verus!
