//! A keyed collection of rows, kept in the order in which the rows came in.
use vstd::prelude::*;

verus! {

/// A value that a [`Table`] can hold and hand out copies of.
pub trait Row: View + Sized {
    /// A copy with the same contents.
    fn dup(&self) -> (r: Self)
        ensures
            r@ == self@,
    ;
}

/// What a list of rows holds.
pub open spec fn row_views<R: Row>(rows: Seq<R>) -> Seq<R::V> {
    Seq::new(rows.len(), |i: int| rows[i]@)
}

/// What an optional row holds.
pub open spec fn opt_view<R: Row>(row: Option<R>) -> Option<R::V> {
    match row {
        Some(row) => Some(row@),
        None => None,
    }
}

/// What an optional list of rows holds.
pub open spec fn opt_row_views<R: Row>(rows: Option<Vec<R>>) -> Option<Seq<R::V>> {
    match rows {
        Some(rows) => Some(row_views(rows@)),
        None => None,
    }
}

/// A copy of an optional row.
pub fn copy_opt_row<R: Row>(row: &Option<R>) -> (r: Option<R>)
    ensures
        opt_view(r) == opt_view(*row),
{
    match row {
        Some(row) => Some(row.dup()),
        None => None,
    }
}

/// A copy of a list of rows.
pub fn copy_rows<R: Row>(rows: &Vec<R>) -> (r: Vec<R>)
    ensures
        row_views(r@) == row_views(rows@),
{
    let mut out: Vec<R> = Vec::new();
    let mut i: usize = 0;
    while i < rows.len()
        invariant
            i <= rows.len(),
            row_views(out@) == row_views(rows@).take(i as int),
        decreases rows.len() - i,
    {
        let ghost before = out@;
        out.push(rows[i].dup());
        assert(row_views(out@) =~= row_views(before).push(rows@[i as int]@));
        assert(row_views(rows@).take(i + 1) =~= row_views(rows@).take(i as int).push(
            rows@[i as int]@,
        ));
        i = i + 1;
    }
    assert(row_views(rows@).take(i as int) =~= row_views(rows@));
    out
}

/// A copy of an optional list of rows.
pub fn copy_opt_rows<R: Row>(rows: &Option<Vec<R>>) -> (r: Option<Vec<R>>)
    ensures
        opt_row_views(r) == opt_row_views(*rows),
{
    match rows {
        Some(rows) => Some(copy_rows(rows)),
        None => None,
    }
}

/// A copy of a list of plain values.
pub fn copy_values<T: Copy>(list: &Vec<T>) -> (r: Vec<T>)
    ensures
        r@ == list@,
{
    let mut out: Vec<T> = Vec::new();
    let mut i: usize = 0;
    while i < list.len()
        invariant
            i <= list.len(),
            out@ == list@.take(i as int),
        decreases list.len() - i,
    {
        out.push(list[i]);
        assert(list@.take(i + 1) =~= list@.take(i as int).push(list@[i as int]));
        i = i + 1;
    }
    assert(list@.take(i as int) =~= list@);
    out
}

/// Rows in the order of their insertion.
pub struct Table<R: Row> {
    pub rows: Vec<R>,
}

impl<R: Row> View for Table<R> {
    type V = Seq<R::V>;

    open spec fn view(&self) -> Seq<R::V> {
        row_views(self.rows@)
    }
}

/// Whether some row satisfies the predicate.
pub open spec fn any_row<V>(rows: Seq<V>, q: spec_fn(V) -> bool) -> bool {
    exists|i: int| 0 <= i < rows.len() && q(#[trigger] rows[i])
}

/// Position of the first row that satisfies the predicate.
pub open spec fn first_row<V>(rows: Seq<V>, q: spec_fn(V) -> bool) -> int
    decreases rows.len(),
{
    if rows.len() == 0 {
        0
    } else if q(rows[0]) {
        0
    } else {
        1 + first_row(rows.drop_first(), q)
    }
}

/// Keeping one row more: the filtered list grows by it exactly when it satisfies
/// the predicate.
pub proof fn lemma_filter_take<V>(rows: Seq<V>, q: spec_fn(V) -> bool, i: int)
    requires
        0 <= i < rows.len(),
    ensures
        rows.take(i + 1).filter(q) == if q(rows[i]) {
            rows.take(i).filter(q).push(rows[i])
        } else {
            rows.take(i).filter(q)
        },
{
    reveal(Seq::filter);
    assert(rows.take(i + 1).drop_last() =~= rows.take(i));
}

/// The first matching row is at `i` when `i` matches and nothing before it does.
pub proof fn lemma_first_row<V>(rows: Seq<V>, q: spec_fn(V) -> bool, i: int)
    requires
        0 <= i < rows.len(),
        q(rows[i]),
        forall|j: int| 0 <= j < i ==> !q(#[trigger] rows[j]),
    ensures
        first_row(rows, q) == i,
    decreases rows.len(),
{
    if i > 0 {
        assert(!q(rows[0]));
        let rest = rows.drop_first();
        assert forall|j: int| 0 <= j < i - 1 implies !q(#[trigger] rest[j]) by {
            assert(rest[j] == rows[j + 1]);
        }
        lemma_first_row(rest, q, i - 1);
    }
}

/// Where some row matches, the first matching row is in range, matches, and has
/// no match before it.
pub proof fn lemma_first_row_matches<V>(rows: Seq<V>, q: spec_fn(V) -> bool)
    requires
        any_row(rows, q),
    ensures
        0 <= first_row(rows, q) < rows.len(),
        q(rows[first_row(rows, q)]),
        forall|j: int| 0 <= j < first_row(rows, q) ==> !q(#[trigger] rows[j]),
    decreases rows.len(),
{
    if !q(rows[0]) {
        let rest = rows.drop_first();
        let w = choose|i: int| 0 <= i < rows.len() && q(#[trigger] rows[i]);
        assert(q(rest[w - 1]));
        lemma_first_row_matches(rest, q);
        let f = first_row(rest, q);
        assert(rows[f + 1] == rest[f]);
        assert forall|j: int| 0 <= j < f + 1 implies !q(#[trigger] rows[j]) by {
            if j > 0 {
                assert(rows[j] == rest[j - 1]);
            }
        }
    }
}

/// Filtering a list with no match gives nothing.
pub proof fn lemma_filter_none<V>(rows: Seq<V>, q: spec_fn(V) -> bool)
    requires
        !any_row(rows, q),
    ensures
        rows.filter(q) == Seq::<V>::empty(),
    decreases rows.len(),
{
    reveal(Seq::filter);
    if rows.len() > 0 {
        let last = rows.last();
        assert(rows[rows.len() - 1] == last);
        assert(!q(last));
        let rest = rows.drop_last();
        assert(!any_row(rest, q)) by {
            if any_row(rest, q) {
                let i = choose|i: int| 0 <= i < rest.len() && q(#[trigger] rest[i]);
                assert(q(rows[i]));
            }
        }
        lemma_filter_none(rest, q);
    }
}

/// Every row of a filtered list satisfies the predicate, and stood in the list.
pub proof fn lemma_filter_members<V>(rows: Seq<V>, q: spec_fn(V) -> bool, v: V)
    ensures
        rows.filter(q).contains(v) <==> rows.contains(v) && q(v),
    decreases rows.len(),
{
    reveal(Seq::filter);
    if rows.len() > 0 {
        let rest = rows.drop_last();
        lemma_filter_members(rest, q, v);
        let kept = rest.filter(q);
        if rows.contains(v) && q(v) {
            let i = choose|i: int| 0 <= i < rows.len() && rows[i] == v;
            if i < rest.len() {
                assert(rest[i] == v);
                let k = choose|k: int| 0 <= k < kept.len() && kept[k] == v;
                assert(rows.filter(q)[k] == v);
            } else {
                assert(rows.filter(q)[kept.len() as int] == v);
            }
        }
        if rows.filter(q).contains(v) {
            let i = choose|i: int| 0 <= i < rows.filter(q).len() && rows.filter(q)[i] == v;
            if i < kept.len() {
                assert(kept[i] == v);
                let k = choose|k: int| 0 <= k < rest.len() && rest[k] == v;
                assert(rows[k] == v);
            } else {
                assert(rows[rows.len() - 1] == v);
            }
        }
    }
}

/// Whether no two rows have the same key.
pub open spec fn unique_by<V, K>(rows: Seq<V>, key: spec_fn(V) -> K) -> bool {
    forall|i: int, j: int|
        0 <= i < j < rows.len() ==> key(#[trigger] rows[i]) != key(#[trigger] rows[j])
}

/// Adding a row with a new key keeps the keys apart.
pub proof fn lemma_unique_push<V, K>(rows: Seq<V>, key: spec_fn(V) -> K, v: V)
    requires
        unique_by(rows, key),
        forall|i: int| 0 <= i < rows.len() ==> key(#[trigger] rows[i]) != key(v),
    ensures
        unique_by(rows.push(v), key),
{
}

/// Replacing a row by one with its key keeps the keys apart.
pub proof fn lemma_unique_update<V, K>(rows: Seq<V>, key: spec_fn(V) -> K, i: int, v: V)
    requires
        unique_by(rows, key),
        0 <= i < rows.len(),
        key(rows[i]) == key(v),
    ensures
        unique_by(rows.update(i, v), key),
{
}

/// Dropping rows keeps the keys apart.
pub proof fn lemma_unique_filter<V, K>(rows: Seq<V>, key: spec_fn(V) -> K, q: spec_fn(V) -> bool)
    requires
        unique_by(rows, key),
    ensures
        unique_by(rows.filter(q), key),
    decreases rows.len(),
{
    reveal(Seq::filter);
    if rows.len() > 0 {
        let rest = rows.drop_last();
        assert(unique_by(rest, key)) by {
            assert forall|i: int, j: int| 0 <= i < j < rest.len() implies key(#[trigger] rest[i])
                != key(#[trigger] rest[j]) by {
                assert(rest[i] == rows[i] && rest[j] == rows[j]);
            }
        }
        lemma_unique_filter(rest, key, q);
        let kept = rest.filter(q);
        assert forall|i: int| 0 <= i < kept.len() implies key(#[trigger] kept[i]) != key(
            rows.last(),
        ) by {
            lemma_filter_members(rest, q, kept[i]);
            assert(kept.contains(kept[i]));
            let k = choose|k: int| 0 <= k < rest.len() && rest[k] == kept[i];
            assert(rows[k] == kept[i]);
            assert(rows[rows.len() - 1] == rows.last());
        }
    }
}

impl<R: Row> Table<R> {
    /// An empty table.
    pub fn new() -> (t: Self)
        ensures
            t@ == Seq::<R::V>::empty(),
    {
        let t = Table { rows: Vec::new() };
        assert(t@ =~= Seq::<R::V>::empty());
        t
    }

    /// Number of rows.
    pub fn len(&self) -> (n: usize)
        ensures
            n == self@.len(),
    {
        self.rows.len()
    }

    /// Position of the first row that satisfies the predicate.
    pub(crate) fn find(&self, p: impl Fn(&R) -> bool, Ghost(q): Ghost<spec_fn(R::V) -> bool>) -> (r:
        Option<usize>)
        requires
            forall|x: &R| #[trigger] call_requires(p, (x,)),
            forall|x: &R, b: bool| #[trigger] call_ensures(p, (x,), b) ==> b == q(x@),
        ensures
            r is Some <==> any_row(self@, q),
            r matches Some(i) ==> i == first_row(self@, q) && i < self@.len() && q(self@[i as int])
                && self@[i as int] == self.rows@[i as int]@,
    {
        let mut i: usize = 0;
        while i < self.rows.len()
            invariant
                i <= self.rows.len(),
                forall|x: &R| #[trigger] call_requires(p, (x,)),
                forall|x: &R, b: bool| #[trigger] call_ensures(p, (x,), b) ==> b == q(x@),
                forall|j: int| 0 <= j < i ==> !q(#[trigger] self@[j]),
            decreases self.rows.len() - i,
        {
            if p(&self.rows[i]) {
                proof {
                    assert(q(self@[i as int]));
                    lemma_first_row(self@, q, i as int);
                }
                return Some(i);
            }
            i = i + 1;
        }
        None
    }

    /// Copies of the rows that satisfy the predicate.
    pub(crate) fn select(
        &self,
        p: impl Fn(&R) -> bool,
        Ghost(q): Ghost<spec_fn(R::V) -> bool>,
    ) -> (out: Vec<R>)
        requires
            forall|x: &R| #[trigger] call_requires(p, (x,)),
            forall|x: &R, b: bool| #[trigger] call_ensures(p, (x,), b) ==> b == q(x@),
        ensures
            row_views(out@) == self@.filter(q),
    {
        let mut out: Vec<R> = Vec::new();
        let mut i: usize = 0;
        proof {
            reveal(Seq::filter);
            assert(row_views(out@) =~= self@.take(0).filter(q));
        }
        while i < self.rows.len()
            invariant
                i <= self.rows.len(),
                forall|x: &R| #[trigger] call_requires(p, (x,)),
                forall|x: &R, b: bool| #[trigger] call_ensures(p, (x,), b) ==> b == q(x@),
                row_views(out@) == self@.take(i as int).filter(q),
            decreases self.rows.len() - i,
        {
            proof {
                lemma_filter_take(self@, q, i as int);
            }
            if p(&self.rows[i]) {
                let ghost before = out@;
                out.push(self.rows[i].dup());
                assert(row_views(out@) =~= row_views(before).push(self@[i as int]));
            }
            i = i + 1;
        }
        assert(self@.take(i as int) =~= self@);
        out
    }

    /// Number of rows that satisfy the predicate.
    pub(crate) fn count(
        &self,
        p: impl Fn(&R) -> bool,
        Ghost(q): Ghost<spec_fn(R::V) -> bool>,
    ) -> (n: usize)
        requires
            forall|x: &R| #[trigger] call_requires(p, (x,)),
            forall|x: &R, b: bool| #[trigger] call_ensures(p, (x,), b) ==> b == q(x@),
        ensures
            n == self@.filter(q).len(),
    {
        let mut n: usize = 0;
        let mut i: usize = 0;
        proof {
            reveal(Seq::filter);
            assert(self@.take(0).filter(q).len() == 0);
        }
        while i < self.rows.len()
            invariant
                i <= self.rows.len(),
                n <= i,
                forall|x: &R| #[trigger] call_requires(p, (x,)),
                forall|x: &R, b: bool| #[trigger] call_ensures(p, (x,), b) ==> b == q(x@),
                n == self@.take(i as int).filter(q).len(),
            decreases self.rows.len() - i,
        {
            proof {
                lemma_filter_take(self@, q, i as int);
            }
            if p(&self.rows[i]) {
                n = n + 1;
            }
            i = i + 1;
        }
        assert(self@.take(i as int) =~= self@);
        n
    }

    /// Drops every row that does not satisfy the predicate.
    pub(crate) fn retain(
        &mut self,
        p: impl Fn(&R) -> bool,
        Ghost(q): Ghost<spec_fn(R::V) -> bool>,
    )
        requires
            forall|x: &R| #[trigger] call_requires(p, (x,)),
            forall|x: &R, b: bool| #[trigger] call_ensures(p, (x,), b) ==> b == q(x@),
        ensures
            final(self)@ == old(self)@.filter(q),
    {
        let kept = self.select(p, Ghost(q));
        self.rows = kept;
    }

    /// Adds a row at the end.
    pub(crate) fn push(&mut self, row: R)
        ensures
            final(self)@ == old(self)@.push(row@),
    {
        self.rows.push(row);
        assert(self@ =~= old(self)@.push(row@));
    }

    /// Replaces the row at a position.
    pub(crate) fn put(&mut self, i: usize, row: R)
        requires
            i < old(self)@.len(),
        ensures
            final(self)@ == old(self)@.update(i as int, row@),
    {
        self.rows.set(i, row);
        assert(self@ =~= old(self)@.update(i as int, row@));
    }

    /// A copy of the row at a position.
    pub(crate) fn get(&self, i: usize) -> (r: R)
        requires
            i < self@.len(),
        ensures
            r@ == self@[i as int],
    {
        self.rows[i].dup()
    }

    /// Takes the row at a position out.
    pub(crate) fn take(&mut self, i: usize) -> (r: R)
        requires
            i < old(self)@.len(),
        ensures
            r@ == old(self)@[i as int],
            final(self)@ == old(self)@.remove(i as int),
    {
        let r = self.rows.remove(i);
        assert(self@ =~= old(self)@.remove(i as int));
        r
    }
}

/// Rows, with those that satisfy the predicate changed.
pub open spec fn mapped<V>(rows: Seq<V>, q: spec_fn(V) -> bool, f: spec_fn(V) -> V) -> Seq<V> {
    Seq::new(
        rows.len(),
        |i: int|
            if q(rows[i]) {
                f(rows[i])
            } else {
                rows[i]
            },
    )
}

/// Changing the only matching row changes all matching rows.
pub proof fn lemma_mapped_one<V>(
    rows: Seq<V>,
    q: spec_fn(V) -> bool,
    f: spec_fn(V) -> V,
    at: int,
    v: V,
)
    requires
        0 <= at < rows.len(),
        q(rows[at]),
        v == f(rows[at]),
        forall|j: int| 0 <= j < rows.len() && j != at ==> !q(#[trigger] rows[j]),
    ensures
        rows.update(at, v) == mapped(rows, q, f),
{
    assert(rows.update(at, v) =~= mapped(rows, q, f));
}

/// Where no row matches, none is changed.
pub proof fn lemma_mapped_none<V>(rows: Seq<V>, q: spec_fn(V) -> bool, f: spec_fn(V) -> V)
    requires
        !any_row(rows, q),
    ensures
        mapped(rows, q, f) == rows,
{
    assert(mapped(rows, q, f) =~= rows);
}

/// A change that keeps the keys keeps them apart.
pub proof fn lemma_unique_mapped<V, K>(
    rows: Seq<V>,
    key: spec_fn(V) -> K,
    q: spec_fn(V) -> bool,
    f: spec_fn(V) -> V,
)
    requires
        unique_by(rows, key),
        forall|v: V| #[trigger] key(f(v)) == key(v),
    ensures
        unique_by(mapped(rows, q, f), key),
{
    let out = mapped(rows, q, f);
    assert forall|i: int, j: int| 0 <= i < j < out.len() implies key(#[trigger] out[i]) != key(
        #[trigger] out[j],
    ) by {
        assert(key(out[i]) == key(rows[i]));
        assert(key(out[j]) == key(rows[j]));
    }
}

/// Where nothing matches, dropping the matching rows drops nothing.
pub proof fn lemma_filter_keeps_all<V>(rows: Seq<V>, q: spec_fn(V) -> bool)
    requires
        forall|i: int| 0 <= i < rows.len() ==> q(#[trigger] rows[i]),
    ensures
        rows.filter(q) == rows,
    decreases rows.len(),
{
    reveal(Seq::filter);
    if rows.len() > 0 {
        let rest = rows.drop_last();
        assert forall|i: int| 0 <= i < rest.len() implies q(#[trigger] rest[i]) by {
            assert(rest[i] == rows[i]);
        }
        lemma_filter_keeps_all(rest, q);
        assert(q(rows[rows.len() - 1]));
        assert(rest.push(rows.last()) =~= rows);
    } else {
        assert(rows.filter(q) =~= rows);
    }
}

/// A row that an identifier names.
pub trait KeyedRow: Row {
    /// The identifier of a row.
    spec fn id_of(v: Self::V) -> Seq<char>;

    /// Whether the row has an identifier.
    fn id_is(&self, id: &str) -> (r: bool)
        ensures
            r == (Self::id_of(self@) == id@),
    ;
}

/// The predicate of having an identifier.
pub open spec fn with_id<R: KeyedRow>(id: Seq<char>) -> spec_fn(R::V) -> bool {
    |v: R::V| R::id_of(v) == id
}

/// The predicate of not having an identifier.
pub open spec fn without_id<R: KeyedRow>(id: Seq<char>) -> spec_fn(R::V) -> bool {
    |v: R::V| R::id_of(v) != id
}

/// Whether some row has an identifier.
pub open spec fn has_id<R: KeyedRow>(rows: Seq<R::V>, id: Seq<char>) -> bool {
    any_row(rows, with_id::<R>(id))
}

/// The row with an identifier.
pub open spec fn row_of<R: KeyedRow>(rows: Seq<R::V>, id: Seq<char>) -> R::V {
    rows[first_row(rows, with_id::<R>(id))]
}

/// Whether no two rows have the same identifier.
pub open spec fn keyed<R: KeyedRow>(rows: Seq<R::V>) -> bool {
    unique_by(rows, |v: R::V| R::id_of(v))
}

/// With identifiers apart, the row at a position with an identifier is the one that
/// the identifier names, and no other row has it.
pub proof fn lemma_keyed_row<R: KeyedRow>(rows: Seq<R::V>, id: Seq<char>, at: int)
    requires
        keyed::<R>(rows),
        0 <= at < rows.len(),
        R::id_of(rows[at]) == id,
    ensures
        has_id::<R>(rows, id),
        row_of::<R>(rows, id) == rows[at],
        first_row(rows, with_id::<R>(id)) == at,
        forall|j: int| 0 <= j < rows.len() && j != at ==> R::id_of(#[trigger] rows[j]) != id,
{
    let q = with_id::<R>(id);
    let key = |v: R::V| R::id_of(v);
    assert(q(rows[at]));
    assert forall|j: int| 0 <= j < rows.len() && j != at implies R::id_of(#[trigger] rows[j])
        != id by {
        if j < at {
            assert(key(rows[j]) != key(rows[at]));
        } else {
            assert(key(rows[at]) != key(rows[j]));
        }
    }
    assert forall|j: int| 0 <= j < at implies !q(#[trigger] rows[j]) by {
        assert(R::id_of(rows[j]) != id);
    }
    lemma_first_row(rows, q, at);
}

/// A row under a new identifier keeps the identifiers apart.
pub proof fn lemma_keyed_push<R: KeyedRow>(rows: Seq<R::V>, v: R::V)
    requires
        keyed::<R>(rows),
        !has_id::<R>(rows, R::id_of(v)),
    ensures
        keyed::<R>(rows.push(v)),
{
    let key = |v: R::V| R::id_of(v);
    assert forall|i: int| 0 <= i < rows.len() implies key(#[trigger] rows[i]) != key(v) by {
        if R::id_of(rows[i]) == R::id_of(v) {
            assert(with_id::<R>(R::id_of(v))(rows[i]));
        }
    }
    lemma_unique_push(rows, key, v);
}

/// After a row was added under a new identifier, the identifier names it.
pub proof fn lemma_row_after_push<R: KeyedRow>(rows: Seq<R::V>, v: R::V)
    requires
        keyed::<R>(rows),
        !has_id::<R>(rows, R::id_of(v)),
    ensures
        has_id::<R>(rows.push(v), R::id_of(v)),
        row_of::<R>(rows.push(v), R::id_of(v)) == v,
{
    lemma_keyed_push::<R>(rows, v);
    lemma_keyed_row::<R>(rows.push(v), R::id_of(v), rows.len() as int);
}

/// Dropping rows keeps the identifiers apart.
pub proof fn lemma_keyed_filter<R: KeyedRow>(rows: Seq<R::V>, q: spec_fn(R::V) -> bool)
    requires
        keyed::<R>(rows),
    ensures
        keyed::<R>(rows.filter(q)),
{
    lemma_unique_filter(rows, |v: R::V| R::id_of(v), q);
}

/// A change that keeps identifiers keeps them apart.
pub proof fn lemma_keyed_mapped<R: KeyedRow>(
    rows: Seq<R::V>,
    q: spec_fn(R::V) -> bool,
    f: spec_fn(R::V) -> R::V,
)
    requires
        keyed::<R>(rows),
        forall|v: R::V| #[trigger] R::id_of(f(v)) == R::id_of(v),
    ensures
        keyed::<R>(mapped(rows, q, f)),
{
    let key = |v: R::V| R::id_of(v);
    assert forall|v: R::V| #[trigger] key(f(v)) == key(v) by {
        assert(R::id_of(f(v)) == R::id_of(v));
    }
    lemma_unique_mapped(rows, key, q, f);
}

/// After the rows with an identifier were dropped, no row has it.
pub proof fn lemma_id_gone<R: KeyedRow>(rows: Seq<R::V>, id: Seq<char>)
    ensures
        !has_id::<R>(rows.filter(without_id::<R>(id)), id),
{
    let kept = rows.filter(without_id::<R>(id));
    if has_id::<R>(kept, id) {
        let i = choose|i: int| 0 <= i < kept.len() && with_id::<R>(id)(#[trigger] kept[i]);
        lemma_filter_members(rows, without_id::<R>(id), kept[i]);
        assert(kept.contains(kept[i]));
    }
}

impl<R: KeyedRow> Table<R> {
    /// Position of the row with an identifier.
    pub(crate) fn position(&self, id: &str) -> (r: Option<usize>)
        ensures
            r is Some <==> has_id::<R>(self@, id@),
            r matches Some(i) ==> i == first_row(self@, with_id::<R>(id@)) && i < self@.len()
                && R::id_of(self@[i as int]) == id@ && self@[i as int] == row_of::<R>(self@, id@),
    {
        let p = |x: &R| -> (b: bool)
            ensures
                b == (R::id_of(x@) == id@),
            { x.id_is(id) };
        self.find(p, Ghost(with_id::<R>(id@)))
    }

    /// Whether some row has an identifier.
    pub(crate) fn contains_id(&self, id: &str) -> (r: bool)
        ensures
            r == has_id::<R>(self@, id@),
    {
        self.position(id).is_some()
    }

    /// A copy of the row with an identifier.
    pub(crate) fn fetch(&self, id: &str) -> (r: Option<R>)
        ensures
            r is Some <==> has_id::<R>(self@, id@),
            r matches Some(x) ==> x@ == row_of::<R>(self@, id@) && R::id_of(x@) == id@,
    {
        match self.position(id) {
            Some(i) => Some(self.get(i)),
            None => None,
        }
    }

    /// Drops the row with an identifier; tells whether there was one.
    pub(crate) fn delete(&mut self, id: &str) -> (r: bool)
        ensures
            r == has_id::<R>(old(self)@, id@),
            final(self)@ == old(self)@.filter(without_id::<R>(id@)),
            keyed::<R>(old(self)@) ==> keyed::<R>(final(self)@),
    {
        let found: bool = self.contains_id(id);
        proof {
            if keyed::<R>(self@) {
                lemma_keyed_filter::<R>(self@, without_id::<R>(id@));
            }
        }
        let p = |x: &R| -> (b: bool)
            ensures
                b == (R::id_of(x@) != id@),
            { !x.id_is(id) };
        self.retain(p, Ghost(without_id::<R>(id@)));
        found
    }

    /// Replaces the row with an identifier by another with the same.
    pub(crate) fn replace(&mut self, i: usize, row: R, Ghost(f): Ghost<spec_fn(R::V) -> R::V>)
        requires
            keyed::<R>(old(self)@),
            i < old(self)@.len(),
            row@ == f(old(self)@[i as int]),
            R::id_of(row@) == R::id_of(old(self)@[i as int]),
        ensures
            final(self)@ == mapped(
                old(self)@,
                with_id::<R>(R::id_of(old(self)@[i as int])),
                f,
            ),
            keyed::<R>(final(self)@),
    {
        let ghost before = self@;
        let ghost id = R::id_of(before[i as int]);
        self.put(i, row);
        proof {
            lemma_keyed_row::<R>(before, id, i as int);
            assert forall|j: int| 0 <= j < before.len() && j != i implies !with_id::<R>(id)(
                #[trigger] before[j],
            ) by {
                assert(R::id_of(before[j]) != id);
            }
            lemma_mapped_one(before, with_id::<R>(id), f, i as int, row@);
            lemma_unique_update(before, |v: R::V| R::id_of(v), i as int, row@);
        }
    }
}

/// After the row with an identifier was changed, the identifier names the changed row.
pub proof fn lemma_row_of_mapped<R: KeyedRow>(
    rows: Seq<R::V>,
    id: Seq<char>,
    f: spec_fn(R::V) -> R::V,
)
    requires
        keyed::<R>(rows),
        forall|v: R::V| #[trigger] R::id_of(f(v)) == R::id_of(v),
    ensures
        keyed::<R>(mapped(rows, with_id::<R>(id), f)),
        has_id::<R>(mapped(rows, with_id::<R>(id), f), id) == has_id::<R>(rows, id),
        has_id::<R>(rows, id) ==> row_of::<R>(mapped(rows, with_id::<R>(id), f), id) == f(
            row_of::<R>(rows, id),
        ),
{
    let q = with_id::<R>(id);
    let after = mapped(rows, q, f);
    lemma_keyed_mapped::<R>(rows, q, f);
    if has_id::<R>(rows, id) {
        lemma_first_row_matches(rows, q);
        let i = first_row(rows, q);
        assert(after[i] == f(rows[i]));
        assert(R::id_of(after[i]) == R::id_of(rows[i]));
        lemma_keyed_row::<R>(after, id, i);
    }
    if has_id::<R>(after, id) {
        lemma_first_row_matches(after, q);
        let i = first_row(after, q);
        if q(rows[i]) {
        } else {
            assert(after[i] == rows[i]);
        }
        assert(q(rows[i]));
    }
}

/// Rows with a row put in under its identifier: it takes the place of the row that
/// had it, or comes last.
pub open spec fn upserted<R: KeyedRow>(rows: Seq<R::V>, v: R::V) -> Seq<R::V> {
    if has_id::<R>(rows, R::id_of(v)) {
        mapped(rows, with_id::<R>(R::id_of(v)), |old_row: R::V| v)
    } else {
        rows.push(v)
    }
}

/// Putting a row in keeps the identifiers apart, and the identifier then names it.
pub proof fn lemma_upserted<R: KeyedRow>(rows: Seq<R::V>, v: R::V)
    requires
        keyed::<R>(rows),
    ensures
        keyed::<R>(upserted::<R>(rows, v)),
        has_id::<R>(upserted::<R>(rows, v), R::id_of(v)),
        row_of::<R>(upserted::<R>(rows, v), R::id_of(v)) == v,
{
    let id = R::id_of(v);
    let q = with_id::<R>(id);
    let after = upserted::<R>(rows, v);
    if has_id::<R>(rows, id) {
        let key = |v: R::V| R::id_of(v);
        assert forall|i: int, j: int| 0 <= i < j < after.len() implies key(#[trigger] after[i])
            != key(#[trigger] after[j]) by {
            assert(key(rows[i]) != key(rows[j]));
        }
        lemma_first_row_matches(rows, q);
        lemma_keyed_row::<R>(after, id, first_row(rows, q));
    } else {
        lemma_row_after_push::<R>(rows, v);
        lemma_keyed_push::<R>(rows, v);
    }
}

/// Putting a row in leaves every row with another identifier as it is.
pub proof fn lemma_upserted_elsewhere<R: KeyedRow>(rows: Seq<R::V>, v: R::V, id: Seq<char>)
    requires
        keyed::<R>(rows),
        id != R::id_of(v),
    ensures
        has_id::<R>(upserted::<R>(rows, v), id) == has_id::<R>(rows, id),
        has_id::<R>(rows, id) ==> row_of::<R>(upserted::<R>(rows, v), id) == row_of::<R>(rows, id),
{
    let q = with_id::<R>(id);
    let after = upserted::<R>(rows, v);
    lemma_upserted::<R>(rows, v);
    if has_id::<R>(rows, id) {
        lemma_first_row_matches(rows, q);
        let i = first_row(rows, q);
        assert(after[i] == rows[i]);
        lemma_keyed_row::<R>(after, id, i);
    }
    if has_id::<R>(after, id) {
        lemma_first_row_matches(after, q);
        let i = first_row(after, q);
        if i < rows.len() {
            assert(q(rows[i]));
        }
    }
}

impl<R: KeyedRow> Table<R> {
    /// Puts a row in under its identifier.
    pub(crate) fn upsert(&mut self, id: &str, row: R)
        requires
            keyed::<R>(old(self)@),
            R::id_of(row@) == id@,
        ensures
            final(self)@ == upserted::<R>(old(self)@, row@),
            keyed::<R>(final(self)@),
    {
        proof {
            lemma_upserted::<R>(self@, row@);
        }
        match self.position(id) {
            Some(i) => {
                let ghost v = row@;
                self.replace(i, row, Ghost(|old_row: R::V| v));
            },
            None => {
                self.push(row);
            },
        }
    }
}

/// Rows, each changed.
pub open spec fn each<V>(rows: Seq<V>, f: spec_fn(V) -> V) -> Seq<V> {
    Seq::new(rows.len(), |i: int| f(rows[i]))
}

/// A change of each row that keeps identifiers keeps them apart.
pub proof fn lemma_keyed_each<R: KeyedRow>(rows: Seq<R::V>, f: spec_fn(R::V) -> R::V)
    requires
        keyed::<R>(rows),
        forall|v: R::V| #[trigger] R::id_of(f(v)) == R::id_of(v),
    ensures
        keyed::<R>(each(rows, f)),
{
    let all = |v: R::V| true;
    lemma_keyed_mapped::<R>(rows, all, f);
    assert(each(rows, f) =~= mapped(rows, all, f));
}

impl<R: Row> Table<R> {
    /// Changes each row.
    pub(crate) fn rewrite(&mut self, p: impl Fn(&R) -> R, Ghost(f): Ghost<spec_fn(R::V) -> R::V>)
        requires
            forall|x: &R| #[trigger] call_requires(p, (x,)),
            forall|x: &R, y: R| #[trigger] call_ensures(p, (x,), y) ==> y@ == f(x@),
        ensures
            final(self)@ == each(old(self)@, f),
    {
        let mut out: Vec<R> = Vec::new();
        let mut i: usize = 0;
        let ghost all = each(self@, f);
        assert(row_views(out@) =~= all.take(0));
        while i < self.rows.len()
            invariant
                i <= self.rows.len(),
                forall|x: &R| #[trigger] call_requires(p, (x,)),
                forall|x: &R, y: R| #[trigger] call_ensures(p, (x,), y) ==> y@ == f(x@),
                all == each(self@, f),
                row_views(out@) == all.take(i as int),
            decreases self.rows.len() - i,
        {
            let ghost before = row_views(out@);
            assert(self@[i as int] == self.rows@[i as int]@);
            out.push(p(&self.rows[i]));
            assert(row_views(out@) =~= before.push(all[i as int]));
            assert(all.take(i + 1) =~= all.take(i as int).push(all[i as int]));
            i = i + 1;
        }
        assert(all.take(i as int) =~= all);
        self.rows = out;
    }
}

} // verus!
