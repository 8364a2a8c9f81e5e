//! Counting the live entries of rows and grids.
use vstd::prelude::*;

verus! {

/// The number of true entries of a row.
pub open spec fn count_row(s: Seq<bool>) -> int
    decreases s.len(),
{
    if s.len() == 0 {
        0
    } else {
        count_row(s.drop_last()) + if s.last() { 1int } else { 0int }
    }
}

/// The number of true entries of a grid.
pub open spec fn count_grid(g: Seq<Seq<bool>>) -> int
    decreases g.len(),
{
    if g.len() == 0 {
        0
    } else {
        count_grid(g.drop_last()) + count_row(g.last())
    }
}

/// Counting a row one entry further adds that entry.
pub proof fn lemma_count_row_take(s: Seq<bool>, i: int)
    requires
        0 <= i < s.len(),
    ensures
        count_row(s.take(i + 1)) == count_row(s.take(i)) + if s[i] { 1int } else { 0int },
{
    assert(s.take(i + 1).drop_last() =~= s.take(i));
}

/// Counting a grid one row further adds that row's count.
pub proof fn lemma_count_grid_take(g: Seq<Seq<bool>>, j: int)
    requires
        0 <= j < g.len(),
    ensures
        count_grid(g.take(j + 1)) == count_grid(g.take(j)) + count_row(g[j]),
{
    assert(g.take(j + 1).drop_last() =~= g.take(j));
}

/// Marking one entry of a row alive adds one to its count, unless it was
/// alive already.
pub proof fn lemma_count_row_mark(s: Seq<bool>, i: int)
    requires
        0 <= i < s.len(),
    ensures
        count_row(s.update(i, true)) == count_row(s) + if s[i] { 0int } else { 1int },
    decreases s.len(),
{
    if i == s.len() - 1 {
        assert(s.update(i, true).drop_last() =~= s.drop_last());
    } else {
        assert(s.update(i, true).drop_last() =~= s.drop_last().update(i, true));
        lemma_count_row_mark(s.drop_last(), i);
    }
}

/// Replacing one row of a grid changes its count by the difference of the
/// two rows' counts.
pub proof fn lemma_count_grid_replace(g: Seq<Seq<bool>>, j: int, r: Seq<bool>)
    requires
        0 <= j < g.len(),
    ensures
        count_grid(g.update(j, r)) == count_grid(g) - count_row(g[j]) + count_row(r),
    decreases g.len(),
{
    if j == g.len() - 1 {
        assert(g.update(j, r).drop_last() =~= g.drop_last());
    } else {
        assert(g.update(j, r).drop_last() =~= g.drop_last().update(j, r));
        lemma_count_grid_replace(g.drop_last(), j, r);
    }
}

/// A row with no live entry counts zero.
pub proof fn lemma_count_row_empty(s: Seq<bool>)
    requires
        forall|i: int| 0 <= i < s.len() ==> !#[trigger] s[i],
    ensures
        count_row(s) == 0,
    decreases s.len(),
{
    if s.len() > 0 {
        lemma_count_row_empty(s.drop_last());
    }
}

/// A grid with no live cell counts zero.
pub proof fn lemma_count_grid_empty(g: Seq<Seq<bool>>)
    requires
        forall|y: int, x: int| 0 <= y < g.len() && 0 <= x < g[y].len() ==> !#[trigger] g[y][x],
    ensures
        count_grid(g) == 0,
    decreases g.len(),
{
    if g.len() > 0 {
        lemma_count_row_empty(g.last());
        lemma_count_grid_empty(g.drop_last());
    }
}

/// A row counts between zero and its length.
pub proof fn lemma_count_row_bound(s: Seq<bool>)
    ensures
        0 <= count_row(s) <= s.len(),
    decreases s.len(),
{
    if s.len() > 0 {
        lemma_count_row_bound(s.drop_last());
    }
}

/// A grid of rows of `w` entries counts between zero and its number of
/// cells.
pub proof fn lemma_count_grid_bound(g: Seq<Seq<bool>>, w: int)
    requires
        forall|j: int| 0 <= j < g.len() ==> #[trigger] g[j].len() == w,
    ensures
        0 <= count_grid(g) <= g.len() * w,
    decreases g.len(),
{
    if g.len() > 0 {
        let k = g.len() - 1;
        lemma_count_grid_bound(g.drop_last(), w);
        lemma_count_row_bound(g.last());
        assert(g[k].len() == w);
        assert(count_grid(g) == count_grid(g.drop_last()) + count_row(g.last()));
        assert(g.drop_last().len() == k);
        assert(count_grid(g.drop_last()) <= k * w);
        assert(k * w + w == g.len() * w) by (nonlinear_arith)
            requires
                k == g.len() - 1,
        ;
    } else {
        assert(g.len() * w == 0) by (nonlinear_arith)
            requires
                g.len() == 0,
        ;
    }
}

/// Counting rows entry by entry: when each entry of `n` is that of `a` plus
/// that of `b` minus that of `d`, so are the counts.
pub proof fn lemma_count_row_combine(a: Seq<bool>, b: Seq<bool>, d: Seq<bool>, n: Seq<bool>)
    requires
        b.len() == a.len(),
        d.len() == a.len(),
        n.len() == a.len(),
        forall|i: int|
            0 <= i < a.len() ==> (if #[trigger] n[i] { 1int } else { 0int }) == (if a[i] { 1int } else { 0int })
                + (if b[i] { 1int } else { 0int }) - (if d[i] { 1int } else { 0int }),
    ensures
        count_row(n) == count_row(a) + count_row(b) - count_row(d),
    decreases a.len(),
{
    if a.len() > 0 {
        let k = a.len() - 1;
        assert(n[k] == n.last());
        lemma_count_row_combine(a.drop_last(), b.drop_last(), d.drop_last(), n.drop_last());
    }
}

/// The grid form of `lemma_count_row_combine`.
pub proof fn lemma_count_grid_combine(
    a: Seq<Seq<bool>>,
    b: Seq<Seq<bool>>,
    d: Seq<Seq<bool>>,
    n: Seq<Seq<bool>>,
)
    requires
        b.len() == a.len(),
        d.len() == a.len(),
        n.len() == a.len(),
        forall|j: int|
            0 <= j < a.len() ==> #[trigger] b[j].len() == a[j].len() && d[j].len() == a[j].len()
                && n[j].len() == a[j].len(),
        forall|j: int, i: int|
            0 <= j < a.len() && 0 <= i < a[j].len() ==> (if #[trigger] n[j][i] { 1int } else { 0int })
                == (if a[j][i] { 1int } else { 0int }) + (if b[j][i] { 1int } else { 0int }) - (if d[j][i] {
                1int
            } else {
                0int
            }),
    ensures
        count_grid(n) == count_grid(a) + count_grid(b) - count_grid(d),
    decreases a.len(),
{
    if a.len() > 0 {
        let k = a.len() - 1;
        assert forall|i: int| 0 <= i < a[k].len() implies (if #[trigger] n[k][i] { 1int } else { 0int })
            == (if a[k][i] { 1int } else { 0int }) + (if b[k][i] { 1int } else { 0int }) - (if d[k][i] {
            1int
        } else {
            0int
        }) by {}
        assert(b[k].len() == a[k].len());
        lemma_count_row_combine(a[k], b[k], d[k], n[k]);
        lemma_count_grid_combine(a.drop_last(), b.drop_last(), d.drop_last(), n.drop_last());
    }
}

} // verus!
