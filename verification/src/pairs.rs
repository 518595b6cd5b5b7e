//! The unordered pairs of bodies, in the order in which the potential energy
//! visits them.

use vstd::prelude::*;

verus! {

/// The pairs `(i, j)` with `i < j < n`, for one `i`, by ascending `j`.
pub open spec fn row(n: nat, i: int) -> Seq<(int, int)> {
    Seq::new((n - 1 - i) as nat, |t: int| (i, i + 1 + t))
}

/// The first `count` rows, one after the other.
pub open spec fn rows(n: nat, count: nat) -> Seq<(int, int)>
    decreases count,
{
    if count == 0 {
        Seq::empty()
    } else {
        rows(n, (count - 1) as nat) + row(n, count - 1)
    }
}

/// Every pair `(i, j)` with `i < j < n`: by ascending `i`, and for equal
/// `i` by ascending `j`.
pub open spec fn unordered_pairs(n: nat) -> Seq<(int, int)> {
    rows(n, n)
}

/// `a` comes before `b` in that order.
pub open spec fn precedes(a: (int, int), b: (int, int)) -> bool {
    a.0 < b.0 || (a.0 == b.0 && a.1 < b.1)
}

/// Where the pair `(i, j)` stands among the pairs of `n` bodies.
pub open spec fn place(n: nat, i: int, j: int) -> int {
    rows(n, i as nat).len() + (j - i - 1)
}

/// The first `count` rows hold `count * (2n - count - 1) / 2` pairs.
pub proof fn lemma_rows_len(n: nat, count: nat)
    requires
        count <= n,
    ensures
        2 * rows(n, count).len() == count * (2 * n - count - 1),
    decreases count,
{
    if count == 0 {
        assert(count * (2 * n - count - 1) == 0) by (nonlinear_arith)
            requires
                count == 0,
        ;
    } else {
        let fewer = (count - 1) as nat;
        lemma_rows_len(n, fewer);
        assert(rows(n, count).len() == rows(n, fewer).len() + (n - count));
        assert(fewer * (2 * n - fewer - 1) + 2 * (n - count) == count * (2 * n - count - 1))
            by (nonlinear_arith)
            requires
                fewer == count - 1,
        ;
    }
}

/// Each of the first `count` rows' pairs `(i, j)` has `i < count` and
/// `i < j < n`.
pub proof fn lemma_rows_members(n: nat, count: nat, t: int)
    requires
        count <= n,
        0 <= t < rows(n, count).len(),
    ensures
        0 <= rows(n, count)[t].0 < count,
        rows(n, count)[t].0 < rows(n, count)[t].1 < n,
    decreases count,
{
    if count > 0 {
        let fewer = (count - 1) as nat;
        if t < rows(n, fewer).len() {
            lemma_rows_members(n, fewer, t);
        }
    }
}

/// The first `count` rows' pairs stand in strictly ascending order.
pub proof fn lemma_rows_ascend(n: nat, count: nat, s: int, t: int)
    requires
        count <= n,
        0 <= s < t < rows(n, count).len(),
    ensures
        precedes(rows(n, count)[s], rows(n, count)[t]),
    decreases count,
{
    if count > 0 {
        let fewer = (count - 1) as nat;
        if t < rows(n, fewer).len() {
            lemma_rows_ascend(n, fewer, s, t);
        } else if s < rows(n, fewer).len() {
            lemma_rows_members(n, fewer, s);
        }
    }
}

/// Rows that are added later leave the earlier pairs where they are.
pub proof fn lemma_rows_extend(n: nat, fewer: nat, count: nat, t: int)
    requires
        fewer <= count,
        0 <= t < rows(n, fewer).len(),
    ensures
        t < rows(n, count).len(),
        rows(n, count)[t] == rows(n, fewer)[t],
    decreases count,
{
    if fewer < count {
        lemma_rows_extend(n, fewer, (count - 1) as nat, t);
    }
}

/// The pair `(i, j)` stands at `place(n, i, j)`.
pub proof fn lemma_pair_at_place(n: nat, i: int, j: int)
    requires
        0 <= i < j < n,
    ensures
        0 <= place(n, i, j) < unordered_pairs(n).len(),
        unordered_pairs(n)[place(n, i, j)] == (i, j),
{
    let t = place(n, i, j);
    let through = (i + 1) as nat;
    assert(rows(n, through) == rows(n, i as nat) + row(n, i));
    assert(row(n, i)[j - i - 1] == (i, j));
    assert(rows(n, through)[t] == (i, j));
    lemma_rows_extend(n, through, n, t);
}

/// Pair counting: `n` bodies have `n * (n - 1) / 2` unordered pairs.
pub proof fn lemma_pair_count(n: nat)
    ensures
        2 * unordered_pairs(n).len() == n * (n - 1),
        unordered_pairs(n).len() == n * (n - 1) / 2,
{
    lemma_rows_len(n, n);
    assert(n * (2 * n - n - 1) == n * (n - 1)) by (nonlinear_arith);
}

/// Each unordered pair is listed exactly once, and never in the opposite
/// order: `(i, j)` with `i < j < n` stands at `place(n, i, j)` and nowhere
/// else, and every pair in the list has its smaller member first.
pub proof fn lemma_each_pair_once(n: nat, i: int, j: int, t: int)
    requires
        0 <= t < unordered_pairs(n).len(),
    ensures
        unordered_pairs(n)[t].0 < unordered_pairs(n)[t].1,
        0 <= i < j < n ==> (unordered_pairs(n)[t] == (i, j) <==> t == place(n, i, j)),
        i < j ==> unordered_pairs(n)[t] != (j, i),
{
    lemma_rows_members(n, n, t);
    if 0 <= i < j < n {
        lemma_pair_at_place(n, i, j);
        let at = place(n, i, j);
        if t < at {
            lemma_rows_ascend(n, n, t, at);
        } else if at < t {
            lemma_rows_ascend(n, n, at, t);
        }
    }
}

} // verus!
