//! The order in which unordered genome pairs are visited: row by row over the
//! first genome, and within a row over the second genome in increasing order.
use vstd::prelude::*;

verus! {

/// The pairs of row `i` among `n` genomes: `(i, i+1), (i, i+2), ..., (i, n-1)`.
pub open spec fn row_pairs_spec(i: int, n: int) -> Seq<(int, int)> {
    Seq::new(if i + 1 < n { (n - i - 1) as nat } else { 0 }, |t: int| (i, i + 1 + t))
}

/// The rows `0 .. i` one after the other.
pub open spec fn pairs_before(i: nat, n: int) -> Seq<(int, int)>
    decreases i,
{
    if i == 0 {
        Seq::empty()
    } else {
        pairs_before((i - 1) as nat, n) + row_pairs_spec(i - 1, n)
    }
}

/// Every unordered pair of `n` genomes, in the order in which they are evaluated.
pub open spec fn all_pairs_spec(n: nat) -> Seq<(int, int)> {
    pairs_before(n, n as int)
}

/// `p` comes strictly before `q`: by first index, then by second index.
pub open spec fn pair_lt(p: (int, int), q: (int, int)) -> bool {
    p.0 < q.0 || (p.0 == q.0 && p.1 < q.1)
}

/// `(a, b)` occurs in `s`.
pub open spec fn has_pair(s: Seq<(int, int)>, a: int, b: int) -> bool {
    exists|k: int| 0 <= k < s.len() && s[k] == (a, b)
}

/// Each entry is a pair `a < b < n` and the entries are strictly increasing.
pub open spec fn ordered_pairs(s: Seq<(int, int)>, n: int) -> bool {
    &&& forall|k: int| 0 <= k < s.len() ==> 0 <= #[trigger] s[k].0 < s[k].1 < n
    &&& forall|k: int, l: int| 0 <= k < l < s.len() ==> pair_lt(#[trigger] s[k], #[trigger] s[l])
}

proof fn lemma_pairs_before_len(i: nat, n: nat)
    requires
        i <= n,
    ensures
        2 * pairs_before(i, n as int).len() == 2 * i * n - i * (i + 1),
    decreases i,
{
    if i > 0 {
        lemma_pairs_before_len((i - 1) as nat, n);
        let k = (i - 1) as int;
        let lp = pairs_before((i - 1) as nat, n as int).len() as int;
        let lr = row_pairs_spec(k, n as int).len() as int;
        assert(lr == n - i);
        assert(pairs_before(i, n as int).len() == lp + lr);
        assert(2 * lp + 2 * lr == 2 * i * n - i * (i + 1)) by (nonlinear_arith)
            requires
                k == i - 1,
                2 * lp == 2 * k * n - k * (k + 1),
                lr == n - i,
        ;
    } else {
        assert(2 * i * n - i * (i + 1) == 0) by (nonlinear_arith)
            requires
                i == 0,
        ;
    }
}

proof fn lemma_pairs_before_ordered(i: nat, n: int)
    ensures
        ordered_pairs(pairs_before(i, n), n),
        forall|k: int| 0 <= k < pairs_before(i, n).len() ==> #[trigger] pairs_before(i, n)[k].0 < i,
    decreases i,
{
    if i > 0 {
        let prev = pairs_before((i - 1) as nat, n);
        let row = row_pairs_spec(i - 1, n);
        let s = pairs_before(i, n);
        lemma_pairs_before_ordered((i - 1) as nat, n);
        assert(s == prev + row);
        assert forall|k: int| 0 <= k < s.len() implies 0 <= #[trigger] s[k].0 < s[k].1 < n && s[k].0
            < i by {
            if k < prev.len() {
                assert(s[k] == prev[k]);
            } else {
                assert(s[k] == row[k - prev.len()]);
            }
        }
        assert forall|k: int, l: int| 0 <= k < l < s.len() implies pair_lt(
            #[trigger] s[k],
            #[trigger] s[l],
        ) by {
            if l < prev.len() {
                assert(s[k] == prev[k] && s[l] == prev[l]);
            } else if k < prev.len() {
                assert(s[k] == prev[k] && s[l] == row[l - prev.len()]);
            } else {
                assert(s[k] == row[k - prev.len()] && s[l] == row[l - prev.len()]);
            }
        }
    }
}

proof fn lemma_pairs_before_complete(i: nat, n: int, a: int, b: int)
    requires
        0 <= a < i,
        a < b < n,
    ensures
        has_pair(pairs_before(i, n), a, b),
    decreases i,
{
    let prev = pairs_before((i - 1) as nat, n);
    let row = row_pairs_spec(i - 1, n);
    let s = pairs_before(i, n);
    assert(s == prev + row);
    if a < i - 1 {
        lemma_pairs_before_complete((i - 1) as nat, n, a, b);
        let k = choose|k: int| 0 <= k < prev.len() && #[trigger] prev[k] == (a, b);
        assert(s[k] == (a, b));
    } else {
        let k = prev.len() + (b - a - 1);
        assert(s[k] == row[b - a - 1]);
        assert(s[k] == (a, b));
    }
}

/// All pairs of `n` genomes: there are `n * (n - 1) / 2` of them (none for
/// fewer than two genomes), each is a pair `a < b < n`, each such pair occurs,
/// and they come in strictly increasing order, so within one first genome the
/// second index strictly increases.
pub proof fn lemma_all_pairs(n: nat)
    ensures
        all_pairs_spec(n).len() == n * (n - 1) / 2,
        n <= 1 ==> all_pairs_spec(n).len() == 0,
        ordered_pairs(all_pairs_spec(n), n as int),
        forall|a: int, b: int| 0 <= a < b < n ==> #[trigger] has_pair(all_pairs_spec(n), a, b),
{
    lemma_pairs_before_len(n, n);
    assert(2 * n * n - n * (n + 1) == n * (n - 1)) by (nonlinear_arith);
    if n <= 1 {
        assert(n * (n - 1) == 0) by (nonlinear_arith)
            requires
                n <= 1,
        ;
    }
    lemma_pairs_before_ordered(n, n as int);
    assert forall|a: int, b: int| 0 <= a < b < n implies #[trigger] has_pair(
        all_pairs_spec(n),
        a,
        b,
    ) by {
        lemma_pairs_before_complete(n, n as int, a, b);
    }
}

} // verus!
