use vstd::prelude::*;
use crate::scalar::Real;

verus! {

/// Number of unordered pairs `{r, c}` with `r < i` and `r < c < n`: the
/// position, in row-major order of the strict upper triangle, where row `i`
/// begins.
pub open spec fn row_start(n: nat, i: nat) -> nat
    decreases i,
{
    if i == 0 {
        0
    } else {
        (row_start(n, (i - 1) as nat) + (n - 1 - (i - 1))) as nat
    }
}

/// Number of unordered pairs of distinct nodes among `n`.
pub open spec fn pair_count(n: nat) -> nat {
    (n * (n - 1) / 2) as nat
}

/// Index of the pair `{i, j}`, `i < j`, in row-major order of the strict upper
/// triangle.
pub open spec fn pair_index(n: nat, i: nat, j: nat) -> nat {
    (row_start(n, i) + (j - i - 1)) as nat
}

/// The weight that a complete graph on `n` nodes puts between `i` and `j`,
/// given one weight per unordered pair; `diag` on the diagonal.
pub open spec fn matrix_entry<T>(n: nat, diag: T, pairs: Seq<T>, i: nat, j: nat) -> T {
    if i == j {
        diag
    } else if i < j {
        pairs[pair_index(n, i, j) as int]
    } else {
        pairs[pair_index(n, j, i) as int]
    }
}

proof fn lemma_row_start_closed_form(n: nat, i: nat)
    requires
        i <= n,
    ensures
        2 * row_start(n, i) == i * (2 * n - i - 1),
    decreases i,
{
    if i == 0 {
        assert(i * (2 * n - i - 1) == 0);
    } else {
        lemma_row_start_closed_form(n, (i - 1) as nat);
        let k = (i - 1) as nat;
        assert(2 * row_start(n, i) == k * (2 * n - k - 1) + 2 * (n - 1 - k));
        assert(k * (2 * n - k - 1) + 2 * (n - 1 - k) == i * (2 * n - i - 1)) by (nonlinear_arith)
            requires
                k + 1 == i,
                i <= n,
        ;
    }
}

proof fn lemma_row_start_monotone(n: nat, i: nat, j: nat)
    requires
        i <= j <= n,
    ensures
        row_start(n, i) <= row_start(n, j),
    decreases j - i,
{
    if i < j {
        lemma_row_start_monotone(n, i, (j - 1) as nat);
    }
}

/// Every pair of distinct nodes has its own index below `pair_count(n)`.
pub proof fn lemma_pair_index_bounds(n: nat, i: nat, j: nat)
    requires
        i < j < n,
    ensures
        row_start(n, i) <= pair_index(n, i, j) < row_start(n, i + 1),
        pair_index(n, i, j) < pair_count(n),
{
    lemma_row_start_monotone(n, i + 1, n);
    lemma_row_start_closed_form(n, n);
    assert(n * (2 * n - n - 1) == n * (n - 1)) by (nonlinear_arith);
}

/// Two distinct pairs never share an index.
pub proof fn lemma_pair_index_injective(n: nat, i1: nat, j1: nat, i2: nat, j2: nat)
    requires
        i1 < j1 < n,
        i2 < j2 < n,
        pair_index(n, i1, j1) == pair_index(n, i2, j2),
    ensures
        i1 == i2,
        j1 == j2,
{
    lemma_pair_index_bounds(n, i1, j1);
    lemma_pair_index_bounds(n, i2, j2);
    if i1 < i2 {
        lemma_row_start_monotone(n, i1 + 1, i2);
    } else if i2 < i1 {
        lemma_row_start_monotone(n, i2 + 1, i1);
    }
}

/// The number of pairs of distinct nodes among `node_count`, when it fits.
pub fn pair_count_of(node_count: usize) -> (r: Option<usize>)
    ensures
        r matches Some(c) ==> c == pair_count(node_count as nat),
        r is None <==> pair_count(node_count as nat) > usize::MAX,
{
    if node_count == 0 {
        return Some(0);
    }
    let m = node_count - 1;
    let (a, b): (usize, usize) = if node_count % 2 == 0 {
        (node_count / 2, m)
    } else {
        (node_count, m / 2)
    };
    proof {
        let n = node_count as int;
        if n % 2 == 0 {
            let q = n / 2;
            assert(n * (n - 1) == 2 * (q * (n - 1))) by (nonlinear_arith)
                requires n == 2 * q;
        } else {
            let q = (n - 1) / 2;
            assert(n * (n - 1) == 2 * (n * q)) by (nonlinear_arith)
                requires n - 1 == 2 * q;
        }
        assert(a * b == pair_count(node_count as nat));
    }
    if b > 0 && a > usize::MAX / b {
        proof {
            let mx = usize::MAX as int;
            let q = mx / (b as int);
            vstd::arithmetic::div_mod::lemma_fundamental_div_mod(mx, b as int);
            vstd::arithmetic::mul::lemma_mul_inequality(q + 1, a as int, b as int);
            assert((q + 1) * b == b * q + b) by (nonlinear_arith);
            assert(a * b > usize::MAX);
        }
        return None;
    }
    proof {
        if b > 0 {
            let mx = usize::MAX as int;
            let q = mx / (b as int);
            vstd::arithmetic::div_mod::lemma_fundamental_div_mod(mx, b as int);
            vstd::arithmetic::mul::lemma_mul_inequality(a as int, q, b as int);
            assert(q * b == b * q) by (nonlinear_arith);
            assert(a * b <= usize::MAX);
        }
    }
    Some(a * b)
}

/// A square matrix of order `n` that is symmetric and has zero on its diagonal.
pub open spec fn is_coupling_matrix<T: Real>(m: Seq<Seq<T>>, n: nat) -> bool {
    &&& m.len() == n
    &&& forall|i: int| 0 <= i < n ==> #[trigger] m[i].len() == n
    &&& forall|i: int, j: int| 0 <= i < n && 0 <= j < n ==> m[i][j] == m[j][i]
    &&& forall|i: int| 0 <= i < n ==> #[trigger] m[i][i] == T::spec_zero()
}

/// A complete undirected graph with a weight on every pair of distinct nodes.
///
/// The weights are kept as a full `n x n` matrix: `weight(i, j) == weight(j, i)`,
/// and the diagonal holds `Real::zero()`. A graph never changes once built.
pub struct CouplingGraph<T> {
    node_count: usize,
    weights: Vec<Vec<T>>,
}

impl<T> View for CouplingGraph<T> {
    type V = Seq<Seq<T>>;

    closed spec fn view(&self) -> Seq<Seq<T>> {
        self.weights@.map_values(|row: Vec<T>| row@)
    }
}

impl<T: Real> CouplingGraph<T> {
    /// The representation agrees with the view.
    pub closed spec fn repr_ok(&self) -> bool {
        &&& self.node_count == self.weights@.len()
        &&& forall|i: int| 0 <= i < self.node_count ==> #[trigger] self.weights@[i]@.len() == self.node_count
    }

    pub open spec fn wf(&self) -> bool {
        &&& self.repr_ok()
        &&& is_coupling_matrix(self@, self@.len())
    }

    /// Builds the complete graph on `node_count` nodes from one weight per
    /// unordered pair of distinct nodes, given in row-major order of the strict
    /// upper triangle: `{0,1}, {0,2}, ..., {0,n-1}, {1,2}, ...`.
    ///
    /// Each pair's weight lands in both of its cells; the diagonal stays zero.
    pub fn new(node_count: usize, pair_weights: &Vec<T>) -> (g: Self)
        requires
            pair_weights@.len() == pair_count(node_count as nat),
        ensures
            g.wf(),
            g@.len() == node_count,
            forall|i: int, j: int|
                0 <= i < node_count && 0 <= j < node_count ==> #[trigger] g@[i][j]
                    == matrix_entry(node_count as nat, T::spec_zero(), pair_weights@, i as nat, j as nat),
    {
        let n = node_count;
        let ghost pairs = pair_weights@;
        proof {
            lemma_row_start_closed_form(n as nat, n as nat);
            assert((n as nat) * (2 * (n as nat) - (n as nat) - 1) == (n as nat) * ((n as nat) - 1))
                by (nonlinear_arith);
        }
        let total = pair_weights.len();
        let zero = T::zero();
        let mut rows: Vec<Vec<T>> = Vec::with_capacity(n);
        let mut k: usize = 0;
        let mut i: usize = 0;
        while i < n
            invariant
                i <= n,
                pairs == pair_weights@,
                pairs.len() == pair_count(n as nat),
                row_start(n as nat, n as nat) == pair_count(n as nat),
                rows@.len() == i,
                total == pairs.len(),
                k == row_start(n as nat, i as nat),
                forall|r: int| 0 <= r < i ==> #[trigger] rows@[r]@.len() == n,
                forall|r: int, c: int|
                    0 <= r < i && 0 <= c < n ==> #[trigger] rows@[r]@[c] == matrix_entry(
                        n as nat,
                        zero,
                        pairs,
                        r as nat,
                        c as nat,
                    ),
            decreases n - i,
        {
            let mut row: Vec<T> = Vec::with_capacity(n);
            let mut j: usize = 0;
            while j < i
                invariant
                    j <= i < n,
                    rows@.len() == i,
                    forall|r: int| 0 <= r < i ==> #[trigger] rows@[r]@.len() == n,
                    forall|r: int, c: int|
                        0 <= r < i && 0 <= c < n ==> #[trigger] rows@[r]@[c] == matrix_entry(
                            n as nat,
                            zero,
                            pairs,
                            r as nat,
                            c as nat,
                        ),
                    row@.len() == j,
                    forall|c: int|
                        0 <= c < j ==> #[trigger] row@[c] == matrix_entry(
                            n as nat,
                            zero,
                            pairs,
                            i as nat,
                            c as nat,
                        ),
                decreases i - j,
            {
                let w: T = rows[j][i];
                row.push(w);
                j = j + 1;
            }
            row.push(zero);
            j = j + 1;
            while j < n
                invariant
                    i < j <= n,
                    pairs == pair_weights@,
                    pairs.len() == pair_count(n as nat),
                    row_start(n as nat, n as nat) == pair_count(n as nat),
                    k == row_start(n as nat, i as nat) + (j - i - 1),
                    total == pairs.len(),
                    row@.len() == j,
                    forall|c: int|
                        0 <= c < j ==> #[trigger] row@[c] == matrix_entry(
                            n as nat,
                            zero,
                            pairs,
                            i as nat,
                            c as nat,
                        ),
                decreases n - j,
            {
                proof {
                    lemma_pair_index_bounds(n as nat, i as nat, j as nat);
                }
                row.push(pair_weights[k]);
                k = k + 1;
                j = j + 1;
            }
            assert(row_start(n as nat, (i + 1) as nat) == row_start(n as nat, i as nat) + (n - 1 - i));
            rows.push(row);
            i = i + 1;
        }
        let g = CouplingGraph { node_count: n, weights: rows };
        assert forall|a: int, b: int| 0 <= a < n && 0 <= b < n implies g@[a][b] == g@[b][a] by {
            assert(g@[a] == rows@[a]@);
            assert(g@[b] == rows@[b]@);
        }
        assert forall|a: int, b: int| 0 <= a < n && 0 <= b < n implies #[trigger] g@[a][b]
            == matrix_entry(n as nat, zero, pairs, a as nat, b as nat) by {
            assert(g@[a] == rows@[a]@);
        }
        g
    }

    /// Number of nodes.
    pub fn node_count(&self) -> (r: usize)
        requires
            self.wf(),
        ensures
            r == self@.len(),
    {
        self.node_count
    }

    /// The weight between nodes `i` and `j` (zero when `i == j`).
    pub fn weight(&self, i: usize, j: usize) -> (r: T)
        requires
            self.wf(),
            i < self@.len(),
            j < self@.len(),
        ensures
            r == self@[i as int][j as int],
    {
        self.weights[i][j]
    }
}

/// Every well-formed coupling graph is symmetric, `weight(i, j) == weight(j, i)`
/// for all nodes, and has zero on its diagonal.
pub proof fn lemma_coupling_symmetric<T: Real>(g: &CouplingGraph<T>)
    requires
        g.wf(),
    ensures
        forall|i: int, j: int| 0 <= i < g@.len() && 0 <= j < g@.len() ==> #[trigger] g@[i][j] == g@[j][i],
        forall|i: int| 0 <= i < g@.len() ==> #[trigger] g@[i][i] == T::spec_zero(),
{
}

} // verus!
