//! Covariance matrices and their gradients, laid out from a kernel.

use vstd::prelude::*;

verus! {

/// The rows of a matrix, each seen as a sequence.
pub open spec fn matrix_view<V>(m: Seq<Vec<V>>) -> Seq<Seq<V>> {
    m.map_values(|row: Vec<V>| row@)
}

/// The closure `kernel` computes the function `k` of the rows' contents.
pub open spec fn computes<V, K: Fn(&Vec<V>, &Vec<V>) -> V>(kernel: K, k: spec_fn(Seq<V>, Seq<V>) -> V) -> bool {
    forall|x: &Vec<V>, y: &Vec<V>, v: V| #[trigger] kernel.ensures((x, y), v) ==> v == k(x@, y@)
}

/// The closure `gradient` computes the function `g` of the rows' contents.
pub open spec fn computes_gradient<V, G: Fn(&Vec<V>, &Vec<V>) -> Vec<V>>(
    gradient: G,
    g: spec_fn(Seq<V>, Seq<V>) -> Seq<V>,
) -> bool {
    forall|x: &Vec<V>, y: &Vec<V>, v: Vec<V>| #[trigger] gradient.ensures((x, y), v) ==> v@ == g(x@, y@)
}

/// Entry `(i, j)` is the kernel at row `i` of `a` and row `j` of `b`.
pub open spec fn cross<V>(k: spec_fn(Seq<V>, Seq<V>) -> V, a: Seq<Seq<V>>, b: Seq<Seq<V>>) -> Seq<Seq<V>> {
    Seq::new(a.len(), |i: int| Seq::new(b.len(), |j: int| k(a[i], b[j])))
}

/// The square matrix whose entries on and below the diagonal come from the
/// triangle `tri` (row `i` of which holds `i + 1` entries), mirrored above it.
pub open spec fn mirrored<V>(tri: Seq<Seq<V>>) -> Seq<Seq<V>> {
    Seq::new(
        tri.len(),
        |i: int| Seq::new(tri.len(), |j: int| if j <= i { tri[i][j] } else { tri[j][i] }),
    )
}

/// Entry `(i, j)` of the covariance of `a` with itself, computed once for each
/// pair: the kernel at the earlier row, then the later one.
pub open spec fn lower_covariance<V>(k: spec_fn(Seq<V>, Seq<V>) -> V, a: Seq<Seq<V>>) -> Seq<Seq<V>> {
    Seq::new(
        a.len(),
        |i: int| Seq::new(a.len(), |j: int| if j <= i { k(a[j], a[i]) } else { k(a[i], a[j]) }),
    )
}

/// The gradient matrix of the covariance of `a` for hyperparameter `p`,
/// each pair computed once, as in `lower_covariance`.
pub open spec fn lower_gradient<V>(g: spec_fn(Seq<V>, Seq<V>) -> Seq<V>, a: Seq<Seq<V>>, p: int) -> Seq<Seq<V>> {
    Seq::new(
        a.len(),
        |i: int| Seq::new(a.len(), |j: int| if j <= i { g(a[j], a[i])[p] } else { g(a[i], a[j])[p] }),
    )
}

/// `m` is square and equal to its transpose.
pub open spec fn is_symmetric<V>(m: Seq<Seq<V>>) -> bool {
    &&& forall|i: int| 0 <= i < m.len() ==> (#[trigger] m[i]).len() == m.len()
    &&& forall|i: int, j: int| 0 <= i < m.len() && 0 <= j < m.len() ==> #[trigger] m[i][j] == m[j][i]
}

/// The kernel gives the same value whichever row comes first.
pub open spec fn kernel_is_symmetric<V>(k: spec_fn(Seq<V>, Seq<V>) -> V) -> bool {
    forall|x: Seq<V>, y: Seq<V>| #[trigger] k(x, y) == k(y, x)
}

/// The covariance matrix between the rows of `m1` and the rows of `m2`: one
/// row per row of `m1`, one column per row of `m2`, entry `(i, j)` being the
/// kernel at row `i` of `m1` and row `j` of `m2`.
pub fn make_covariance_matrix<V, K: Fn(&Vec<V>, &Vec<V>) -> V>(m1: &Vec<Vec<V>>, m2: &Vec<Vec<V>>, kernel: &K) -> (r:
    Vec<Vec<V>>)
    requires
        forall|x: &Vec<V>, y: &Vec<V>| #[trigger] kernel.requires((x, y)),
    ensures
        r@.len() == m1@.len(),
        forall|i: int| 0 <= i < m1@.len() ==> #[trigger] r@[i]@.len() == m2@.len(),
        forall|i: int, j: int|
            0 <= i < m1@.len() && 0 <= j < m2@.len() ==> kernel.ensures((&m1@[i], &m2@[j]), #[trigger] r@[i]@[j]),
        forall|k: spec_fn(Seq<V>, Seq<V>) -> V|
            #[trigger] computes(*kernel, k) ==> matrix_view(r@) == cross(k, matrix_view(m1@), matrix_view(m2@)),
{
    let mut result: Vec<Vec<V>> = Vec::new();
    let mut i: usize = 0;
    while i < m1.len()
        invariant
            i <= m1@.len(),
            forall|x: &Vec<V>, y: &Vec<V>| #[trigger] kernel.requires((x, y)),
            result@.len() == i,
            forall|c: int| 0 <= c < i ==> #[trigger] result@[c]@.len() == m2@.len(),
            forall|c: int, d: int|
                0 <= c < i && 0 <= d < m2@.len() ==> kernel.ensures((&m1@[c], &m2@[d]), #[trigger] result@[c]@[d]),
        decreases m1@.len() - i,
    {
        let mut row: Vec<V> = Vec::new();
        let mut j: usize = 0;
        while j < m2.len()
            invariant
                i < m1@.len(),
                j <= m2@.len(),
                forall|x: &Vec<V>, y: &Vec<V>| #[trigger] kernel.requires((x, y)),
                row@.len() == j,
                forall|d: int| 0 <= d < j ==> kernel.ensures((&m1@[i as int], &m2@[d]), #[trigger] row@[d]),
            decreases m2@.len() - j,
        {
            row.push(kernel(&m1[i], &m2[j]));
            j = j + 1;
        }
        result.push(row);
        i = i + 1;
    }
    proof {
        assert forall|k: spec_fn(Seq<V>, Seq<V>) -> V|
            #[trigger] computes(*kernel, k) implies matrix_view(result@) == cross(k, matrix_view(m1@), matrix_view(m2@)) by {
            let target = cross(k, matrix_view(m1@), matrix_view(m2@));
            assert forall|c: int| 0 <= c < m1@.len() implies #[trigger] matrix_view(result@)[c] =~= target[c] by {
                assert forall|d: int| 0 <= d < m2@.len() implies #[trigger] matrix_view(result@)[c][d] == target[c][d] by {
                    assert(kernel.ensures((&m1@[c], &m2@[d]), result@[c]@[d]));
                }
            }
            assert(matrix_view(result@) =~= target);
        }
    }
    result
}

/// Copies the triangle `tri` into a full square matrix, mirroring it above the
/// diagonal.
fn mirror_lower<V: Copy>(tri: &Vec<Vec<V>>) -> (r: Vec<Vec<V>>)
    requires
        forall|i: int| 0 <= i < tri@.len() ==> #[trigger] tri@[i]@.len() == i + 1,
    ensures
        matrix_view(r@) == mirrored(matrix_view(tri@)),
{
    let n = tri.len();
    let ghost target = mirrored(matrix_view(tri@));
    let mut result: Vec<Vec<V>> = Vec::new();
    let mut i: usize = 0;
    while i < n
        invariant
            n == tri@.len(),
            i <= n,
            forall|a: int| 0 <= a < n ==> #[trigger] tri@[a]@.len() == a + 1,
            target == mirrored(matrix_view(tri@)),
            result@.len() == i,
            forall|a: int| 0 <= a < i ==> #[trigger] result@[a]@ == target[a],
        decreases n - i,
    {
        let mut row: Vec<V> = Vec::new();
        let mut j: usize = 0;
        while j < n
            invariant
                n == tri@.len(),
                i < n,
                j <= n,
                forall|a: int| 0 <= a < n ==> #[trigger] tri@[a]@.len() == a + 1,
                target == mirrored(matrix_view(tri@)),
                row@.len() == j,
                forall|b: int| 0 <= b < j ==> #[trigger] row@[b] == target[i as int][b],
            decreases n - j,
        {
            let v: V = if j <= i {
                tri[i][j]
            } else {
                tri[j][i]
            };
            row.push(v);
            j = j + 1;
        }
        assert(row@ =~= target[i as int]);
        result.push(row);
        i = i + 1;
    }
    assert(matrix_view(result@) =~= target);
    result
}

/// The covariance matrix of `inputs` with itself, the kernel being evaluated
/// once for each pair on or below the diagonal, at the earlier row then the
/// later one, and the result mirrored above it. No noise is added to the
/// diagonal.
pub fn make_symmetric_covariance_matrix<V: Copy, K: Fn(&Vec<V>, &Vec<V>) -> V>(inputs: &Vec<Vec<V>>, kernel: &K) -> (r:
    Vec<Vec<V>>)
    requires
        forall|x: &Vec<V>, y: &Vec<V>| #[trigger] kernel.requires((x, y)),
    ensures
        is_symmetric(matrix_view(r@)),
        r@.len() == inputs@.len(),
        forall|i: int| 0 <= i < inputs@.len() ==> #[trigger] r@[i]@.len() == inputs@.len(),
        forall|i: int, j: int|
            0 <= j <= i < inputs@.len() ==> kernel.ensures((&inputs@[j], &inputs@[i]), #[trigger] r@[i]@[j]),
        forall|i: int, j: int|
            0 <= i < j < inputs@.len() ==> kernel.ensures((&inputs@[i], &inputs@[j]), #[trigger] r@[i]@[j]),
        forall|k: spec_fn(Seq<V>, Seq<V>) -> V|
            #[trigger] computes(*kernel, k) ==> matrix_view(r@) == lower_covariance(k, matrix_view(inputs@)),
{
    let n = inputs.len();
    let mut tri: Vec<Vec<V>> = Vec::new();
    let mut i: usize = 0;
    while i < n
        invariant
            n == inputs@.len(),
            i <= n,
            forall|x: &Vec<V>, y: &Vec<V>| #[trigger] kernel.requires((x, y)),
            tri@.len() == i,
            forall|c: int| 0 <= c < i ==> #[trigger] tri@[c]@.len() == c + 1,
            forall|c: int, d: int|
                0 <= d <= c < i ==> kernel.ensures((&inputs@[d], &inputs@[c]), #[trigger] tri@[c]@[d]),
        decreases n - i,
    {
        let mut row: Vec<V> = Vec::new();
        let mut j: usize = 0;
        while j <= i
            invariant
                n == inputs@.len(),
                i < n,
                j <= i + 1,
                forall|x: &Vec<V>, y: &Vec<V>| #[trigger] kernel.requires((x, y)),
                row@.len() == j,
                forall|d: int| 0 <= d < j ==> kernel.ensures((&inputs@[d], &inputs@[i as int]), #[trigger] row@[d]),
            decreases i + 1 - j,
        {
            row.push(kernel(&inputs[j], &inputs[i]));
            j = j + 1;
        }
        tri.push(row);
        i = i + 1;
    }
    let r = mirror_lower(&tri);
    proof {
        let m = matrix_view(r@);
        assert forall|c: int, d: int| 0 <= d <= c < n implies kernel.ensures((&inputs@[d], &inputs@[c]), #[trigger] r@[c]@[d]) by {
            assert(m.len() == n && r@.len() == m.len());
            assert(m[c] == r@[c]@);
            assert(r@[c]@[d] == m[c][d]);
            assert(tri@[c]@[d] == mirrored(matrix_view(tri@))[c][d]);
        }
        assert forall|c: int, d: int| 0 <= c < d < n implies kernel.ensures((&inputs@[c], &inputs@[d]), #[trigger] r@[c]@[d]) by {
            assert(m.len() == n && r@.len() == m.len());
            assert(m[c] == r@[c]@);
            assert(r@[c]@[d] == m[c][d]);
            assert(tri@[d]@[c] == mirrored(matrix_view(tri@))[c][d]);
        }
        assert forall|c: int| 0 <= c < n implies #[trigger] r@[c]@.len() == n by {
            assert(m[c] == r@[c]@);
        }
        assert(is_symmetric(m)) by {
            assert forall|c: int| 0 <= c < n implies (#[trigger] m[c]).len() == n by {}
            assert forall|c: int, d: int| 0 <= c < n && 0 <= d < n implies #[trigger] m[c][d] == m[d][c] by {}
        }
        assert forall|k: spec_fn(Seq<V>, Seq<V>) -> V|
            #[trigger] computes(*kernel, k) implies m == lower_covariance(k, matrix_view(inputs@)) by {
            let a = matrix_view(inputs@);
            assert forall|c: int| 0 <= c < n implies #[trigger] m[c] =~= lower_covariance(k, a)[c] by {
                assert forall|d: int| 0 <= d < n implies #[trigger] m[c][d] == lower_covariance(k, a)[c][d] by {
                    if d <= c {
                        assert(kernel.ensures((&inputs@[d], &inputs@[c]), tri@[c]@[d]));
                    } else {
                        assert(kernel.ensures((&inputs@[c], &inputs@[d]), tri@[d]@[c]));
                    }
                }
            }
            assert(m =~= lower_covariance(k, a));
        }
    }
    r
}

/// Component `p` of each gradient in the triangle `tri`.
pub open spec fn triangle_component<V>(tri: Seq<Vec<Vec<V>>>, p: int) -> Seq<Seq<V>> {
    Seq::new(tri.len(), |c: int| Seq::new((c + 1) as nat, |d: int| tri[c]@[d]@[p]))
}

/// Takes component `p` of each gradient in the triangle `tri`.
fn component<V: Copy>(tri: &Vec<Vec<Vec<V>>>, p: usize) -> (r: Vec<Vec<V>>)
    requires
        forall|c: int| 0 <= c < tri@.len() ==> #[trigger] tri@[c]@.len() == c + 1,
        forall|c: int, d: int| 0 <= d <= c < tri@.len() ==> p < #[trigger] tri@[c]@[d]@.len(),
    ensures
        r@.len() == tri@.len(),
        forall|c: int| 0 <= c < tri@.len() ==> #[trigger] r@[c]@.len() == c + 1,
        forall|c: int, d: int| 0 <= d <= c < tri@.len() ==> #[trigger] r@[c]@[d] == tri@[c]@[d]@[p as int],
{
    let n = tri.len();
    let mut result: Vec<Vec<V>> = Vec::new();
    let mut i: usize = 0;
    while i < n
        invariant
            n == tri@.len(),
            i <= tri@.len(),
            forall|c: int| 0 <= c < tri@.len() ==> #[trigger] tri@[c]@.len() == c + 1,
            forall|c: int, d: int| 0 <= d <= c < tri@.len() ==> p < #[trigger] tri@[c]@[d]@.len(),
            result@.len() == i,
            forall|c: int| 0 <= c < i ==> #[trigger] result@[c]@.len() == c + 1,
            forall|c: int, d: int| 0 <= d <= c < i ==> #[trigger] result@[c]@[d] == tri@[c]@[d]@[p as int],
        decreases tri@.len() - i,
    {
        let mut row: Vec<V> = Vec::new();
        let mut j: usize = 0;
        while j <= i
            invariant
                n == tri@.len(),
                i < n,
                j <= i + 1,
                forall|c: int| 0 <= c < tri@.len() ==> #[trigger] tri@[c]@.len() == c + 1,
                forall|c: int, d: int| 0 <= d <= c < tri@.len() ==> p < #[trigger] tri@[c]@[d]@.len(),
                row@.len() == j,
                forall|d: int| 0 <= d < j ==> #[trigger] row@[d] == tri@[i as int]@[d]@[p as int],
            decreases i + 1 - j,
        {
            assert(p < tri@[i as int]@[j as int]@.len());
            row.push(tri[i][j][p]);
            j = j + 1;
        }
        result.push(row);
        i = i + 1;
    }
    result
}

/// One matrix per hyperparameter of the kernel: the derivative of the
/// covariance matrix of `inputs` with respect to that hyperparameter. The
/// kernel's gradient, `nb_parameters` values, is evaluated once for each pair
/// on or below the diagonal, at the earlier row then the later one, and
/// mirrored above it.
pub fn make_gradient_covariance_matrices<V: Copy, G: Fn(&Vec<V>, &Vec<V>) -> Vec<V>>(
    inputs: &Vec<Vec<V>>,
    gradient: &G,
    nb_parameters: usize,
) -> (r: Vec<Vec<Vec<V>>>)
    requires
        forall|x: &Vec<V>, y: &Vec<V>| #[trigger] gradient.requires((x, y)),
        forall|x: &Vec<V>, y: &Vec<V>, v: Vec<V>|
            #[trigger] gradient.ensures((x, y), v) ==> v@.len() == nb_parameters,
    ensures
        r@.len() == nb_parameters,
        forall|p: int| 0 <= p < r@.len() ==> is_symmetric(matrix_view(#[trigger] r@[p]@)),
        forall|p: int| 0 <= p < r@.len() ==> (#[trigger] r@[p]@).len() == inputs@.len(),
        forall|p: int, i: int|
            0 <= p < r@.len() && 0 <= i < inputs@.len() ==> (#[trigger] r@[p]@[i]@).len() == inputs@.len(),
        forall|g: spec_fn(Seq<V>, Seq<V>) -> Seq<V>, p: int|
            #![trigger computes_gradient(*gradient, g), r@[p]]
            computes_gradient(*gradient, g) && 0 <= p < r@.len() ==> matrix_view(r@[p]@)
                == lower_gradient(g, matrix_view(inputs@), p),
{
    let n = inputs.len();
    let nb = nb_parameters;
    let mut tri: Vec<Vec<Vec<V>>> = Vec::new();
    let mut i: usize = 0;
    while i < n
        invariant
            n == inputs@.len(),
            i <= n,
            forall|x: &Vec<V>, y: &Vec<V>| #[trigger] gradient.requires((x, y)),
            forall|x: &Vec<V>, y: &Vec<V>, v: Vec<V>| #[trigger] gradient.ensures((x, y), v) ==> v@.len() == nb,
            tri@.len() == i,
            forall|c: int| 0 <= c < i ==> #[trigger] tri@[c]@.len() == c + 1,
            forall|c: int, d: int|
                0 <= d <= c < i ==> gradient.ensures((&inputs@[d], &inputs@[c]), #[trigger] tri@[c]@[d]),
        decreases n - i,
    {
        let mut row: Vec<Vec<V>> = Vec::new();
        let mut j: usize = 0;
        while j <= i
            invariant
                n == inputs@.len(),
                i < n,
                j <= i + 1,
                forall|x: &Vec<V>, y: &Vec<V>| #[trigger] gradient.requires((x, y)),
                row@.len() == j,
                forall|d: int| 0 <= d < j ==> gradient.ensures((&inputs@[d], &inputs@[i as int]), #[trigger] row@[d]),
            decreases i + 1 - j,
        {
            row.push(gradient(&inputs[j], &inputs[i]));
            j = j + 1;
        }
        tri.push(row);
        i = i + 1;
    }
    assert forall|c: int, d: int| 0 <= d <= c < n implies #[trigger] tri@[c]@[d]@.len() == nb by {
        assert(gradient.ensures((&inputs@[d], &inputs@[c]), tri@[c]@[d]));
    }
    let mut result: Vec<Vec<Vec<V>>> = Vec::new();
    let mut p: usize = 0;
    while p < nb
        invariant
            n == inputs@.len(),
            p <= nb,
            tri@.len() == n,
            forall|c: int| 0 <= c < n ==> #[trigger] tri@[c]@.len() == c + 1,
            forall|c: int, d: int|
                0 <= d <= c < n ==> gradient.ensures((&inputs@[d], &inputs@[c]), #[trigger] tri@[c]@[d]),
            forall|c: int, d: int| 0 <= d <= c < n ==> #[trigger] tri@[c]@[d]@.len() == nb,
            result@.len() == p,
            forall|q: int| 0 <= q < p ==> matrix_view(#[trigger] result@[q]@) == mirrored(
                triangle_component(tri@, q),
            ),
        decreases nb - p,
    {
        let part = component(&tri, p);
        let m = mirror_lower(&part);
        assert(matrix_view(part@) =~= triangle_component(tri@, p as int)) by {
            assert forall|c: int| 0 <= c < n implies #[trigger] matrix_view(part@)[c] =~= triangle_component(tri@, p as int)[c] by {}
        }
        result.push(m);
        p = p + 1;
    }
    proof {
        assert forall|q: int| 0 <= q < result@.len() implies #[trigger] (result@[q]@).len() == n && is_symmetric(matrix_view(result@[q]@)) by {
            let m = matrix_view(result@[q]@);
            assert(m.len() == n);
            assert forall|c: int| 0 <= c < n implies (#[trigger] m[c]).len() == n by {}
            assert forall|c: int, d: int| 0 <= c < n && 0 <= d < n implies #[trigger] m[c][d] == m[d][c] by {}
        }
        assert forall|q: int, c: int| 0 <= q < result@.len() && 0 <= c < n implies (#[trigger] result@[q]@[c]@).len() == n by {
            assert(matrix_view(result@[q]@)[c] == result@[q]@[c]@);
        }
        assert forall|g: spec_fn(Seq<V>, Seq<V>) -> Seq<V>, q: int|
            #![trigger computes_gradient(*gradient, g), result@[q]]
            computes_gradient(*gradient, g) && 0 <= q < result@.len() implies matrix_view(result@[q]@)
                == lower_gradient(g, matrix_view(inputs@), q) by {
            let a = matrix_view(inputs@);
            let m = matrix_view(result@[q]@);
            assert forall|c: int| 0 <= c < n implies #[trigger] m[c] =~= lower_gradient(g, a, q)[c] by {
                assert forall|d: int| 0 <= d < n implies #[trigger] m[c][d] == lower_gradient(g, a, q)[c][d] by {
                    if d <= c {
                        assert(gradient.ensures((&inputs@[d], &inputs@[c]), tri@[c]@[d]));
                    } else {
                        assert(gradient.ensures((&inputs@[c], &inputs@[d]), tri@[d]@[c]));
                    }
                }
            }
            assert(m =~= lower_gradient(g, a, q));
        }
    }
    result
}

/// The covariance matrix of a set of rows with itself is symmetric, for any
/// kernel that is symmetric in its two rows.
pub proof fn lemma_cross_self_symmetric<V>(k: spec_fn(Seq<V>, Seq<V>) -> V, a: Seq<Seq<V>>)
    requires
        kernel_is_symmetric(k),
    ensures
        is_symmetric(cross(k, a, a)),
{
    let m = cross(k, a, a);
    assert forall|i: int, j: int| 0 <= i < m.len() && 0 <= j < m.len() implies #[trigger] m[i][j] == m[j][i] by {
        assert(k(a[i], a[j]) == k(a[j], a[i]));
    }
}

/// For a symmetric kernel, computing only the lower triangle and mirroring it
/// gives the full covariance matrix of the rows with themselves.
pub proof fn lemma_lower_covariance_is_cross<V>(k: spec_fn(Seq<V>, Seq<V>) -> V, a: Seq<Seq<V>>)
    requires
        kernel_is_symmetric(k),
    ensures
        lower_covariance(k, a) == cross(k, a, a),
{
    assert forall|i: int| 0 <= i < a.len() implies #[trigger] lower_covariance(k, a)[i] =~= cross(k, a, a)[i] by {
        assert forall|j: int| 0 <= j < a.len() implies #[trigger] lower_covariance(k, a)[i][j] == cross(k, a, a)[i][j] by {
            assert(k(a[j], a[i]) == k(a[i], a[j]));
        }
    }
    assert(lower_covariance(k, a) =~= cross(k, a, a));
}

} // verus!
