use crate::matrix::{
    dot_prefix, grid_add, grid_identity, grid_mul, grid_sub, grid_transpose, grid_zero, is_grid,
    mapped_by,
};
use crate::scalar::Scalar;
use vstd::prelude::*;

verus! {

/// At every place, the entries of `a` and `b` give the same sum in either
/// order.
pub open spec fn add_commutes_on<T: Scalar>(a: Seq<Seq<T>>, b: Seq<Seq<T>>) -> bool {
    forall|i: int, j: int|
        0 <= i < a.len() && 0 <= j < a[i].len() ==> (#[trigger] a[i][j]).add_spec(b[i][j])
            == b[i][j].add_spec(a[i][j])
}

/// At every place, the entries of `a`, `b` and `c` give the same sum however
/// they are grouped.
pub open spec fn add_associates_on<T: Scalar>(
    a: Seq<Seq<T>>,
    b: Seq<Seq<T>>,
    c: Seq<Seq<T>>,
) -> bool {
    forall|i: int, j: int|
        0 <= i < a.len() && 0 <= j < a[i].len() ==> (#[trigger] a[i][j]).add_spec(
            b[i][j],
        ).add_spec(c[i][j]) == a[i][j].add_spec(b[i][j].add_spec(c[i][j]))
}

/// Every entry of `a` minus itself is zero.
pub open spec fn sub_cancels_on<T: Scalar>(a: Seq<Seq<T>>) -> bool {
    forall|i: int, j: int|
        0 <= i < a.len() && 0 <= j < a[i].len() ==> (#[trigger] a[i][j]).sub_spec(a[i][j])
            == T::zero_spec()
}

/// `x` behaves towards zero and one as a number of a ring does.
pub open spec fn unit_laws_at<T: Scalar>(x: T) -> bool {
    &&& x.mul_spec(T::one_spec()) == x
    &&& x.mul_spec(T::zero_spec()) == T::zero_spec()
    &&& T::zero_spec().add_spec(x) == x
    &&& x.add_spec(T::zero_spec()) == x
}

/// Every entry of `a` obeys the unit laws, and so does zero.
pub open spec fn unit_laws_on<T: Scalar>(a: Seq<Seq<T>>) -> bool {
    &&& unit_laws_at(T::zero_spec())
    &&& forall|i: int, j: int|
        0 <= i < a.len() && 0 <= j < a[i].len() ==> unit_laws_at(#[trigger] a[i][j])
}

/// Two matrices whose entries add alike in either order have the same sum
/// in either order.
pub proof fn lemma_add_commutative<T: Scalar>(a: Seq<Seq<T>>, b: Seq<Seq<T>>, rows: nat, cols: nat)
    requires
        is_grid(a, rows, cols),
        is_grid(b, rows, cols),
        add_commutes_on(a, b),
    ensures
        grid_add(a, b) == grid_add(b, a),
{
    assert(grid_add(a, b) =~~= grid_add(b, a));
}

/// Three matrices whose entries add alike however grouped have the same sum
/// however grouped.
pub proof fn lemma_add_associative<T: Scalar>(
    a: Seq<Seq<T>>,
    b: Seq<Seq<T>>,
    c: Seq<Seq<T>>,
    rows: nat,
    cols: nat,
)
    requires
        is_grid(a, rows, cols),
        is_grid(b, rows, cols),
        is_grid(c, rows, cols),
        add_associates_on(a, b, c),
    ensures
        grid_add(grid_add(a, b), c) == grid_add(a, grid_add(b, c)),
{
    assert(grid_add(grid_add(a, b), c) =~~= grid_add(a, grid_add(b, c)));
}

/// A matrix whose every entry minus itself is zero gives, minus itself, the
/// zero matrix of its shape.
pub proof fn lemma_subtract_self<T: Scalar>(a: Seq<Seq<T>>, rows: nat, cols: nat)
    requires
        is_grid(a, rows, cols),
        sub_cancels_on(a),
    ensures
        grid_sub(a, a) == grid_zero::<T>(rows, cols),
{
    assert(grid_sub(a, a) =~~= grid_zero::<T>(rows, cols));
}

/// Transposing twice gives the matrix back.
pub proof fn lemma_transpose_involution<T>(a: Seq<Seq<T>>, rows: nat, cols: nat)
    requires
        is_grid(a, rows, cols),
    ensures
        is_grid(grid_transpose(a, cols), cols, rows),
        grid_transpose(grid_transpose(a, cols), rows) == a,
{
    assert(grid_transpose(grid_transpose(a, cols), rows) =~~= a);
}

/// Against the identity, the running sum for entry `(i, j)` stays zero until
/// the diagonal term is reached and is `a[i][j]` from then on.
proof fn lemma_dot_identity<T: Scalar>(a: Seq<Seq<T>>, rows: nat, cols: nat, i: int, j: int, n: nat)
    requires
        is_grid(a, rows, cols),
        unit_laws_on(a),
        0 <= i < rows,
        0 <= j < cols,
        n <= cols,
    ensures
        dot_prefix(a, grid_identity::<T>(cols), i, j, n) == if n <= j {
            T::zero_spec()
        } else {
            a[i][j]
        },
    decreases n,
{
    if n > 0 {
        lemma_dot_identity(a, rows, cols, i, j, (n - 1) as nat);
        let k = n - 1;
        assert(a[i].len() == cols);
        assert(unit_laws_at(a[i][k]));
        assert(unit_laws_at(a[i][j]));
        assert(grid_identity::<T>(cols)[k][j] == if k == j {
            T::one_spec()
        } else {
            T::zero_spec()
        });
    }
}

/// A matrix times the identity of its width is the matrix itself, where its
/// entries and zero obey the unit laws.
pub proof fn lemma_multiply_identity<T: Scalar>(a: Seq<Seq<T>>, rows: nat, cols: nat)
    requires
        is_grid(a, rows, cols),
        unit_laws_on(a),
    ensures
        grid_mul(a, grid_identity::<T>(cols), cols) == a,
{
    let p = grid_mul(a, grid_identity::<T>(cols), cols);
    assert forall|i: int| 0 <= i < rows implies #[trigger] p[i] =~= a[i] by {
        assert(a[i].len() == cols);
        assert forall|j: int| 0 <= j < cols implies p[i][j] == a[i][j] by {
            lemma_dot_identity(a, rows, cols, i, j, cols);
        }
    }
    assert(p =~= a);
}

/// Mapping with a function that gives back its argument gives back the
/// matrix.
pub proof fn lemma_map_identity<T, F: Fn(T) -> T>(f: F, a: Seq<Seq<T>>, r: Seq<Seq<T>>)
    requires
        mapped_by(f, a, r),
        forall|x: T, y: T| f.ensures((x,), y) ==> y == x,
    ensures
        r == a,
{
    assert forall|i: int| 0 <= i < a.len() implies #[trigger] r[i] =~= a[i] by {
        assert forall|j: int| 0 <= j < a[i].len() implies r[i][j] == a[i][j] by {
            assert(f.ensures((a[i][j],), r[i][j]));
        }
    }
    assert(r =~= a);
}

} // verus!
