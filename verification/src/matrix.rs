use crate::error::NetError;
use crate::scalar::{within_unit, Scalar};
use vstd::prelude::*;

verus! {

/// A dense matrix: `rows` rows of `cols` entries each.
#[derive(Clone, Debug, PartialEq)]
pub struct Matrix<T> {
    pub rows: usize,
    pub cols: usize,
    pub data: Vec<Vec<T>>,
}

/// `g` has `rows` rows of `cols` entries each.
pub open spec fn is_grid<T>(g: Seq<Seq<T>>, rows: nat, cols: nat) -> bool {
    g.len() == rows && forall|i: int| 0 <= i < g.len() ==> (#[trigger] g[i]).len() == cols
}

/// The grid of `rows` by `cols` zeros.
pub open spec fn grid_zero<T: Scalar>(rows: nat, cols: nat) -> Seq<Seq<T>> {
    Seq::new(rows, |i: int| Seq::new(cols, |j: int| T::zero_spec()))
}

/// The `n` by `n` grid with ones on the diagonal and zeros elsewhere.
pub open spec fn grid_identity<T: Scalar>(n: nat) -> Seq<Seq<T>> {
    Seq::new(
        n,
        |i: int|
            Seq::new(
                n,
                |j: int|
                    if i == j {
                        T::one_spec()
                    } else {
                        T::zero_spec()
                    },
            ),
    )
}

/// Entry by entry sum of two grids of one shape.
pub open spec fn grid_add<T: Scalar>(a: Seq<Seq<T>>, b: Seq<Seq<T>>) -> Seq<Seq<T>> {
    Seq::new(a.len(), |i: int| Seq::new(a[i].len(), |j: int| a[i][j].add_spec(b[i][j])))
}

/// Entry by entry difference of two grids of one shape.
pub open spec fn grid_sub<T: Scalar>(a: Seq<Seq<T>>, b: Seq<Seq<T>>) -> Seq<Seq<T>> {
    Seq::new(a.len(), |i: int| Seq::new(a[i].len(), |j: int| a[i][j].sub_spec(b[i][j])))
}

/// Entry by entry product of two grids of one shape.
pub open spec fn grid_hadamard<T: Scalar>(a: Seq<Seq<T>>, b: Seq<Seq<T>>) -> Seq<Seq<T>> {
    Seq::new(a.len(), |i: int| Seq::new(a[i].len(), |j: int| a[i][j].mul_spec(b[i][j])))
}

/// The sum of the first `n` products `a[i][k] * b[k][j]`, accumulated from
/// zero in the order of rising `k`.
pub open spec fn dot_prefix<T: Scalar>(
    a: Seq<Seq<T>>,
    b: Seq<Seq<T>>,
    i: int,
    j: int,
    n: nat,
) -> T
    decreases n,
{
    if n == 0 {
        T::zero_spec()
    } else {
        dot_prefix(a, b, i, j, (n - 1) as nat).add_spec(a[i][n - 1].mul_spec(b[n - 1][j]))
    }
}

/// The matrix product of `a` and `b`, where `b` has `cols` columns.
pub open spec fn grid_mul<T: Scalar>(a: Seq<Seq<T>>, b: Seq<Seq<T>>, cols: nat) -> Seq<Seq<T>> {
    Seq::new(a.len(), |i: int| Seq::new(cols, |j: int| dot_prefix(a, b, i, j, b.len())))
}

/// The transpose of `a`, which has `cols` columns.
pub open spec fn grid_transpose<T>(a: Seq<Seq<T>>, cols: nat) -> Seq<Seq<T>> {
    Seq::new(cols, |j: int| Seq::new(a.len(), |i: int| a[i][j]))
}

/// `r` has the shape of `a`, and each entry of `r` is a result that `f` may
/// give on the entry of `a` at the same place.
pub open spec fn mapped_by<T, F: Fn(T) -> T>(f: F, a: Seq<Seq<T>>, r: Seq<Seq<T>>) -> bool {
    &&& r.len() == a.len()
    &&& forall|i: int| 0 <= i < a.len() ==> (#[trigger] r[i]).len() == a[i].len()
    &&& forall|i: int, j: int|
        0 <= i < a.len() && 0 <= j < a[i].len() ==> f.ensures((a[i][j],), #[trigger] r[i][j])
}

/// Every entry of the grid lies where samples are drawn from.
pub open spec fn grid_within_unit<T: Scalar>(g: Seq<Seq<T>>) -> bool {
    forall|i: int, j: int|
        0 <= i < g.len() && 0 <= j < g[i].len() ==> within_unit(#[trigger] g[i][j])
}

/// A vector of vectors as a sequence of sequences.
pub open spec fn rows_view<T>(rows: Seq<Vec<T>>) -> Seq<Seq<T>> {
    Seq::new(rows.len(), |i: int| rows[i]@)
}

impl<T> View for Matrix<T> {
    type V = Seq<Seq<T>>;

    open spec fn view(&self) -> Seq<Seq<T>> {
        rows_view(self.data@)
    }
}

impl<T> Matrix<T> {
    /// The stored rows are `rows` in number and `cols` long each.
    pub open spec fn wf(&self) -> bool {
        &&& self.data.len() == self.rows
        &&& forall|i: int| 0 <= i < self.data.len() ==> (#[trigger] self.data[i]).len() == self.cols
    }

    /// Both matrices have the same number of rows and of columns.
    pub open spec fn same_shape(&self, other: &Matrix<T>) -> bool {
        self.rows == other.rows && self.cols == other.cols
    }
}

impl<T: Scalar> Matrix<T> {
    /// The matrix of the given shape with every entry zero.
    pub fn zero_matrix(rows: usize, cols: usize) -> (m: Matrix<T>)
        ensures
            m.wf(),
            m.rows == rows,
            m.cols == cols,
            m@ == grid_zero::<T>(rows as nat, cols as nat),
    {
        let mut data: Vec<Vec<T>> = Vec::new();
        let mut i: usize = 0;
        while i < rows
            invariant
                0 <= i <= rows,
                data.len() == i,
                forall|p: int|
                    0 <= p < i ==> (#[trigger] data[p])@ == Seq::new(
                        cols as nat,
                        |j: int| T::zero_spec(),
                    ),
            decreases rows - i,
        {
            let mut row: Vec<T> = Vec::new();
            let mut j: usize = 0;
            while j < cols
                invariant
                    0 <= j <= cols,
                    row.len() == j,
                    forall|q: int| 0 <= q < j ==> #[trigger] row[q] == T::zero_spec(),
                decreases cols - j,
            {
                row.push(T::zero());
                j += 1;
            }
            assert(row@ =~= Seq::new(cols as nat, |j: int| T::zero_spec()));
            data.push(row);
            i += 1;
        }
        let m = Matrix { rows, cols, data };
        assert(m@ =~= grid_zero::<T>(rows as nat, cols as nat));
        m
    }

    /// The square matrix of the given size with ones on the diagonal and
    /// zeros elsewhere.
    pub fn identity_matrix(n: usize) -> (m: Matrix<T>)
        ensures
            m.wf(),
            m.rows == n,
            m.cols == n,
            m@ == grid_identity::<T>(n as nat),
    {
        let mut data: Vec<Vec<T>> = Vec::new();
        let mut i: usize = 0;
        while i < n
            invariant
                0 <= i <= n,
                data.len() == i,
                forall|p: int|
                    0 <= p < i ==> (#[trigger] data[p])@ == grid_identity::<T>(n as nat)[p],
            decreases n - i,
        {
            let mut row: Vec<T> = Vec::new();
            let mut j: usize = 0;
            while j < n
                invariant
                    0 <= j <= n,
                    row.len() == j,
                    forall|q: int|
                        0 <= q < j ==> #[trigger] row[q] == if i == q {
                            T::one_spec()
                        } else {
                            T::zero_spec()
                        },
                decreases n - j,
            {
                if i == j {
                    row.push(T::one());
                } else {
                    row.push(T::zero());
                }
                j += 1;
            }
            assert(row@ =~= grid_identity::<T>(n as nat)[i as int]);
            data.push(row);
            i += 1;
        }
        let m = Matrix { rows: n, cols: n, data };
        assert(m@ =~= grid_identity::<T>(n as nat));
        m
    }

    /// A matrix of the given shape whose entries are fresh samples, each
    /// drawn on its own from `[-1, 1)`.
    pub fn rand_matrix(rows: usize, cols: usize) -> (m: Matrix<T>)
        ensures
            m.wf(),
            m.rows == rows,
            m.cols == cols,
            grid_within_unit(m@),
    {
        let mut data: Vec<Vec<T>> = Vec::new();
        let mut i: usize = 0;
        while i < rows
            invariant
                0 <= i <= rows,
                data.len() == i,
                forall|p: int| 0 <= p < i ==> (#[trigger] data[p]).len() == cols,
                forall|p: int, q: int|
                    0 <= p < i && 0 <= q < cols ==> within_unit(#[trigger] data[p][q]),
            decreases rows - i,
        {
            let mut row: Vec<T> = Vec::new();
            let mut j: usize = 0;
            while j < cols
                invariant
                    0 <= j <= cols,
                    row.len() == j,
                    forall|q: int| 0 <= q < j ==> within_unit(#[trigger] row[q]),
                decreases cols - j,
            {
                row.push(T::draw());
                j += 1;
            }
            data.push(row);
            i += 1;
        }
        Matrix { rows, cols, data }
    }

    /// The matrix whose rows are the given ones. Refused when there is no row
    /// or when the rows differ in length.
    pub fn from_data(data: Vec<Vec<T>>) -> (res: Result<Matrix<T>, NetError>)
        ensures
            res.is_ok() <==> data.len() > 0 && forall|i: int|
                0 <= i < data.len() ==> (#[trigger] data[i]).len() == data[0].len(),
            res matches Err(e) ==> e == NetError::Shape,
            res matches Ok(m) ==> m.wf() && m.data == data && m.rows == data.len() && m.cols
                == data[0].len(),
    {
        if data.len() == 0 {
            return Err(NetError::Shape);
        }
        let cols = data[0].len();
        let mut i: usize = 1;
        while i < data.len()
            invariant
                1 <= i <= data.len(),
                cols == data[0].len(),
                forall|p: int| 0 <= p < i ==> (#[trigger] data[p]).len() == cols,
            decreases data.len() - i,
        {
            if data[i].len() != cols {
                return Err(NetError::Shape);
            }
            i += 1;
        }
        Ok(Matrix { rows: data.len(), cols, data })
    }

    /// Entry by entry sum. Refused unless both have the same shape.
    pub fn add(a: &Matrix<T>, b: &Matrix<T>) -> (res: Result<Matrix<T>, NetError>)
        requires
            a.wf(),
            b.wf(),
        ensures
            res.is_ok() <==> a.same_shape(b),
            res matches Err(e) ==> e == NetError::Shape,
            res matches Ok(m) ==> m.wf() && m.same_shape(a) && m@ == grid_add(a@, b@),
    {
        if a.rows != b.rows || a.cols != b.cols {
            return Err(NetError::Shape);
        }
        let mut data: Vec<Vec<T>> = Vec::new();
        let mut i: usize = 0;
        while i < a.rows
            invariant
                a.wf(),
                b.wf(),
                a.same_shape(b),
                0 <= i <= a.rows,
                data.len() == i,
                forall|p: int| 0 <= p < i ==> (#[trigger] data[p])@ == grid_add(a@, b@)[p],
            decreases a.rows - i,
        {
            let mut row: Vec<T> = Vec::new();
            let mut j: usize = 0;
            while j < a.cols
                invariant
                    a.wf(),
                    b.wf(),
                    a.same_shape(b),
                    i < a.rows,
                    0 <= j <= a.cols,
                    row.len() == j,
                    forall|q: int|
                        0 <= q < j ==> #[trigger] row[q] == a@[i as int][q].add_spec(
                            b@[i as int][q],
                        ),
                decreases a.cols - j,
            {
                row.push(a.data[i][j].plus(b.data[i][j]));
                j += 1;
            }
            assert(row@ =~= grid_add(a@, b@)[i as int]);
            data.push(row);
            i += 1;
        }
        let m = Matrix { rows: a.rows, cols: a.cols, data };
        assert(m@ =~= grid_add(a@, b@));
        Ok(m)
    }

    /// Entry by entry difference. Refused unless both have the same shape.
    pub fn subtract(a: &Matrix<T>, b: &Matrix<T>) -> (res: Result<Matrix<T>, NetError>)
        requires
            a.wf(),
            b.wf(),
        ensures
            res.is_ok() <==> a.same_shape(b),
            res matches Err(e) ==> e == NetError::Shape,
            res matches Ok(m) ==> m.wf() && m.same_shape(a) && m@ == grid_sub(a@, b@),
    {
        if a.rows != b.rows || a.cols != b.cols {
            return Err(NetError::Shape);
        }
        let mut data: Vec<Vec<T>> = Vec::new();
        let mut i: usize = 0;
        while i < a.rows
            invariant
                a.wf(),
                b.wf(),
                a.same_shape(b),
                0 <= i <= a.rows,
                data.len() == i,
                forall|p: int| 0 <= p < i ==> (#[trigger] data[p])@ == grid_sub(a@, b@)[p],
            decreases a.rows - i,
        {
            let mut row: Vec<T> = Vec::new();
            let mut j: usize = 0;
            while j < a.cols
                invariant
                    a.wf(),
                    b.wf(),
                    a.same_shape(b),
                    i < a.rows,
                    0 <= j <= a.cols,
                    row.len() == j,
                    forall|q: int|
                        0 <= q < j ==> #[trigger] row[q] == a@[i as int][q].sub_spec(
                            b@[i as int][q],
                        ),
                decreases a.cols - j,
            {
                row.push(a.data[i][j].minus(b.data[i][j]));
                j += 1;
            }
            assert(row@ =~= grid_sub(a@, b@)[i as int]);
            data.push(row);
            i += 1;
        }
        let m = Matrix { rows: a.rows, cols: a.cols, data };
        assert(m@ =~= grid_sub(a@, b@));
        Ok(m)
    }

    /// Entry by entry product. Refused unless both have the same shape.
    pub fn dot(a: &Matrix<T>, b: &Matrix<T>) -> (res: Result<Matrix<T>, NetError>)
        requires
            a.wf(),
            b.wf(),
        ensures
            res.is_ok() <==> a.same_shape(b),
            res matches Err(e) ==> e == NetError::Shape,
            res matches Ok(m) ==> m.wf() && m.same_shape(a) && m@ == grid_hadamard(a@, b@),
    {
        if a.rows != b.rows || a.cols != b.cols {
            return Err(NetError::Shape);
        }
        let mut data: Vec<Vec<T>> = Vec::new();
        let mut i: usize = 0;
        while i < a.rows
            invariant
                a.wf(),
                b.wf(),
                a.same_shape(b),
                0 <= i <= a.rows,
                data.len() == i,
                forall|p: int| 0 <= p < i ==> (#[trigger] data[p])@ == grid_hadamard(a@, b@)[p],
            decreases a.rows - i,
        {
            let mut row: Vec<T> = Vec::new();
            let mut j: usize = 0;
            while j < a.cols
                invariant
                    a.wf(),
                    b.wf(),
                    a.same_shape(b),
                    i < a.rows,
                    0 <= j <= a.cols,
                    row.len() == j,
                    forall|q: int|
                        0 <= q < j ==> #[trigger] row[q] == a@[i as int][q].mul_spec(
                            b@[i as int][q],
                        ),
                decreases a.cols - j,
            {
                row.push(a.data[i][j].times(b.data[i][j]));
                j += 1;
            }
            assert(row@ =~= grid_hadamard(a@, b@)[i as int]);
            data.push(row);
            i += 1;
        }
        let m = Matrix { rows: a.rows, cols: a.cols, data };
        assert(m@ =~= grid_hadamard(a@, b@));
        Ok(m)
    }

    /// The matrix product. Refused unless `a` has as many columns as `b` has
    /// rows. Each entry is accumulated from zero in the order of rising index.
    pub fn multiply(a: &Matrix<T>, b: &Matrix<T>) -> (res: Result<Matrix<T>, NetError>)
        requires
            a.wf(),
            b.wf(),
        ensures
            res.is_ok() <==> a.cols == b.rows,
            res matches Err(e) ==> e == NetError::Shape,
            res matches Ok(m) ==> m.wf() && m.rows == a.rows && m.cols == b.cols && m@ == grid_mul(
                a@,
                b@,
                b.cols as nat,
            ),
    {
        if a.cols != b.rows {
            return Err(NetError::Shape);
        }
        let mut data: Vec<Vec<T>> = Vec::new();
        let mut i: usize = 0;
        while i < a.rows
            invariant
                a.wf(),
                b.wf(),
                a.cols == b.rows,
                0 <= i <= a.rows,
                data.len() == i,
                forall|p: int|
                    0 <= p < i ==> (#[trigger] data[p])@ == grid_mul(a@, b@, b.cols as nat)[p],
            decreases a.rows - i,
        {
            let mut row: Vec<T> = Vec::new();
            let mut j: usize = 0;
            while j < b.cols
                invariant
                    a.wf(),
                    b.wf(),
                    a.cols == b.rows,
                    i < a.rows,
                    0 <= j <= b.cols,
                    row.len() == j,
                    forall|q: int|
                        0 <= q < j ==> #[trigger] row[q] == dot_prefix(
                            a@,
                            b@,
                            i as int,
                            q,
                            b@.len(),
                        ),
                decreases b.cols - j,
            {
                let mut s: T = T::zero();
                let mut k: usize = 0;
                while k < a.cols
                    invariant
                        a.wf(),
                        b.wf(),
                        a.cols == b.rows,
                        i < a.rows,
                        j < b.cols,
                        0 <= k <= a.cols,
                        s == dot_prefix(a@, b@, i as int, j as int, k as nat),
                    decreases a.cols - k,
                {
                    s = s.plus(a.data[i][k].times(b.data[k][j]));
                    k += 1;
                }
                row.push(s);
                j += 1;
            }
            assert(row@ =~= grid_mul(a@, b@, b.cols as nat)[i as int]);
            data.push(row);
            i += 1;
        }
        let m = Matrix { rows: a.rows, cols: b.cols, data };
        assert(m@ =~= grid_mul(a@, b@, b.cols as nat));
        Ok(m)
    }

    /// The matrix with `function` applied to every entry.
    pub fn apply_func<F: Fn(T) -> T>(&self, function: F) -> (m: Matrix<T>)
        requires
            self.wf(),
            forall|i: int, j: int|
                0 <= i < self.rows && 0 <= j < self.cols ==> function.requires((self@[i][j],)),
        ensures
            m.wf(),
            m.same_shape(self),
            mapped_by(function, self@, m@),
    {
        let mut data: Vec<Vec<T>> = Vec::new();
        let mut i: usize = 0;
        while i < self.rows
            invariant
                self.wf(),
                forall|i: int, j: int|
                    0 <= i < self.rows && 0 <= j < self.cols ==> function.requires(
                        (self@[i][j],),
                    ),
                0 <= i <= self.rows,
                data.len() == i,
                forall|p: int| 0 <= p < i ==> (#[trigger] data[p]).len() == self.cols,
                forall|p: int, q: int|
                    0 <= p < i && 0 <= q < self.cols ==> function.ensures(
                        (self@[p][q],),
                        #[trigger] data[p][q],
                    ),
            decreases self.rows - i,
        {
            let mut row: Vec<T> = Vec::new();
            let mut j: usize = 0;
            while j < self.cols
                invariant
                    self.wf(),
                    forall|i: int, j: int|
                        0 <= i < self.rows && 0 <= j < self.cols ==> function.requires(
                            (self@[i][j],),
                        ),
                    i < self.rows,
                    0 <= j <= self.cols,
                    row.len() == j,
                    forall|q: int|
                        0 <= q < j ==> function.ensures((self@[i as int][q],), #[trigger] row[q]),
                decreases self.cols - j,
            {
                let x = self.data[i][j];
                assert(x == self@[i as int][j as int]);
                row.push(function(x));
                j += 1;
            }
            data.push(row);
            i += 1;
        }
        let m = Matrix { rows: self.rows, cols: self.cols, data };
        m
    }

    /// The matrix with rows and columns swapped.
    pub fn transpose(&self) -> (m: Matrix<T>)
        requires
            self.wf(),
        ensures
            m.wf(),
            m.rows == self.cols,
            m.cols == self.rows,
            m@ == grid_transpose(self@, self.cols as nat),
    {
        let mut data: Vec<Vec<T>> = Vec::new();
        let mut j: usize = 0;
        while j < self.cols
            invariant
                self.wf(),
                0 <= j <= self.cols,
                data.len() == j,
                forall|q: int|
                    0 <= q < j ==> (#[trigger] data[q])@ == grid_transpose(
                        self@,
                        self.cols as nat,
                    )[q],
            decreases self.cols - j,
        {
            let mut row: Vec<T> = Vec::new();
            let mut i: usize = 0;
            while i < self.rows
                invariant
                    self.wf(),
                    j < self.cols,
                    0 <= i <= self.rows,
                    row.len() == i,
                    forall|p: int| 0 <= p < i ==> #[trigger] row[p] == self@[p][j as int],
                decreases self.rows - i,
            {
                row.push(self.data[i][j]);
                i += 1;
            }
            assert(row@ =~= grid_transpose(self@, self.cols as nat)[j as int]);
            data.push(row);
            j += 1;
        }
        let m = Matrix { rows: self.cols, cols: self.rows, data };
        assert(m@ =~= grid_transpose(self@, self.cols as nat));
        m
    }
}

} // verus!
