//! Dense row-major matrix engine over opaque 32-bit scalar codes.

use vstd::prelude::*;

verus! {

/// A matrix entry: an opaque 32-bit scalar code. The embedding application
/// interprets codes as IEEE-754 single-precision numbers; the verified core
/// only moves them around.
pub type Scalar = u32;

/// The code of the additive unit (the all-zero bit pattern).
pub const SCALAR_ZERO: Scalar = 0;

/// The code of the multiplicative unit.
pub const SCALAR_ONE: Scalar = 0x3F80_0000;

/// A matrix or vector operation was invoked with incompatible shapes.
#[derive(Clone, Copy, Debug, PartialEq, Eq, Structural)]
pub enum MathError {
    DimensionMismatch,
}

/// Read-only access to a numeric vector, whatever its storage.
pub trait Vector<T> {
    /// The sequence of elements held.
    spec fn vals(&self) -> Seq<T>;

    /// The number of elements held.
    fn size(&self) -> (n: usize)
        ensures
            n == self.vals().len(),
    ;

    /// The element at position `i`.
    fn get(&self, i: usize) -> (x: T)
        requires
            i < self.vals().len(),
        ensures
            x == self.vals()[i as int],
    ;
}

impl<T: Copy> Vector<T> for Vec<T> {
    open spec fn vals(&self) -> Seq<T> {
        self@
    }

    fn size(&self) -> usize {
        self.len()
    }

    fn get(&self, i: usize) -> T {
        self[i]
    }
}

impl<T: Copy, const N: usize> Vector<T> for [T; N] {
    open spec fn vals(&self) -> Seq<T> {
        self@
    }

    fn size(&self) -> usize {
        N
    }

    fn get(&self, i: usize) -> T {
        self[i]
    }
}

/// Positions `(i, j)` with `i < m` and `j < n` map into `[0, m * n)` under
/// row-major order.
pub proof fn lemma_row_major_index(i: int, j: int, m: int, n: int)
    by (nonlinear_arith)
    requires
        0 <= i < m,
        0 <= j < n,
    ensures
        0 <= i * n + j < m * n,
{
}

/// The row-major position map is injective on in-range positions.
pub proof fn lemma_row_major_injective(i1: int, j1: int, i2: int, j2: int, n: int)
    by (nonlinear_arith)
    requires
        0 <= j1 < n,
        0 <= j2 < n,
        0 <= i1,
        0 <= i2,
        i1 * n + j1 == i2 * n + j2,
    ensures
        i1 == i2,
        j1 == j2,
{
}

/// A dense matrix of scalar codes, stored row-major: entry `(i, j)` lives at
/// flat position `i * n + j`.
#[derive(Clone, Debug)]
pub struct Matrix {
    values: Vec<Scalar>,
    m: usize,
    n: usize,
}

impl Matrix {
    /// The number of rows.
    pub closed spec fn rows(&self) -> int {
        self.m as int
    }

    /// The number of columns.
    pub closed spec fn cols(&self) -> int {
        self.n as int
    }

    /// The backing row-major buffer.
    pub closed spec fn flat(&self) -> Seq<Scalar> {
        self.values@
    }

    /// The backing buffer holds exactly one code per position.
    pub open spec fn wf(&self) -> bool {
        self.flat().len() == self.rows() * self.cols()
    }

    /// The entry at row `i`, column `j`.
    pub open spec fn entry(&self, i: int, j: int) -> Scalar {
        self.flat()[i * self.cols() + j]
    }

    /// A new matrix with `m` rows and `n` columns, every entry zero.
    pub fn new(m: usize, n: usize) -> (r: Matrix)
        requires
            m * n <= usize::MAX,
        ensures
            r.wf(),
            r.rows() == m,
            r.cols() == n,
            forall|i: int, j: int|
                0 <= i < m && 0 <= j < n ==> r.entry(i, j) == SCALAR_ZERO,
    {
        let len = m * n;
        let mut values: Vec<Scalar> = Vec::new();
        let mut k: usize = 0;
        while k < len
            invariant
                k <= len,
                values@.len() == k,
                forall|t: int| 0 <= t < k ==> values@[t] == SCALAR_ZERO,
            decreases len - k,
        {
            values.push(SCALAR_ZERO);
            k = k + 1;
        }
        let r = Matrix { values, m, n };
        proof {
            assert forall|i: int, j: int|
                0 <= i < m && 0 <= j < n implies r.entry(i, j) == SCALAR_ZERO by {
                lemma_row_major_index(i, j, m as int, n as int);
            };
        }
        r
    }

    /// A new square matrix with `n` rows and columns, every entry zero.
    pub fn new_square(n: usize) -> (r: Matrix)
        requires
            n * n <= usize::MAX,
        ensures
            r.wf(),
            r.rows() == n,
            r.cols() == n,
            forall|i: int, j: int|
                0 <= i < n && 0 <= j < n ==> r.entry(i, j) == SCALAR_ZERO,
    {
        Self::new(n, n)
    }

    /// Overwrites the entry at row `i`, column `j`; every other entry stays.
    pub fn set_value(&mut self, val: Scalar, i: usize, j: usize)
        requires
            old(self).wf(),
            i < old(self).rows(),
            j < old(self).cols(),
        ensures
            final(self).wf(),
            final(self).rows() == old(self).rows(),
            final(self).cols() == old(self).cols(),
            final(self).entry(i as int, j as int) == val,
            forall|a: int, b: int|
                0 <= a < old(self).rows() && 0 <= b < old(self).cols()
                    && !(a == i && b == j) ==> final(self).entry(a, b) == old(self).entry(a, b),
    {
        proof {
            lemma_row_major_index(i as int, j as int, self.m as int, self.n as int);
        }
        let _total = self.values.len();
        assert(i * self.n + j < _total);
        let idx = i * self.n + j;
        self.values.set(idx, val);
        proof {
            assert forall|a: int, b: int|
                0 <= a < old(self).rows() && 0 <= b < old(self).cols()
                    && !(a == i && b == j) implies final(self).entry(a, b) == old(self).entry(
                a,
                b,
            ) by {
                lemma_row_major_index(a, b, old(self).rows(), old(self).cols());
                if a * old(self).cols() + b == i * old(self).cols() + j {
                    lemma_row_major_injective(a, b, i as int, j as int, old(self).cols());
                }
            };
        }
    }

    /// A new square identity matrix: unit codes on the main diagonal, zero
    /// codes everywhere else.
    pub fn new_identity(n: usize) -> (r: Matrix)
        requires
            n * n <= usize::MAX,
        ensures
            r.wf(),
            r.rows() == n,
            r.cols() == n,
            forall|i: int, j: int|
                0 <= i < n && 0 <= j < n ==> r.entry(i, j) == (if i == j {
                    SCALAR_ONE
                } else {
                    SCALAR_ZERO
                }),
    {
        let mut r = Self::new(n, n);
        let mut i: usize = 0;
        while i < n
            invariant
                i <= n,
                r.wf(),
                r.rows() == n,
                r.cols() == n,
                forall|a: int, b: int|
                    0 <= a < n && 0 <= b < n ==> r.entry(a, b) == (if a == b && a < i {
                        SCALAR_ONE
                    } else {
                        SCALAR_ZERO
                    }),
            decreases n - i,
        {
            r.set_value(SCALAR_ONE, i, i);
            i = i + 1;
        }
        r
    }

    /// The number of rows.
    pub fn m(&self) -> (r: usize)
        ensures
            r == self.rows(),
    {
        self.m
    }

    /// The number of columns.
    pub fn n(&self) -> (r: usize)
        ensures
            r == self.cols(),
    {
        self.n
    }

    /// The value at some position, or `None` if the position is out of
    /// bounds: the row must be under the row count and the column under the
    /// column count.
    pub fn get_val(&self, i: usize, j: usize) -> (r: Option<Scalar>)
        requires
            self.wf(),
        ensures
            r == (if i < self.rows() && j < self.cols() {
                Some(self.entry(i as int, j as int))
            } else {
                None::<Scalar>
            }),
    {
        if i < self.m && j < self.n {
            proof {
                lemma_row_major_index(i as int, j as int, self.rows(), self.cols());
            }
            let _total = self.values.len();
            assert(i * self.n + j < _total);
            Some(self.values[i * self.n + j])
        } else {
            None
        }
    }

    /// A copy of row `i`.
    pub fn get_row(&self, i: usize) -> (r: Vec<Scalar>)
        requires
            self.wf(),
            i < self.rows(),
        ensures
            r@.len() == self.cols(),
            forall|j: int| 0 <= j < self.cols() ==> r@[j] == self.entry(i as int, j),
    {
        let mut row: Vec<Scalar> = Vec::new();
        let mut j: usize = 0;
        while j < self.n
            invariant
                self.wf(),
                i < self.rows(),
                j <= self.cols(),
                row@.len() == j,
                forall|t: int| 0 <= t < j ==> row@[t] == self.entry(i as int, t),
            decreases self.n - j,
        {
            proof {
                lemma_row_major_index(i as int, j as int, self.rows(), self.cols());
            }
            let _total = self.values.len();
            assert(i * self.n + j < _total);
            row.push(self.values[i * self.n + j]);
            j = j + 1;
        }
        row
    }

    /// A copy of column `j`.
    pub fn get_col(&self, j: usize) -> (r: Vec<Scalar>)
        requires
            self.wf(),
            j < self.cols(),
        ensures
            r@.len() == self.rows(),
            forall|i: int| 0 <= i < self.rows() ==> r@[i] == self.entry(i, j as int),
    {
        let mut col: Vec<Scalar> = Vec::new();
        let mut i: usize = 0;
        while i < self.m
            invariant
                self.wf(),
                j < self.cols(),
                i <= self.rows(),
                col@.len() == i,
                forall|t: int| 0 <= t < i ==> col@[t] == self.entry(t, j as int),
            decreases self.m - i,
        {
            proof {
                lemma_row_major_index(i as int, j as int, self.rows(), self.cols());
            }
            let _total = self.values.len();
            assert(i * self.n + j < _total);
            col.push(self.values[i * self.n + j]);
            i = i + 1;
        }
        col
    }

    /// A copy of the raw backing buffer, rows contiguous.
    pub fn get_raw_values(&self) -> (r: Vec<Scalar>)
        ensures
            r@ == self.flat(),
    {
        let mut out: Vec<Scalar> = Vec::new();
        let mut k: usize = 0;
        let total = self.values.len();
        while k < total
            invariant
                k <= total,
                total == self.flat().len(),
                out@.len() == k,
                forall|t: int| 0 <= t < k ==> out@[t] == self.flat()[t],
            decreases total - k,
        {
            out.push(self.values[k]);
            k = k + 1;
        }
        proof {
            assert(out@ =~= self.flat());
        }
        out
    }

    /// Replaces row `row_idx` with the given vector; refused when the vector's
    /// length differs from the column count.
    pub fn set_row<V: Vector<Scalar>>(&mut self, row_idx: usize, new_row: &V) -> (r: Result<
        (),
        MathError,
    >)
        requires
            old(self).wf(),
            row_idx < old(self).rows(),
        ensures
            final(self).wf(),
            final(self).rows() == old(self).rows(),
            final(self).cols() == old(self).cols(),
            r is Ok <==> new_row.vals().len() == old(self).cols(),
            r is Err ==> *final(self) == *old(self) && r == Err::<(), MathError>(
                MathError::DimensionMismatch,
            ),
            r is Ok ==> forall|j: int|
                0 <= j < old(self).cols() ==> final(self).entry(row_idx as int, j)
                    == new_row.vals()[j],
            r is Ok ==> forall|a: int, b: int|
                0 <= a < old(self).rows() && 0 <= b < old(self).cols() && a != row_idx
                    ==> final(self).entry(a, b) == old(self).entry(a, b),
    {
        if new_row.size() != self.n {
            return Err(MathError::DimensionMismatch);
        }
        let ghost orig = *self;
        let mut j: usize = 0;
        while j < self.n
            invariant
                self.wf(),
                self.rows() == orig.rows(),
                self.cols() == orig.cols(),
                row_idx < orig.rows(),
                new_row.vals().len() == orig.cols(),
                j <= orig.cols(),
                forall|t: int|
                    0 <= t < j ==> self.entry(row_idx as int, t) == new_row.vals()[t],
                forall|a: int, b: int|
                    0 <= a < orig.rows() && 0 <= b < orig.cols() && a != row_idx ==> self.entry(
                        a,
                        b,
                    ) == orig.entry(a, b),
            decreases self.n - j,
        {
            self.set_value(new_row.get(j), row_idx, j);
            j = j + 1;
        }
        Ok(())
    }

    /// A new matrix with rows and columns swapped: the transpose.
    pub fn to_transpose(&self) -> (r: Matrix)
        requires
            self.wf(),
        ensures
            is_transpose_of(r, *self),
    {
        proof {
            vstd::arithmetic::mul::lemma_mul_is_commutative(self.n as int, self.m as int);
        }
        let _total = self.values.len();
        assert(self.n * self.m == _total);
        let mut r = Matrix::new(self.n, self.m);
        let mut i: usize = 0;
        while i < self.n
            invariant
                self.wf(),
                i <= self.cols(),
                r.wf(),
                r.rows() == self.cols(),
                r.cols() == self.rows(),
                forall|a: int, b: int|
                    0 <= a < i && 0 <= b < self.rows() ==> r.entry(a, b) == self.entry(b, a),
            decreases self.n - i,
        {
            let mut j: usize = 0;
            while j < self.m
                invariant
                    self.wf(),
                    i < self.cols(),
                    j <= self.rows(),
                    r.wf(),
                    r.rows() == self.cols(),
                    r.cols() == self.rows(),
                    forall|a: int, b: int|
                        0 <= a < i && 0 <= b < self.rows() ==> r.entry(a, b) == self.entry(b, a),
                    forall|b: int| 0 <= b < j ==> r.entry(i as int, b) == self.entry(b, i as int),
                decreases self.m - j,
            {
                proof {
                    lemma_row_major_index(j as int, i as int, self.rows(), self.cols());
                }
                let _total = self.values.len();
                assert(j * self.n + i < _total);
                r.set_value(self.values[j * self.n + i], i, j);
                j = j + 1;
            }
            i = i + 1;
        }
        r
    }
}

impl Matrix {
    /// A matrix built from a flat buffer, row-major; refused when the buffer's
    /// length is not `m * n`.
    pub fn from_values<V: Vector<Scalar>>(input: &V, m: usize, n: usize) -> (r: Result<
        Matrix,
        MathError,
    >)
        ensures
            r is Ok <==> input.vals().len() == m * n,
            r is Err ==> r == Err::<Matrix, MathError>(MathError::DimensionMismatch),
            r is Ok ==> {
                let a = r->Ok_0;
                &&& a.wf()
                &&& a.rows() == m
                &&& a.cols() == n
                &&& a.flat() == input.vals()
            },
    {
        let size = input.size();
        let fits = match m.checked_mul(n) {
            Some(p) => p == size,
            None => false,
        };
        if !fits {
            return Err(MathError::DimensionMismatch);
        }
        let mut values: Vec<Scalar> = Vec::new();
        let mut k: usize = 0;
        while k < size
            invariant
                k <= size,
                size == input.vals().len(),
                values@.len() == k,
                forall|t: int| 0 <= t < k ==> values@[t] == input.vals()[t],
            decreases size - k,
        {
            values.push(input.get(k));
            k = k + 1;
        }
        proof {
            assert(values@ =~= input.vals());
        }
        Ok(Matrix { values, m, n })
    }

    /// A matrix whose rows are the given vectors; refused when the input is
    /// empty or the vectors' lengths differ.
    pub fn from_rows<V: Vector<Scalar>>(input: &Vec<V>) -> (r: Result<Matrix, MathError>)
        ensures
            r is Ok <==> input@.len() > 0 && (forall|k: int|
                0 <= k < input@.len() ==> #[trigger] input@[k].vals().len() == input@[0].vals().len()),
            r is Err ==> r == Err::<Matrix, MathError>(MathError::DimensionMismatch),
            r is Ok ==> {
                let a = r->Ok_0;
                &&& a.wf()
                &&& a.rows() == input@.len()
                &&& a.cols() == input@[0].vals().len()
                &&& forall|i: int, j: int|
                    0 <= i < a.rows() && 0 <= j < a.cols() ==> a.entry(i, j)
                        == input@[i].vals()[j]
            },
    {
        let row_count = input.len();
        if row_count == 0 {
            return Err(MathError::DimensionMismatch);
        }
        let width = input[0].size();
        let mut values: Vec<Scalar> = Vec::new();
        let mut i: usize = 0;
        while i < row_count
            invariant
                i <= row_count,
                row_count == input@.len(),
                width == input@[0].vals().len(),
                values@.len() == i * width,
                forall|k: int| 0 <= k < i ==> #[trigger] input@[k].vals().len() == width,
                forall|a: int, b: int|
                    0 <= a < i && 0 <= b < width ==> values@[a * width + b]
                        == input@[a].vals()[b],
            decreases row_count - i,
        {
            let row = &input[i];
            if row.size() != width {
                return Err(MathError::DimensionMismatch);
            }
            let mut j: usize = 0;
            while j < width
                invariant
                    i < row_count,
                    j <= width,
                    row_count == input@.len(),
                    width == input@[0].vals().len(),
                    row == &input@[i as int],
                    row.vals().len() == width,
                    values@.len() == i * width + j,
                    forall|k: int| 0 <= k < i ==> #[trigger] input@[k].vals().len() == width,
                    forall|a: int, b: int|
                        0 <= a < i && 0 <= b < width ==> values@[a * width + b]
                            == input@[a].vals()[b],
                    forall|b: int| 0 <= b < j ==> values@[i as int * width + b] == row.vals()[b],
                decreases width - j,
            {
                proof {
                    lemma_row_major_index(i as int, j as int, row_count as int, width as int);
                    assert forall|a: int, b: int|
                        0 <= a < i && 0 <= b < width implies #[trigger] (a * width + b) < i as int
                        * width by {
                        lemma_row_major_index(a, b, i as int, width as int);
                    };
                }
                values.push(row.get(j));
                j = j + 1;
            }
            i = i + 1;
            proof {
                assert(values@.len() == i as int * width) by (nonlinear_arith)
                    requires
                        values@.len() == (i as int - 1) * width + width,
                ;
                assert forall|a: int, b: int|
                    0 <= a < i && 0 <= b < width implies values@[a * width + b]
                    == input@[a].vals()[b] by {
                    lemma_row_major_index(a, b, i as int, width as int);
                    assert(a * width + b < i * width) by (nonlinear_arith)
                        requires
                            0 <= a < i,
                            0 <= b < width,
                    ;
                };
            }
        }
        let r = Matrix { values, m: row_count, n: width };
        proof {
            assert forall|a: int, b: int|
                0 <= a < r.rows() && 0 <= b < r.cols() implies r.entry(a, b)
                == input@[a].vals()[b] by {
                lemma_row_major_index(a, b, r.rows(), r.cols());
            };
        }
        Ok(r)
    }

    /// A matrix whose columns are the given vectors; refused when the input is
    /// empty, the vectors' lengths differ, or the total entry count does not
    /// fit the machine.
    pub fn from_cols<V: Vector<Scalar>>(input: &Vec<V>) -> (r: Result<Matrix, MathError>)
        ensures
            r is Ok <==> input@.len() > 0 && (forall|k: int|
                0 <= k < input@.len() ==> #[trigger] input@[k].vals().len() == input@[0].vals().len())
                && input@[0].vals().len() * input@.len() <= usize::MAX,
            r is Err ==> r == Err::<Matrix, MathError>(MathError::DimensionMismatch),
            r is Ok ==> {
                let a = r->Ok_0;
                &&& a.wf()
                &&& a.rows() == input@[0].vals().len()
                &&& a.cols() == input@.len()
                &&& forall|i: int, j: int|
                    0 <= i < a.rows() && 0 <= j < a.cols() ==> a.entry(i, j)
                        == input@[j].vals()[i]
            },
    {
        let col_count = input.len();
        if col_count == 0 {
            return Err(MathError::DimensionMismatch);
        }
        let height = input[0].size();
        let total = match height.checked_mul(col_count) {
            Some(p) => p,
            None => {
                return Err(MathError::DimensionMismatch);
            },
        };
        let mut checked: usize = 0;
        while checked < col_count
            invariant
                checked <= col_count,
                col_count == input@.len(),
                height == input@[0].vals().len(),
                forall|k: int| 0 <= k < checked ==> #[trigger] input@[k].vals().len() == height,
            decreases col_count - checked,
        {
            if input[checked].size() != height {
                return Err(MathError::DimensionMismatch);
            }
            checked = checked + 1;
        }
        let mut r = Matrix::new(height, col_count);
        let mut j: usize = 0;
        while j < col_count
            invariant
                j <= col_count,
                col_count == input@.len(),
                height == input@[0].vals().len(),
                forall|k: int| 0 <= k < col_count ==> #[trigger] input@[k].vals().len() == height,
                r.wf(),
                r.rows() == height,
                r.cols() == col_count,
                forall|a: int, b: int|
                    0 <= a < height && 0 <= b < j ==> r.entry(a, b) == input@[b].vals()[a],
            decreases col_count - j,
        {
            let col = &input[j];
            let mut i: usize = 0;
            while i < height
                invariant
                    j < col_count,
                    i <= height,
                    col_count == input@.len(),
                    height == input@[0].vals().len(),
                    forall|k: int| 0 <= k < col_count ==> #[trigger] input@[k].vals().len() == height,
                    col == &input@[j as int],
                    r.wf(),
                    r.rows() == height,
                    r.cols() == col_count,
                    forall|a: int, b: int|
                        0 <= a < height && 0 <= b < j ==> r.entry(a, b) == input@[b].vals()[a],
                    forall|a: int| 0 <= a < i ==> r.entry(a, j as int) == col.vals()[a],
                decreases height - i,
            {
                r.set_value(col.get(i), i, j);
                i = i + 1;
            }
            j = j + 1;
        }
        Ok(r)
    }

    /// The shape rule of the matrix product: the frame of `self * rhs` is a
    /// zero matrix with `self.rows()` rows and `rhs.cols()` columns; the
    /// product is refused exactly when the inner dimensions differ.
    pub fn product_frame(&self, rhs: &Matrix) -> (r: Result<Matrix, MathError>)
        requires
            self.wf(),
            rhs.wf(),
            self.rows() * rhs.cols() <= usize::MAX,
        ensures
            r is Ok <==> self.cols() == rhs.rows(),
            r is Err ==> r == Err::<Matrix, MathError>(MathError::DimensionMismatch),
            r is Ok ==> {
                let p = r->Ok_0;
                &&& p.wf()
                &&& p.rows() == self.rows()
                &&& p.cols() == rhs.cols()
                &&& forall|i: int, j: int|
                    0 <= i < p.rows() && 0 <= j < p.cols() ==> p.entry(i, j) == SCALAR_ZERO
            },
    {
        if self.n != rhs.m {
            return Err(MathError::DimensionMismatch);
        }
        Ok(Matrix::new(self.m, rhs.n))
    }

    /// The shape rule of elementwise addition and subtraction: the frame of
    /// `self (+/-) rhs` is a zero matrix of the common shape; the operation is
    /// refused exactly when the shapes differ.
    pub fn elementwise_frame(&self, rhs: &Matrix) -> (r: Result<Matrix, MathError>)
        requires
            self.wf(),
            rhs.wf(),
        ensures
            r is Ok <==> self.rows() == rhs.rows() && self.cols() == rhs.cols(),
            r is Err ==> r == Err::<Matrix, MathError>(MathError::DimensionMismatch),
            r is Ok ==> {
                let p = r->Ok_0;
                &&& p.wf()
                &&& p.rows() == self.rows()
                &&& p.cols() == self.cols()
                &&& forall|i: int, j: int|
                    0 <= i < p.rows() && 0 <= j < p.cols() ==> p.entry(i, j) == SCALAR_ZERO
            },
    {
        if self.m != rhs.m || self.n != rhs.n {
            return Err(MathError::DimensionMismatch);
        }
        let _total = self.values.len();
        assert(self.rows() * self.cols() <= usize::MAX);
        Ok(Matrix::new(self.m, self.n))
    }

    /// Maps every entry in place through the given scalar-code function.
    pub fn apply_fn<F: Fn(Scalar) -> Scalar>(&mut self, f: F)
        requires
            old(self).wf(),
            forall|x: Scalar| #[trigger] call_requires(f, (x,)),
        ensures
            final(self).wf(),
            final(self).rows() == old(self).rows(),
            final(self).cols() == old(self).cols(),
            final(self).flat().len() == old(self).flat().len(),
            forall|k: int|
                0 <= k < old(self).flat().len() ==> call_ensures(
                    f,
                    (old(self).flat()[k],),
                    #[trigger] final(self).flat()[k],
                ),
    {
        let ghost orig = *self;
        let total = self.values.len();
        let mut k: usize = 0;
        while k < total
            invariant
                k <= total,
                total == orig.flat().len(),
                self.flat().len() == orig.flat().len(),
                self.rows() == orig.rows(),
                self.cols() == orig.cols(),
                forall|x: Scalar| #[trigger] call_requires(f, (x,)),
                forall|t: int|
                    0 <= t < k ==> call_ensures(f, (orig.flat()[t],), #[trigger] self.flat()[t]),
                forall|t: int| k <= t < total ==> self.flat()[t] == orig.flat()[t],
            decreases total - k,
        {
            let y = f(self.values[k]);
            self.values.set(k, y);
            k = k + 1;
        }
    }

    /// A new matrix of the same shape whose every entry is the image of the
    /// old one under the given scalar-code function.
    pub fn to_apply_fn<F: Fn(Scalar) -> Scalar>(&self, f: F) -> (r: Matrix)
        requires
            self.wf(),
            forall|x: Scalar| #[trigger] call_requires(f, (x,)),
        ensures
            r.wf(),
            r.rows() == self.rows(),
            r.cols() == self.cols(),
            r.flat().len() == self.flat().len(),
            forall|k: int|
                0 <= k < self.flat().len() ==> call_ensures(
                    f,
                    (self.flat()[k],),
                    #[trigger] r.flat()[k],
                ),
    {
        let total = self.values.len();
        let mut values: Vec<Scalar> = Vec::new();
        let mut k: usize = 0;
        while k < total
            invariant
                k <= total,
                total == self.flat().len(),
                self.wf(),
                values@.len() == k,
                forall|x: Scalar| #[trigger] call_requires(f, (x,)),
                forall|t: int|
                    0 <= t < k ==> call_ensures(f, (self.flat()[t],), #[trigger] values@[t]),
            decreases total - k,
        {
            values.push(f(self.values[k]));
            k = k + 1;
        }
        Matrix { values, m: self.m, n: self.n }
    }
}

/// The code denotes an IEEE-754 single-precision NaN: exponent bits all set
/// and a nonzero mantissa.
pub open spec fn scalar_is_nan(c: Scalar) -> bool {
    (c & 0x7F80_0000) == 0x7F80_0000 && (c & 0x007F_FFFF) != 0
}

/// The code denotes an IEEE-754 single-precision zero, of either sign.
pub open spec fn scalar_is_zero(c: Scalar) -> bool {
    (c & 0x7FFF_FFFF) == 0
}

/// The two codes compare equal as IEEE-754 single-precision numbers: neither
/// is a NaN, and they are the same code or both are zeros. A NaN code is
/// unequal even to itself; the two zeros are equal to each other.
pub open spec fn scalar_eq(a: Scalar, b: Scalar) -> bool {
    &&& !scalar_is_nan(a)
    &&& !scalar_is_nan(b)
    &&& (a == b || (scalar_is_zero(a) && scalar_is_zero(b)))
}

/// Compares two scalar codes as the IEEE-754 single-precision numbers they
/// denote.
pub fn scalar_codes_equal(a: Scalar, b: Scalar) -> (r: bool)
    ensures
        r == scalar_eq(a, b),
{
    let a_nan = (a & 0x7F80_0000) == 0x7F80_0000 && (a & 0x007F_FFFF) != 0;
    let b_nan = (b & 0x7F80_0000) == 0x7F80_0000 && (b & 0x007F_FFFF) != 0;
    !a_nan && !b_nan && (a == b || ((a & 0x7FFF_FFFF) == 0 && (b & 0x7FFF_FFFF) == 0))
}

impl PartialEq for Matrix {
    /// Exact floating-point elementwise comparison, shape included: every
    /// pair of corresponding entries must denote equal numbers, so a matrix
    /// holding a NaN is unequal even to itself, and a positive zero equals a
    /// negative zero.
    fn eq(&self, other: &Matrix) -> (r: bool) {
        if self.m != other.m || self.n != other.n {
            return false;
        }
        if self.values.len() != other.values.len() {
            return false;
        }
        let total = self.values.len();
        let mut k: usize = 0;
        while k < total
            invariant
                k <= total,
                total == self.flat().len(),
                total == other.flat().len(),
                forall|t: int| 0 <= t < k ==> scalar_eq(self.flat()[t], other.flat()[t]),
            decreases total - k,
        {
            if !scalar_codes_equal(self.values[k], other.values[k]) {
                return false;
            }
            k = k + 1;
        }
        true
    }
}

impl vstd::std_specs::cmp::PartialEqSpecImpl for Matrix {
    open spec fn obeys_eq_spec() -> bool {
        true
    }

    open spec fn eq_spec(&self, other: &Matrix) -> bool {
        &&& self.rows() == other.rows()
        &&& self.cols() == other.cols()
        &&& self.flat().len() == other.flat().len()
        &&& forall|k: int| 0 <= k < self.flat().len() ==> scalar_eq(self.flat()[k], other.flat()[k])
    }
}

/// Walks the values of one matrix column from the top row down.
pub struct MatrixColIter<'a> {
    matrix_ref: &'a Matrix,
    col: usize,
    current_row: usize,
}

impl<'a> MatrixColIter<'a> {
    /// The matrix being walked.
    pub closed spec fn matrix(&self) -> Matrix {
        *self.matrix_ref
    }

    /// The column being walked.
    pub closed spec fn column(&self) -> int {
        self.col as int
    }

    /// The row the walk stands at.
    pub closed spec fn row(&self) -> int {
        self.current_row as int
    }

    /// A walk over column `col`, starting at the top row.
    pub fn new(matrix_ref: &'a Matrix, col: usize) -> (r: Self)
        ensures
            r.matrix() == *matrix_ref,
            r.column() == col,
            r.row() == 0,
    {
        MatrixColIter { matrix_ref, col, current_row: 0 }
    }

    /// The next value down the column, or `None` once past the last row.
    pub fn next(&mut self) -> (r: Option<Scalar>)
        requires
            old(self).matrix().wf(),
            old(self).column() < old(self).matrix().cols(),
        ensures
            final(self).matrix() == old(self).matrix(),
            final(self).column() == old(self).column(),
            r == (if old(self).row() < old(self).matrix().rows() {
                Some(old(self).matrix().entry(old(self).row(), old(self).column()))
            } else {
                None::<Scalar>
            }),
            r is Some ==> final(self).row() == old(self).row() + 1,
            r is None ==> final(self).row() == old(self).row(),
    {
        if self.current_row < self.matrix_ref.m {
            proof {
                lemma_row_major_index(
                    self.current_row as int,
                    self.col as int,
                    self.matrix_ref.rows(),
                    self.matrix_ref.cols(),
                );
            }
            let _total = self.matrix_ref.values.len();
            assert(self.current_row * self.matrix_ref.n + self.col < _total);
            let v = self.matrix_ref.values[self.current_row * self.matrix_ref.n + self.col];
            self.current_row = self.current_row + 1;
            Some(v)
        } else {
            None
        }
    }
}

/// `t` is the transpose of `a`: shape swapped and every entry mirrored.
pub open spec fn is_transpose_of(t: Matrix, a: Matrix) -> bool {
    &&& t.wf()
    &&& t.rows() == a.cols()
    &&& t.cols() == a.rows()
    &&& forall|i: int, j: int|
        0 <= i < t.rows() && 0 <= j < t.cols() ==> t.entry(i, j) == a.entry(j, i)
}

/// Transposing twice gives back the original matrix exactly: same shape and
/// the very same backing buffer.
pub proof fn lemma_transpose_involution(a: Matrix, b: Matrix, c: Matrix)
    requires
        a.wf(),
        is_transpose_of(b, a),
        is_transpose_of(c, b),
    ensures
        c.rows() == a.rows(),
        c.cols() == a.cols(),
        c.flat() == a.flat(),
{
    if a.cols() == 0 {
        assert(c.flat().len() == 0) by (nonlinear_arith)
            requires
                c.flat().len() == c.rows() * c.cols(),
                c.cols() == 0,
        ;
        assert(a.flat().len() == 0) by (nonlinear_arith)
            requires
                a.flat().len() == a.rows() * a.cols(),
                a.cols() == 0,
        ;
        assert(c.flat() =~= a.flat());
    } else {
        assert forall|k: int| 0 <= k < a.flat().len() implies c.flat()[k] == a.flat()[k] by {
            let n = a.cols();
            let i = k / n;
            let j = k % n;
            vstd::arithmetic::div_mod::lemma_fundamental_div_mod(k, n);
            assert(0 <= j < n) by {
                vstd::arithmetic::div_mod::lemma_mod_bound(k, n);
            }
            assert(0 <= i < a.rows()) by (nonlinear_arith)
                requires
                    k == n * i + j,
                    0 <= j < n,
                    0 <= k < a.rows() * n,
            ;
            assert(c.entry(i, j) == b.entry(j, i));
            assert(b.entry(j, i) == a.entry(i, j));
            assert(i * n + j == k) by (nonlinear_arith)
                requires
                    k == n * i + j,
            ;
        };
        assert(c.flat().len() == a.flat().len()) by (nonlinear_arith)
            requires
                c.flat().len() == c.rows() * c.cols(),
                a.flat().len() == a.rows() * a.cols(),
                c.rows() == a.rows(),
                c.cols() == a.cols(),
        ;
        assert(c.flat() =~= a.flat());
    }
}

} // verus!
