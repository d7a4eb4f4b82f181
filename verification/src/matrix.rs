//! The matrix type and its arithmetic.

use crate::element::{
    clone_is_exact, difference_defined, dot, dot_defined, is_accumulated, is_difference, is_dot,
    is_negation, is_product, is_sum, lemma_exact_difference, lemma_exact_dot,
    lemma_exact_negation, lemma_exact_sum, negation_defined, sum_defined,
};
use crate::text::{join, lemma_join_next, Text};
use core::ops::{Add, Mul, Neg, Sub};
use vstd::prelude::*;
use vstd::std_specs::ops::{AddSpec, MulSpec, NegSpec, SubSpec};
use vstd::string::StringExecFns;

verus! {

/// The mathematical content of a matrix: its shape and its elements in
/// row-major order.
pub struct MatrixView<T> {
    pub rows: nat,
    pub cols: nat,
    pub values: Seq<T>,
}

impl<T> MatrixView<T> {
    /// The element count agrees with the shape.
    pub open spec fn wf(self) -> bool {
        self.values.len() == self.rows * self.cols
    }

    /// The element at row `r`, column `c`.
    pub open spec fn at(self, r: int, c: int) -> T {
        self.values[r * self.cols + c]
    }

    /// The elements of row `r`, left to right.
    pub open spec fn row(self, r: int) -> Seq<T> {
        Seq::new(self.cols, |c: int| self.at(r, c))
    }

    /// The elements of column `c`, top to bottom.
    pub open spec fn col(self, c: int) -> Seq<T> {
        Seq::new(self.rows, |r: int| self.at(r, c))
    }
}

/// A dense matrix of `rows` by `cols` elements, stored row by row. It holds
/// exactly `rows * cols` elements at all times.
#[derive(Debug, PartialEq, Eq, Hash)]
pub struct Matrix<T: Clone> {
    rows: usize,
    cols: usize,
    values: Vec<T>,
}

impl<T: Clone> View for Matrix<T> {
    type V = MatrixView<T>;

    closed spec fn view(&self) -> MatrixView<T> {
        MatrixView { rows: self.rows as nat, cols: self.cols as nat, values: self.values@ }
    }
}

impl<T: Clone> Matrix<T> {
    #[verifier::type_invariant]
    spec fn inv(&self) -> bool {
        self.values@.len() == self.rows * self.cols
    }

    /// Builds a matrix of the given shape from its elements in row-major
    /// order; `None` when their number is not `rows * cols`.
    pub fn new(rows: usize, cols: usize, v: Vec<T>) -> (res: Option<Matrix<T>>)
        ensures
            res is Some <==> v@.len() == rows * cols,
            res matches Some(m) ==> m@ == (MatrixView {
                rows: rows as nat,
                cols: cols as nat,
                values: v@,
            }),
    {
        let len = v.len();
        match rows.checked_mul(cols) {
            Some(n) => {
                if len != n {
                    None
                } else {
                    Some(Matrix { rows, cols, values: v })
                }
            },
            None => None,
        }
    }

    /// The number of rows.
    pub fn rows(&self) -> (n: usize)
        ensures
            n == self@.rows,
            self@.wf(),
    {
        proof {
            use_type_invariant(self);
        }
        self.rows
    }

    /// The number of columns.
    pub fn cols(&self) -> (n: usize)
        ensures
            n == self@.cols,
            self@.wf(),
    {
        proof {
            use_type_invariant(self);
        }
        self.cols
    }
}

/// `m` has the shape of `a` and `b`, and each of its elements may come out of
/// adding the elements of `a` and `b` at the same place.
pub open spec fn is_matrix_sum<S, T, U>(a: MatrixView<S>, b: MatrixView<T>, m: MatrixView<U>) -> bool where
    S: Clone + Add<T, Output = U>,
    T: Clone,
 {
    &&& m.rows == a.rows
    &&& m.cols == a.cols
    &&& m.values.len() == a.values.len()
    &&& forall|i: int|
        0 <= i < m.values.len() ==> is_sum(a.values[i], b.values[i], #[trigger] m.values[i])
}

/// `m` has the shape of `a` and `b`, and each of its elements may come out of
/// subtracting the element of `b` from the element of `a` at the same place.
pub open spec fn is_matrix_difference<S, T, U>(
    a: MatrixView<S>,
    b: MatrixView<T>,
    m: MatrixView<U>,
) -> bool where S: Clone + Sub<T, Output = U>, T: Clone {
    &&& m.rows == a.rows
    &&& m.cols == a.cols
    &&& m.values.len() == a.values.len()
    &&& forall|i: int|
        0 <= i < m.values.len() ==> is_difference(
            a.values[i],
            b.values[i],
            #[trigger] m.values[i],
        )
}

/// `m` has the shape of `a`, and each of its elements may come out of
/// negating the element of `a` at the same place.
pub open spec fn is_matrix_negation<S, T>(a: MatrixView<S>, m: MatrixView<T>) -> bool where
    S: Clone + Neg<Output = T>,
 {
    &&& m.rows == a.rows
    &&& m.cols == a.cols
    &&& m.values.len() == a.values.len()
    &&& forall|i: int|
        0 <= i < m.values.len() ==> is_negation(a.values[i], #[trigger] m.values[i])
}

/// `m` has the rows of `a` and the columns of `b`, and its element at
/// `(i, j)` may come out of accumulating, from the left, the products of row
/// `i` of `a` with column `j` of `b`.
pub open spec fn is_matrix_product<S, T, U>(
    a: MatrixView<S>,
    b: MatrixView<T>,
    m: MatrixView<U>,
) -> bool where S: Clone + Mul<T, Output = U>, T: Clone, U: Add<Output = U> {
    &&& m.rows == a.rows
    &&& m.cols == b.cols
    &&& m.wf()
    &&& forall|i: int, j: int|
        0 <= i < m.rows && 0 <= j < m.cols ==> is_dot(
            a.row(i),
            b.col(j),
            a.cols,
            #[trigger] m.at(i, j),
        )
}

/// Every element operation that multiplying `a` by `b` performs meets its
/// precondition, and no cell of the product is an empty sum.
pub open spec fn product_defined_for<S, T, U>(a: MatrixView<S>, b: MatrixView<T>) -> bool where
    S: Clone + Mul<T, Output = U>,
    T: Clone,
    U: Add<Output = U>,
 {
    &&& a.cols > 0 || a.rows == 0 || b.cols == 0
    &&& forall|i: int, j: int|
        #![trigger a.row(i), b.col(j)]
        0 <= i < a.rows && 0 <= j < b.cols ==> dot_defined(a.row(i), b.col(j), a.cols)
}

/// The element of row `i`, column `j` among row-major `values` with `cols`
/// columns.
spec fn cell<U>(values: Seq<U>, cols: int, i: int, j: int) -> U {
    values[i * cols + j]
}

/// Row `r`, column `c` of a `rows` by `cols` matrix lies at a linear index
/// within the matrix.
proof fn lemma_cell_index(r: int, c: int, rows: int, cols: int)
    requires
        0 <= r < rows,
        0 <= c < cols,
    ensures
        0 <= r * cols + c < rows * cols,
        (r + 1) * cols == r * cols + cols,
        (r + 1) * cols <= rows * cols,
        r * cols >= 0,
{
    assert((r + 1) * cols == r * cols + cols) by (nonlinear_arith);
    assert(r * cols >= 0) by (nonlinear_arith)
        requires
            0 <= r,
            0 <= cols,
    ;
    assert((r + 1) * cols <= rows * cols) by (nonlinear_arith)
        requires
            r + 1 <= rows,
            0 <= cols,
    ;
}

impl<T: Clone> Clone for Matrix<T> {
    /// A matrix of the same shape whose elements are clones of this one's.
    fn clone(&self) -> (res: Self)
        ensures
            res@.rows == self@.rows,
            res@.cols == self@.cols,
            res@.values.len() == self@.values.len(),
            forall|i: int|
                0 <= i < self@.values.len() ==> cloned(self@.values[i], #[trigger] res@.values[i]),
    {
        proof {
            use_type_invariant(self);
        }
        Matrix { rows: self.rows, cols: self.cols, values: self.values.clone() }
    }
}

/// The text forms of the elements of row `r`, left to right.
pub open spec fn row_parts<T: Text>(m: MatrixView<T>, r: int) -> Seq<Seq<char>> {
    Seq::new(m.cols, |c: int| m.at(r, c).text())
}

/// The text of row `r`: its elements' text forms with a tab between each
/// two.
pub open spec fn row_text<T: Text>(m: MatrixView<T>, r: int) -> Seq<char> {
    join(row_parts(m, r), '\t')
}

/// The texts of all rows, top to bottom.
pub open spec fn row_texts<T: Text>(m: MatrixView<T>) -> Seq<Seq<char>> {
    Seq::new(m.rows, |r: int| row_text(m, r))
}

/// The text of a matrix: its rows' texts with a newline between each two,
/// and none after the last; empty for a matrix without rows.
pub open spec fn render_text<T: Text>(m: MatrixView<T>) -> Seq<char> {
    join(row_texts(m), '\n')
}

impl<T: Clone + Text> Matrix<T> {
    /// Writes the matrix out as text, one line for each row.
    pub fn render(&self) -> (s: String)
        ensures
            s@ == render_text(self@),
    {
        proof {
            use_type_invariant(self);
        }
        let rows = self.rows;
        let cols = self.cols;
        let len = self.values.len();
        let ghost m = self@;
        let mut s = String::new();
        let mut r: usize = 0;
        while r < rows
            invariant
                m == self@,
                m.values == self.values@,
                m.wf(),
                m.values.len() == len,
                m.rows == rows,
                m.cols == cols,
                r <= rows,
                s@ == join(row_texts(m).take(r as int), '\n'),
            decreases rows - r,
        {
            let mut line = String::new();
            let mut c: usize = 0;
            while c < cols
                invariant
                    m == self@,
                    m.values == self.values@,
                    m.wf(),
                    m.values.len() == len,
                    m.rows == rows,
                    m.cols == cols,
                    r < rows,
                    c <= cols,
                    line@ == join(row_parts(m, r as int).take(c as int), '\t'),
                decreases cols - c,
            {
                proof {
                    lemma_cell_index(r as int, c as int, rows as int, cols as int);
                    lemma_join_next(row_parts(m, r as int), '\t', c as int);
                    reveal_strlit("\t");
                }
                let t = self.values[r * cols + c].to_text();
                if c > 0 {
                    line.append("\t");
                }
                line.append(t.as_str());
                c += 1;
            }
            proof {
                assert(row_parts(m, r as int).take(cols as int) =~= row_parts(m, r as int));
                lemma_join_next(row_texts(m), '\n', r as int);
                reveal_strlit("\n");
            }
            if r > 0 {
                s.append("\n");
            }
            s.append(line.as_str());
            r += 1;
        }
        assert(row_texts(m).take(rows as int) =~= row_texts(m));
        s
    }
}

impl<S, T, U> vstd::std_specs::ops::AddSpecImpl<Matrix<T>> for Matrix<S> where
    S: Clone + Add<T, Output = U>,
    T: Clone,
    U: Clone,
 {
    open spec fn obeys_add_spec() -> bool {
        false
    }

    open spec fn add_req(self, rhs: Matrix<T>) -> bool {
        self@.rows == rhs@.rows && self@.cols == rhs@.cols ==> forall|i: int|
            0 <= i < self@.values.len() ==> sum_defined(#[trigger] self@.values[i], rhs@.values[i])
    }

    open spec fn add_spec(self, rhs: Matrix<T>) -> Option<Matrix<U>> {
        arbitrary()
    }
}

impl<S, T, U> Add<Matrix<T>> for Matrix<S> where
    S: Clone + Add<T, Output = U>,
    T: Clone,
    U: Clone,
 {
    type Output = Option<Matrix<U>>;

    /// Element-wise sum of two matrices of one shape, the left element on the
    /// left of each addition; `None` when the shapes differ.
    fn add(self, rhs: Matrix<T>) -> (res: Option<Matrix<U>>)
        ensures
            res is Some <==> self@.rows == rhs@.rows && self@.cols == rhs@.cols,
            res matches Some(m) ==> m@.wf() && is_matrix_sum(self@, rhs@, m@),
            res matches Some(m) ==> (clone_is_exact::<S>() && clone_is_exact::<T>()
                && S::obeys_add_spec() ==> forall|i: int|
                0 <= i < m@.values.len() ==> #[trigger] m@.values[i] == self@.values[i].add_spec(
                    rhs@.values[i],
                )),
    {
        proof {
            use_type_invariant(&self);
            use_type_invariant(&rhs);
        }
        if self.rows != rhs.rows || self.cols != rhs.cols {
            None
        } else {
            let n = self.values.len();
            let mut v: Vec<U> = Vec::new();
            let mut i: usize = 0;
            assert(self@.values == self.values@ && rhs@.values == rhs.values@);
            while i < n
                invariant
                    n == self.values@.len(),
                    n == rhs.values@.len(),
                    i <= n,
                    v@.len() == i,
                    forall|k: int|
                        0 <= k < n ==> sum_defined(#[trigger] self.values@[k], rhs.values@[k]),
                    forall|k: int|
                        0 <= k < i ==> is_sum(self.values@[k], rhs.values@[k], #[trigger] v@[k]),
                decreases n - i,
            {
                let a = self.values[i].clone();
                let b = rhs.values[i].clone();
                assert(cloned(self.values@[i as int], a) && cloned(rhs.values@[i as int], b));
                v.push(a + b);
                i += 1;
            }
            proof {
                if clone_is_exact::<S>() && clone_is_exact::<T>() && S::obeys_add_spec() {
                    assert forall|k: int| 0 <= k < n implies #[trigger] v@[k]
                        == self@.values[k].add_spec(rhs@.values[k]) by {
                        lemma_exact_sum(self@.values[k], rhs@.values[k], v@[k]);
                    }
                }
            }
            Some(Matrix { rows: self.rows, cols: self.cols, values: v })
        }
    }
}

impl<S, T, U> vstd::std_specs::ops::SubSpecImpl<Matrix<T>> for Matrix<S> where
    S: Clone + Sub<T, Output = U>,
    T: Clone,
    U: Clone,
 {
    open spec fn obeys_sub_spec() -> bool {
        false
    }

    open spec fn sub_req(self, rhs: Matrix<T>) -> bool {
        self@.rows == rhs@.rows && self@.cols == rhs@.cols ==> forall|i: int|
            0 <= i < self@.values.len() ==> difference_defined(
                #[trigger] self@.values[i],
                rhs@.values[i],
            )
    }

    open spec fn sub_spec(self, rhs: Matrix<T>) -> Option<Matrix<U>> {
        arbitrary()
    }
}

impl<S, T, U> Sub<Matrix<T>> for Matrix<S> where
    S: Clone + Sub<T, Output = U>,
    T: Clone,
    U: Clone,
 {
    type Output = Option<Matrix<U>>;

    /// Element-wise difference of two matrices of one shape, the left element
    /// on the left of each subtraction; `None` when the shapes differ.
    fn sub(self, rhs: Matrix<T>) -> (res: Option<Matrix<U>>)
        ensures
            res is Some <==> self@.rows == rhs@.rows && self@.cols == rhs@.cols,
            res matches Some(m) ==> m@.wf() && is_matrix_difference(self@, rhs@, m@),
            res matches Some(m) ==> (clone_is_exact::<S>() && clone_is_exact::<T>()
                && S::obeys_sub_spec() ==> forall|i: int|
                0 <= i < m@.values.len() ==> #[trigger] m@.values[i] == self@.values[i].sub_spec(
                    rhs@.values[i],
                )),
    {
        proof {
            use_type_invariant(&self);
            use_type_invariant(&rhs);
        }
        if self.rows != rhs.rows || self.cols != rhs.cols {
            None
        } else {
            let n = self.values.len();
            let mut v: Vec<U> = Vec::new();
            let mut i: usize = 0;
            assert(self@.values == self.values@ && rhs@.values == rhs.values@);
            while i < n
                invariant
                    n == self.values@.len(),
                    n == rhs.values@.len(),
                    i <= n,
                    v@.len() == i,
                    forall|k: int|
                        0 <= k < n ==> difference_defined(
                            #[trigger] self.values@[k],
                            rhs.values@[k],
                        ),
                    forall|k: int|
                        0 <= k < i ==> is_difference(
                            self.values@[k],
                            rhs.values@[k],
                            #[trigger] v@[k],
                        ),
                decreases n - i,
            {
                let a = self.values[i].clone();
                let b = rhs.values[i].clone();
                assert(cloned(self.values@[i as int], a) && cloned(rhs.values@[i as int], b));
                v.push(a - b);
                i += 1;
            }
            proof {
                if clone_is_exact::<S>() && clone_is_exact::<T>() && S::obeys_sub_spec() {
                    assert forall|k: int| 0 <= k < n implies #[trigger] v@[k]
                        == self@.values[k].sub_spec(rhs@.values[k]) by {
                        lemma_exact_difference(self@.values[k], rhs@.values[k], v@[k]);
                    }
                }
            }
            Some(Matrix { rows: self.rows, cols: self.cols, values: v })
        }
    }
}

impl<S, T> vstd::std_specs::ops::NegSpecImpl for Matrix<S> where
    S: Clone + Neg<Output = T>,
    T: Clone,
 {
    open spec fn obeys_neg_spec() -> bool {
        false
    }

    open spec fn neg_req(self) -> bool {
        forall|i: int|
            0 <= i < self@.values.len() ==> negation_defined(#[trigger] self@.values[i])
    }

    open spec fn neg_spec(self) -> Matrix<T> {
        arbitrary()
    }
}

impl<S, T> Neg for Matrix<S> where
    S: Clone + Neg<Output = T>,
    T: Clone,
 {
    type Output = Matrix<T>;

    /// The matrix of the same shape in which every element is negated.
    fn neg(self) -> (m: Matrix<T>)
        ensures
            m@.wf(),
            is_matrix_negation(self@, m@),
            clone_is_exact::<S>() && S::obeys_neg_spec() ==> forall|i: int|
                0 <= i < m@.values.len() ==> #[trigger] m@.values[i] == self@.values[i].neg_spec(),
    {
        proof {
            use_type_invariant(&self);
        }
        let n = self.values.len();
        let mut v: Vec<T> = Vec::new();
        let mut i: usize = 0;
        assert(self@.values == self.values@);
        while i < n
            invariant
                n == self.values@.len(),
                i <= n,
                v@.len() == i,
                forall|k: int| 0 <= k < n ==> negation_defined(#[trigger] self.values@[k]),
                forall|k: int| 0 <= k < i ==> is_negation(self.values@[k], #[trigger] v@[k]),
            decreases n - i,
        {
            let a = self.values[i].clone();
            assert(cloned(self.values@[i as int], a));
            v.push(a.neg());
            i += 1;
        }
        proof {
            if clone_is_exact::<S>() && S::obeys_neg_spec() {
                assert forall|k: int| 0 <= k < n implies #[trigger] v@[k]
                    == self@.values[k].neg_spec() by {
                    lemma_exact_negation(self@.values[k], v@[k]);
                }
            }
        }
        Matrix { rows: self.rows, cols: self.cols, values: v }
    }
}

impl<S, T> vstd::std_specs::ops::MulSpecImpl<Matrix<T>> for Matrix<S> where
    S: Clone + Mul<T>,
    T: Clone,
    <S as Mul<T>>::Output: Clone + Add<Output = <S as Mul<T>>::Output>,
 {
    open spec fn obeys_mul_spec() -> bool {
        false
    }

    open spec fn mul_req(self, rhs: Matrix<T>) -> bool {
        self@.cols == rhs@.rows ==> product_defined_for(self@, rhs@)
    }

    open spec fn mul_spec(self, rhs: Matrix<T>) -> Option<Matrix<<S as Mul<T>>::Output>> {
        arbitrary()
    }
}

impl<S, T> Mul<Matrix<T>> for Matrix<S> where
    S: Clone + Mul<T>,
    T: Clone,
    <S as Mul<T>>::Output: Clone + Add<Output = <S as Mul<T>>::Output>,
 {
    type Output = Option<Matrix<<S as Mul<T>>::Output>>;

    /// The matrix product, each cell accumulated from the left in ascending
    /// inner index, the first product starting the accumulator; `None` when
    /// the left operand's columns are not as many as the right operand's
    /// rows. The products are added to one another, so the element product's
    /// type is also the element type of the result.
    fn mul(self, rhs: Matrix<T>) -> (res: Option<Matrix<<S as Mul<T>>::Output>>)
        ensures
            res is Some <==> self@.cols == rhs@.rows,
            res matches Some(m) ==> is_matrix_product(self@, rhs@, m@),
            res matches Some(m) ==> (clone_is_exact::<S>() && clone_is_exact::<T>()
                && S::obeys_mul_spec() && <S as Mul<T>>::Output::obeys_add_spec() ==> forall|
                i: int,
                j: int,
            |
                0 <= i < m@.rows && 0 <= j < m@.cols ==> #[trigger] m@.at(i, j) == dot(
                    self@.row(i),
                    rhs@.col(j),
                    self@.cols,
                )),
    {
        proof {
            use_type_invariant(&self);
            use_type_invariant(&rhs);
        }
        if self.cols != rhs.rows {
            None
        } else {
            let rows = self.rows;
            let n = self.cols;
            let pc = rhs.cols;
            let len_a = self.values.len();
            let len_b = rhs.values.len();
            let ghost a = self@;
            let ghost b = rhs@;
            let mut v: Vec<<S as Mul<T>>::Output> = Vec::new();
            let mut lrow: usize = 0;
            while lrow < rows
                invariant
                    a == self@,
                    b == rhs@,
                    a.values == self.values@,
                    b.values == rhs.values@,
                    a.values.len() == len_a,
                    b.values.len() == len_b,
                    a.wf(),
                    b.wf(),
                    a.rows == rows,
                    a.cols == n,
                    b.rows == n,
                    b.cols == pc,
                    product_defined_for(a, b),
                    lrow <= rows,
                    v@.len() == lrow * pc,
                    forall|i: int, j: int|
                        0 <= i < lrow && 0 <= j < pc ==> is_dot(
                            a.row(i),
                            b.col(j),
                            n as nat,
                            #[trigger] cell(v@, pc as int, i, j),
                        ),
                decreases rows - lrow,
            {
                let mut rcol: usize = 0;
                while rcol < pc
                    invariant
                        a == self@,
                        b == rhs@,
                        a.values == self.values@,
                        b.values == rhs.values@,
                        a.values.len() == len_a,
                        b.values.len() == len_b,
                        a.wf(),
                        b.wf(),
                        a.rows == rows,
                        a.cols == n,
                        b.rows == n,
                        b.cols == pc,
                        product_defined_for(a, b),
                        lrow < rows,
                        rcol <= pc,
                        v@.len() == lrow * pc + rcol,
                        forall|i: int, j: int|
                            0 <= i < lrow && 0 <= j < pc ==> is_dot(
                                a.row(i),
                                b.col(j),
                                n as nat,
                                #[trigger] cell(v@, pc as int, i, j),
                            ),
                        forall|j: int|
                            0 <= j < rcol ==> is_dot(
                                a.row(lrow as int),
                                b.col(j),
                                n as nat,
                                #[trigger] cell(v@, pc as int, lrow as int, j),
                            ),
                    decreases pc - rcol,
                {
                    let ghost row = a.row(lrow as int);
                    let ghost col = b.col(rcol as int);
                    proof {
                        lemma_cell_index(lrow as int, 0, rows as int, n as int);
                        lemma_cell_index(0, rcol as int, n as int, pc as int);
                    }
                    let x = self.values[lrow * n].clone();
                    let y = rhs.values[rcol].clone();
                    assert(cloned(row[0], x) && cloned(col[0], y));
                    let mut sum = x * y;
                    let mut lcol: usize = 1;
                    while lcol < n
                        invariant
                            a == self@,
                            b == rhs@,
                            a.values == self.values@,
                            b.values == rhs.values@,
                            a.values.len() == len_a,
                            b.values.len() == len_b,
                            a.wf(),
                            b.wf(),
                            a.rows == rows,
                            a.cols == n,
                            b.rows == n,
                            b.cols == pc,
                            lrow < rows,
                            rcol < pc,
                            row == a.row(lrow as int),
                            col == b.col(rcol as int),
                            dot_defined(row, col, n as nat),
                            1 <= lcol <= n,
                            is_dot(row, col, lcol as nat, sum),
                        decreases n - lcol,
                    {
                        proof {
                            lemma_cell_index(lrow as int, lcol as int, rows as int, n as int);
                            lemma_cell_index(lcol as int, rcol as int, n as int, pc as int);
                        }
                        let x = self.values[lrow * n + lcol].clone();
                        let y = rhs.values[lcol * pc + rcol].clone();
                        assert(cloned(row[lcol as int], x) && cloned(col[lcol as int], y));
                        let p = x * y;
                        assert(is_product(row[lcol as int], col[lcol as int], p));
                        let ghost acc = sum;
                        sum = sum + p;
                        assert(is_accumulated(acc, p, sum));
                        lcol += 1;
                    }
                    let ghost before = v@;
                    v.push(sum);
                    proof {
                        assert forall|i: int, j: int| 0 <= i < lrow && 0 <= j < pc implies #[trigger] cell(
                            v@,
                            pc as int,
                            i,
                            j,
                        ) == cell(before, pc as int, i, j) by {
                            lemma_cell_index(i, j, lrow as int, pc as int);
                        }
                        assert forall|j: int| 0 <= j < rcol implies #[trigger] cell(
                            v@,
                            pc as int,
                            lrow as int,
                            j,
                        ) == cell(before, pc as int, lrow as int, j) by {}
                    }
                    rcol += 1;
                }
                assert((lrow + 1) * pc == lrow * pc + pc) by (nonlinear_arith);
                lrow += 1;
            }
            let m = Matrix { rows, cols: pc, values: v };
            proof {
                assert forall|i: int, j: int| 0 <= i < m@.rows && 0 <= j < m@.cols implies is_dot(
                    a.row(i),
                    b.col(j),
                    a.cols,
                    #[trigger] m@.at(i, j),
                ) by {
                    assert(m@.at(i, j) == cell(v@, pc as int, i, j));
                }
                if clone_is_exact::<S>() && clone_is_exact::<T>() && S::obeys_mul_spec() && <S as Mul<
                    T,
                >>::Output::obeys_add_spec() {
                    assert forall|i: int, j: int| 0 <= i < m@.rows && 0 <= j < m@.cols implies #[trigger] m@.at(
                        i,
                        j,
                    ) == dot(a.row(i), b.col(j), a.cols) by {
                        lemma_exact_dot(a.row(i), b.col(j), a.cols, m@.at(i, j));
                    }
                }
            }
            Some(m)
        }
    }
}

} // verus!
