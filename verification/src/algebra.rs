//! Laws of the matrix operations: what the arithmetic yields for element
//! types whose clones are exact and whose operators obey their specification
//! functions, and how the text of a matrix reflects its layout.

use crate::element::{
    clone_is_exact, dot, lemma_exact_difference, lemma_exact_dot, lemma_exact_negation,
    lemma_exact_sum,
};
use crate::matrix::{
    is_matrix_difference, is_matrix_negation, is_matrix_product, is_matrix_sum, render_text,
    row_parts, row_text, row_texts, MatrixView,
};
use crate::string::String_;
use crate::text::{
    count, lemma_count_join, lemma_decimal_holds_no_separator, lemma_split_join, split, Text,
};
use core::ops::{Add, Mul, Neg, Sub};
use vstd::prelude::*;
use vstd::std_specs::ops::{AddSpec, MulSpec, NegSpec, SubSpec};

verus! {

/// Each element of a sum is the sum of the operands' elements at the same
/// linear index, the left operand's element on the left.
pub proof fn lemma_sum_elements<S, T, U>(a: MatrixView<S>, b: MatrixView<T>, m: MatrixView<U>) where
    S: Clone + Add<T, Output = U>,
    T: Clone,

    requires
        clone_is_exact::<S>(),
        clone_is_exact::<T>(),
        S::obeys_add_spec(),
        is_matrix_sum(a, b, m),
    ensures
        m.rows == a.rows,
        m.cols == a.cols,
        m.values.len() == a.values.len(),
        forall|i: int|
            0 <= i < m.values.len() ==> #[trigger] m.values[i] == a.values[i].add_spec(b.values[i]),
{
    assert forall|i: int| 0 <= i < m.values.len() implies #[trigger] m.values[i]
        == a.values[i].add_spec(b.values[i]) by {
        lemma_exact_sum(a.values[i], b.values[i], m.values[i]);
    }
}

/// Each element of a sum of text matrices is the left operand's text
/// followed by the right operand's text at the same linear index.
pub proof fn lemma_text_sum_elements(
    a: MatrixView<String_>,
    b: MatrixView<String_>,
    m: MatrixView<String_>,
)
    requires
        is_matrix_sum(a, b, m),
    ensures
        m.rows == a.rows,
        m.cols == a.cols,
        m.values.len() == a.values.len(),
        forall|i: int|
            0 <= i < m.values.len() ==> (#[trigger] m.values[i])@ == a.values[i]@ + b.values[i]@,
{
}

/// Each element of a difference is the difference of the operands' elements
/// at the same linear index, the left operand's element on the left.
pub proof fn lemma_difference_elements<S, T, U>(
    a: MatrixView<S>,
    b: MatrixView<T>,
    m: MatrixView<U>,
) where S: Clone + Sub<T, Output = U>, T: Clone
    requires
        clone_is_exact::<S>(),
        clone_is_exact::<T>(),
        S::obeys_sub_spec(),
        is_matrix_difference(a, b, m),
    ensures
        m.rows == a.rows,
        m.cols == a.cols,
        m.values.len() == a.values.len(),
        forall|i: int|
            0 <= i < m.values.len() ==> #[trigger] m.values[i] == a.values[i].sub_spec(b.values[i]),
{
    assert forall|i: int| 0 <= i < m.values.len() implies #[trigger] m.values[i]
        == a.values[i].sub_spec(b.values[i]) by {
        lemma_exact_difference(a.values[i], b.values[i], m.values[i]);
    }
}

/// Each element of a negation is the negation of the operand's element at
/// the same linear index.
pub proof fn lemma_negation_elements<S, T>(a: MatrixView<S>, m: MatrixView<T>) where
    S: Clone + Neg<Output = T>,

    requires
        clone_is_exact::<S>(),
        S::obeys_neg_spec(),
        is_matrix_negation(a, m),
    ensures
        m.rows == a.rows,
        m.cols == a.cols,
        m.values.len() == a.values.len(),
        forall|i: int| 0 <= i < m.values.len() ==> #[trigger] m.values[i] == a.values[i].neg_spec(),
{
    assert forall|i: int| 0 <= i < m.values.len() implies #[trigger] m.values[i]
        == a.values[i].neg_spec() by {
        lemma_exact_negation(a.values[i], m.values[i]);
    }
}

/// Negating twice gives the matrix back, where negating an element of it
/// twice gives the element back.
pub proof fn lemma_negation_involution<S>(a: MatrixView<S>, b: MatrixView<S>, c: MatrixView<S>) where
    S: Clone + Neg<Output = S>,

    requires
        clone_is_exact::<S>(),
        S::obeys_neg_spec(),
        forall|i: int|
            0 <= i < a.values.len() ==> (#[trigger] a.values[i]).neg_spec().neg_spec()
                == a.values[i],
        is_matrix_negation(a, b),
        is_matrix_negation(b, c),
    ensures
        c == a,
{
    lemma_negation_elements(a, b);
    lemma_negation_elements(b, c);
    assert(c.values =~= a.values);
}

/// Negating a matrix of 64-bit integers twice gives the matrix back, where
/// no element is the least integer, which has no negation.
pub proof fn lemma_negation_involution_i64(
    a: MatrixView<i64>,
    b: MatrixView<i64>,
    c: MatrixView<i64>,
)
    requires
        forall|i: int| 0 <= i < a.values.len() ==> #[trigger] a.values[i] != i64::MIN,
        is_matrix_negation(a, b),
        is_matrix_negation(b, c),
    ensures
        c == a,
{
    lemma_negation_involution(a, b, c);
}

/// The cell at `(i, j)` of a product is the sum, accumulated from the left
/// in ascending `k`, of the products of the left operand's elements
/// `(i, k)` with the right operand's elements `(k, j)`; the product has the
/// left operand's rows and the right operand's columns.
pub proof fn lemma_product_cells<S, T, U>(a: MatrixView<S>, b: MatrixView<T>, m: MatrixView<U>) where
    S: Clone + Mul<T, Output = U>,
    T: Clone,
    U: Add<Output = U>,

    requires
        clone_is_exact::<S>(),
        clone_is_exact::<T>(),
        S::obeys_mul_spec(),
        U::obeys_add_spec(),
        is_matrix_product(a, b, m),
    ensures
        m.rows == a.rows,
        m.cols == b.cols,
        m.values.len() == a.rows * b.cols,
        forall|i: int, j: int|
            0 <= i < m.rows && 0 <= j < m.cols ==> #[trigger] m.at(i, j) == dot(
                a.row(i),
                b.col(j),
                a.cols,
            ),
{
    assert forall|i: int, j: int| 0 <= i < m.rows && 0 <= j < m.cols implies #[trigger] m.at(i, j)
        == dot(a.row(i), b.col(j), a.cols) by {
        lemma_exact_dot(a.row(i), b.col(j), a.cols, m.at(i, j));
    }
}

/// The text of a matrix gives its layout back: split at the newlines it
/// yields the rows, and each row split at the tabs yields the text forms of
/// that row's elements, where the matrix has at least one row and one
/// column and no element's text holds a tab or a newline.
pub proof fn lemma_render_layout<T: Text>(m: MatrixView<T>)
    requires
        m.rows >= 1,
        m.cols >= 1,
        forall|r: int, c: int|
            0 <= r < m.rows && 0 <= c < m.cols ==> count(#[trigger] m.at(r, c).text(), '\n') == 0
                && count(m.at(r, c).text(), '\t') == 0,
    ensures
        split(render_text(m), '\n') == row_texts(m),
        split(render_text(m), '\n').len() == m.rows,
        forall|r: int|
            0 <= r < m.rows ==> split(#[trigger] row_text(m, r), '\t') == row_parts(m, r),
        forall|r: int, c: int|
            0 <= r < m.rows && 0 <= c < m.cols ==> split(row_text(m, r), '\t')[c]
                == (#[trigger] m.at(r, c)).text(),
{
    assert forall|r: int| 0 <= r < m.rows implies count(#[trigger] row_texts(m)[r], '\n')
        == 0 by {
        lemma_count_join(row_parts(m, r), '\t', '\n');
    }
    lemma_split_join(row_texts(m), '\n');
    assert forall|r: int| 0 <= r < m.rows implies split(#[trigger] row_text(m, r), '\t')
        == row_parts(m, r) by {
        lemma_split_join(row_parts(m, r), '\t');
    }
}

/// Where no element's text holds a tab, the text of a row holds one tab
/// between each two neighbouring elements and no other.
pub proof fn lemma_row_tabs<T: Text>(m: MatrixView<T>, r: int)
    requires
        forall|c: int| 0 <= c < m.cols ==> count(#[trigger] m.at(r, c).text(), '\t') == 0,
    ensures
        count(row_text(m, r), '\t') == if m.cols == 0 {
            0
        } else {
            m.cols - 1
        },
{
    lemma_count_join(row_parts(m, r), '\t', '\t');
}

/// Where no element's text holds a newline, the text of a matrix holds one
/// newline between each two neighbouring rows and no other: none for a
/// single row, and `rows - 1` in all.
pub proof fn lemma_render_newlines<T: Text>(m: MatrixView<T>)
    requires
        forall|r: int, c: int|
            0 <= r < m.rows && 0 <= c < m.cols ==> count(#[trigger] m.at(r, c).text(), '\n') == 0,
    ensures
        count(render_text(m), '\n') == if m.rows == 0 {
            0
        } else {
            m.rows - 1
        },
{
    assert forall|r: int| 0 <= r < m.rows implies count(#[trigger] row_texts(m)[r], '\n')
        == 0 by {
        lemma_count_join(row_parts(m, r), '\t', '\n');
    }
    lemma_count_join(row_texts(m), '\n', '\n');
}

/// Where no element's text holds a newline and the last row's text is not
/// empty, the text of a matrix does not end in a newline.
pub proof fn lemma_render_no_trailing_newline<T: Text>(m: MatrixView<T>)
    requires
        m.rows > 0,
        forall|c: int|
            0 <= c < m.cols ==> count(#[trigger] m.at(m.rows - 1, c).text(), '\n') == 0,
        row_text(m, m.rows - 1).len() > 0,
    ensures
        render_text(m).len() > 0,
        render_text(m).last() != '\n',
{
    lemma_count_join(row_parts(m, m.rows - 1), '\t', '\n');
}

/// The text of a matrix of 64-bit integers holds one newline between each
/// two neighbouring rows and no other, and gives the layout back when the
/// matrix has at least one row and one column.
pub proof fn lemma_render_i64(m: MatrixView<i64>)
    ensures
        count(render_text(m), '\n') == if m.rows == 0 {
            0
        } else {
            m.rows - 1
        },
        m.rows >= 1 && m.cols >= 1 ==> split(render_text(m), '\n') == row_texts(m),
        m.rows >= 1 && m.cols >= 1 ==> forall|r: int|
            0 <= r < m.rows ==> split(#[trigger] row_text(m, r), '\t') == row_parts(m, r),
{
    assert forall|r: int, c: int| 0 <= r < m.rows && 0 <= c < m.cols implies count(
        #[trigger] m.at(r, c).text(),
        '\n',
    ) == 0 && count(m.at(r, c).text(), '\t') == 0 by {
        lemma_decimal_holds_no_separator(m.at(r, c) as int, '\n');
        lemma_decimal_holds_no_separator(m.at(r, c) as int, '\t');
    }
    lemma_render_newlines(m);
    if m.rows >= 1 && m.cols >= 1 {
        lemma_render_layout(m);
    }
}

} // verus!
