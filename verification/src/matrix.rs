//! Dense matrices with dimensions fixed at construction.
//!
//! No operation changes its receiver: each returns a new matrix. An operation
//! whose operands do not fit is refused with `ShapeMismatch`.

use vstd::prelude::*;
use crate::error::{refused, NetworkError};
use crate::grid::{lines_of, Grid};
use crate::random::RandomSource;
use crate::scalar::{computes, Scalar};

verus! {

/// A dense matrix, stored row by row.
#[derive(Clone, Debug, PartialEq)]
pub struct Matrix<S> {
    rows: usize,
    cols: usize,
    data: Vec<Vec<S>>,
}

impl<S> View for Matrix<S> {
    type V = Grid<S>;

    closed spec fn view(&self) -> Grid<S> {
        Grid {
            rows: self.rows as nat,
            cols: self.cols as nat,
            cells: lines_of(self.data@),
        }
    }
}

/// The call that returned `r` succeeded, with a well-formed matrix whose model
/// is `grid`.
pub open spec fn yields<S: Scalar>(r: Result<Matrix<S>, NetworkError>, grid: Grid<S>) -> bool {
    r is Ok && r->Ok_0.wf() && r->Ok_0@ == grid
}

/// Row `i` holds exactly `entry(i, 0), .., entry(i, upto - 1)`.
spec fn row_holds<S>(row: Seq<S>, upto: nat, i: int, entry: spec_fn(int, int) -> S) -> bool {
    &&& row.len() == upto
    &&& forall|j: int| 0 <= j < upto ==> #[trigger] row[j] == entry(i, j)
}

/// Every row of `data` is complete: `cols` wide, with the entries of `entry`.
spec fn rows_hold<S>(data: Seq<Vec<S>>, cols: nat, entry: spec_fn(int, int) -> S) -> bool {
    forall|i: int| 0 <= i < data.len() ==> row_holds((#[trigger] data[i])@, cols, i, entry)
}

impl<S: Scalar> Matrix<S> {
    /// The stored rows fill the declared shape.
    pub open spec fn wf(&self) -> bool {
        self@.wf()
    }

    /// Rows that hold the entries of `entry` make the matrix that `tabulate`
    /// describes.
    proof fn lemma_tabulated(self, entry: spec_fn(int, int) -> S)
        requires
            self.data@.len() == self.rows,
            rows_hold(self.data@, self.cols as nat, entry),
        ensures
            self.wf(),
            self@ == Grid::tabulate(self.rows as nat, self.cols as nat, entry),
    {
        let g = Grid::tabulate(self.rows as nat, self.cols as nat, entry);
        assert forall|i: int| 0 <= i < self.rows implies #[trigger] self@.cells[i]
            == g.cells[i] by {
            assert(row_holds(self.data@[i]@, self.cols as nat, i, entry));
            assert(self@.cells[i] =~= g.cells[i]);
        }
        assert(self@.cells =~= g.cells);
    }

    /// The number of rows.
    pub fn rows(&self) -> (r: usize)
        ensures
            r == self@.rows,
    {
        self.rows
    }

    /// The number of columns.
    pub fn cols(&self) -> (r: usize)
        ensures
            r == self@.cols,
    {
        self.cols
    }

    /// The entry in row `row`, column `col`, if the matrix has one there.
    pub fn get(&self, row: usize, col: usize) -> (r: Option<S>)
        requires
            self.wf(),
        ensures
            row < self@.rows && col < self@.cols ==> r == Some(self@.at(row as int, col as int)),
            row >= self@.rows || col >= self@.cols ==> r is None,
    {
        if row < self.rows && col < self.cols {
            assert(self@.cells[row as int].len() == self.cols);
            Some(self.data[row][col])
        } else {
            None
        }
    }

    /// The matrix of the given shape that holds zero everywhere.
    #[verifier::loop_isolation(false)]
    pub fn zeros(rows: usize, cols: usize) -> (r: Matrix<S>)
        ensures
            r.wf(),
            r@ == Grid::<S>::zeros(rows as nat, cols as nat),
    {
        let ghost entry = |i: int, j: int| S::zero_spec();
        let mut data: Vec<Vec<S>> = Vec::new();
        let mut row: usize = 0;
        while row < rows
            invariant
                row <= rows,
                data@.len() == row,
                rows_hold(data@, cols as nat, entry),
            decreases rows - row,
        {
            let mut line: Vec<S> = Vec::new();
            let mut col: usize = 0;
            while col < cols
                invariant
                    col <= cols,
                    row_holds(line@, col as nat, row as int, entry),
                decreases cols - col,
            {
                line.push(S::zero());
                col += 1;
            }
            data.push(line);
            row += 1;
        }
        let r = Matrix { rows, cols, data };
        proof {
            r.lemma_tabulated(entry);
        }
        r
    }

    /// The matrix product `self * other`.
    ///
    /// Refused with `ShapeMismatch` unless `self` has as many columns as
    /// `other` has rows. Entry `(i, j)` of the product adds the products
    /// `self[i][t] * other[t][j]` from left to right, starting at zero.
    #[verifier::loop_isolation(false)]
    pub fn multiply(&self, other: &Matrix<S>) -> (r: Result<Matrix<S>, NetworkError>)
        requires
            self.wf(),
            other.wf(),
        ensures
            self@.cols != other@.rows ==> refused(r, NetworkError::ShapeMismatch),
            self@.cols == other@.rows ==> yields(r, self@.product(other@)),
    {
        if self.cols != other.rows {
            return Err(NetworkError::ShapeMismatch);
        }
        let ghost entry = |i: int, j: int| self@.dot(other@, i, j, self@.cols);
        let mut data: Vec<Vec<S>> = Vec::new();
        let mut i: usize = 0;
        while i < self.rows
            invariant
                i <= self.rows,
                data@.len() == i,
                rows_hold(data@, other.cols as nat, entry),
            decreases self.rows - i,
        {
            let mut line: Vec<S> = Vec::new();
            let mut j: usize = 0;
            while j < other.cols
                invariant
                    j <= other.cols,
                    row_holds(line@, j as nat, i as int, entry),
                decreases other.cols - j,
            {
                let mut sum = S::zero();
                let mut k: usize = 0;
                while k < self.cols
                    invariant
                        k <= self.cols,
                        sum == self@.dot(other@, i as int, j as int, k as nat),
                    decreases self.cols - k,
                {
                    assert(self@.cells[i as int].len() == self.cols);
                    assert(other@.cells[k as int].len() == other.cols);
                    sum = sum.plus(self.data[i][k].times(other.data[k][j]));
                    k += 1;
                }
                line.push(sum);
                j += 1;
            }
            data.push(line);
            i += 1;
        }
        let product = Matrix { rows: self.rows, cols: other.cols, data };
        proof {
            product.lemma_tabulated(entry);
        }
        Ok(product)
    }

    /// Entry by entry, `self + other`. Refused with `ShapeMismatch` unless both
    /// have the same shape.
    #[verifier::loop_isolation(false)]
    pub fn add(&self, other: &Matrix<S>) -> (r: Result<Matrix<S>, NetworkError>)
        requires
            self.wf(),
            other.wf(),
        ensures
            !self@.same_shape(other@) ==> refused(r, NetworkError::ShapeMismatch),
            self@.same_shape(other@) ==> yields(r, self@.sum(other@)),
    {
        if self.rows != other.rows || self.cols != other.cols {
            return Err(NetworkError::ShapeMismatch);
        }
        let ghost entry = |i: int, j: int| self@.at(i, j).plus_spec(other@.at(i, j));
        let mut data: Vec<Vec<S>> = Vec::new();
        let mut row: usize = 0;
        while row < self.rows
            invariant
                row <= self.rows,
                data@.len() == row,
                rows_hold(data@, self.cols as nat, entry),
            decreases self.rows - row,
        {
            assert(self@.cells[row as int].len() == self.cols);
            assert(other@.cells[row as int].len() == self.cols);
            let mut line: Vec<S> = Vec::new();
            let mut col: usize = 0;
            while col < self.cols
                invariant
                    col <= self.cols,
                    row_holds(line@, col as nat, row as int, entry),
                decreases self.cols - col,
            {
                line.push(self.data[row][col].plus(other.data[row][col]));
                col += 1;
            }
            data.push(line);
            row += 1;
        }
        let sum = Matrix { rows: self.rows, cols: self.cols, data };
        proof {
            sum.lemma_tabulated(entry);
        }
        Ok(sum)
    }

    /// Entry by entry, `self * other`. Refused with `ShapeMismatch` unless both
    /// have the same shape.
    #[verifier::loop_isolation(false)]
    pub fn dot_multiply(&self, other: &Matrix<S>) -> (r: Result<Matrix<S>, NetworkError>)
        requires
            self.wf(),
            other.wf(),
        ensures
            !self@.same_shape(other@) ==> refused(r, NetworkError::ShapeMismatch),
            self@.same_shape(other@) ==> yields(r, self@.hadamard(other@)),
    {
        if self.rows != other.rows || self.cols != other.cols {
            return Err(NetworkError::ShapeMismatch);
        }
        let ghost entry = |i: int, j: int| self@.at(i, j).times_spec(other@.at(i, j));
        let mut data: Vec<Vec<S>> = Vec::new();
        let mut row: usize = 0;
        while row < self.rows
            invariant
                row <= self.rows,
                data@.len() == row,
                rows_hold(data@, self.cols as nat, entry),
            decreases self.rows - row,
        {
            assert(self@.cells[row as int].len() == self.cols);
            assert(other@.cells[row as int].len() == self.cols);
            let mut line: Vec<S> = Vec::new();
            let mut col: usize = 0;
            while col < self.cols
                invariant
                    col <= self.cols,
                    row_holds(line@, col as nat, row as int, entry),
                decreases self.cols - col,
            {
                line.push(self.data[row][col].times(other.data[row][col]));
                col += 1;
            }
            data.push(line);
            row += 1;
        }
        let product = Matrix { rows: self.rows, cols: self.cols, data };
        proof {
            product.lemma_tabulated(entry);
        }
        Ok(product)
    }

    /// Entry by entry, `self - other`. Refused with `ShapeMismatch` unless both
    /// have the same shape.
    #[verifier::loop_isolation(false)]
    pub fn subtract(&self, other: &Matrix<S>) -> (r: Result<Matrix<S>, NetworkError>)
        requires
            self.wf(),
            other.wf(),
        ensures
            !self@.same_shape(other@) ==> refused(r, NetworkError::ShapeMismatch),
            self@.same_shape(other@) ==> yields(r, self@.difference(other@)),
    {
        if self.rows != other.rows || self.cols != other.cols {
            return Err(NetworkError::ShapeMismatch);
        }
        let ghost entry = |i: int, j: int| self@.at(i, j).minus_spec(other@.at(i, j));
        let mut data: Vec<Vec<S>> = Vec::new();
        let mut row: usize = 0;
        while row < self.rows
            invariant
                row <= self.rows,
                data@.len() == row,
                rows_hold(data@, self.cols as nat, entry),
            decreases self.rows - row,
        {
            assert(self@.cells[row as int].len() == self.cols);
            assert(other@.cells[row as int].len() == self.cols);
            let mut line: Vec<S> = Vec::new();
            let mut col: usize = 0;
            while col < self.cols
                invariant
                    col <= self.cols,
                    row_holds(line@, col as nat, row as int, entry),
                decreases self.cols - col,
            {
                line.push(self.data[row][col].minus(other.data[row][col]));
                col += 1;
            }
            data.push(line);
            row += 1;
        }
        let difference = Matrix { rows: self.rows, cols: self.cols, data };
        proof {
            difference.lemma_tabulated(entry);
        }
        Ok(difference)
    }

    /// The matrix with rows and columns exchanged.
    #[verifier::loop_isolation(false)]
    pub fn transpose(&self) -> (r: Matrix<S>)
        requires
            self.wf(),
        ensures
            r.wf(),
            r@ == self@.transposed(),
    {
        let ghost entry = |i: int, j: int| self@.at(j, i);
        let mut data: Vec<Vec<S>> = Vec::new();
        let mut col: usize = 0;
        while col < self.cols
            invariant
                col <= self.cols,
                data@.len() == col,
                rows_hold(data@, self.rows as nat, entry),
            decreases self.cols - col,
        {
            let mut line: Vec<S> = Vec::new();
            let mut row: usize = 0;
            while row < self.rows
                invariant
                    row <= self.rows,
                    row_holds(line@, row as nat, col as int, entry),
                decreases self.rows - row,
            {
                assert(self@.cells[row as int].len() == self.cols);
                line.push(self.data[row][col]);
                row += 1;
            }
            data.push(line);
            col += 1;
        }
        let r = Matrix { rows: self.cols, cols: self.rows, data };
        proof {
            r.lemma_tabulated(entry);
        }
        r
    }

    /// `function` applied to every entry.
    ///
    /// Each entry of the result is a value that `function` returns on the
    /// entry in the same place; so where `function` computes a mathematical
    /// function, the result is the matrix mapped by that function.
    #[verifier::loop_isolation(false)]
    pub fn map<F: Fn(S) -> S>(&self, function: &F) -> (r: Matrix<S>)
        requires
            self.wf(),
            forall|i: int, j: int|
                0 <= i < self@.rows && 0 <= j < self@.cols ==> call_requires(
                    *function,
                    (#[trigger] self@.at(i, j),),
                ),
        ensures
            r.wf(),
            r@.same_shape(self@),
            forall|i: int, j: int|
                0 <= i < self@.rows && 0 <= j < self@.cols ==> call_ensures(
                    *function,
                    (self@.at(i, j),),
                    #[trigger] r@.at(i, j),
                ),
            forall|g: spec_fn(S) -> S| #[trigger] computes(*function, g) ==> r@ == self@.mapped(g),
    {
        let mut data: Vec<Vec<S>> = Vec::new();
        let mut row: usize = 0;
        while row < self.rows
            invariant
                row <= self.rows,
                data@.len() == row,
                forall|i: int| 0 <= i < row ==> (#[trigger] data@[i])@.len() == self.cols,
                forall|i: int, j: int|
                    0 <= i < row && 0 <= j < self.cols ==> call_ensures(
                        *function,
                        (self@.at(i, j),),
                        #[trigger] data@[i]@[j],
                    ),
            decreases self.rows - row,
        {
            assert(self@.cells[row as int].len() == self.cols);
            let mut line: Vec<S> = Vec::new();
            let mut col: usize = 0;
            while col < self.cols
                invariant
                    col <= self.cols,
                    line@.len() == col,
                    forall|j: int|
                        0 <= j < col ==> call_ensures(
                            *function,
                            (self@.at(row as int, j),),
                            #[trigger] line@[j],
                        ),
                decreases self.cols - col,
            {
                assert(call_requires(*function, (self@.at(row as int, col as int),)));
                line.push(function(self.data[row][col]));
                col += 1;
            }
            data.push(line);
            row += 1;
        }
        let r = Matrix { rows: self.rows, cols: self.cols, data };
        proof {
            assert forall|i: int, j: int|
                0 <= i < self@.rows && 0 <= j < self@.cols implies call_ensures(
                *function,
                (self@.at(i, j),),
                #[trigger] r@.at(i, j),
            ) by {
                assert(r@.at(i, j) == r.data@[i]@[j]);
            }
            assert forall|g: spec_fn(S) -> S| #[trigger] computes(*function, g) implies r@
                == self@.mapped(g) by {
                let mapped = self@.mapped(g);
                assert forall|i: int| 0 <= i < r@.rows implies #[trigger] r@.cells[i]
                    == mapped.cells[i] by {
                    assert forall|j: int| 0 <= j < r@.cols implies #[trigger] r@.cells[i][j]
                        == mapped.cells[i][j] by {
                        assert(call_ensures(*function, (self@.at(i, j),), r@.at(i, j)));
                    }
                    assert(r@.cells[i] =~= mapped.cells[i]);
                }
                assert(r@.cells =~= mapped.cells);
            }
        }
        r
    }

    /// The matrix whose rows are `data`.
    ///
    /// The shape is exactly the supplied one: as many rows as `data` has, as
    /// wide as its first row. Refused with `ShapeMismatch` where the rows
    /// differ in length.
    #[verifier::loop_isolation(false)]
    pub fn from(data: Vec<Vec<S>>) -> (r: Result<Matrix<S>, NetworkError>)
        ensures
            Grid::from_rows(lines_of(data@)).wf() ==> yields(r, Grid::from_rows(lines_of(data@))),
            !Grid::from_rows(lines_of(data@)).wf() ==> refused(r, NetworkError::ShapeMismatch),
    {
        let rows = data.len();
        let cols = if rows == 0 {
            0
        } else {
            data[0].len()
        };
        let mut row: usize = 0;
        while row < rows
            invariant
                rows == data@.len(),
                row <= rows,
                forall|i: int| 0 <= i < row ==> (#[trigger] data@[i])@.len() == cols,
            decreases rows - row,
        {
            if data[row].len() != cols {
                proof {
                    let g = Grid::from_rows(lines_of(data@));
                    assert(g.cells[0] == data@[0]@);
                    assert(g.cells[row as int].len() != g.cols);
                }
                return Err(NetworkError::ShapeMismatch);
            }
            row += 1;
        }
        let r = Matrix { rows, cols, data };
        proof {
            assert forall|i: int| 0 <= i < r@.rows implies (#[trigger] r@.cells[i]).len()
                == r@.cols by {
                assert(r.data@[i]@.len() == cols);
            }
        }
        Ok(r)
    }

    /// The values as a matrix of one column.
    pub fn column(values: &Vec<S>) -> (r: Matrix<S>)
        ensures
            r.wf(),
            r@ == Grid::column(values@),
    {
        let ghost entry = |i: int, j: int| values@[i];
        let mut data: Vec<Vec<S>> = Vec::new();
        let mut row: usize = 0;
        while row < values.len()
            invariant
                row <= values@.len(),
                data@.len() == row,
                rows_hold(data@, 1, entry),
                forall|i: int, j: int| #[trigger] entry(i, j) == values@[i],
            decreases values.len() - row,
        {
            let mut line: Vec<S> = Vec::new();
            line.push(values[row]);
            data.push(line);
            row += 1;
        }
        let r = Matrix { rows: values.len(), cols: 1, data };
        proof {
            r.lemma_tabulated(entry);
        }
        r
    }

    /// A copy of row `index`, if the matrix has such a row.
    pub fn row(&self, index: usize) -> (r: Option<Vec<S>>)
        requires
            self.wf(),
        ensures
            index < self@.rows ==> r is Some && r->Some_0@ == self@.cells[index as int],
            index >= self@.rows ==> r is None,
    {
        if index >= self.rows {
            return None;
        }
        assert(self@.cells[index as int].len() == self.cols);
        let mut line: Vec<S> = Vec::new();
        let mut col: usize = 0;
        while col < self.cols
            invariant
                index < self.rows,
                self.data@.len() == self.rows,
                self.data@[index as int]@.len() == self.cols,
                col <= self.cols,
                line@.len() == col,
                forall|j: int| 0 <= j < col ==> #[trigger] line@[j] == self.data@[index as int]@[j],
            decreases self.cols - col,
        {
            line.push(self.data[index][col]);
            col += 1;
        }
        assert(line@ =~= self@.cells[index as int]);
        Some(line)
    }

    /// The matrix of the given shape sampled from `words`: entry `(i, j)` is
    /// the sample of word `i * cols + j`.
    ///
    /// Refused with `ShapeMismatch` unless there is exactly one word for each
    /// entry.
    pub fn sampled(rows: usize, cols: usize, words: &Vec<u64>) -> (r: Result<
        Matrix<S>,
        NetworkError,
    >)
        ensures
            words@.len() != rows * cols ==> refused(r, NetworkError::ShapeMismatch),
            words@.len() == rows * cols ==> yields(
                r,
                Grid::sampled(rows as nat, cols as nat, words@),
            ),
    {
        let given = words.len();
        match rows.checked_mul(cols) {
            Some(count) => {
                if count == given {
                    Ok(Self::sample_all(rows, cols, words))
                } else {
                    Err(NetworkError::ShapeMismatch)
                }
            },
            None => Err(NetworkError::ShapeMismatch),
        }
    }

    /// Samples one entry from each word, row by row.
    #[verifier::loop_isolation(false)]
    fn sample_all(rows: usize, cols: usize, words: &Vec<u64>) -> (r: Matrix<S>)
        requires
            words.len() == rows * cols,
        ensures
            r.wf(),
            r@ == Grid::<S>::sampled(rows as nat, cols as nat, words@),
    {
        let ghost entry = |i: int, j: int| S::sample_spec(words@[i * cols + j]);
        let mut data: Vec<Vec<S>> = Vec::new();
        let mut next: usize = 0;
        let mut row: usize = 0;
        while row < rows
            invariant
                row <= rows,
                data@.len() == row,
                next == row * cols,
                rows_hold(data@, cols as nat, entry),
            decreases rows - row,
        {
            let mut line: Vec<S> = Vec::new();
            let mut col: usize = 0;
            while col < cols
                invariant
                    row < rows,
                    col <= cols,
                    next == row * cols + col,
                    row_holds(line@, col as nat, row as int, entry),
                decreases cols - col,
            {
                assert(row * cols + col < rows * cols) by (nonlinear_arith)
                    requires
                        row < rows,
                        col < cols,
                ;
                line.push(S::sample(words[next]));
                next += 1;
                col += 1;
            }
            assert((row + 1) * cols == row * cols + cols) by (nonlinear_arith);
            data.push(line);
            row += 1;
        }
        let r = Matrix { rows, cols, data };
        proof {
            r.lemma_tabulated(entry);
        }
        r
    }

    /// A matrix of the given shape whose entries are sampled independently
    /// and evenly from `[-1, 1]`, with the words of one draw from `source`.
    pub fn random(rows: usize, cols: usize, source: &mut RandomSource) -> (r: Matrix<S>)
        requires
            rows * cols <= usize::MAX,
        ensures
            r.wf(),
            r@ == Grid::<S>::sampled(
                rows as nat,
                cols as nat,
                old(source).upcoming((rows * cols) as nat),
            ),
            *final(source) == old(source).advanced(),
    {
        let words = source.draw(rows * cols);
        Self::sample_all(rows, cols, &words)
    }
}

} // verus!
