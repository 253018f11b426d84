//! The mathematical model of a matrix: a rectangle of numbers, and the
//! operations of matrix algebra on it.
//!
//! The contracts of the executable `Matrix` are stated over this model;
//! everything here is ghost code.

use vstd::prelude::*;
use crate::scalar::Scalar;

verus! {

/// A rectangle of `rows` by `cols` numbers, row by row.
///
/// The shape is part of the value: a grid with no rows still has a width.
#[verifier::ext_equal]
pub struct Grid<S> {
    pub rows: nat,
    pub cols: nat,
    pub cells: Seq<Seq<S>>,
}

impl<S> Grid<S> {
    /// The cells fill the shape exactly.
    pub open spec fn wf(self) -> bool {
        &&& self.cells.len() == self.rows
        &&& forall|i: int| 0 <= i < self.rows ==> (#[trigger] self.cells[i]).len() == self.cols
    }

    /// Both grids have the same number of rows and of columns.
    pub open spec fn same_shape(self, other: Grid<S>) -> bool {
        self.rows == other.rows && self.cols == other.cols
    }

    /// The grid has `rows` rows and `cols` columns.
    pub open spec fn has_shape(self, rows: nat, cols: nat) -> bool {
        self.rows == rows && self.cols == cols
    }

    /// The entry in row `i`, column `j`.
    pub open spec fn at(self, i: int, j: int) -> S {
        self.cells[i][j]
    }

    /// The grid of the given shape whose entry `(i, j)` is `entry(i, j)`.
    pub open spec fn tabulate(rows: nat, cols: nat, entry: spec_fn(int, int) -> S) -> Grid<S> {
        Grid { rows, cols, cells: Seq::new(rows, |i: int| Seq::new(cols, |j: int| entry(i, j))) }
    }

    /// Rows and columns exchanged.
    pub open spec fn transposed(self) -> Grid<S> {
        Self::tabulate(self.cols, self.rows, |i: int, j: int| self.at(j, i))
    }

    /// `f` applied to every entry.
    pub open spec fn mapped(self, f: spec_fn(S) -> S) -> Grid<S> {
        Self::tabulate(self.rows, self.cols, |i: int, j: int| f(self.at(i, j)))
    }

    /// The rows `lines`, as wide as the first of them (of width zero if there
    /// is none).
    pub open spec fn from_rows(lines: Seq<Seq<S>>) -> Grid<S> {
        Grid {
            rows: lines.len(),
            cols: if lines.len() == 0 {
                0
            } else {
                lines[0].len()
            },
            cells: lines,
        }
    }

    /// The values as one column.
    pub open spec fn column(values: Seq<S>) -> Grid<S> {
        Self::tabulate(values.len(), 1, |i: int, j: int| values[i])
    }

    /// The first column, read from top to bottom.
    pub open spec fn flat(self) -> Seq<S> {
        Seq::new(self.rows, |i: int| self.at(i, 0))
    }
}

/// What each of the vectors holds.
pub open spec fn lines_of<S>(data: Seq<Vec<S>>) -> Seq<Seq<S>> {
    Seq::new(data.len(), |i: int| data[i]@)
}

impl<S: Scalar> Grid<S> {
    /// The grid of the given shape that holds zero everywhere.
    pub open spec fn zeros(rows: nat, cols: nat) -> Grid<S> {
        Self::tabulate(rows, cols, |i: int, j: int| S::zero_spec())
    }

    /// The grid of the given shape sampled from `words`, row by row: entry
    /// `(i, j)` is the sample of word `i * cols + j`.
    pub open spec fn sampled(rows: nat, cols: nat, words: Seq<u64>) -> Grid<S> {
        Self::tabulate(rows, cols, |i: int, j: int| S::sample_spec(words[i * cols + j]))
    }

    /// Entry by entry, `self + other`.
    pub open spec fn sum(self, other: Grid<S>) -> Grid<S> {
        Self::tabulate(
            self.rows,
            self.cols,
            |i: int, j: int| self.at(i, j).plus_spec(other.at(i, j)),
        )
    }

    /// Entry by entry, `self - other`.
    pub open spec fn difference(self, other: Grid<S>) -> Grid<S> {
        Self::tabulate(
            self.rows,
            self.cols,
            |i: int, j: int| self.at(i, j).minus_spec(other.at(i, j)),
        )
    }

    /// Entry by entry, `self * other` (the Hadamard product).
    pub open spec fn hadamard(self, other: Grid<S>) -> Grid<S> {
        Self::tabulate(
            self.rows,
            self.cols,
            |i: int, j: int| self.at(i, j).times_spec(other.at(i, j)),
        )
    }

    /// Every entry multiplied by `factor` on the right.
    pub open spec fn scaled(self, factor: S) -> Grid<S> {
        self.mapped(|x: S| x.times_spec(factor))
    }

    /// The sum of the first `n` products `self[i][t] * other[t][j]`, added from
    /// left to right starting at zero.
    pub open spec fn dot(self, other: Grid<S>, i: int, j: int, n: nat) -> S
        decreases n,
    {
        if n == 0 {
            S::zero_spec()
        } else {
            self.dot(other, i, j, (n - 1) as nat).plus_spec(
                self.at(i, n - 1).times_spec(other.at(n - 1, j)),
            )
        }
    }

    /// The matrix product: entry `(i, j)` is the sum over `t` of
    /// `self[i][t] * other[t][j]`.
    pub open spec fn product(self, other: Grid<S>) -> Grid<S> {
        Self::tabulate(
            self.rows,
            other.cols,
            |i: int, j: int| self.dot(other, i, j, self.cols),
        )
    }
}

} // verus!
