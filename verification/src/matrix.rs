//! A dense rectangular matrix of single-precision bit patterns, kept row by
//! row.

use vstd::prelude::*;

verus! {

/// A dense matrix with `rows()` rows of `columns()` cells each.
///
/// The shape is kept even when one side is zero: a matrix may have no rows
/// and still a width, or rows of no cells.
pub struct Matrix {
    columns: usize,
    lines: Vec<Vec<u32>>,
}

impl View for Matrix {
    type V = Seq<Seq<u32>>;

    /// The rows from top to bottom, each as the sequence of its cells.
    closed spec fn view(&self) -> Seq<Seq<u32>> {
        Seq::new(self.lines@.len(), |i: int| self.lines@[i]@)
    }
}

/// The matrix of the given shape whose every cell is `value`.
pub open spec fn constant(rows: nat, columns: nat, value: u32) -> Seq<Seq<u32>> {
    Seq::new(rows, |i: int| Seq::new(columns, |j: int| value))
}

impl Matrix {
    #[verifier::type_invariant]
    spec fn regular(&self) -> bool {
        forall|i: int|
            0 <= i < self.lines@.len() ==> (#[trigger] self.lines@[i])@.len() == self.columns
    }

    /// The number of cells in a row.
    pub closed spec fn width(&self) -> nat {
        self.columns as nat
    }

    /// Every row is `width()` cells long.
    pub open spec fn rectangular(&self) -> bool {
        forall|i: int| 0 <= i < self@.len() ==> (#[trigger] self@[i]).len() == self.width()
    }

    /// The matrix of `rows` by `columns` positive zeros.
    pub fn zeros(rows: usize, columns: usize) -> (matrix: Matrix)
        ensures
            matrix@ == constant(rows as nat, columns as nat, 0),
            matrix.width() == columns,
            matrix.rectangular(),
    {
        let mut lines: Vec<Vec<u32>> = Vec::new();
        let mut i: usize = 0;
        while i < rows
            invariant
                i <= rows,
                lines@.len() == i,
                forall|k: int|
                    0 <= k < i ==> (#[trigger] lines@[k])@ == Seq::new(
                        columns as nat,
                        |j: int| 0u32,
                    ),
            decreases rows - i,
        {
            let mut line: Vec<u32> = Vec::new();
            let mut j: usize = 0;
            while j < columns
                invariant
                    j <= columns,
                    line@.len() == j,
                    forall|k: int| 0 <= k < j ==> #[trigger] line@[k] == 0,
                decreases columns - j,
            {
                line.push(0);
                j += 1;
            }
            assert(line@ =~= Seq::new(columns as nat, |j: int| 0u32));
            lines.push(line);
            i += 1;
        }
        let matrix = Matrix { columns, lines };
        assert(matrix@ =~= constant(rows as nat, columns as nat, 0));
        matrix
    }

    /// The matrix whose rows are the given arrays, in their order.
    pub fn from_rows<const N: usize>(xs: &[[u32; N]]) -> (matrix: Matrix)
        ensures
            matrix@.len() == xs@.len(),
            forall|i: int| 0 <= i < xs@.len() ==> #[trigger] matrix@[i] == xs@[i]@,
            matrix.width() == N,
            matrix.rectangular(),
    {
        let mut lines: Vec<Vec<u32>> = Vec::new();
        let mut i: usize = 0;
        while i < xs.len()
            invariant
                i <= xs@.len(),
                lines@.len() == i,
                forall|k: int| 0 <= k < i ==> (#[trigger] lines@[k])@ == xs@[k]@,
            decreases xs@.len() - i,
        {
            let mut line: Vec<u32> = Vec::new();
            let mut j: usize = 0;
            while j < N
                invariant
                    i < xs@.len(),
                    j <= N,
                    line@.len() == j,
                    forall|k: int| 0 <= k < j ==> #[trigger] line@[k] == xs@[i as int]@[k],
                decreases N - j,
            {
                line.push(xs[i][j]);
                j += 1;
            }
            assert(line@ =~= xs@[i as int]@);
            lines.push(line);
            i += 1;
        }
        Matrix { columns: N, lines }
    }

    /// The number of rows.
    pub fn rows(&self) -> (rows: usize)
        ensures
            rows == self@.len(),
            self.rectangular(),
    {
        proof {
            use_type_invariant(self);
        }
        self.lines.len()
    }

    /// The number of cells in a row.
    pub fn columns(&self) -> (columns: usize)
        ensures
            columns == self.width(),
            self.rectangular(),
    {
        proof {
            use_type_invariant(self);
        }
        self.columns
    }

    /// The cell at `row` and `column`, counted from zero, if the matrix has it.
    pub fn get(&self, row: usize, column: usize) -> (cell: Option<u32>)
        ensures
            cell == if row < self@.len() && column < self.width() {
                Some(self@[row as int][column as int])
            } else {
                None
            },
            self.rectangular(),
    {
        proof {
            use_type_invariant(self);
        }
        if row < self.lines.len() && column < self.columns {
            Some(self.lines[row][column])
        } else {
            None
        }
    }
}

impl Clone for Matrix {
    fn clone(&self) -> (copy: Self)
        ensures
            copy@ == self@,
            copy.width() == self.width(),
            copy.rectangular(),
    {
        proof {
            use_type_invariant(self);
        }
        let mut lines: Vec<Vec<u32>> = Vec::new();
        let mut i: usize = 0;
        while i < self.lines.len()
            invariant
                i <= self.lines@.len(),
                lines@.len() == i,
                forall|k: int| 0 <= k < i ==> (#[trigger] lines@[k])@ == self.lines@[k]@,
            decreases self.lines@.len() - i,
        {
            let line = self.lines[i].clone();
            assert(line@ =~= self.lines@[i as int]@);
            lines.push(line);
            i += 1;
        }
        let copy = Matrix { columns: self.columns, lines };
        assert(copy@ =~= self@);
        copy
    }
}

} // verus!
