use vstd::prelude::*;

verus! {

/// A dense, row-major, shape-checked container of byte-sized samples.
///
/// The dataset pipeline works on raw sample bytes: pixel intensities in
/// `0..=255` and one-hot label cells in `{0, 1}`. A numeric front end may
/// map the buffer into whatever scalar type a training loop wants; the
/// shape and the contents proved here carry over unchanged.
#[derive(Debug, PartialEq, Eq)]
pub struct Matrix {
    pub rows: usize,
    pub cols: usize,
    pub data: Vec<u8>,
}

impl Matrix {
    /// A matrix is well formed when its flat buffer holds exactly one byte
    /// per entry of its declared shape.
    pub open spec fn wf(self) -> bool {
        self.data@.len() == self.rows * self.cols
    }

    /// The entry in row `r`, column `c`, read from the row-major buffer.
    pub open spec fn entry(self, r: int, c: int) -> u8 {
        self.data@[r * self.cols + c]
    }

    /// The sum of the first `n` entries of row `r`.
    pub open spec fn row_sum_upto(self, r: int, n: int) -> int
        decreases n,
    {
        if n <= 0 {
            0
        } else {
            self.row_sum_upto(r, n - 1) + self.entry(r, n - 1)
        }
    }

    /// The sum of all entries of row `r`.
    pub open spec fn row_sum(self, r: int) -> int {
        self.row_sum_upto(r, self.cols as int)
    }

    /// `self` and `other` are bit-identical: the same shape and the same
    /// byte at every entry.
    pub open spec fn agrees_with(self, other: Matrix) -> bool {
        &&& self.rows == other.rows
        &&& self.cols == other.cols
        &&& forall|r: int, c: int|
            0 <= r < self.rows && 0 <= c < self.cols ==> (#[trigger] self.entry(r, c))
                == (#[trigger] other.entry(r, c))
    }

    /// Builds a matrix of the given shape over a flat row-major buffer.
    pub fn from_row_slice(rows: usize, cols: usize, data: Vec<u8>) -> (m: Matrix)
        requires
            data@.len() == rows * cols,
        ensures
            m.wf(),
            m.rows == rows,
            m.cols == cols,
            m.data@ == data@,
    {
        Matrix { rows, cols, data }
    }

    /// The number of rows.
    pub fn nrows(&self) -> (n: usize)
        ensures
            n == self.rows,
    {
        self.rows
    }

    /// The number of columns.
    pub fn ncols(&self) -> (n: usize)
        ensures
            n == self.cols,
    {
        self.cols
    }

    /// Reads the entry in row `r`, column `c`.
    pub fn get(&self, r: usize, c: usize) -> (v: u8)
        requires
            self.wf(),
            r < self.rows,
            c < self.cols,
        ensures
            v == self.entry(r as int, c as int),
    {
        let n = self.data.len();
        proof {
            assert(r * self.cols + c < self.rows * self.cols) by (nonlinear_arith)
                requires
                    r < self.rows,
                    c < self.cols,
            ;
        }
        self.data[r * self.cols + c]
    }
}

} // verus!
