//! Dense matrices of IEEE-754 binary32 bit patterns.
//!
//! A matrix is a non-empty rectangular grid of scalars. Operations never
//! mutate in place: each one returns a freshly built matrix.
use vstd::prelude::*;

use crate::Error;
use crate::scalar::{add_bits, f_add, f_mul, mul_bits, relu_bits, relu_scalar};

verus! {

/// A grid is well formed when it has at least one row and every row has the
/// same length.
pub open spec fn mat_wf(m: Seq<Seq<u32>>) -> bool {
    &&& m.len() >= 1
    &&& forall|i: int| 0 <= i < m.len() ==> (#[trigger] m[i]).len() == m[0].len()
}

/// The mathematical grid that a list of rows stands for.
pub open spec fn grid_view(rows: Seq<Vec<u32>>) -> Seq<Seq<u32>> {
    Seq::new(rows.len(), |i: int| rows[i]@)
}

/// Column `j` of the grid, as a sequence from top to bottom.
pub open spec fn spec_col(m: Seq<Seq<u32>>, j: int) -> Seq<u32> {
    Seq::new(m.len(), |k: int| m[k][j])
}

/// The running binary32 sum of the first `n` products `r[t] * c[t]`,
/// accumulated left to right from positive zero.
pub open spec fn dot_prefix(r: Seq<u32>, c: Seq<u32>, n: int) -> u32
    decreases n,
{
    if n <= 0 {
        0u32
    } else {
        f_add(dot_prefix(r, c, n - 1), f_mul(r[n - 1], c[n - 1]))
    }
}

/// One cell of a matrix product: the accumulated products of a row of the
/// left operand with a column of the right operand.
pub open spec fn spec_dot_cell(r: Seq<u32>, c: Seq<u32>) -> u32 {
    dot_prefix(r, c, r.len() as int)
}

/// The matrix product, defined cellwise.
pub open spec fn spec_dot(a: Seq<Seq<u32>>, b: Seq<Seq<u32>>) -> Seq<Seq<u32>> {
    Seq::new(a.len(), |i: int| Seq::new(b[0].len(), |j: int| spec_dot_cell(a[i], spec_col(b, j))))
}

/// Broadcast addition of a bias row to every row of the grid.
pub open spec fn spec_add(a: Seq<Seq<u32>>, bias: Seq<u32>) -> Seq<Seq<u32>> {
    Seq::new(a.len(), |i: int| Seq::new(a[i].len(), |j: int| f_add(a[i][j], bias[j])))
}

/// Elementwise leaky ReLU over the grid.
pub open spec fn spec_relu(a: Seq<Seq<u32>>, alpha: u32) -> Seq<Seq<u32>> {
    Seq::new(a.len(), |i: int| Seq::new(a[i].len(), |j: int| relu_bits(a[i][j], alpha)))
}

/// A dense two-dimensional container of binary32 bit patterns; always
/// non-empty and rectangular, and immutable once constructed.
pub struct Matrix {
    grid: Vec<Vec<u32>>,
}

impl View for Matrix {
    type V = Seq<Seq<u32>>;

    closed spec fn view(&self) -> Seq<Seq<u32>> {
        grid_view(self.grid@)
    }
}

impl Matrix {
    #[verifier::type_invariant]
    pub(crate) open spec fn type_inv(self) -> bool {
        mat_wf(self.view())
    }

    /// A flat list of values becomes a single-row matrix.
    pub fn from_array(values: Vec<u32>) -> (m: Matrix)
        ensures
            m@ == seq![values@],
    {
        let mut rows: Vec<Vec<u32>> = Vec::new();
        rows.push(values);
        let m = Matrix { grid: rows };
        proof {
            assert(m@ =~= seq![values@]);
        }
        m
    }

    /// Builds a matrix from explicit rows; yields nothing when the rows do
    /// not form a non-empty rectangle.
    pub fn from_rows(rows: Vec<Vec<u32>>) -> (r: Option<Matrix>)
        ensures
            mat_wf(grid_view(rows@)) ==> (r matches Some(m) && m@ == grid_view(rows@)),
            !mat_wf(grid_view(rows@)) ==> r is None,
    {
        if rows.len() == 0 {
            return None;
        }
        let width = rows[0].len();
        let mut i: usize = 1;
        while i < rows.len()
            invariant
                1 <= i <= rows@.len(),
                width == rows@[0]@.len(),
                forall|t: int| 0 <= t < i ==> (#[trigger] rows@[t])@.len() == width,
            decreases rows@.len() - i,
        {
            if rows[i].len() != width {
                proof {
                    assert(grid_view(rows@)[i as int].len() != grid_view(rows@)[0].len());
                }
                return None;
            }
            i += 1;
        }
        let m = Matrix { grid: rows };
        Some(m)
    }

    /// The pair (row count, column count).
    pub fn size(&self) -> (s: (usize, usize))
        ensures
            s.0 == self@.len(),
            s.1 == self@[0].len(),
    {
        proof {
            use_type_invariant(self);
        }
        (self.grid.len(), self.grid[0].len())
    }

    /// Read-only access to one cell.
    pub fn get(&self, i: usize, j: usize) -> (x: u32)
        requires
            i < self@.len(),
            j < self@[i as int].len(),
        ensures
            x == self@[i as int][j as int],
    {
        self.grid[i][j]
    }

    /// Standard matrix multiplication; defined exactly when the left
    /// operand's column count equals the right operand's row count.
    pub fn dot(&self, other: &Matrix) -> (r: Result<Matrix, Error>)
        ensures
            match r {
                Ok(m) => self@[0].len() == other@.len() && m@ == spec_dot(self@, other@),
                Err(e) => self@[0].len() != other@.len() && e == (Error::DimensionMismatch {
                    expected: self@[0].len() as usize,
                    actual: other@.len() as usize,
                }),
            },
    {
        proof {
            use_type_invariant(self);
            use_type_invariant(other);
        }
        let inner = self.grid[0].len();
        if inner != other.grid.len() {
            return Err(Error::DimensionMismatch { expected: inner, actual: other.grid.len() });
        }
        let height = self.grid.len();
        let width = other.grid[0].len();
        let mut out: Vec<Vec<u32>> = Vec::new();
        let mut i: usize = 0;
        while i < height
            invariant
                mat_wf(self@),
                mat_wf(other@),
                height == self@.len(),
                width == other@[0].len(),
                inner == self@[0].len(),
                inner == other@.len(),
                0 <= i <= height,
                out@.len() == i,
                forall|t: int| 0 <= t < i ==> (#[trigger] out@[t])@ == spec_dot(self@, other@)[t],
            decreases height - i,
        {
            let mut row: Vec<u32> = Vec::new();
            let mut j: usize = 0;
            while j < width
                invariant
                    mat_wf(self@),
                    mat_wf(other@),
                    height == self@.len(),
                    width == other@[0].len(),
                    inner == self@[0].len(),
                    inner == other@.len(),
                    i < height,
                    0 <= j <= width,
                    row@.len() == j,
                    forall|u: int|
                        0 <= u < j ==> row@[u] == spec_dot_cell(
                            self@[i as int],
                            spec_col(other@, u),
                        ),
                decreases width - j,
            {
                let mut acc: u32 = 0;
                let mut t: usize = 0;
                while t < inner
                    invariant
                        mat_wf(self@),
                        mat_wf(other@),
                        height == self@.len(),
                        width == other@[0].len(),
                        inner == self@[0].len(),
                        inner == other@.len(),
                        i < height,
                        j < width,
                        0 <= t <= inner,
                        acc == dot_prefix(self@[i as int], spec_col(other@, j as int), t as int),
                    decreases inner - t,
                {
                    proof {
                        assert(self@[i as int].len() == inner);
                        assert(other@[t as int].len() == width);
                    }
                    acc = add_bits(acc, mul_bits(self.grid[i][t], other.grid[t][j]));
                    t += 1;
                }
                row.push(acc);
                j += 1;
            }
            proof {
                assert(row@ =~= spec_dot(self@, other@)[i as int]);
            }
            out.push(row);
            i += 1;
        }
        let m = Matrix { grid: out };
        proof {
            assert(m@ =~= spec_dot(self@, other@));
        }
        Ok(m)
    }

    /// Broadcast addition of a bias row to every row; defined exactly when
    /// the bias length equals the column count.
    pub fn add(&self, bias: &Vec<u32>) -> (r: Result<Matrix, Error>)
        ensures
            match r {
                Ok(m) => bias@.len() == self@[0].len() && m@ == spec_add(self@, bias@),
                Err(e) => bias@.len() != self@[0].len() && e == (Error::DimensionMismatch {
                    expected: self@[0].len() as usize,
                    actual: bias@.len() as usize,
                }),
            },
    {
        proof {
            use_type_invariant(self);
        }
        let width = self.grid[0].len();
        if bias.len() != width {
            return Err(Error::DimensionMismatch { expected: width, actual: bias.len() });
        }
        let height = self.grid.len();
        let mut out: Vec<Vec<u32>> = Vec::new();
        let mut i: usize = 0;
        while i < height
            invariant
                mat_wf(self@),
                height == self@.len(),
                width == self@[0].len(),
                width == bias@.len(),
                0 <= i <= height,
                out@.len() == i,
                forall|t: int| 0 <= t < i ==> (#[trigger] out@[t])@ == spec_add(self@, bias@)[t],
            decreases height - i,
        {
            let mut row: Vec<u32> = Vec::new();
            let mut j: usize = 0;
            while j < width
                invariant
                    mat_wf(self@),
                    height == self@.len(),
                    width == self@[0].len(),
                    width == bias@.len(),
                    i < height,
                    0 <= j <= width,
                    row@.len() == j,
                    forall|u: int| 0 <= u < j ==> row@[u] == f_add(self@[i as int][u], bias@[u]),
                decreases width - j,
            {
                proof {
                    assert(self@[i as int].len() == width);
                }
                row.push(add_bits(self.grid[i][j], bias[j]));
                j += 1;
            }
            proof {
                assert(row@ =~= spec_add(self@, bias@)[i as int]);
            }
            out.push(row);
            i += 1;
        }
        let m = Matrix { grid: out };
        proof {
            assert(m@ =~= spec_add(self@, bias@));
        }
        Ok(m)
    }

    /// Elementwise leaky ReLU with the given negative-branch slope; always
    /// succeeds and keeps the shape.
    pub fn relu(&self, alpha: u32) -> (m: Matrix)
        ensures
            m@ == spec_relu(self@, alpha),
    {
        proof {
            use_type_invariant(self);
        }
        let height = self.grid.len();
        let width = self.grid[0].len();
        let mut out: Vec<Vec<u32>> = Vec::new();
        let mut i: usize = 0;
        while i < height
            invariant
                mat_wf(self@),
                height == self@.len(),
                width == self@[0].len(),
                0 <= i <= height,
                out@.len() == i,
                forall|t: int| 0 <= t < i ==> (#[trigger] out@[t])@ == spec_relu(self@, alpha)[t],
            decreases height - i,
        {
            let mut row: Vec<u32> = Vec::new();
            let mut j: usize = 0;
            while j < width
                invariant
                    mat_wf(self@),
                    height == self@.len(),
                    width == self@[0].len(),
                    i < height,
                    0 <= j <= width,
                    row@.len() == j,
                    forall|u: int| 0 <= u < j ==> row@[u] == relu_bits(self@[i as int][u], alpha),
                decreases width - j,
            {
                proof {
                    assert(self@[i as int].len() == width);
                }
                row.push(relu_scalar(self.grid[i][j], alpha));
                j += 1;
            }
            proof {
                assert(row@ =~= spec_relu(self@, alpha)[i as int]);
            }
            out.push(row);
            i += 1;
        }
        let m = Matrix { grid: out };
        proof {
            assert(m@ =~= spec_relu(self@, alpha));
        }
        m
    }
}

/// Activation law, lifted to grids: when every cell is nonnegative, applying
/// leaky ReLU twice with the same slope equals applying it once.
pub proof fn lemma_relu_idempotent_nonneg_grid(a: Seq<Seq<u32>>, alpha: u32)
    requires
        forall|i: int, j: int|
            0 <= i < a.len() && 0 <= j < a[i].len() ==> crate::scalar::f_ge_zero(#[trigger] a[i][j]),
    ensures
        spec_relu(spec_relu(a, alpha), alpha) == spec_relu(a, alpha),
{
    assert(spec_relu(spec_relu(a, alpha), alpha) =~~= spec_relu(a, alpha));
}

} // verus!
