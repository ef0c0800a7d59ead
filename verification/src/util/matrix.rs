use vstd::prelude::*;

verus! {

/// Runtime fixed-size 2D matrix.
///
/// The values are stored row-major in one flat vector whose length always
/// equals `rows * columns`.
pub struct Matrix2D<T> {
    /// Number of rows.
    rows: usize,
    /// Number of columns.
    columns: usize,
    /// Matrix values, row-major.
    data: Vec<T>,
}

impl<T> View for Matrix2D<T> {
    type V = Seq<T>;

    closed spec fn view(&self) -> Seq<T> {
        self.data@
    }
}

impl<T> Matrix2D<T> {
    /// Number of rows.
    pub closed spec fn spec_rows(&self) -> int {
        self.rows as int
    }

    /// Number of columns.
    pub closed spec fn spec_columns(&self) -> int {
        self.columns as int
    }

    /// The flat storage always holds exactly one value per cell.
    pub open spec fn wf(self) -> bool {
        self@.len() == self.spec_rows() * self.spec_columns()
    }

    /// Create a new matrix from its row-major data.
    pub fn new(rows: usize, cols: usize, data: Vec<T>) -> (m: Self)
        requires
            data@.len() == rows * cols,
        ensures
            m.wf(),
            m.spec_rows() == rows,
            m.spec_columns() == cols,
            m@ == data@,
    {
        Self { rows, columns: cols, data }
    }

    /// Get the matrix dimensions as (rows, columns).
    pub fn get_size(&self) -> (size: (usize, usize))
        ensures
            size.0 == self.spec_rows(),
            size.1 == self.spec_columns(),
    {
        (self.rows, self.columns)
    }

    /// Read the element at `(row, col)`.
    pub fn get(&self, row: usize, col: usize) -> (v: &T)
        requires
            self.wf(),
            row < self.spec_rows(),
            col < self.spec_columns(),
        ensures
            *v == self@[row * self.spec_columns() + col],
    {
        let n: usize = self.data.len();
        proof {
            assert(row * self.columns + col < self.rows * self.columns) by (nonlinear_arith)
                requires
                    row < self.rows,
                    col < self.columns,
            ;
        }
        &self.data[row * self.columns + col]
    }

    /// Replace the element at `(row, col)`.
    pub fn set(&mut self, row: usize, col: usize, value: T)
        requires
            old(self).wf(),
            row < old(self).spec_rows(),
            col < old(self).spec_columns(),
        ensures
            final(self).wf(),
            final(self).spec_rows() == old(self).spec_rows(),
            final(self).spec_columns() == old(self).spec_columns(),
            final(self)@ == old(self)@.update(
                row * old(self).spec_columns() + col,
                value,
            ),
    {
        let n: usize = self.data.len();
        proof {
            assert(row * self.columns + col < self.rows * self.columns) by (nonlinear_arith)
                requires
                    row < self.rows,
                    col < self.columns,
            ;
        }
        let idx: usize = row * self.columns + col;
        self.data.set(idx, value);
    }
}

/// Every element of `s` is a clone of the single value `d`.
pub open spec fn filled_with<T: Clone>(s: Seq<T>, d: T) -> bool {
    forall|i: int| 0 <= i < s.len() ==> #[trigger] cloned(d, s[i])
}

impl<T: Default + Copy> Matrix2D<T> {
    /// Create a new matrix with every cell set to the type's default value.
    pub fn zeros(rows: usize, cols: usize) -> (m: Self)
        requires
            rows * cols <= usize::MAX,
        ensures
            m.wf(),
            m.spec_rows() == rows,
            m.spec_columns() == cols,
            m@.len() == rows * cols,
            exists|d: T| #[trigger] filled_with(m@, d),
    {
        let len: usize = rows * cols;
        let fill: T = T::default();
        let data: Vec<T> = vec![fill; len];
        let m = Self { rows, columns: cols, data };
        proof {
            assert forall|i: int| 0 <= i < m@.len() implies #[trigger] cloned(fill, m@[i]) by {}
            assert(filled_with(m@, fill));
        }
        m
    }
}

} // verus!
