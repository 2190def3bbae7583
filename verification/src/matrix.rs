//! A dense two-dimensional field, stored row by row.

use vstd::prelude::*;

verus! {

/// Why a matrix could not be made.
#[derive(Copy, Clone, Debug, PartialEq, Eq, Structural)]
pub enum MatrixError {
    /// The buffer does not hold exactly `width * height` cells.
    LengthMismatch,
}

/// A `width` by `height` grid of cells. The cell in column `x` of row `y`
/// is element `y * width + x` of the underlying buffer.
pub struct Matrix<T> {
    pub(crate) width: usize,
    pub(crate) height: usize,
    pub(crate) data: Vec<T>,
}

/// The position of cell `(x, y)` in the buffer of a grid `width` cells wide.
pub open spec fn cell_index(width: int, x: int, y: int) -> int {
    y * width + x
}

/// Every cell of a grid has a position inside the grid's buffer.
pub proof fn lemma_cell_index_in_bounds(width: int, height: int, x: int, y: int)
    requires
        0 <= x < width,
        0 <= y < height,
    ensures
        0 <= y * width <= cell_index(width, x, y) < width * height,
        width * height == height * width,
{
    assert(0 <= y * width <= y * width + x < width * height && width * height == height * width)
        by (nonlinear_arith)
        requires
            0 <= x < width,
            0 <= y < height,
    ;
}

/// Every position of the buffer belongs to exactly one cell of the grid:
/// position `k` to the cell `(k % width, k / width)`.
pub proof fn lemma_cell_of_index(width: int, height: int, k: int)
    requires
        0 <= width,
        0 <= k < width * height,
    ensures
        0 <= k % width < width,
        0 <= k / width < height,
        cell_index(width, k % width, k / width) == k,
{
    assert(width > 0) by (nonlinear_arith)
        requires
            0 <= width,
            0 <= k < width * height,
    ;
    vstd::arithmetic::div_mod::lemma_fundamental_div_mod(k, width);
    vstd::arithmetic::div_mod::lemma_mod_bound(k, width);
    assert(0 <= k / width < height) by (nonlinear_arith)
        requires
            width > 0,
            0 <= k < width * height,
            k == width * (k / width) + k % width,
            0 <= k % width < width,
    ;
    assert(width * (k / width) == (k / width) * width) by (nonlinear_arith);
}

/// Two matrices of one shape that agree in every cell hold the same.
pub proof fn lemma_same_cells<T>(a: Matrix<T>, b: Matrix<T>)
    requires
        a.wf(),
        b.wf(),
        a.same_shape(&b),
        forall|x: int, y: int|
            0 <= x < a.width() && 0 <= y < a.height() ==> #[trigger] a.at(x, y) == b.at(x, y),
    ensures
        a@ == b@,
{
    assert forall|k: int| 0 <= k < a@.len() implies a@[k] == b@[k] by {
        lemma_cell_of_index(a.width(), a.height(), k);
        assert(a.at(k % a.width(), k / a.width()) == b.at(k % a.width(), k / a.width()));
    }
}

impl<T> View for Matrix<T> {
    type V = Seq<T>;

    /// The cells, row by row.
    closed spec fn view(&self) -> Seq<T> {
        self.data@
    }
}

impl<T> Matrix<T> {
    /// The number of columns.
    pub closed spec fn width(&self) -> int {
        self.width as int
    }

    /// The number of rows.
    pub closed spec fn height(&self) -> int {
        self.height as int
    }

    /// The buffer holds one cell for each position of the grid.
    #[verifier::type_invariant]
    pub open spec fn wf(&self) -> bool {
        &&& 0 <= self.width() <= usize::MAX
        &&& 0 <= self.height() <= usize::MAX
        &&& self@.len() == self.width() * self.height()
        &&& self.width() * self.height() <= usize::MAX
    }

    /// The cell in column `x` of row `y`.
    pub open spec fn at(&self, x: int, y: int) -> T
        recommends
            0 <= x < self.width(),
            0 <= y < self.height(),
    {
        self@[cell_index(self.width(), x, y)]
    }

    /// Whether `self` and `other` have the same number of columns and of rows.
    pub open spec fn same_shape<U>(&self, other: &Matrix<U>) -> bool {
        self.width() == other.width() && self.height() == other.height()
    }
}

impl<T> Matrix<T> {
    /// Makes a `size.0` by `size.1` matrix whose cell `(x, y)` holds what
    /// `cell_of(x, y)` returns. The cells are computed row by row.
    pub fn tabulate<F: Fn(usize, usize) -> T>(size: (usize, usize), cell_of: F) -> (made: Matrix<T>)
        requires
            size.0 * size.1 <= usize::MAX,
            forall|x: usize, y: usize| x < size.0 && y < size.1 ==> call_requires(cell_of, (x, y)),
        ensures
            made.wf(),
            made.width() == size.0,
            made.height() == size.1,
            forall|x: usize, y: usize|
                x < size.0 && y < size.1 ==> call_ensures(
                    cell_of,
                    (x, y),
                    #[trigger] made.at(x as int, y as int),
                ),
    {
        let (width, height) = size;
        let mut data: Vec<T> = Vec::with_capacity(width * height);
        let mut y: usize = 0;
        while y < height
            invariant
                y <= height,
                width * height <= usize::MAX,
                data@.len() == y * width,
                forall|a: usize, b: usize|
                    a < width && b < height ==> call_requires(cell_of, (a, b)),
                forall|a: usize, b: usize|
                    a < width && b < y ==> call_ensures(
                        cell_of,
                        (a, b),
                        #[trigger] data@[cell_index(width as int, a as int, b as int)],
                    ),
            decreases height - y,
        {
            let mut x: usize = 0;
            while x < width
                invariant
                    x <= width,
                    y < height,
                    width * height <= usize::MAX,
                    data@.len() == y * width + x,
                    forall|a: usize, b: usize|
                        a < width && b < height ==> call_requires(cell_of, (a, b)),
                    forall|a: usize, b: usize|
                        a < width && b < y ==> call_ensures(
                            cell_of,
                            (a, b),
                            #[trigger] data@[cell_index(width as int, a as int, b as int)],
                        ),
                    forall|a: usize|
                        a < x ==> call_ensures(
                            cell_of,
                            (a, y),
                            #[trigger] data@[cell_index(width as int, a as int, y as int)],
                        ),
                decreases width - x,
            {
                let value: T = cell_of(x, y);
                data.push(value);
                proof {
                    assert forall|a: usize, b: usize| a < width && b < y implies call_ensures(
                        cell_of,
                        (a, b),
                        #[trigger] data@[cell_index(width as int, a as int, b as int)],
                    ) by {
                        lemma_cell_index_in_bounds(width as int, y as int, a as int, b as int);
                    }
                }
                x += 1;
            }
            proof {
                assert((y + 1) * width == y * width + width) by (nonlinear_arith);
            }
            y += 1;
        }
        assert(height * width == width * height) by (nonlinear_arith);
        Matrix { width, height, data }
    }

    /// The number of columns and of rows, in this order.
    pub fn get_shape(&self) -> (shape: (usize, usize))
        ensures
            shape.0 == self.width(),
            shape.1 == self.height(),
    {
        (self.width, self.height)
    }

    /// The number of columns.
    pub fn get_width(&self) -> (width: usize)
        ensures
            width == self.width(),
    {
        self.width
    }

    /// The number of rows.
    pub fn get_height(&self) -> (height: usize)
        ensures
            height == self.height(),
    {
        self.height
    }

    /// The cell in column `x` of row `y`, if the matrix has such a cell.
    pub fn get_ref(&self, x: usize, y: usize) -> (cell: Option<&T>)
        ensures
            cell == (if x < self.width() && y < self.height() {
                Some(&self.at(x as int, y as int))
            } else {
                None
            }),
    {
        if x < self.width && y < self.height {
            Some(self.cell_ref(x, y))
        } else {
            None
        }
    }

    /// The cell in column `x` of row `y` of a matrix that has such a cell.
    pub(crate) fn cell_ref(&self, x: usize, y: usize) -> (cell: &T)
        requires
            x < self.width(),
            y < self.height(),
        ensures
            *cell == self.at(x as int, y as int),
    {
        proof {
            use_type_invariant(self);
            lemma_cell_index_in_bounds(self.width as int, self.height as int, x as int, y as int);
        }
        &self.data[y * self.width + x]
    }
}

impl<T: Copy> Matrix<T> {
    /// Makes a `size.0` by `size.1` matrix from a row-major buffer, which has
    /// to hold exactly one value for each cell.
    pub fn new(buffer: &Vec<T>, size: (usize, usize)) -> (made: Result<Matrix<T>, MatrixError>)
        ensures
            made is Ok <==> buffer@.len() == size.0 * size.1,
            made is Err ==> made == Err::<Matrix<T>, MatrixError>(MatrixError::LengthMismatch),
            made matches Ok(m) ==> m.wf() && m.width() == size.0 && m.height() == size.1 && m@
                == buffer@,
    {
        let given: usize = buffer.len();
        let cells: usize = match size.0.checked_mul(size.1) {
            Some(cells) => cells,
            None => {
                return Err(MatrixError::LengthMismatch);
            },
        };
        if cells != given {
            return Err(MatrixError::LengthMismatch);
        }
        let mut data: Vec<T> = Vec::with_capacity(cells);
        let mut i: usize = 0;
        while i < cells
            invariant
                cells == buffer@.len(),
                i <= cells,
                data@ == buffer@.take(i as int),
            decreases cells - i,
        {
            data.push(buffer[i]);
            i += 1;
        }
        Ok(Matrix { width: size.0, height: size.1, data })
    }

    /// Makes a `size.0` by `size.1` matrix with `value` in every cell.
    pub fn new_filled(value: T, size: (usize, usize)) -> (made: Matrix<T>)
        requires
            size.0 * size.1 <= usize::MAX,
        ensures
            made.wf(),
            made.width() == size.0,
            made.height() == size.1,
            forall|k: int| 0 <= k < made@.len() ==> made@[k] == value,
    {
        let cells: usize = size.0 * size.1;
        let mut data: Vec<T> = Vec::with_capacity(cells);
        let mut i: usize = 0;
        while i < cells
            invariant
                i <= cells,
                data@.len() == i,
                forall|k: int| 0 <= k < i ==> data@[k] == value,
            decreases cells - i,
        {
            data.push(value);
            i += 1;
        }
        Matrix { width: size.0, height: size.1, data }
    }

    /// A copy of the cells, row by row.
    pub fn get_underlying(&self) -> (cells: Vec<T>)
        ensures
            cells@ == self@,
    {
        let mut cells: Vec<T> = Vec::with_capacity(self.data.len());
        let mut i: usize = 0;
        while i < self.data.len()
            invariant
                i <= self.data@.len(),
                cells@ == self.data@.take(i as int),
            decreases self.data@.len() - i,
        {
            cells.push(self.data[i]);
            i += 1;
        }
        cells
    }

    /// The cell in column `x` of row `y`, if the matrix has such a cell.
    pub fn get(&self, x: usize, y: usize) -> (cell: Option<T>)
        ensures
            cell == (if x < self.width() && y < self.height() {
                Some(self.at(x as int, y as int))
            } else {
                None
            }),
    {
        if x < self.width && y < self.height {
            Some(self.cell(x, y))
        } else {
            None
        }
    }

    /// A copy of the cell in column `x` of row `y` of a matrix that has
    /// such a cell.
    pub(crate) fn cell(&self, x: usize, y: usize) -> (cell: T)
        requires
            x < self.width(),
            y < self.height(),
        ensures
            cell == self.at(x as int, y as int),
    {
        *self.cell_ref(x, y)
    }
}

impl<T: Copy> Clone for Matrix<T> {
    /// A matrix of the same shape with the same cells.
    fn clone(&self) -> (copy: Self)
        ensures
            copy.wf(),
            copy@ == self@,
            copy.width() == self.width(),
            copy.height() == self.height(),
    {
        proof {
            use_type_invariant(self);
        }
        Matrix { width: self.width, height: self.height, data: self.get_underlying() }
    }
}

} // verus!
