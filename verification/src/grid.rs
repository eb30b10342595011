use vstd::prelude::*;

verus! {

/// A single cell of the automaton. Its only state is whether it is `on`;
/// a cell has no identity beyond its position in a grid and is copied by
/// value.
#[derive(Clone, Copy, PartialEq, Eq, Structural, Debug)]
pub struct Cell {
    pub on: bool,
}

impl Cell {
    pub fn new(on: bool) -> (c: Cell)
        ensures
            c.on == on,
    {
        Cell { on }
    }

    pub fn default() -> (c: Cell)
        ensures
            !c.on,
    {
        Cell::new(false)
    }
}

/// The ways the grid and the update rule can fail: construction with a
/// zero extent, coordinate access outside the grid, and an update applied
/// to a grid whose extents differ from the rule's scratch buffer.
#[derive(Clone, Copy, PartialEq, Eq, Structural, Debug)]
pub enum LifeError {
    InvalidDimensions,
    OutOfBounds,
    DimensionMismatch,
}

#[verifier::external_type_specification]
#[verifier::external_body]
#[verifier::reject_recursive_types(T)]
pub struct ExArray2D<T>(array2d::Array2D<T>);

/// What a two-dimensional array of booleans holds: the sequence of its
/// rows, each row the sequence of its elements in column order.
pub uninterp spec fn a2d_view(a: array2d::Array2D<bool>) -> Seq<Seq<bool>>;

/// Relies on array2d::Array2D::filled_with: builds a num_rows x num_columns
/// array (stored in row-major order) with every element a copy of the given
/// one, here `false`. Its internal row-major length is the product of the
/// extents, which therefore must not overflow a usize.
#[verifier::external_body]
fn a2d_filled(num_rows: usize, num_columns: usize) -> (a: array2d::Array2D<bool>)
    requires
        num_rows * num_columns <= usize::MAX,
    ensures
        a2d_view(a).len() == num_rows,
        forall|i: int| 0 <= i < num_rows ==> (#[trigger] a2d_view(a)[i]).len() == num_columns,
        forall|i: int, j: int|
            0 <= i < num_rows && 0 <= j < num_columns ==> !(#[trigger] a2d_view(a)[i][j]),
{
    array2d::Array2D::filled_with(false, num_rows, num_columns)
}

/// Relies on array2d::Array2D::num_rows: the number of rows.
#[verifier::external_body]
fn a2d_num_rows(a: &array2d::Array2D<bool>) -> (r: usize)
    ensures
        r == a2d_view(*a).len(),
{
    a.num_rows()
}

/// Relies on array2d::Array2D::num_columns: the length of every row.
#[verifier::external_body]
fn a2d_num_columns(a: &array2d::Array2D<bool>) -> (r: usize)
    ensures
        a2d_view(*a).len() > 0 ==> r == a2d_view(*a)[0].len(),
{
    a.num_columns()
}

/// Relies on array2d::Array2D::get: Some of the element at (row, column)
/// exactly when both indices are in bounds, None otherwise.
#[verifier::external_body]
fn a2d_get(a: &array2d::Array2D<bool>, row: usize, column: usize) -> (r: Option<bool>)
    ensures
        r == (if (row as int) < a2d_view(*a).len() && (column as int) < a2d_view(*a)[row as int].len() {
            Some(a2d_view(*a)[row as int][column as int])
        } else {
            None::<bool>
        }),
{
    a.get(row, column).copied()
}

/// Relies on array2d::Array2D::set: overwrites the element at (row, column)
/// and returns Ok exactly when both indices are in bounds; out of bounds it
/// returns Err and leaves the array unchanged.
#[verifier::external_body]
fn a2d_set(a: &mut array2d::Array2D<bool>, row: usize, column: usize, value: bool) -> (r: bool)
    ensures
        r == ((row as int) < a2d_view(*old(a)).len()
            && (column as int) < a2d_view(*old(a))[row as int].len()),
        r ==> a2d_view(*final(a)) == a2d_view(*old(a)).update(
            row as int,
            a2d_view(*old(a))[row as int].update(column as int, value),
        ),
        !r ==> a2d_view(*final(a)) == a2d_view(*old(a)),
{
    a.set(row, column, value).is_ok()
}

/// A well-formed grid content: at least one row and one column, extents
/// that fit in a u32, and every row of the same length.
pub open spec fn grid_seq_wf(g: Seq<Seq<bool>>) -> bool {
    &&& 1 <= g.len() <= u32::MAX
    &&& 1 <= g[0].len() <= u32::MAX
    &&& forall|i: int| 0 <= i < g.len() ==> (#[trigger] g[i]).len() == g[0].len()
}

/// An owned, fixed-size rectangular mapping from coordinates (x, y) with
/// 0 <= x < width and 0 <= y < height to cell states, with bounds-checked
/// access. The extents are fixed at construction. Its view is indexed by x
/// first: `self@[x][y]` is the state of the cell at (x, y).
pub struct Grid {
    cells: array2d::Array2D<bool>,
}

impl View for Grid {
    type V = Seq<Seq<bool>>;

    closed spec fn view(&self) -> Seq<Seq<bool>> {
        a2d_view(self.cells)
    }
}

impl Grid {
    pub open spec fn wf(&self) -> bool {
        grid_seq_wf(self@)
    }

    /// Builds a grid of exactly width x height cells, all off. Zero extents
    /// are rejected: the neighbor-counting rule is undefined on an empty
    /// grid. The product of the extents must fit in a usize, the machine
    /// limit of the underlying storage.
    pub fn new(width: u32, height: u32) -> (r: Result<Grid, LifeError>)
        requires
            width * height <= usize::MAX,
        ensures
            r is Ok <==> (width >= 1 && height >= 1),
            match r {
                Ok(g) => {
                    &&& g.wf()
                    &&& g@.len() == width as nat
                    &&& g@[0].len() == height as nat
                    &&& forall|x: int, y: int|
                        0 <= x < width && 0 <= y < height ==> !(#[trigger] g@[x][y])
                },
                Err(e) => e == LifeError::InvalidDimensions,
            },
    {
        if width == 0 || height == 0 {
            Err(LifeError::InvalidDimensions)
        } else {
            let cells = a2d_filled(width as usize, height as usize);
            Ok(Grid { cells })
        }
    }

    /// The fixed number of columns of cells (the extent of the x axis).
    pub fn width(&self) -> (w: u32)
        requires
            self.wf(),
        ensures
            w as nat == self@.len(),
    {
        let n = a2d_num_rows(&self.cells);
        n as u32
    }

    /// The fixed number of cells in each column (the extent of the y axis).
    pub fn height(&self) -> (h: u32)
        requires
            self.wf(),
        ensures
            h as nat == self@[0].len(),
    {
        let n = a2d_num_columns(&self.cells);
        n as u32
    }

    /// The state of the cell at (x, y), which must be in bounds.
    pub(crate) fn at(&self, x: u32, y: u32) -> (on: bool)
        requires
            self.wf(),
            (x as nat) < self@.len(),
            (y as nat) < self@[0].len(),
        ensures
            on == self@[x as int][y as int],
    {
        a2d_get(&self.cells, x as usize, y as usize).unwrap()
    }

    /// Overwrites the cell at (x, y), which must be in bounds.
    pub(crate) fn put(&mut self, x: u32, y: u32, on: bool)
        requires
            old(self).wf(),
            (x as nat) < old(self)@.len(),
            (y as nat) < old(self)@[0].len(),
        ensures
            final(self).wf(),
            final(self)@ == old(self)@.update(
                x as int,
                old(self)@[x as int].update(y as int, on),
            ),
    {
        let _in_bounds = a2d_set(&mut self.cells, x as usize, y as usize, on);
    }

    /// Returns the cell at (x, y), or OutOfBounds when x or y reaches the
    /// corresponding extent.
    pub fn get(&self, x: u32, y: u32) -> (r: Result<Cell, LifeError>)
        requires
            self.wf(),
        ensures
            r is Ok <==> ((x as nat) < self@.len() && (y as nat) < self@[0].len()),
            match r {
                Ok(c) => c.on == self@[x as int][y as int],
                Err(e) => e == LifeError::OutOfBounds,
            },
    {
        if x < self.width() && y < self.height() {
            Ok(Cell::new(self.at(x, y)))
        } else {
            Err(LifeError::OutOfBounds)
        }
    }

    /// Overwrites the state of the cell at (x, y), or returns OutOfBounds
    /// when x or y reaches the corresponding extent. Besides a rule's
    /// whole-grid update this is the only mutation path into the grid.
    pub fn set(&mut self, x: u32, y: u32, on: bool) -> (r: Result<(), LifeError>)
        requires
            old(self).wf(),
        ensures
            final(self).wf(),
            r is Ok <==> ((x as nat) < old(self)@.len() && (y as nat) < old(self)@[0].len()),
            match r {
                Ok(()) => final(self)@ == old(self)@.update(
                    x as int,
                    old(self)@[x as int].update(y as int, on),
                ),
                Err(e) => e == LifeError::OutOfBounds && final(self)@ == old(self)@,
            },
    {
        if x < self.width() && y < self.height() {
            self.put(x, y, on);
            Ok(())
        } else {
            Err(LifeError::OutOfBounds)
        }
    }
}

} // verus!
