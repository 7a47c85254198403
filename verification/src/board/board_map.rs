//! Index arithmetic shared by every overlay of the board.
//!
//! A grid of `width` columns and `height` rows is stored row by row: the cell
//! in column `x` of row `y` has the linear index `x + y * width`.

use vstd::prelude::*;
use vstd::arithmetic::div_mod::lemma_fundamental_div_mod;
use vstd::arithmetic::div_mod::lemma_fundamental_div_mod_converse;
use crate::board::CoordinatePair;
use crate::board::LocationError;

verus! {

/// The number of cells of a grid.
pub open spec fn grid_len(width: usize, height: usize) -> int {
    width * height
}

/// Whether a grid's cells can all be numbered by a `usize`.
pub open spec fn grid_fits(width: usize, height: usize) -> bool {
    grid_len(width, height) <= usize::MAX
}

/// Whether `coord` names a cell of the grid.
pub open spec fn in_grid(width: usize, height: usize, coord: CoordinatePair) -> bool {
    coord.x < width && coord.y < height
}

/// The linear index of the cell at `coord`.
pub open spec fn index_of(width: usize, coord: CoordinatePair) -> int {
    coord.x + coord.y * width
}

/// The coordinate of the cell with the linear index `index`.
pub open spec fn coord_of(width: usize, index: int) -> CoordinatePair {
    let x = index % (width as int);
    let y = (index - x) / (width as int);
    CoordinatePair { x: x as usize, y: y as usize }
}

/// What converting `coord` to an index yields: the index of a cell of the
/// grid, or `OutOfBounds` for a coordinate that names none.
pub open spec fn index_from_coord(width: usize, height: usize, coord: CoordinatePair) -> Result<
    usize,
    LocationError,
> {
    if in_grid(width, height, coord) {
        Ok(index_of(width, coord) as usize)
    } else {
        Err(LocationError::OutOfBounds)
    }
}

/// What converting `index` to a coordinate yields: the coordinate of a cell
/// of the grid, or `OutOfBounds` for an index that names none.
pub open spec fn coord_from_index(width: usize, height: usize, index: usize) -> Result<
    CoordinatePair,
    LocationError,
> {
    if index < grid_len(width, height) {
        Ok(coord_of(width, index as int))
    } else {
        Err(LocationError::OutOfBounds)
    }
}

/// The index of a cell of the grid is below the grid's length.
pub proof fn lemma_index_in_range(width: usize, height: usize, coord: CoordinatePair)
    requires
        in_grid(width, height, coord),
    ensures
        0 <= index_of(width, coord) < grid_len(width, height),
{
    assert(coord.x + coord.y * width < width * height) by (nonlinear_arith)
        requires
            0 <= coord.x < width,
            0 <= coord.y < height,
    ;
    assert(0 <= coord.y * width) by (nonlinear_arith)
        requires
            0 <= coord.y,
            0 <= width,
    ;
}

/// An index below the grid's length converts to a coordinate on the grid,
/// in column `index % width` of row `index / width`.
pub proof fn lemma_coord_in_grid(width: usize, height: usize, index: int)
    requires
        0 <= index < grid_len(width, height),
    ensures
        in_grid(width, height, coord_of(width, index)),
        coord_of(width, index).x == index % (width as int),
        coord_of(width, index).y == index / (width as int),
        index % (width as int) <= index,
{
    let w = width as int;
    assert(w > 0) by (nonlinear_arith)
        requires
            0 <= index < w * height,
            0 <= w,
    ;
    let x = index % w;
    let q = index / w;
    lemma_fundamental_div_mod(index, w);
    assert(index - x == q * w) by (nonlinear_arith)
        requires
            index == w * q + x,
    ;
    lemma_fundamental_div_mod_converse(index - x, w, q, 0);
    assert(q < height) by (nonlinear_arith)
        requires
            index == w * q + x,
            0 <= x,
            index < w * height,
            w > 0,
    ;
    assert(0 <= q) by (nonlinear_arith)
        requires
            index == w * q + x,
            x < w,
            0 <= index,
            w > 0,
    ;
    assert(0 <= w * q) by (nonlinear_arith)
        requires
            0 <= q,
            0 < w,
    ;
}

/// Converting an index to a coordinate and back gives the index again.
pub proof fn lemma_index_of_coord_of(width: usize, height: usize, index: int)
    requires
        0 <= index < grid_len(width, height),
    ensures
        in_grid(width, height, coord_of(width, index)),
        index_of(width, coord_of(width, index)) == index,
        grid_fits(width, height) ==> index_from_coord(width, height, coord_of(width, index)) == Ok::<
            usize,
            LocationError,
        >(index as usize) && coord_from_index(width, height, index as usize) == Ok::<
            CoordinatePair,
            LocationError,
        >(coord_of(width, index)),
{
    lemma_coord_in_grid(width, height, index);
    let w = width as int;
    lemma_fundamental_div_mod(index, w);
    assert(index % w + (index / w) * w == w * (index / w) + index % w) by (nonlinear_arith);
}

/// Converting a coordinate on the grid to an index and back gives the
/// coordinate again.
pub proof fn lemma_coord_of_index_of(width: usize, height: usize, coord: CoordinatePair)
    requires
        in_grid(width, height, coord),
    ensures
        0 <= index_of(width, coord) < grid_len(width, height),
        coord_of(width, index_of(width, coord)) == coord,
        grid_fits(width, height) ==> index_from_coord(width, height, coord) == Ok::<
            usize,
            LocationError,
        >(index_of(width, coord) as usize) && coord_from_index(
            width,
            height,
            index_of(width, coord) as usize,
        ) == Ok::<CoordinatePair, LocationError>(coord),
{
    lemma_index_in_range(width, height, coord);
    let w = width as int;
    let index = index_of(width, coord);
    lemma_fundamental_div_mod_converse(index, w, coord.y as int, coord.x as int);
    lemma_coord_in_grid(width, height, index);
}

/// Two coordinates on the grid with the same index are the same coordinate.
pub proof fn lemma_index_of_injective(
    width: usize,
    height: usize,
    a: CoordinatePair,
    b: CoordinatePair,
)
    requires
        in_grid(width, height, a),
        in_grid(width, height, b),
        index_of(width, a) == index_of(width, b),
    ensures
        a == b,
{
    lemma_coord_of_index_of(width, height, a);
    lemma_coord_of_index_of(width, height, b);
}

/// A rectangular overlay of the board. An implementor names its width and
/// height; the conversions between coordinates and linear indices are the
/// same for every overlay.
pub trait BoardMap {
    /// The number of columns.
    spec fn spec_width(&self) -> usize;

    /// The number of rows.
    spec fn spec_height(&self) -> usize;

    /// Get the width of the board.
    fn get_width(&self) -> (width: usize)
        ensures
            width == self.spec_width(),
    ;

    /// Get the height of the board.
    fn get_height(&self) -> (height: usize)
        ensures
            height == self.spec_height(),
    ;

    /// Get the linear index of the cell at `coord`, or `OutOfBounds` if the
    /// coordinate names no cell of the grid.
    fn get_index_from_coord(&self, coord: &CoordinatePair) -> (res: Result<usize, LocationError>)
        requires
            grid_fits(self.spec_width(), self.spec_height()),
        ensures
            res == index_from_coord(self.spec_width(), self.spec_height(), *coord),
            res matches Ok(index) ==> index == index_of(self.spec_width(), *coord) && index
                < grid_len(self.spec_width(), self.spec_height()),
    {
        let width = self.get_width();
        if coord.x < width && coord.y < self.get_height() {
            proof {
                lemma_index_in_range(width, self.spec_height(), *coord);
            }
            Ok(coord.x + (coord.y * width))
        } else {
            Err(LocationError::OutOfBounds)
        }
    }

    /// Get the coordinate of the cell with the linear index `index`, or
    /// `OutOfBounds` if the index names no cell of the grid.
    fn get_coord_from_index(&self, index: &usize) -> (res: Result<CoordinatePair, LocationError>)
        requires
            grid_fits(self.spec_width(), self.spec_height()),
        ensures
            res == coord_from_index(self.spec_width(), self.spec_height(), *index),
            res matches Ok(coord) ==> in_grid(self.spec_width(), self.spec_height(), coord),
    {
        let width = self.get_width();
        if *index < self.len() {
            proof {
                lemma_coord_in_grid(width, self.spec_height(), *index as int);
            }
            let x = *index % width;
            let y = (*index - x) / width;
            Ok(CoordinatePair { x, y })
        } else {
            Err(LocationError::OutOfBounds)
        }
    }

    /// The number of cells of the grid.
    fn len(&self) -> (len: usize)
        requires
            grid_fits(self.spec_width(), self.spec_height()),
        ensures
            len == grid_len(self.spec_width(), self.spec_height()),
    {
        self.get_width() * self.get_height()
    }
}

} // verus!
