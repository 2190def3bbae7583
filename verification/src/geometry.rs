//! Obstacle masks.

use crate::matrix::Matrix;
use vstd::prelude::*;

verus! {

/// Cell `(x, y)` of a `width` by `height` grid lies less than `radius`
/// cells from the point `(width / 2, height / 2)`, the halves taken
/// exactly. Both sides of the comparison are multiplied by four so that
/// no half remains.
pub open spec fn in_disc(width: int, height: int, radius: int, x: int, y: int) -> bool {
    (2 * x - width) * (2 * x - width) + (2 * y - height) * (2 * y - height) < (2 * radius) * (2
        * radius)
}

/// Twice the distance, along one axis with `extent` cells, between
/// `position` and the middle of the axis.
fn doubled_offset(position: usize, extent: usize) -> (offset: u128)
    requires
        position < extent,
    ensures
        offset == if 2 * position >= extent {
            2 * position - extent
        } else {
            extent - 2 * position
        },
{
    let twice: u128 = 2 * (position as u128);
    let whole: u128 = extent as u128;
    if twice >= whole {
        twice - whole
    } else {
        whole - twice
    }
}

/// Whether cell `(x, y)` lies in the disc.
fn cell_in_disc(size: (usize, usize), radius: u32, x: usize, y: usize) -> (inside: bool)
    requires
        x < size.0,
        y < size.1,
    ensures
        inside == in_disc(size.0 as int, size.1 as int, radius as int, x as int, y as int),
{
    let across: u128 = 2 * (radius as u128);
    let dx: u128 = doubled_offset(x, size.0);
    let dy: u128 = doubled_offset(y, size.1);
    proof {
        let a = 2 * x - size.0;
        let b = 2 * y - size.1;
        assert(a * a == dx * dx) by (nonlinear_arith)
            requires
                a == dx || a == -dx,
        ;
        assert(b * b == dy * dy) by (nonlinear_arith)
            requires
                b == dy || b == -dy,
        ;
        assert(dx >= across ==> dx * dx >= across * across) by (nonlinear_arith)
            requires
                0 <= across,
        ;
        assert(dy >= across ==> dy * dy >= across * across) by (nonlinear_arith)
            requires
                0 <= across,
        ;
        assert(dx < across ==> dx * dx <= across * across) by (nonlinear_arith)
            requires
                0 <= dx,
        ;
        assert(dy < across ==> dy * dy <= across * across) by (nonlinear_arith)
            requires
                0 <= dy,
        ;
        assert(across * across <= 0x4_0000_0000_0000_0000) by (nonlinear_arith)
            requires
                0 <= across <= 0x2_0000_0000,
        ;
        assert(0 <= dx * dx && 0 <= dy * dy) by (nonlinear_arith);
    }
    if dx >= across || dy >= across {
        false
    } else {
        dx * dx + dy * dy < across * across
    }
}

/// The mask of a round obstacle in the middle of the grid: a cell is an
/// obstacle where it lies less than `radius` cells from the point
/// `(size.0 / 2, size.1 / 2)`.
pub fn disc(size: (usize, usize), radius: u32) -> (mask: Matrix<bool>)
    requires
        size.0 * size.1 <= usize::MAX,
    ensures
        mask.wf(),
        mask.width() == size.0,
        mask.height() == size.1,
        forall|x: int, y: int|
            0 <= x < size.0 && 0 <= y < size.1 ==> #[trigger] mask.at(x, y) == in_disc(
                size.0 as int,
                size.1 as int,
                radius as int,
                x,
                y,
            ),
{
    let cell_of = |x: usize, y: usize| -> (inside: bool)
        requires
            x < size.0,
            y < size.1,
        ensures
            inside == in_disc(size.0 as int, size.1 as int, radius as int, x as int, y as int),
        { cell_in_disc(size, radius, x, y) };
    let mask: Matrix<bool> = Matrix::tabulate(size, cell_of);
    mask
}

} // verus!
