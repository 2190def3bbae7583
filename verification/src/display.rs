//! What the viewer shows: the quantity on screen and the colour of a cell.

use crate::matrix::Matrix;
use vstd::prelude::*;

verus! {

/// The macroscopic quantity that the viewer currently draws.
#[derive(Copy, Clone, Debug, PartialEq, Eq, Structural)]
pub enum DisplayMode {
    Density,
    Speed,
    Velocity,
    MomentumDensity,
}

impl DisplayMode {
    /// The mode that follows `self` in the cycle
    /// density, speed, velocity, momentum density, density, ...
    pub open spec fn successor(self) -> DisplayMode {
        match self {
            DisplayMode::Density => DisplayMode::Speed,
            DisplayMode::Speed => DisplayMode::Velocity,
            DisplayMode::Velocity => DisplayMode::MomentumDensity,
            DisplayMode::MomentumDensity => DisplayMode::Density,
        }
    }

    /// Advances to the next mode of the cycle.
    pub fn next(&self) -> (mode: DisplayMode)
        ensures
            mode == self.successor(),
    {
        match *self {
            DisplayMode::Density => DisplayMode::Speed,
            DisplayMode::Speed => DisplayMode::Velocity,
            DisplayMode::Velocity => DisplayMode::MomentumDensity,
            DisplayMode::MomentumDensity => DisplayMode::Density,
        }
    }
}

/// Four steps round the cycle of display modes lead back to the start,
/// and fewer do not.
pub proof fn lemma_display_modes_cycle(mode: DisplayMode)
    ensures
        mode.successor() != mode,
        mode.successor().successor() != mode,
        mode.successor().successor().successor() != mode,
        mode.successor().successor().successor().successor() == mode,
{
}

/// A colour: red, green and blue.
#[derive(Copy, Clone, Debug, PartialEq, Eq, Structural)]
pub struct RGB(pub u8, pub u8, pub u8);

/// The colour of the signed intensity `n`: black for zero, red for a
/// negative and green for a positive intensity, twice as bright as the
/// intensity is large.
pub open spec fn shade_of(n: i8) -> RGB {
    if n < 0 {
        RGB((-2 * n) as u8, 0, 0)
    } else if n > 0 {
        RGB(0, (2 * n) as u8, 0)
    } else {
        RGB(0, 0, 0)
    }
}

/// The colour of the signed intensity `n`. The least `i8` has no
/// magnitude in `i8` and is no intensity.
pub fn shade(n: i8) -> (colour: RGB)
    requires
        n > i8::MIN,
    ensures
        colour == shade_of(n),
{
    let magnitude: u8 = if n < 0 {
        (-n) as u8
    } else {
        n as u8
    };
    let k: u8 = 2 * magnitude;
    if n < 0 {
        RGB(k, 0, 0)
    } else if n > 0 {
        RGB(0, k, 0)
    } else {
        RGB(0, 0, 0)
    }
}

/// The picture of a matrix: each cell in the colour of the intensity that
/// `shader` gives it.
pub fn draw_matrix<T: Copy, F: Fn(T) -> i8>(matrix: &Matrix<T>, shader: &F) -> (picture: Matrix<
    RGB,
>)
    requires
        forall|value: T| call_requires(*shader, (value,)),
        forall|value: T, n: i8| call_ensures(*shader, (value,), n) ==> n > i8::MIN,
    ensures
        picture.wf(),
        picture.width() == matrix.width(),
        picture.height() == matrix.height(),
        forall|x: int, y: int|
            0 <= x < matrix.width() && 0 <= y < matrix.height() ==> is_shaded(
                *shader,
                matrix.at(x, y),
                #[trigger] picture.at(x, y),
            ),
{
    proof {
        use_type_invariant(matrix);
    }
    let (width, height) = matrix.get_shape();
    let cell_of = |x: usize, y: usize| -> (colour: RGB)
        requires
            x < width,
            y < height,
        ensures
            is_shaded(*shader, matrix.at(x as int, y as int), colour),
        {
            let n: i8 = shader(matrix.cell(x, y));
            shade(n)
        };
    let picture: Matrix<RGB> = Matrix::tabulate((width, height), cell_of);
    picture
}

/// `colour` is the colour of an intensity that `shader` may give `value`.
pub open spec fn is_shaded<T, F: Fn(T) -> i8>(shader: F, value: T, colour: RGB) -> bool {
    exists|n: i8| call_ensures(shader, (value,), n) && colour == shade_of(n)
}

} // verus!
