//! Lists of population fields: one field for each direction, all of one
//! shape.

use crate::matrix::Matrix;
use vstd::prelude::*;

verus! {

/// Why population fields do not fit, or a simulation cannot go on. Where
/// several reasons apply, the one that stands first here is reported.
#[derive(Copy, Clone, Debug, PartialEq, Eq, Structural)]
pub enum StateError {
    /// There is not exactly one field for each direction.
    FieldCount,
    /// A field has not the shape that is asked of it: that of the
    /// geometry mask, or that of the first population field.
    ShapeMismatch,
    /// The step counter cannot count any further.
    ClockOverflow,
}

/// What is wrong with a list of fields that is to hold `count` fields of
/// `width` columns and `height` rows, if anything.
pub open spec fn misfit<T>(count: int, width: int, height: int, fields: Seq<Matrix<T>>) -> Option<
    StateError,
> {
    if fields.len() != count {
        Some(StateError::FieldCount)
    } else if exists|i: int|
        0 <= i < fields.len() && !has_shape(#[trigger] fields[i], width, height) {
        Some(StateError::ShapeMismatch)
    } else {
        None
    }
}

/// The field has `width` columns and `height` rows.
pub open spec fn has_shape<T>(field: Matrix<T>, width: int, height: int) -> bool {
    field.width() == width && field.height() == height
}

/// What is wrong with a list of population fields for a grid with the
/// given mask and `count` directions, if anything.
pub open spec fn fields_defect<T>(
    count: int,
    geometry: Matrix<bool>,
    fields: Seq<Matrix<T>>,
) -> Option<StateError> {
    misfit(count, geometry.width(), geometry.height(), fields)
}

/// Two fields have the same shape and the same cells.
pub open spec fn same_field<T>(a: Matrix<T>, b: Matrix<T>) -> bool {
    a.width() == b.width() && a.height() == b.height() && a@ == b@
}

/// Two lists of fields agree field by field.
pub open spec fn same_fields<T>(a: Seq<Matrix<T>>, b: Seq<Matrix<T>>) -> bool {
    &&& a.len() == b.len()
    &&& forall|i: int| 0 <= i < a.len() ==> same_field(#[trigger] a[i], b[i])
}

/// The values that the fields hold in cell `(x, y)`, in the order of the
/// fields.
pub open spec fn cell_values<T>(fields: Seq<Matrix<T>>, x: int, y: int) -> Seq<T> {
    Seq::new(fields.len(), |i: int| fields[i].at(x, y))
}

/// Looks for what is wrong with a list of fields.
pub(crate) fn find_misfit<T>(
    count: usize,
    size: (usize, usize),
    fields: &Vec<Matrix<T>>,
) -> (found: Option<StateError>)
    ensures
        found == misfit(count as int, size.0 as int, size.1 as int, fields@),
{
    if fields.len() != count {
        return Some(StateError::FieldCount);
    }
    let mut i: usize = 0;
    while i < fields.len()
        invariant
            i <= fields@.len(),
            fields@.len() == count,
            forall|k: int|
                0 <= k < i ==> has_shape(#[trigger] fields@[k], size.0 as int, size.1 as int),
        decreases fields@.len() - i,
    {
        let (w, h) = fields[i].get_shape();
        if w != size.0 || h != size.1 {
            return Some(StateError::ShapeMismatch);
        }
        i += 1;
    }
    None
}

/// What the fields hold in cell `(x, y)`.
pub(crate) fn gather<T: Copy>(fields: &Vec<Matrix<T>>, x: usize, y: usize) -> (values: Vec<T>)
    requires
        forall|i: int|
            0 <= i < fields@.len() ==> x < (#[trigger] fields@[i]).width() && y
                < fields@[i].height(),
    ensures
        values@ == cell_values(fields@, x as int, y as int),
{
    let mut values: Vec<T> = Vec::with_capacity(fields.len());
    let mut i: usize = 0;
    while i < fields.len()
        invariant
            i <= fields@.len(),
            values@.len() == i,
            forall|k: int|
                0 <= k < fields@.len() ==> x < (#[trigger] fields@[k]).width() && y
                    < fields@[k].height(),
            forall|k: int| 0 <= k < i ==> values@[k] == fields@[k].at(x as int, y as int),
        decreases fields@.len() - i,
    {
        values.push(fields[i].cell(x, y));
        i += 1;
    }
    values
}

} // verus!
