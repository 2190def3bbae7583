//! Streaming: populations move one step along their directions, around
//! the edges of the grid, and bounce back from obstacle cells.

use crate::fields::{fields_defect, find_misfit, StateError};
use crate::lattice::{defect, opposite_index, Direction, VelocitySet, Weight};
use crate::matrix::Matrix;
use vstd::prelude::*;

verus! {

/// The place of one population value: a direction, by its position in the
/// velocity set, and a cell.
pub struct Slot {
    pub direction: int,
    pub x: int,
    pub y: int,
}

/// `slot` names a direction of the set and a cell of the grid.
pub open spec fn slot_in_range(
    set: Seq<(Direction, Weight)>,
    geometry: Matrix<bool>,
    slot: Slot,
) -> bool {
    &&& 0 <= slot.direction < set.len()
    &&& 0 <= slot.x < geometry.width()
    &&& 0 <= slot.y < geometry.height()
}

/// Where the value in `slot` goes in one step. In an obstacle cell it stays
/// where it is. In a fluid cell it moves one step along its direction,
/// around the edges of the grid; if that would take it into an obstacle,
/// it stays in its cell and takes the opposite direction instead.
pub open spec fn destination(
    set: Seq<(Direction, Weight)>,
    geometry: Matrix<bool>,
    slot: Slot,
) -> Slot {
    let tx = (slot.x + set[slot.direction].0.x) % geometry.width();
    let ty = (slot.y + set[slot.direction].0.y) % geometry.height();
    if geometry.at(slot.x, slot.y) {
        slot
    } else if geometry.at(tx, ty) {
        Slot { direction: opposite_index(set, slot.direction), x: slot.x, y: slot.y }
    } else {
        Slot { direction: slot.direction, x: tx, y: ty }
    }
}

/// Where the value that a step puts in `slot` comes from.
pub open spec fn origin(set: Seq<(Direction, Weight)>, geometry: Matrix<bool>, slot: Slot) -> Slot {
    let sx = (slot.x - set[slot.direction].0.x) % geometry.width();
    let sy = (slot.y - set[slot.direction].0.y) % geometry.height();
    if geometry.at(slot.x, slot.y) {
        slot
    } else if geometry.at(sx, sy) {
        Slot { direction: opposite_index(set, slot.direction), x: slot.x, y: slot.y }
    } else {
        Slot { direction: slot.direction, x: sx, y: sy }
    }
}

/// `after` holds, in every slot, the value that `before` holds in the
/// slot's origin.
pub open spec fn is_streamed<T>(
    set: Seq<(Direction, Weight)>,
    geometry: Matrix<bool>,
    before: Seq<Matrix<T>>,
    after: Seq<Matrix<T>>,
) -> bool {
    &&& after.len() == before.len()
    &&& forall|i: int|
        0 <= i < after.len() ==> (#[trigger] after[i]).wf() && after[i].same_shape(&geometry)
    &&& forall|i: int, x: int, y: int|
        0 <= i < after.len() && 0 <= x < geometry.width() && 0 <= y < geometry.height()
            ==> #[trigger] after[i].at(x, y) == value_at(
            before,
            origin(set, geometry, Slot { direction: i, x, y }),
        )
}

/// The value that the fields hold in `slot`.
pub open spec fn value_at<T>(fields: Seq<Matrix<T>>, slot: Slot) -> T {
    fields[slot.direction].at(slot.x, slot.y)
}

/// Moves `position`, a coordinate on an axis with `extent` cells, by `by`
/// cells, around the ends of the axis.
fn shifted(position: usize, by: i16, extent: usize) -> (moved: usize)
    requires
        position < extent,
        -128 <= by <= 128,
    ensures
        moved == (position + by) % (extent as int),
        moved < extent,
{
    if by >= 0 {
        let step: usize = (by as usize) % extent;
        proof {
            vstd::arithmetic::div_mod::lemma_fundamental_div_mod(by as int, extent as int);
        }
        let ghost turns = (by as int) / (extent as int);
        if position >= extent - step {
            let moved: usize = position - (extent - step);
            proof {
                assert(position + by == (turns + 1) * extent + moved) by (nonlinear_arith)
                    requires
                        by == extent * turns + step,
                        moved == position - (extent - step),
                ;
                vstd::arithmetic::div_mod::lemma_fundamental_div_mod_converse(
                    position + by,
                    extent as int,
                    turns + 1,
                    moved as int,
                );
            }
            moved
        } else {
            let moved: usize = position + step;
            proof {
                assert(position + by == turns * extent + moved) by (nonlinear_arith)
                    requires
                        by == extent * turns + step,
                        moved == position + step,
                ;
                vstd::arithmetic::div_mod::lemma_fundamental_div_mod_converse(
                    position + by,
                    extent as int,
                    turns,
                    moved as int,
                );
            }
            moved
        }
    } else {
        let back: usize = (-by) as usize;
        let step: usize = back % extent;
        proof {
            vstd::arithmetic::div_mod::lemma_fundamental_div_mod(back as int, extent as int);
        }
        let ghost turns = (back as int) / (extent as int);
        if position >= step {
            let moved: usize = position - step;
            proof {
                assert(position + by == (-turns) * extent + moved) by (nonlinear_arith)
                    requires
                        -by == extent * turns + step,
                        moved == position - step,
                ;
                vstd::arithmetic::div_mod::lemma_fundamental_div_mod_converse(
                    position + by,
                    extent as int,
                    -turns,
                    moved as int,
                );
            }
            moved
        } else {
            let moved: usize = extent - (step - position);
            proof {
                assert(position + by == (-turns - 1) * extent + moved) by (nonlinear_arith)
                    requires
                        -by == extent * turns + step,
                        moved == extent - (step - position),
                ;
                vstd::arithmetic::div_mod::lemma_fundamental_div_mod_converse(
                    position + by,
                    extent as int,
                    -turns - 1,
                    moved as int,
                );
            }
            moved
        }
    }
}

/// The field of direction `i` after one step of streaming.
fn stream_direction<T: Copy>(
    velocities: &VelocitySet,
    geometry: &Matrix<bool>,
    populations: &Vec<Matrix<T>>,
    i: usize,
) -> (field: Matrix<T>)
    requires
        i < velocities@.len(),
        fields_defect(velocities@.len() as int, *geometry, populations@) is None,
    ensures
        field.wf(),
        field.same_shape(geometry),
        forall|x: int, y: int|
            0 <= x < geometry.width() && 0 <= y < geometry.height() ==> #[trigger] field.at(x, y)
                == value_at(
                populations@,
                origin(velocities@, *geometry, Slot { direction: i as int, x, y }),
            ),
{
    proof {
        use_type_invariant(geometry);
    }
    let (width, height) = geometry.get_shape();
    let direction: Direction = velocities.direction_at(i);
    let opposite: usize = velocities.opposite_at(i);
    let cell_of = |x: usize, y: usize| -> (value: T)
        requires
            x < width,
            y < height,
        ensures
            value == value_at(
                populations@,
                origin(
                    velocities@,
                    *geometry,
                    Slot { direction: i as int, x: x as int, y: y as int },
                ),
            ),
        {
            if geometry.cell(x, y) {
                populations[i].cell(x, y)
            } else {
                let sx: usize = shifted(x, -(direction.x as i16), width);
                let sy: usize = shifted(y, -(direction.y as i16), height);
                if geometry.cell(sx, sy) {
                    populations[opposite].cell(x, y)
                } else {
                    populations[i].cell(sx, sy)
                }
            }
        };
    let field: Matrix<T> = Matrix::tabulate((width, height), cell_of);
    field
}

/// One step of streaming with bounce-back: every population value moves
/// to its destination. `populations` holds one field for each direction of
/// `velocities`, each of the shape of `geometry`, whose `true` cells are
/// the obstacles.
pub fn stream<T: Copy>(
    velocities: &VelocitySet,
    geometry: &Matrix<bool>,
    populations: &Vec<Matrix<T>>,
) -> (moved: Result<Vec<Matrix<T>>, StateError>)
    ensures
        match fields_defect(velocities@.len() as int, *geometry, populations@) {
            Some(error) => moved == Err::<Vec<Matrix<T>>, StateError>(error),
            None => moved is Ok && is_streamed(
                velocities@,
                *geometry,
                populations@,
                moved->Ok_0@,
            ),
        },
{
    if let Some(error) = find_misfit(velocities.len(), geometry.get_shape(), populations) {
        return Err(error);
    }
    let count: usize = velocities.len();
    let mut moved: Vec<Matrix<T>> = Vec::with_capacity(count);
    let mut i: usize = 0;
    while i < count
        invariant
            i <= count,
            count == velocities@.len(),
            fields_defect(velocities@.len() as int, *geometry, populations@) is None,
            moved@.len() == i,
            forall|k: int|
                0 <= k < i ==> (#[trigger] moved@[k]).wf() && moved@[k].same_shape(geometry),
            forall|k: int, x: int, y: int|
                0 <= k < i && 0 <= x < geometry.width() && 0 <= y < geometry.height()
                    ==> #[trigger] moved@[k].at(x, y) == value_at(
                    populations@,
                    origin(velocities@, *geometry, Slot { direction: k, x, y }),
                ),
        decreases count - i,
    {
        let field: Matrix<T> = stream_direction(velocities, geometry, populations, i);
        moved.push(field);
        i += 1;
    }
    Ok(moved)
}

/// Moving a coordinate by some cells around the ends of an axis and then
/// back by as many returns it to where it was.
pub proof fn lemma_shift_and_back(position: int, by: int, extent: int)
    requires
        0 <= position < extent,
    ensures
        0 <= (position + by) % extent < extent,
        ((position + by) % extent - by) % extent == position,
{
    let there = (position + by) % extent;
    let turns = (position + by) / extent;
    vstd::arithmetic::div_mod::lemma_fundamental_div_mod(position + by, extent);
    vstd::arithmetic::div_mod::lemma_mod_bound(position + by, extent);
    assert(there - by == (-turns) * extent + position) by (nonlinear_arith)
        requires
            position + by == extent * turns + there,
    ;
    vstd::arithmetic::div_mod::lemma_fundamental_div_mod_converse(
        there - by,
        extent,
        -turns,
        position,
    );
}

/// Streaming is undone by looking up the origin: the value in `slot` goes
/// to a slot of the grid whose origin is `slot`.
pub proof fn lemma_origin_of_destination(
    set: Seq<(Direction, Weight)>,
    geometry: Matrix<bool>,
    slot: Slot,
)
    requires
        defect(set) is None,
        slot_in_range(set, geometry, slot),
    ensures
        slot_in_range(set, geometry, destination(set, geometry, slot)),
        origin(set, geometry, destination(set, geometry, slot)) == slot,
{
    let direction = set[slot.direction].0;
    let width = geometry.width();
    let height = geometry.height();
    lemma_shift_and_back(slot.x, direction.x as int, width);
    lemma_shift_and_back(slot.y, direction.y as int, height);
    crate::lattice::lemma_opposite_in_range(set, slot.direction);
    crate::lattice::lemma_opposite_involution(set, slot.direction);
    let back = set[opposite_index(set, slot.direction)].0;
    assert(slot.x - back.x == slot.x + direction.x);
    assert(slot.y - back.y == slot.y + direction.y);
}

/// Looking up the origin is undone by streaming: the value that arrives in
/// `slot` comes from a slot of the grid whose destination is `slot`.
pub proof fn lemma_destination_of_origin(
    set: Seq<(Direction, Weight)>,
    geometry: Matrix<bool>,
    slot: Slot,
)
    requires
        defect(set) is None,
        slot_in_range(set, geometry, slot),
    ensures
        slot_in_range(set, geometry, origin(set, geometry, slot)),
        destination(set, geometry, origin(set, geometry, slot)) == slot,
{
    let direction = set[slot.direction].0;
    let width = geometry.width();
    let height = geometry.height();
    lemma_shift_and_back(slot.x, -(direction.x as int), width);
    lemma_shift_and_back(slot.y, -(direction.y as int), height);
    crate::lattice::lemma_opposite_in_range(set, slot.direction);
    crate::lattice::lemma_opposite_involution(set, slot.direction);
}

/// Streaming moves values and neither makes nor loses any: after a step
/// the value that was in `slot` is in the slot's destination. With
/// `lemma_origin_of_destination` and `lemma_destination_of_origin` this
/// makes a step a rearrangement of the values of the grid.
pub proof fn lemma_values_arrive<T>(
    set: Seq<(Direction, Weight)>,
    geometry: Matrix<bool>,
    before: Seq<Matrix<T>>,
    after: Seq<Matrix<T>>,
    slot: Slot,
)
    requires
        defect(set) is None,
        before.len() == set.len(),
        is_streamed(set, geometry, before, after),
        slot_in_range(set, geometry, slot),
    ensures
        slot_in_range(set, geometry, destination(set, geometry, slot)),
        value_at(after, destination(set, geometry, slot)) == value_at(before, slot),
{
    lemma_origin_of_destination(set, geometry, slot);
}

/// No cell of the grid is an obstacle.
pub open spec fn is_open(geometry: Matrix<bool>) -> bool {
    forall|x: int, y: int|
        0 <= x < geometry.width() && 0 <= y < geometry.height() ==> !#[trigger] geometry.at(x, y)
}

/// On a grid without obstacles a step shifts every field by its direction:
/// the value of direction `i` in cell `(x, y)` is afterwards in the cell
/// `e_i` further on, around the edges of the grid.
pub proof fn lemma_streaming_shifts<T>(
    set: Seq<(Direction, Weight)>,
    geometry: Matrix<bool>,
    before: Seq<Matrix<T>>,
    after: Seq<Matrix<T>>,
    i: int,
    x: int,
    y: int,
)
    requires
        defect(set) is None,
        before.len() == set.len(),
        is_open(geometry),
        is_streamed(set, geometry, before, after),
        0 <= i < set.len(),
        0 <= x < geometry.width(),
        0 <= y < geometry.height(),
    ensures
        after[i].at((x + set[i].0.x) % geometry.width(), (y + set[i].0.y) % geometry.height())
            == before[i].at(x, y),
{
    let slot = Slot { direction: i, x, y };
    lemma_values_arrive(set, geometry, before, after, slot);
    lemma_shift_and_back(x, set[i].0.x as int, geometry.width());
    lemma_shift_and_back(y, set[i].0.y as int, geometry.height());
}

/// A value that would move from a fluid cell into an obstacle is turned
/// round instead: after the step it is in the same cell, in the field of
/// the opposite direction.
pub proof fn lemma_bounce_back<T>(
    set: Seq<(Direction, Weight)>,
    geometry: Matrix<bool>,
    before: Seq<Matrix<T>>,
    after: Seq<Matrix<T>>,
    i: int,
    x: int,
    y: int,
)
    requires
        defect(set) is None,
        before.len() == set.len(),
        is_streamed(set, geometry, before, after),
        0 <= i < set.len(),
        0 <= x < geometry.width(),
        0 <= y < geometry.height(),
        !geometry.at(x, y),
        geometry.at((x + set[i].0.x) % geometry.width(), (y + set[i].0.y) % geometry.height()),
    ensures
        0 <= opposite_index(set, i) < set.len(),
        set[i].0.opposes(set[opposite_index(set, i)].0),
        after[opposite_index(set, i)].at(x, y) == before[i].at(x, y),
{
    let slot = Slot { direction: i, x, y };
    lemma_values_arrive(set, geometry, before, after, slot);
    crate::lattice::lemma_opposite_in_range(set, i);
}

/// Nothing enters an obstacle and nothing leaves it: an obstacle cell
/// holds after a step what it held before, and a value from a fluid cell
/// is in a fluid cell afterwards.
pub proof fn lemma_obstacles_are_sealed<T>(
    set: Seq<(Direction, Weight)>,
    geometry: Matrix<bool>,
    before: Seq<Matrix<T>>,
    after: Seq<Matrix<T>>,
    slot: Slot,
)
    requires
        defect(set) is None,
        before.len() == set.len(),
        is_streamed(set, geometry, before, after),
        slot_in_range(set, geometry, slot),
    ensures
        geometry.at(slot.x, slot.y) ==> value_at(after, slot) == value_at(before, slot),
        geometry.at(slot.x, slot.y) == geometry.at(
            destination(set, geometry, slot).x,
            destination(set, geometry, slot).y,
        ),
{
}

/// The slots of the grid.
pub open spec fn all_slots(set: Seq<(Direction, Weight)>, geometry: Matrix<bool>) -> Set<Slot> {
    Set::new(|slot: Slot| slot_in_range(set, geometry, slot))
}

/// The slots of the grid in which the fields hold `value`.
pub open spec fn slots_holding<T>(
    set: Seq<(Direction, Weight)>,
    geometry: Matrix<bool>,
    fields: Seq<Matrix<T>>,
    value: T,
) -> Set<Slot> {
    Set::new(|slot: Slot| slot_in_range(set, geometry, slot) && value_at(fields, slot) == value)
}

/// The slot with the given number, when the slots of `count` directions
/// on a `width` by `height` grid are numbered direction by direction and
/// row by row.
pub open spec fn numbered_slot(width: int, height: int, number: int) -> Slot {
    let cell = number % (width * height);
    Slot { direction: number / (width * height), x: cell % width, y: cell / width }
}

/// Every slot of the grid has a number below the number of slots.
proof fn lemma_slot_has_number(count: int, width: int, height: int, slot: Slot)
    requires
        0 <= slot.direction < count,
        0 <= slot.x < width,
        0 <= slot.y < height,
    ensures
        0 <= slot.direction * (width * height) + (slot.y * width + slot.x) < count * (width
            * height),
        numbered_slot(
            width,
            height,
            slot.direction * (width * height) + (slot.y * width + slot.x),
        ) == slot,
{
    let cells = width * height;
    let cell = slot.y * width + slot.x;
    let number = slot.direction * cells + cell;
    crate::matrix::lemma_cell_index_in_bounds(width, height, slot.x, slot.y);
    assert(0 <= slot.direction * cells && slot.direction * cells + cells <= count * cells)
        by (nonlinear_arith)
        requires
            0 <= slot.direction < count,
            0 < cells,
    ;
    vstd::arithmetic::div_mod::lemma_fundamental_div_mod_converse(
        number,
        cells,
        slot.direction,
        cell,
    );
    vstd::arithmetic::div_mod::lemma_fundamental_div_mod_converse(cell, width, slot.y, slot.x);
}

/// A grid has finitely many slots.
pub proof fn lemma_slots_are_finite(set: Seq<(Direction, Weight)>, geometry: Matrix<bool>)
    ensures
        all_slots(set, geometry).finite(),
{
    let count = set.len() as int;
    let width = geometry.width();
    let height = geometry.height();
    let slots = all_slots(set, geometry);
    if width <= 0 || height <= 0 {
        assert(slots =~= Set::<Slot>::empty());
    } else {
        assert(0 <= count * (width * height)) by (nonlinear_arith)
            requires
                0 <= count,
                0 < width,
                0 < height,
        ;
        let numbers = vstd::set_lib::set_int_range(0, count * (width * height));
        vstd::set_lib::lemma_int_range(0, count * (width * height));
        let by_number = |number: int| numbered_slot(width, height, number);
        numbers.lemma_map_finite(by_number);
        assert forall|slot: Slot| slots.contains(slot) implies numbers.map(by_number).contains(
            slot,
        ) by {
            lemma_slot_has_number(count, width, height, slot);
            let number = slot.direction * (width * height) + (slot.y * width + slot.x);
            assert(numbers.contains(number) && by_number(number) == slot);
        }
        vstd::set_lib::lemma_set_subset_finite(numbers.map(by_number), slots);
    }
}

/// Streaming neither makes nor loses anything: whatever the value, as
/// many slots of the grid hold it after a step as held it before. So
/// whatever is added up over the grid, slot by slot, adds up to the same
/// before and after.
pub proof fn lemma_streaming_keeps_counts<T>(
    set: Seq<(Direction, Weight)>,
    geometry: Matrix<bool>,
    before: Seq<Matrix<T>>,
    after: Seq<Matrix<T>>,
    value: T,
)
    requires
        defect(set) is None,
        before.len() == set.len(),
        is_streamed(set, geometry, before, after),
    ensures
        slots_holding(set, geometry, before, value).finite(),
        slots_holding(set, geometry, after, value).finite(),
        slots_holding(set, geometry, before, value).len() == slots_holding(
            set,
            geometry,
            after,
            value,
        ).len(),
{
    let held = slots_holding(set, geometry, before, value);
    let hold = slots_holding(set, geometry, after, value);
    let onward = |slot: Slot| destination(set, geometry, slot);
    lemma_slots_are_finite(set, geometry);
    vstd::set_lib::lemma_set_subset_finite(all_slots(set, geometry), held);
    assert forall|a: Slot, b: Slot|
        held.contains(a) && held.contains(b) && #[trigger] onward(a) == #[trigger] onward(
            b,
        ) implies a == b by {
        lemma_origin_of_destination(set, geometry, a);
        lemma_origin_of_destination(set, geometry, b);
    }
    assert forall|slot: Slot| held.map(onward).contains(slot) implies hold.contains(slot) by {
        let from = choose|from: Slot| held.contains(from) && slot == onward(from);
        lemma_values_arrive(set, geometry, before, after, from);
    }
    assert forall|slot: Slot| hold.contains(slot) implies held.map(onward).contains(slot) by {
        let from = origin(set, geometry, slot);
        lemma_destination_of_origin(set, geometry, slot);
        assert(held.contains(from) && slot == onward(from));
    }
    assert(held.map(onward) =~= hold);
    vstd::set_lib::lemma_map_size(held, hold, onward);
}

} // verus!
