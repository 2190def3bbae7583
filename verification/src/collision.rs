//! Collision: the populations of each cell relax towards their
//! equilibrium. The library decides which values meet in which formula;
//! the formula itself, arithmetic on the cell values, is the caller's.

use crate::fields::{find_misfit, misfit, same_field, same_fields, StateError};
use crate::lattice::{opposite_index, Direction, VelocitySet, Weight};
use crate::matrix::Matrix;
use vstd::prelude::*;

verus! {

/// Relaxation towards equilibrium with a single relaxation time.
#[derive(Debug)]
pub struct BGK<T> {
    pub tau: T,
}

/// Relaxation towards equilibrium with one relaxation time for the
/// symmetric part of the populations and one for the antisymmetric part.
#[derive(Debug)]
pub struct TRT<T> {
    pub tau_even: T,
    pub tau_odd: T,
}

/// How populations relax towards equilibrium.
#[derive(Debug)]
pub enum CollisionOperator<T> {
    BGK(BGK<T>),
    TRT(TRT<T>),
}

impl<T: Copy> Clone for BGK<T> {
    fn clone(&self) -> (copy: Self)
        ensures
            copy == *self,
    {
        BGK { tau: self.tau }
    }
}

impl<T: Copy> Copy for BGK<T> {

}

impl<T: Copy> Clone for TRT<T> {
    fn clone(&self) -> (copy: Self)
        ensures
            copy == *self,
    {
        TRT { tau_even: self.tau_even, tau_odd: self.tau_odd }
    }
}

impl<T: Copy> Copy for TRT<T> {

}

impl<T: Copy> Clone for CollisionOperator<T> {
    fn clone(&self) -> (copy: Self)
        ensures
            copy == *self,
    {
        match self {
            CollisionOperator::BGK(bgk) => CollisionOperator::BGK(BGK { tau: bgk.tau }),
            CollisionOperator::TRT(trt) => CollisionOperator::TRT(
                TRT { tau_even: trt.tau_even, tau_odd: trt.tau_odd },
            ),
        }
    }
}

impl<T: Copy> Copy for CollisionOperator<T> {

}


/// What is wrong with the populations and the equilibrium populations
/// that are to meet in a collision on `count` directions, if anything:
/// there have to be `count` fields of each, all of the shape of the first
/// population field.
pub open spec fn relax_defect<T>(
    count: int,
    populations: Seq<Matrix<T>>,
    equilibrium: Seq<Matrix<T>>,
) -> Option<StateError> {
    let size = first_shape(populations);
    match misfit(count, size.0, size.1, populations) {
        Some(error) => Some(error),
        None => misfit(count, size.0, size.1, equilibrium),
    }
}

/// The shape of the first field, or of the empty grid if there is none.
pub open spec fn first_shape<T>(fields: Seq<Matrix<T>>) -> (int, int) {
    if fields.len() > 0 {
        (fields[0].width(), fields[0].height())
    } else {
        (0, 0)
    }
}

/// `relaxed` holds, in every cell of every direction, what `formula` may
/// make of the relaxation time, the population and the equilibrium
/// population of that cell and direction.
pub open spec fn is_relaxed_bgk<T, F: Fn(BGK<T>, T, T) -> T>(
    formula: F,
    operator: BGK<T>,
    populations: Seq<Matrix<T>>,
    equilibrium: Seq<Matrix<T>>,
    relaxed: Seq<Matrix<T>>,
) -> bool {
    &&& relaxed.len() == populations.len()
    &&& forall|i: int|
        0 <= i < relaxed.len() ==> (#[trigger] relaxed[i]).wf() && relaxed[i].same_shape(
            &populations[i],
        )
    &&& forall|i: int, x: int, y: int|
        0 <= i < relaxed.len() && 0 <= x < relaxed[i].width() && 0 <= y < relaxed[i].height()
            ==> call_ensures(
            formula,
            (operator, populations[i].at(x, y), equilibrium[i].at(x, y)),
            #[trigger] relaxed[i].at(x, y),
        )
}

/// `relaxed` holds, in every cell of every direction, what `formula` may
/// make of the relaxation times and of the populations and the equilibrium
/// populations of that cell, each a pair: first that of the direction,
/// then that of the opposite direction.
pub open spec fn is_relaxed_trt<T, F: Fn(TRT<T>, (T, T), (T, T)) -> T>(
    formula: F,
    operator: TRT<T>,
    set: Seq<(Direction, Weight)>,
    populations: Seq<Matrix<T>>,
    equilibrium: Seq<Matrix<T>>,
    relaxed: Seq<Matrix<T>>,
) -> bool {
    &&& relaxed.len() == populations.len()
    &&& forall|i: int|
        0 <= i < relaxed.len() ==> (#[trigger] relaxed[i]).wf() && relaxed[i].same_shape(
            &populations[i],
        )
    &&& forall|i: int, x: int, y: int|
        0 <= i < relaxed.len() && 0 <= x < relaxed[i].width() && 0 <= y < relaxed[i].height()
            ==> call_ensures(
            formula,
            (
                operator,
                (populations[i].at(x, y), populations[opposite_index(set, i)].at(x, y)),
                (equilibrium[i].at(x, y), equilibrium[opposite_index(set, i)].at(x, y)),
            ),
            #[trigger] relaxed[i].at(x, y),
        )
}

/// `relaxed` holds the populations after a collision with `operator`,
/// computed with the formula that belongs to it.
pub open spec fn is_relaxed<T, B: Fn(BGK<T>, T, T) -> T, R: Fn(TRT<T>, (T, T), (T, T)) -> T>(
    operator: CollisionOperator<T>,
    bgk: B,
    trt: R,
    set: Seq<(Direction, Weight)>,
    populations: Seq<Matrix<T>>,
    equilibrium: Seq<Matrix<T>>,
    relaxed: Seq<Matrix<T>>,
) -> bool {
    match operator {
        CollisionOperator::BGK(operator) => is_relaxed_bgk(
            bgk,
            operator,
            populations,
            equilibrium,
            relaxed,
        ),
        CollisionOperator::TRT(operator) => is_relaxed_trt(
            trt,
            operator,
            set,
            populations,
            equilibrium,
            relaxed,
        ),
    }
}

/// Where the formula for a single relaxation time returns the equilibrium
/// population whatever the population was, as it does for a relaxation
/// time of one, the populations after collision are the equilibrium
/// populations.
pub proof fn lemma_full_relaxation<T, F: Fn(BGK<T>, T, T) -> T>(
    formula: F,
    operator: BGK<T>,
    populations: Seq<Matrix<T>>,
    equilibrium: Seq<Matrix<T>>,
    relaxed: Seq<Matrix<T>>,
)
    requires
        is_relaxed_bgk(formula, operator, populations, equilibrium, relaxed),
        equilibrium.len() == populations.len(),
        forall|i: int|
            0 <= i < equilibrium.len() ==> (#[trigger] equilibrium[i]).wf()
                && equilibrium[i].same_shape(&populations[i]),
        forall|population: T, target: T, after: T|
            call_ensures(formula, (operator, population, target), after) ==> after == target,
    ensures
        same_fields(relaxed, equilibrium),
{
    assert forall|i: int| 0 <= i < relaxed.len() implies same_field(
        #[trigger] relaxed[i],
        equilibrium[i],
    ) by {
        crate::matrix::lemma_same_cells(relaxed[i], equilibrium[i]);
    }
}

/// Where the formula for two relaxation times, given the same time
/// twice, returns what the formula for a single relaxation time returns
/// for that time, a collision with two equal relaxation times is a
/// collision with a single one.
pub proof fn lemma_equal_times_relax_as_one<
    T,
    B: Fn(BGK<T>, T, T) -> T,
    R: Fn(TRT<T>, (T, T), (T, T)) -> T,
>(
    bgk: B,
    trt: R,
    single: BGK<T>,
    double: TRT<T>,
    set: Seq<(Direction, Weight)>,
    populations: Seq<Matrix<T>>,
    equilibrium: Seq<Matrix<T>>,
    relaxed: Seq<Matrix<T>>,
)
    requires
        double.tau_even == single.tau,
        double.tau_odd == single.tau,
        is_relaxed_trt(trt, double, set, populations, equilibrium, relaxed),
        forall|pair: (T, T), targets: (T, T), after: T|
            call_ensures(trt, (double, pair, targets), after) ==> call_ensures(
                bgk,
                (single, pair.0, targets.0),
                after,
            ),
    ensures
        is_relaxed_bgk(bgk, single, populations, equilibrium, relaxed),
{
}

/// The shape of the first field, or of the empty grid if there is none.
fn shape_of_first<T>(fields: &Vec<Matrix<T>>) -> (size: (usize, usize))
    ensures
        size.0 == first_shape(fields@).0,
        size.1 == first_shape(fields@).1,
        fields@.len() > 0 ==> size.0 * size.1 <= usize::MAX,
        fields@.len() == 0 ==> size == (0usize, 0usize),
{
    if fields.len() > 0 {
        let first: &Matrix<T> = &fields[0];
        proof {
            use_type_invariant(first);
        }
        first.get_shape()
    } else {
        (0, 0)
    }
}

/// Looks for what is wrong with the fields that are to meet in a collision.
fn find_relax_defect<T>(
    count: usize,
    populations: &Vec<Matrix<T>>,
    equilibrium: &Vec<Matrix<T>>,
) -> (found: Option<StateError>)
    ensures
        found == relax_defect(count as int, populations@, equilibrium@),
{
    let size = shape_of_first(populations);
    match find_misfit(count, size, populations) {
        Some(error) => Some(error),
        None => find_misfit(count, size, equilibrium),
    }
}

impl<T: Copy> BGK<T> {
    /// The populations after collision: in every cell and for every
    /// direction, what `formula` makes of the relaxation time, the
    /// population and the equilibrium population.
    pub fn relax<F: Fn(BGK<T>, T, T) -> T>(
        &self,
        velocities: &VelocitySet,
        populations: &Vec<Matrix<T>>,
        equilibrium: &Vec<Matrix<T>>,
        formula: &F,
    ) -> (relaxed: Result<Vec<Matrix<T>>, StateError>)
        requires
            forall|operator: BGK<T>, population: T, target: T|
                call_requires(*formula, (operator, population, target)),
        ensures
            match relax_defect(velocities@.len() as int, populations@, equilibrium@) {
                Some(error) => relaxed == Err::<Vec<Matrix<T>>, StateError>(error),
                None => relaxed is Ok && is_relaxed_bgk(
                    *formula,
                    *self,
                    populations@,
                    equilibrium@,
                    relaxed->Ok_0@,
                ),
            },
    {
        let count: usize = velocities.len();
        if let Some(error) = find_relax_defect(count, populations, equilibrium) {
            return Err(error);
        }
        let size = shape_of_first(populations);
        let operator: BGK<T> = *self;
        let mut relaxed: Vec<Matrix<T>> = Vec::with_capacity(count);
        let mut i: usize = 0;
        while i < count
            invariant
                i <= count,
                count == populations@.len(),
                relax_defect(count as int, populations@, equilibrium@) is None,
                size.0 == first_shape(populations@).0,
                size.1 == first_shape(populations@).1,
                count > 0 ==> size.0 * size.1 <= usize::MAX,
                operator == *self,
                relaxed@.len() == i,
                forall|operator: BGK<T>, population: T, target: T|
                    call_requires(*formula, (operator, population, target)),
                forall|k: int|
                    0 <= k < i ==> (#[trigger] relaxed@[k]).wf() && relaxed@[k].same_shape(
                        &populations@[k],
                    ),
                forall|k: int, x: int, y: int|
                    0 <= k < i && 0 <= x < size.0 && 0 <= y < size.1 ==> call_ensures(
                        *formula,
                        (operator, populations@[k].at(x, y), equilibrium@[k].at(x, y)),
                        #[trigger] relaxed@[k].at(x, y),
                    ),
            decreases count - i,
        {
            let cell_of = |x: usize, y: usize| -> (value: T)
                requires
                    x < size.0,
                    y < size.1,
                ensures
                    call_ensures(
                        *formula,
                        (
                            operator,
                            populations@[i as int].at(x as int, y as int),
                            equilibrium@[i as int].at(x as int, y as int),
                        ),
                        value,
                    ),
                { formula(operator, populations[i].cell(x, y), equilibrium[i].cell(x, y)) };
            let field: Matrix<T> = Matrix::tabulate(size, cell_of);
            relaxed.push(field);
            i += 1;
        }
        Ok(relaxed)
    }
}

impl<T: Copy> TRT<T> {
    /// The populations after collision: in every cell and for every
    /// direction, what `formula` makes of the relaxation times and of the
    /// populations and the equilibrium populations of the direction and
    /// of its opposite.
    pub fn relax<F: Fn(TRT<T>, (T, T), (T, T)) -> T>(
        &self,
        velocities: &VelocitySet,
        populations: &Vec<Matrix<T>>,
        equilibrium: &Vec<Matrix<T>>,
        formula: &F,
    ) -> (relaxed: Result<Vec<Matrix<T>>, StateError>)
        requires
            forall|operator: TRT<T>, pair: (T, T), targets: (T, T)|
                call_requires(*formula, (operator, pair, targets)),
        ensures
            match relax_defect(velocities@.len() as int, populations@, equilibrium@) {
                Some(error) => relaxed == Err::<Vec<Matrix<T>>, StateError>(error),
                None => relaxed is Ok && is_relaxed_trt(
                    *formula,
                    *self,
                    velocities@,
                    populations@,
                    equilibrium@,
                    relaxed->Ok_0@,
                ),
            },
    {
        let count: usize = velocities.len();
        if let Some(error) = find_relax_defect(count, populations, equilibrium) {
            return Err(error);
        }
        let size = shape_of_first(populations);
        let operator: TRT<T> = *self;
        let mut relaxed: Vec<Matrix<T>> = Vec::with_capacity(count);
        let mut i: usize = 0;
        while i < count
            invariant
                i <= count,
                count == populations@.len(),
                count == velocities@.len(),
                relax_defect(count as int, populations@, equilibrium@) is None,
                size.0 == first_shape(populations@).0,
                size.1 == first_shape(populations@).1,
                count > 0 ==> size.0 * size.1 <= usize::MAX,
                operator == *self,
                relaxed@.len() == i,
                forall|operator: TRT<T>, pair: (T, T), targets: (T, T)|
                    call_requires(*formula, (operator, pair, targets)),
                forall|k: int|
                    0 <= k < i ==> (#[trigger] relaxed@[k]).wf() && relaxed@[k].same_shape(
                        &populations@[k],
                    ),
                forall|k: int, x: int, y: int|
                    0 <= k < i && 0 <= x < size.0 && 0 <= y < size.1 ==> call_ensures(
                        *formula,
                        (
                            operator,
                            (
                                populations@[k].at(x, y),
                                populations@[opposite_index(velocities@, k)].at(x, y),
                            ),
                            (
                                equilibrium@[k].at(x, y),
                                equilibrium@[opposite_index(velocities@, k)].at(x, y),
                            ),
                        ),
                        #[trigger] relaxed@[k].at(x, y),
                    ),
            decreases count - i,
        {
            let j: usize = velocities.opposite_at(i);
            let cell_of = |x: usize, y: usize| -> (value: T)
                requires
                    x < size.0,
                    y < size.1,
                ensures
                    call_ensures(
                        *formula,
                        (
                            operator,
                            (
                                populations@[i as int].at(x as int, y as int),
                                populations@[j as int].at(x as int, y as int),
                            ),
                            (
                                equilibrium@[i as int].at(x as int, y as int),
                                equilibrium@[j as int].at(x as int, y as int),
                            ),
                        ),
                        value,
                    ),
                {
                    formula(
                        operator,
                        (populations[i].cell(x, y), populations[j].cell(x, y)),
                        (equilibrium[i].cell(x, y), equilibrium[j].cell(x, y)),
                    )
                };
            let field: Matrix<T> = Matrix::tabulate(size, cell_of);
            relaxed.push(field);
            i += 1;
        }
        Ok(relaxed)
    }
}

impl<T: Copy> CollisionOperator<T> {
    /// The populations after collision with this operator, computed with
    /// the formula that belongs to it: `bgk` for a single relaxation
    /// time, `trt` for two.
    pub fn relax<B: Fn(BGK<T>, T, T) -> T, R: Fn(TRT<T>, (T, T), (T, T)) -> T>(
        &self,
        velocities: &VelocitySet,
        populations: &Vec<Matrix<T>>,
        equilibrium: &Vec<Matrix<T>>,
        bgk: &B,
        trt: &R,
    ) -> (relaxed: Result<Vec<Matrix<T>>, StateError>)
        requires
            forall|operator: BGK<T>, population: T, target: T|
                call_requires(*bgk, (operator, population, target)),
            forall|operator: TRT<T>, pair: (T, T), targets: (T, T)|
                call_requires(*trt, (operator, pair, targets)),
        ensures
            match relax_defect(velocities@.len() as int, populations@, equilibrium@) {
                Some(error) => relaxed == Err::<Vec<Matrix<T>>, StateError>(error),
                None => relaxed is Ok && is_relaxed(
                    *self,
                    *bgk,
                    *trt,
                    velocities@,
                    populations@,
                    equilibrium@,
                    relaxed->Ok_0@,
                ),
            },
    {
        match self {
            CollisionOperator::BGK(operator) => operator.relax(
                velocities,
                populations,
                equilibrium,
                bgk,
            ),
            CollisionOperator::TRT(operator) => operator.relax(
                velocities,
                populations,
                equilibrium,
                trt,
            ),
        }
    }
}

} // verus!
