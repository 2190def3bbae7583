//! The state of a simulation and its step.

use crate::collision::{is_relaxed, CollisionOperator, BGK, TRT};
use crate::equilibrium::{compute_equilibrium, is_equilibrium, Moments};
use crate::fields::{cell_values, fields_defect, find_misfit, gather, StateError};
use crate::lattice::{defect, Direction, Lattice, VelocitySet, Weight};
use crate::matrix::Matrix;
use crate::streaming::{is_streamed, slot_in_range, stream, value_at, Slot};
use vstd::prelude::*;

verus! {

/// The grid spacing and the time step.
#[derive(Debug)]
pub struct Discretization<T> {
    pub delta_x: T,
    pub delta_t: T,
}

impl<T: Copy> Clone for Discretization<T> {
    fn clone(&self) -> (copy: Self)
        ensures
            copy == *self,
    {
        Discretization { delta_x: self.delta_x, delta_t: self.delta_t }
    }
}

impl<T: Copy> Copy for Discretization<T> {

}

/// `seen` is what `probe` may return when it is given `values`.
pub open spec fn is_observed<T, A, F: Fn(Vec<T>) -> A>(probe: F, values: Seq<T>, seen: A) -> bool {
    exists|given: Vec<T>| given@ == values && call_ensures(probe, (given,), seen)
}

/// What a simulation state holds.
pub struct StateView<T> {
    /// The directions with their weights.
    pub velocities: Seq<(Direction, Weight)>,
    /// One population field for each direction.
    pub populations: Seq<Matrix<T>>,
    /// The mask whose `true` cells are obstacles.
    pub geometry: Matrix<bool>,
    pub collision: CollisionOperator<T>,
    pub discretization: Discretization<T>,
    /// The number of steps taken.
    pub time: nat,
}

/// The state of a simulation: the populations on their grid, what shapes
/// and drives them, and the number of steps taken so far.
pub struct State<T> {
    pub(crate) velocities: VelocitySet,
    pub(crate) populations: Vec<Matrix<T>>,
    pub(crate) geometry: Matrix<bool>,
    pub(crate) collision: CollisionOperator<T>,
    pub(crate) discretization: Discretization<T>,
    pub(crate) time: u64,
}

impl<T> View for State<T> {
    type V = StateView<T>;

    closed spec fn view(&self) -> StateView<T> {
        StateView {
            velocities: self.velocities@,
            populations: self.populations@,
            geometry: self.geometry,
            collision: self.collision,
            discretization: self.discretization,
            time: self.time as nat,
        }
    }
}

impl<T> StateView<T> {
    /// The velocity set is valid, and there is one population field for
    /// each direction, each a matrix of the shape of the geometry mask.
    pub open spec fn wf(self) -> bool {
        &&& defect(self.velocities) is None
        &&& self.geometry.wf()
        &&& fields_defect(self.velocities.len() as int, self.geometry, self.populations) is None
        &&& forall|i: int| 0 <= i < self.populations.len() ==> (#[trigger] self.populations[i]).wf()
        &&& self.time <= u64::MAX
    }
}

impl<T> State<T> {
    /// What the state holds is well-formed.
    #[verifier::type_invariant]
    pub open spec fn wf(&self) -> bool {
        self@.wf()
    }
}

/// What keeps a state from going on with the given populations, if
/// anything.
pub open spec fn step_defect<T>(state: StateView<T>, collided: Seq<Matrix<T>>) -> Option<
    StateError,
> {
    match fields_defect(state.velocities.len() as int, state.geometry, collided) {
        Some(error) => Some(error),
        None => if state.time >= u64::MAX {
            Some(StateError::ClockOverflow)
        } else {
            None
        },
    }
}

/// Streaming the populations `collided` takes the state `before` to the
/// state `after` and ends with `outcome`.
pub open spec fn advances_to<T>(
    before: StateView<T>,
    collided: Seq<Matrix<T>>,
    outcome: Result<(), StateError>,
    after: StateView<T>,
) -> bool {
    match step_defect(before, collided) {
        Some(error) => outcome == Err::<(), StateError>(error) && after == before,
        None => {
            &&& outcome is Ok
            &&& is_streamed(before.velocities, before.geometry, collided, after.populations)
            &&& after == (StateView {
                populations: after.populations,
                time: before.time + 1,
                ..before
            })
        },
    }
}

/// `seen` is a field of what `probe` may make of each cell of the state.
pub open spec fn is_observation<T, A, F: Fn(Vec<T>) -> A>(
    probe: F,
    state: StateView<T>,
    seen: Matrix<A>,
) -> bool {
    &&& seen.wf()
    &&& seen.same_shape(&state.geometry)
    &&& forall|x: int, y: int|
        0 <= x < state.geometry.width() && 0 <= y < state.geometry.height() ==> is_observed(
            probe,
            cell_values(state.populations, x, y),
            #[trigger] seen.at(x, y),
        )
}

/// The arithmetic of a simulation, which the library leaves to its
/// caller: four formulas on the values of a cell.
pub struct Formulas<M, E, B, R> {
    /// The density and the velocity of a cell, from its populations, one
    /// for each direction.
    pub moments: M,
    /// The equilibrium population of a direction with its weight, from
    /// the density and the velocity of the cell.
    pub equilibrium: E,
    /// The population after relaxation with a single relaxation time,
    /// from the population and its equilibrium.
    pub bgk: B,
    /// The population after relaxation with two relaxation times, from
    /// the populations of the direction and of its opposite, and their
    /// equilibria.
    pub trt: R,
}

/// Every formula can be applied to whatever a state with `count`
/// directions hands it.
pub open spec fn are_applicable<
    T,
    M: Fn(Vec<T>) -> Moments<T>,
    E: Fn(Direction, Weight, Moments<T>) -> T,
    B: Fn(BGK<T>, T, T) -> T,
    R: Fn(TRT<T>, (T, T), (T, T)) -> T,
>(formulas: Formulas<M, E, B, R>, count: nat) -> bool {
    &&& forall|given: Vec<T>| given@.len() == count ==> call_requires(formulas.moments, (given,))
    &&& forall|direction: Direction, weight: Weight, cell: Moments<T>|
        call_requires(formulas.equilibrium, (direction, weight, cell))
    &&& forall|operator: BGK<T>, population: T, target: T|
        call_requires(formulas.bgk, (operator, population, target))
    &&& forall|operator: TRT<T>, pair: (T, T), targets: (T, T)|
        call_requires(formulas.trt, (operator, pair, targets))
}

/// The populations `collided` are those of the state after collision:
/// from the populations of each cell its density and velocity, from these
/// the equilibrium populations, and from the populations and their
/// equilibria the populations after relaxation with the state's operator.
pub open spec fn is_collided<
    T,
    M: Fn(Vec<T>) -> Moments<T>,
    E: Fn(Direction, Weight, Moments<T>) -> T,
    B: Fn(BGK<T>, T, T) -> T,
    R: Fn(TRT<T>, (T, T), (T, T)) -> T,
>(formulas: Formulas<M, E, B, R>, state: StateView<T>, collided: Seq<Matrix<T>>) -> bool {
    exists|moments: Matrix<Moments<T>>, equilibrium: Seq<Matrix<T>>|
        {
            &&& is_observation(formulas.moments, state, moments)
            &&& #[trigger] is_equilibrium(
                formulas.equilibrium,
                state.velocities,
                moments,
                equilibrium,
            )
            &&& is_relaxed(
                state.collision,
                formulas.bgk,
                formulas.trt,
                state.velocities,
                state.populations,
                equilibrium,
                collided,
            )
        }
}

/// A step with the given formulas takes the state `before` to the state
/// `after` and ends with `outcome`: collision in every cell, then
/// streaming with bounce-back, then one more on the step counter; or, if
/// the counter is at its limit, no change at all.
pub open spec fn is_step<
    T,
    M: Fn(Vec<T>) -> Moments<T>,
    E: Fn(Direction, Weight, Moments<T>) -> T,
    B: Fn(BGK<T>, T, T) -> T,
    R: Fn(TRT<T>, (T, T), (T, T)) -> T,
>(
    formulas: Formulas<M, E, B, R>,
    before: StateView<T>,
    outcome: Result<(), StateError>,
    after: StateView<T>,
) -> bool {
    if before.time >= u64::MAX {
        outcome == Err::<(), StateError>(StateError::ClockOverflow) && after == before
    } else {
        &&& outcome is Ok
        &&& exists|collided: Seq<Matrix<T>>|
            is_collided(formulas, before, collided) && #[trigger] advances_to(
                before,
                collided,
                outcome,
                after,
            )
    }
}

/// `steps` steps with the given formulas, each of them successful, take
/// the state `before` to the state `after`.
pub open spec fn runs<
    T,
    M: Fn(Vec<T>) -> Moments<T>,
    E: Fn(Direction, Weight, Moments<T>) -> T,
    B: Fn(BGK<T>, T, T) -> T,
    R: Fn(TRT<T>, (T, T), (T, T)) -> T,
>(formulas: Formulas<M, E, B, R>, before: StateView<T>, steps: nat, after: StateView<T>) -> bool
    decreases steps,
{
    if steps == 0 {
        after == before
    } else {
        exists|mid: StateView<T>|
            runs(formulas, before, (steps - 1) as nat, mid) && #[trigger] is_step(
                formulas,
                mid,
                Ok(()),
                after,
            )
    }
}

/// A successful step leaves the velocity set, the geometry mask, the
/// collision operator and the discretization as they were, leaves the
/// state well-formed, and adds one to the step counter.
pub proof fn lemma_step_keeps_the_frame<
    T,
    M: Fn(Vec<T>) -> Moments<T>,
    E: Fn(Direction, Weight, Moments<T>) -> T,
    B: Fn(BGK<T>, T, T) -> T,
    R: Fn(TRT<T>, (T, T), (T, T)) -> T,
>(formulas: Formulas<M, E, B, R>, before: StateView<T>, after: StateView<T>)
    requires
        before.wf(),
        is_step(formulas, before, Ok(()), after),
    ensures
        after.wf(),
        after.time == before.time + 1,
        after.velocities == before.velocities,
        after.geometry == before.geometry,
        after.collision == before.collision,
        after.discretization == before.discretization,
{
}

/// However many steps a simulation takes, and whatever the formulas
/// compute, the velocity set, the geometry mask, the collision operator
/// and the discretization stay what they were, the state stays
/// well-formed, and the step counter has gone up by exactly one for each
/// step.
pub proof fn lemma_run_keeps_the_frame<
    T,
    M: Fn(Vec<T>) -> Moments<T>,
    E: Fn(Direction, Weight, Moments<T>) -> T,
    B: Fn(BGK<T>, T, T) -> T,
    R: Fn(TRT<T>, (T, T), (T, T)) -> T,
>(formulas: Formulas<M, E, B, R>, before: StateView<T>, steps: nat, after: StateView<T>)
    requires
        before.wf(),
        runs(formulas, before, steps, after),
    ensures
        after.wf(),
        after.time == before.time + steps,
        after.velocities == before.velocities,
        after.geometry == before.geometry,
        after.collision == before.collision,
        after.discretization == before.discretization,
    decreases steps,
{
    if steps > 0 {
        let mid = choose|mid: StateView<T>|
            runs(formulas, before, (steps - 1) as nat, mid) && #[trigger] is_step(
                formulas,
                mid,
                Ok(()),
                after,
            );
        lemma_run_keeps_the_frame(formulas, before, (steps - 1) as nat, mid);
        lemma_step_keeps_the_frame(formulas, mid, after);
    }
}

impl<T: Copy> State<T> {
    /// The state before the first step: the populations of `lattice` on
    /// the grid that `geometry` masks.
    pub fn initial(
        lattice: Lattice<T>,
        geometry: Matrix<bool>,
        collision: CollisionOperator<T>,
        discretization: Discretization<T>,
    ) -> (made: Result<State<T>, StateError>)
        ensures
            match fields_defect(
                lattice.velocities()@.len() as int,
                geometry,
                lattice.populations(),
            ) {
                Some(error) => made == Err::<State<T>, StateError>(error),
                None => made is Ok && made->Ok_0.wf() && made->Ok_0@ == (StateView {
                    velocities: lattice.velocities()@,
                    populations: lattice.populations(),
                    geometry,
                    collision,
                    discretization,
                    time: 0,
                }),
            },
    {
        proof {
            use_type_invariant(&geometry);
        }
        let (velocities, populations) = lattice.into_parts();
        if let Some(error) = find_misfit(velocities.len(), geometry.get_shape(), &populations) {
            return Err(error);
        }
        Ok(State { velocities, populations, geometry, collision, discretization, time: 0 })
    }

    /// The second half of a step. `collided` holds the populations after
    /// collision, one field for each direction; they are streamed, with
    /// bounce-back at the obstacles, and become the state's populations,
    /// and the step counter goes up by one. If `collided` does not fit, or
    /// the counter is at its limit, the state stays as it is.
    pub fn advance(&mut self, collided: &Vec<Matrix<T>>) -> (outcome: Result<(), StateError>)
        ensures
            final(self).wf(),
            advances_to(old(self)@, collided@, outcome, final(self)@),
    {
        proof {
            use_type_invariant(&*self);
        }
        let moved: Vec<Matrix<T>> = match stream(&self.velocities, &self.geometry, collided) {
            Ok(moved) => moved,
            Err(error) => {
                return Err(error);
            },
        };
        if self.time == u64::MAX {
            return Err(StateError::ClockOverflow);
        }
        self.populations = moved;
        self.time = self.time + 1;
        Ok(())
    }

    /// A field of what `probe` makes of each cell: `probe` is given the
    /// populations of the cell, one for each direction.
    pub fn observe<A, F: Fn(Vec<T>) -> A>(&self, probe: &F) -> (seen: Matrix<A>)
        requires
            forall|given: Vec<T>|
                given@.len() == self@.velocities.len() ==> call_requires(*probe, (given,)),
        ensures
            is_observation(*probe, self@, seen),
    {
        proof {
            use_type_invariant(self);
        }
        let (width, height) = self.geometry.get_shape();
        let cell_of = |x: usize, y: usize| -> (value: A)
            requires
                x < width,
                y < height,
            ensures
                is_observed(*probe, cell_values(self.populations@, x as int, y as int), value),
            {
                probe(gather(&self.populations, x, y))
            };
        let seen: Matrix<A> = Matrix::tabulate((width, height), cell_of);
        seen
    }

    /// The first half of a step: the populations after collision. For
    /// every cell the density and the velocity are computed from its
    /// populations, from these the equilibrium populations, and from the
    /// populations and their equilibria the populations after relaxation
    /// with the state's operator.
    pub fn collide<
        M: Fn(Vec<T>) -> Moments<T>,
        E: Fn(Direction, Weight, Moments<T>) -> T,
        B: Fn(BGK<T>, T, T) -> T,
        R: Fn(TRT<T>, (T, T), (T, T)) -> T,
    >(&self, formulas: &Formulas<M, E, B, R>) -> (collided: Vec<Matrix<T>>)
        requires
            are_applicable(*formulas, self@.velocities.len()),
        ensures
            is_collided(*formulas, self@, collided@),
            fields_defect(self@.velocities.len() as int, self@.geometry, collided@) is None,
    {
        proof {
            use_type_invariant(self);
            use_type_invariant(&self.velocities);
        }
        let moments: Matrix<Moments<T>> = self.observe(&formulas.moments);
        let directions: Vec<(Direction, Weight)> = self.velocities.directions();
        let equilibrium: Vec<Matrix<T>> = compute_equilibrium(
            &moments,
            &directions,
            &formulas.equilibrium,
        );
        match self.collision.relax(
            &self.velocities,
            &self.populations,
            &equilibrium,
            &formulas.bgk,
            &formulas.trt,
        ) {
            Ok(collided) => {
                collided
            },
            Err(_) => {
                Vec::new()
            },
        }
    }

    /// Takes one step: collision in every cell, then streaming with
    /// bounce-back at the obstacles; and the step counter goes up by one.
    /// If the counter is at its limit, the state stays as it is.
    pub fn step<
        M: Fn(Vec<T>) -> Moments<T>,
        E: Fn(Direction, Weight, Moments<T>) -> T,
        B: Fn(BGK<T>, T, T) -> T,
        R: Fn(TRT<T>, (T, T), (T, T)) -> T,
    >(&mut self, formulas: &Formulas<M, E, B, R>) -> (outcome: Result<(), StateError>)
        requires
            are_applicable(*formulas, old(self)@.velocities.len()),
        ensures
            final(self).wf(),
            is_step(*formulas, old(self)@, outcome, final(self)@),
    {
        proof {
            use_type_invariant(&*self);
        }
        if self.time == u64::MAX {
            return Err(StateError::ClockOverflow);
        }
        let collided: Vec<Matrix<T>> = self.collide(formulas);
        let outcome = self.advance(&collided);
        outcome
    }

    /// Whether the state has become unstable: whether any population, in
    /// any cell, is what `out_of_range` takes for out of range.
    pub fn is_unstable<F: Fn(T) -> bool>(&self, out_of_range: &F) -> (unstable: bool)
        requires
            forall|value: T| call_requires(*out_of_range, (value,)),
        ensures
            unstable ==> exists|slot: Slot|
                slot_in_range(self@.velocities, self@.geometry, slot) && #[trigger] call_ensures(
                    *out_of_range,
                    (value_at(self@.populations, slot),),
                    true,
                ),
            !unstable ==> forall|slot: Slot|
                slot_in_range(self@.velocities, self@.geometry, slot) ==> #[trigger] call_ensures(
                    *out_of_range,
                    (value_at(self@.populations, slot),),
                    false,
                ),
    {
        proof {
            use_type_invariant(self);
        }
        let (width, height) = self.geometry.get_shape();
        let mut i: usize = 0;
        while i < self.populations.len()
            invariant
                i <= self@.populations.len(),
                self.wf(),
                width == self@.geometry.width(),
                height == self@.geometry.height(),
                forall|value: T| call_requires(*out_of_range, (value,)),
                forall|slot: Slot|
                    slot_in_range(self@.velocities, self@.geometry, slot) && slot.direction < i
                        ==> #[trigger] call_ensures(
                        *out_of_range,
                        (value_at(self@.populations, slot),),
                        false,
                    ),
            decreases self@.populations.len() - i,
        {
            let mut y: usize = 0;
            while y < height
                invariant
                    i < self@.populations.len(),
                    y <= height,
                    self.wf(),
                    width == self@.geometry.width(),
                    height == self@.geometry.height(),
                    self@.populations[i as int].width() == width,
                    self@.populations[i as int].height() == height,
                    forall|value: T| call_requires(*out_of_range, (value,)),
                    forall|slot: Slot|
                        slot_in_range(self@.velocities, self@.geometry, slot) && (slot.direction
                            < i || (slot.direction == i && slot.y < y)) ==> #[trigger] call_ensures(
                            *out_of_range,
                            (value_at(self@.populations, slot),),
                            false,
                        ),
                decreases height - y,
            {
                let mut x: usize = 0;
                while x < width
                    invariant
                        i < self@.populations.len(),
                        y < height,
                        x <= width,
                        self.wf(),
                        width == self@.geometry.width(),
                        height == self@.geometry.height(),
                        self@.populations[i as int].width() == width,
                        self@.populations[i as int].height() == height,
                        forall|value: T| call_requires(*out_of_range, (value,)),
                        forall|slot: Slot|
                            slot_in_range(self@.velocities, self@.geometry, slot) && (
                            slot.direction < i || (slot.direction == i && (slot.y < y || (slot.y
                                == y && slot.x < x)))) ==> #[trigger] call_ensures(
                                *out_of_range,
                                (value_at(self@.populations, slot),),
                                false,
                            ),
                    decreases width - x,
                {
                    let value: T = self.populations[i].cell(x, y);
                    if out_of_range(value) {
                        proof {
                            let slot = Slot { direction: i as int, x: x as int, y: y as int };
                            assert(call_ensures(
                                *out_of_range,
                                (value_at(self@.populations, slot),),
                                true,
                            ));
                        }
                        return true;
                    }
                    x += 1;
                }
                y += 1;
            }
            i += 1;
        }
        false
    }

    /// The population fields in the order of the directions.
    pub fn populations(&self) -> (fields: &Vec<Matrix<T>>)
        ensures
            fields@ == self@.populations,
    {
        &self.populations
    }

    /// The mask whose `true` cells are obstacles.
    pub fn geometry(&self) -> (mask: &Matrix<bool>)
        ensures
            *mask == self@.geometry,
    {
        &self.geometry
    }

    /// The velocity set.
    pub fn velocities(&self) -> (set: &VelocitySet)
        ensures
            set@ == self@.velocities,
            set.wf(),
    {
        proof {
            use_type_invariant(&self.velocities);
        }
        &self.velocities
    }

    /// How the populations relax towards equilibrium.
    pub fn collision(&self) -> (operator: &CollisionOperator<T>)
        ensures
            *operator == self@.collision,
    {
        &self.collision
    }

    /// The grid spacing and the time step.
    pub fn discretization(&self) -> (discretization: &Discretization<T>)
        ensures
            *discretization == self@.discretization,
    {
        &self.discretization
    }

    /// The number of steps taken.
    pub fn time(&self) -> (steps: u64)
        ensures
            steps == self@.time,
    {
        self.time
    }
}

} // verus!
