//! The interactive simulation: a state, the quantity on display, and the
//! number of steps taken for each frame.

use crate::collision::{CollisionOperator, BGK, TRT};
use crate::display::{shade, shade_of, DisplayMode, RGB};
use crate::equilibrium::Moments;
use crate::fields::{cell_values, same_fields, StateError};
use crate::geometry::{disc, in_disc};
use crate::lattice::{d2q9, Direction, Weight, D2Q9};
use crate::matrix::Matrix;
use crate::state::{are_applicable, is_step, runs, Discretization, Formulas, State, StateView};
use vstd::prelude::*;

verus! {

/// One event of the window's event loop, as `piston` delivers it.
#[verifier::external_type_specification]
#[verifier::external_body]
pub struct ExEvent(piston::input::Event);

/// A keyboard key, as far as the viewer tells keys apart.
#[derive(Copy, Clone, Debug, PartialEq, Eq, Structural)]
pub enum Key {
    Minus,
    Plus,
    Space,
    Other,
}

/// The key whose release an event reports, if it reports one: what
/// `piston` makes of the event, which is a matter of the event alone.
pub uninterp spec fn released_key(event: piston::input::Event) -> Option<Key>;

/// Asks `piston`'s `ReleaseEvent::release_args` which button the event
/// released, and names the key when that button is on the keyboard. The
/// contract only gives the answer its name.
#[verifier::external_body]
fn key_released_by(event: &piston::input::Event) -> (key: Option<Key>)
    ensures
        key == released_key(*event),
{
    match piston::input::ReleaseEvent::release_args(event) {
        Some(piston::input::Button::Keyboard(piston::input::Key::Minus)) => Some(Key::Minus),
        Some(piston::input::Button::Keyboard(piston::input::Key::Plus)) => Some(Key::Plus),
        Some(piston::input::Button::Keyboard(piston::input::Key::Space)) => Some(Key::Space),
        Some(piston::input::Button::Keyboard(_)) => Some(Key::Other),
        _ => None,
    }
}

/// The fewest steps taken for each frame.
pub const MIN_SPEED_FACTOR: usize = 1;

/// The most steps taken for each frame.
pub const MAX_SPEED_FACTOR: usize = 100;

/// The radius, in cells, of the obstacle in the middle of the grid.
pub const OBSTACLE_RADIUS: u32 = 25;

/// The speed factor after `key` was released: minus makes it one less,
/// plus one more, within the limits.
pub open spec fn speed_after(speed_factor: nat, key: Key) -> nat {
    let wanted: int = match key {
        Key::Minus => speed_factor - 1,
        Key::Plus => (speed_factor + 1) as int,
        _ => speed_factor as int,
    };
    if wanted < MIN_SPEED_FACTOR {
        MIN_SPEED_FACTOR as nat
    } else if wanted > MAX_SPEED_FACTOR {
        MAX_SPEED_FACTOR as nat
    } else {
        wanted as nat
    }
}

/// The display mode after `key` was released: space moves on to the next.
pub open spec fn mode_after(mode: DisplayMode, key: Key) -> DisplayMode {
    match key {
        Key::Space => mode.successor(),
        _ => mode,
    }
}

/// What an interactive simulation holds.
pub struct LBMSimView<T> {
    /// The number of steps taken for each frame.
    pub speed_factor: nat,
    /// The quantity on display.
    pub display_mode: DisplayMode,
    /// The number of columns and of rows of the grid.
    pub size: (nat, nat),
    pub state: StateView<T>,
}

impl<T> LBMSimView<T> {
    /// The simulation after the release of `key`, or after an event that
    /// released none.
    pub open spec fn after(self, key: Option<Key>) -> LBMSimView<T> {
        match key {
            Some(key) => LBMSimView {
                speed_factor: speed_after(self.speed_factor, key),
                display_mode: mode_after(self.display_mode, key),
                ..self
            },
            None => self,
        }
    }
}

/// A simulation state as the viewer runs it.
pub struct LBMSim<T> {
    pub(crate) speed_factor: usize,
    pub(crate) display_mode: DisplayMode,
    pub(crate) size: (usize, usize),
    pub(crate) state: State<T>,
}

impl<T> View for LBMSim<T> {
    type V = LBMSimView<T>;

    closed spec fn view(&self) -> LBMSimView<T> {
        LBMSimView {
            speed_factor: self.speed_factor as nat,
            display_mode: self.display_mode,
            size: (self.size.0 as nat, self.size.1 as nat),
            state: self.state@,
        }
    }
}

impl<T> LBMSim<T> {
    /// The speed factor is within its limits, and the size is the shape
    /// of the state's grid. A simulation is made so, and stays so.
    pub open spec fn wf(&self) -> bool {
        &&& MIN_SPEED_FACTOR <= self@.speed_factor <= MAX_SPEED_FACTOR
        &&& self@.size.0 == self@.state.geometry.width()
        &&& self@.size.1 == self@.state.geometry.height()
        &&& self@.size.0 <= usize::MAX
        &&& self@.size.1 <= usize::MAX
        &&& self@.state.wf()
    }
}

/// What is wrong with the populations that a simulation on a grid of the
/// given size is to start with, if anything.
pub open spec fn initial_defect<T>(size: (usize, usize), populations: Seq<Matrix<T>>) -> Option<
    StateError,
> {
    if populations.len() != d2q9().len() {
        Some(StateError::FieldCount)
    } else if exists|i: int|
        0 <= i < populations.len() && !has_size(#[trigger] populations[i], size) {
        Some(StateError::ShapeMismatch)
    } else {
        None
    }
}

/// The field has `size.0` columns and `size.1` rows.
pub open spec fn has_size<T>(field: Matrix<T>, size: (usize, usize)) -> bool {
    field.width() == size.0 && field.height() == size.1
}

/// Whether every field has the given size.
fn all_have_size<T: Copy>(populations: &Vec<Matrix<T>>, size: (usize, usize)) -> (ok: bool)
    ensures
        ok == forall|i: int|
            0 <= i < populations@.len() ==> has_size(#[trigger] populations@[i], size),
        ok && populations@.len() > 0 ==> size.0 * size.1 <= usize::MAX,
{
    let mut i: usize = 0;
    while i < populations.len()
        invariant
            i <= populations@.len(),
            forall|k: int| 0 <= k < i ==> has_size(#[trigger] populations@[k], size),
            i > 0 ==> size.0 * size.1 <= usize::MAX,
        decreases populations@.len() - i,
    {
        let field: &Matrix<T> = &populations[i];
        let (width, height) = field.get_shape();
        if width != size.0 || height != size.1 {
            return false;
        }
        proof {
            use_type_invariant(field);
        }
        i += 1;
    }
    true
}

/// A simulation on a grid of `size.0` by `size.1` cells, before its first
/// step: the D2Q9 scheme with the given populations, a round obstacle of
/// radius `OBSTACLE_RADIUS` in the middle of the grid, one step for each
/// frame, and the velocity on display.
pub fn initial_state<T: Copy>(
    size: (usize, usize),
    populations: &Vec<Matrix<T>>,
    collision: CollisionOperator<T>,
    discretization: Discretization<T>,
) -> (made: Result<LBMSim<T>, StateError>)
    ensures
        match initial_defect(size, populations@) {
            Some(error) => made == Err::<LBMSim<T>, StateError>(error),
            None => {
                &&& made is Ok
                &&& made->Ok_0.wf()
                &&& made->Ok_0@.speed_factor == 1
                &&& made->Ok_0@.display_mode == DisplayMode::Velocity
                &&& made->Ok_0@.size == (size.0 as nat, size.1 as nat)
                &&& made->Ok_0@.state.velocities == d2q9()
                &&& same_fields(made->Ok_0@.state.populations, populations@)
                &&& is_initial_geometry(made->Ok_0@.state.geometry, size)
                &&& made->Ok_0@.state.collision == collision
                &&& made->Ok_0@.state.discretization == discretization
                &&& made->Ok_0@.state.time == 0
            },
        },
{
    if populations.len() != 9 {
        return Err(StateError::FieldCount);
    }
    if !all_have_size(populations, size) {
        return Err(StateError::ShapeMismatch);
    }
    let geometry: Matrix<bool> = disc(size, OBSTACLE_RADIUS);
    let lattice = D2Q9::new(populations);
    match State::initial(lattice, geometry, collision, discretization) {
        Ok(state) => Ok(
            LBMSim { speed_factor: 1, display_mode: DisplayMode::Velocity, size, state },
        ),
        Err(error) => Err(error),
    }
}

/// `geometry` is the mask that a simulation of the given size starts with.
pub open spec fn is_initial_geometry(geometry: Matrix<bool>, size: (usize, usize)) -> bool {
    &&& geometry.wf()
    &&& geometry.width() == size.0
    &&& geometry.height() == size.1
    &&& forall|x: int, y: int|
        0 <= x < size.0 && 0 <= y < size.1 ==> #[trigger] geometry.at(x, y) == in_disc(
            size.0 as int,
            size.1 as int,
            OBSTACLE_RADIUS as int,
            x,
            y,
        )
}

/// The speed factor nearest to `wanted` within the limits.
fn clamped(wanted: usize) -> (factor: usize)
    ensures
        factor == if wanted < MIN_SPEED_FACTOR {
            MIN_SPEED_FACTOR
        } else if wanted > MAX_SPEED_FACTOR {
            MAX_SPEED_FACTOR
        } else {
            wanted
        },
{
    if wanted < MIN_SPEED_FACTOR {
        MIN_SPEED_FACTOR
    } else if wanted > MAX_SPEED_FACTOR {
        MAX_SPEED_FACTOR
    } else {
        wanted
    }
}

/// `colour` is the colour of an intensity that `intensity` may give the
/// values of a cell when the display mode is `mode`.
pub open spec fn is_rendered<T, F: Fn(DisplayMode, Vec<T>) -> i8>(
    intensity: F,
    mode: DisplayMode,
    values: Seq<T>,
    colour: RGB,
) -> bool {
    exists|given: Vec<T>, n: i8|
        given@ == values && #[trigger] call_ensures(intensity, (mode, given), n) && colour
            == shade_of(n)
}

/// `colour` is the colour of cell `(x, y)` in the picture of a frame: that
/// of the obstacle where the cell is one, else that of an intensity that
/// `intensity` may give the populations of the cell.
pub open spec fn is_frame_colour<T, F: Fn(DisplayMode, Vec<T>) -> i8>(
    intensity: F,
    sim: LBMSimView<T>,
    obstacle: RGB,
    x: int,
    y: int,
    colour: RGB,
) -> bool {
    if sim.state.geometry.at(x, y) {
        colour == obstacle
    } else {
        is_rendered(intensity, sim.display_mode, cell_values(sim.state.populations, x, y), colour)
    }
}

impl<T: Copy> LBMSim<T> {
    /// The number of columns and of rows of the grid.
    pub fn size(&self) -> (size: (usize, usize))
        ensures
            size.0 == self@.size.0,
            size.1 == self@.size.1,
    {
        self.size
    }

    /// The number of steps taken for each frame.
    pub fn speed_factor(&self) -> (factor: usize)
        ensures
            factor == self@.speed_factor,
    {
        self.speed_factor
    }

    /// The quantity on display.
    pub fn display_mode(&self) -> (mode: DisplayMode)
        ensures
            mode == self@.display_mode,
    {
        self.display_mode
    }

    /// The simulation state.
    pub fn state(&self) -> (state: &State<T>)
        ensures
            state@ == self@.state,
            state.wf(),
    {
        proof {
            use_type_invariant(&self.state);
        }
        &self.state
    }

    /// Reacts to the release of a key, or to an event that released none.
    /// Returns the new speed factor if it is not the old one.
    pub fn handle_key(&mut self, key: Option<Key>) -> (changed: Option<usize>)
        ensures
            old(self).wf() ==> final(self).wf(),
            final(self)@ == old(self)@.after(key),
            changed == if final(self)@.speed_factor != old(self)@.speed_factor {
                Some(final(self)@.speed_factor as usize)
            } else {
                None
            },
    {
        proof {
            use_type_invariant(&self.state);
        }
        let before: usize = self.speed_factor;
        match key {
            Some(Key::Minus) => {
                self.speed_factor = clamped(self.speed_factor.saturating_sub(1));
            },
            Some(Key::Plus) => {
                self.speed_factor = clamped(self.speed_factor.saturating_add(1));
            },
            Some(Key::Space) => {
                self.speed_factor = clamped(self.speed_factor);
                self.display_mode = self.display_mode.next();
            },
            Some(Key::Other) => {
                self.speed_factor = clamped(self.speed_factor);
            },
            None => {},
        }
        if self.speed_factor != before {
            Some(self.speed_factor)
        } else {
            None
        }
    }

    /// Reacts to an event of the window: to the release of a key as
    /// `handle_key` does, to any other event not at all.
    pub fn handle(&mut self, input: &piston::input::Event) -> (changed: Option<usize>)
        ensures
            old(self).wf() ==> final(self).wf(),
            final(self)@ == old(self)@.after(released_key(*input)),
            changed == if final(self)@.speed_factor != old(self)@.speed_factor {
                Some(final(self)@.speed_factor as usize)
            } else {
                None
            },
    {
        let key: Option<Key> = key_released_by(input);
        self.handle_key(key)
    }

    /// The picture of a frame: each obstacle cell in the colour
    /// `obstacle`, each other cell in the colour of the intensity that
    /// `intensity` gives the populations of the cell for the display mode
    /// that is set.
    pub fn render<F: Fn(DisplayMode, Vec<T>) -> i8>(
        &self,
        intensity: &F,
        obstacle: RGB,
    ) -> (picture: Matrix<RGB>)
        requires
            forall|mode: DisplayMode, given: Vec<T>|
                given@.len() == self@.state.velocities.len() ==> call_requires(
                    *intensity,
                    (mode, given),
                ),
            forall|mode: DisplayMode, given: Vec<T>, n: i8|
                call_ensures(*intensity, (mode, given), n) ==> n > i8::MIN,
        ensures
            picture.wf(),
            picture.same_shape(&self@.state.geometry),
            forall|x: int, y: int|
                0 <= x < picture.width() && 0 <= y < picture.height() ==> is_frame_colour(
                    *intensity,
                    self@,
                    obstacle,
                    x,
                    y,
                    #[trigger] picture.at(x, y),
                ),
    {
        let mode: DisplayMode = self.display_mode;
        let ghost count = self@.state.velocities.len();
        let colour_of = |given: Vec<T>| -> (colour: RGB)
            requires
                given@.len() == count,
            ensures
                is_rendered(*intensity, mode, given@, colour),
            {
                let n: i8 = intensity(mode, given);
                shade(n)
            };
        let field: Matrix<RGB> = self.state.observe(&colour_of);
        let geometry: &Matrix<bool> = self.state.geometry();
        proof {
            use_type_invariant(geometry);
        }
        let size = geometry.get_shape();
        let cell_of = |x: usize, y: usize| -> (colour: RGB)
            requires
                x < size.0,
                y < size.1,
            ensures
                colour == if geometry.at(x as int, y as int) {
                    obstacle
                } else {
                    field.at(x as int, y as int)
                },
            {
                if geometry.cell(x, y) {
                    obstacle
                } else {
                    field.cell(x, y)
                }
            };
        let picture: Matrix<RGB> = Matrix::tabulate(size, cell_of);
        picture
    }

    /// Advances the simulation by one frame: takes as many steps of
    /// the state as the speed factor says, and stops at the first step
    /// that fails.
    pub fn step<
        M: Fn(Vec<T>) -> Moments<T>,
        E: Fn(Direction, Weight, Moments<T>) -> T,
        B: Fn(BGK<T>, T, T) -> T,
        R: Fn(TRT<T>, (T, T), (T, T)) -> T,
    >(&mut self, formulas: &Formulas<M, E, B, R>) -> (outcome: Result<(), StateError>)
        requires
            are_applicable(*formulas, old(self)@.state.velocities.len()),
        ensures
            old(self).wf() ==> final(self).wf(),
            final(self)@.speed_factor == old(self)@.speed_factor,
            final(self)@.display_mode == old(self)@.display_mode,
            final(self)@.size == old(self)@.size,
            match outcome {
                Ok(_) => runs(
                    *formulas,
                    old(self)@.state,
                    old(self)@.speed_factor,
                    final(self)@.state,
                ),
                Err(error) => exists|done: nat|
                    {
                        &&& done < old(self)@.speed_factor
                        &&& #[trigger] runs(*formulas, old(self)@.state, done, final(self)@.state)
                        &&& is_step(
                            *formulas,
                            final(self)@.state,
                            Err(error),
                            final(self)@.state,
                        )
                    },
            },
    {
        let mut done: usize = 0;
        while done < self.speed_factor
            invariant
                done <= self.speed_factor,
                self@.speed_factor == old(self)@.speed_factor,
                self@.display_mode == old(self)@.display_mode,
                self@.size == old(self)@.size,
                self@.state.velocities == old(self)@.state.velocities,
                self@.state.geometry == old(self)@.state.geometry,
                old(self).wf() ==> self.wf(),
                runs(*formulas, old(self)@.state, done as nat, self@.state),
                are_applicable(*formulas, old(self)@.state.velocities.len()),
            decreases self.speed_factor - done,
        {
            let outcome = self.state.step(formulas);
            match outcome {
                Ok(_) => {
                    proof {
                        assert(outcome->Ok_0 == ());
                    }
                    done += 1;
                },
                Err(error) => {
                    return Err(error);
                },
            }
        }
        Ok(())
    }
}

} // verus!
