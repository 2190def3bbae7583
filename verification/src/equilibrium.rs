//! Equilibrium: the populations towards which a cell relaxes, given its
//! density and its velocity.

use crate::lattice::{Direction, Weight};
use crate::matrix::Matrix;
use vstd::prelude::*;

verus! {

/// The macroscopic state of a cell: its density and its velocity.
#[derive(Debug)]
pub struct Moments<T> {
    pub density: T,
    pub velocity_x: T,
    pub velocity_y: T,
}

impl<T: Copy> Clone for Moments<T> {
    fn clone(&self) -> (copy: Self)
        ensures
            copy == *self,
    {
        Moments {
            density: self.density,
            velocity_x: self.velocity_x,
            velocity_y: self.velocity_y,
        }
    }
}

impl<T: Copy> Copy for Moments<T> {

}

/// `fields` holds one field for each direction, and in every cell of it
/// what `formula` may make of the direction, its weight, and the density
/// and velocity of the cell.
pub open spec fn is_equilibrium<T, F: Fn(Direction, Weight, Moments<T>) -> T>(
    formula: F,
    directions: Seq<(Direction, Weight)>,
    moments: Matrix<Moments<T>>,
    fields: Seq<Matrix<T>>,
) -> bool {
    &&& fields.len() == directions.len()
    &&& forall|i: int|
        0 <= i < fields.len() ==> (#[trigger] fields[i]).wf() && fields[i].same_shape(&moments)
    &&& forall|i: int, x: int, y: int|
        0 <= i < fields.len() && 0 <= x < moments.width() && 0 <= y < moments.height()
            ==> call_ensures(
            formula,
            (directions[i].0, directions[i].1, moments.at(x, y)),
            #[trigger] fields[i].at(x, y),
        )
}

/// Where the formula gives a cell at rest, in every direction, a
/// population that depends on the weight of the direction and the density
/// of the cell alone, the equilibrium fields hold that population in
/// every cell at rest: `share(w, rho)` for the weight `w` and the density
/// `rho`. What it means for a cell to be at rest is for `at_rest` to say.
pub proof fn lemma_equilibrium_at_rest<T, F: Fn(Direction, Weight, Moments<T>) -> T>(
    formula: F,
    directions: Seq<(Direction, Weight)>,
    moments: Matrix<Moments<T>>,
    fields: Seq<Matrix<T>>,
    at_rest: spec_fn(Moments<T>) -> bool,
    share: spec_fn(Weight, T) -> T,
    i: int,
    x: int,
    y: int,
)
    requires
        is_equilibrium(formula, directions, moments, fields),
        forall|direction: Direction, weight: Weight, cell: Moments<T>, population: T|
            at_rest(cell) && call_ensures(formula, (direction, weight, cell), population)
                ==> population == share(weight, cell.density),
        0 <= i < directions.len(),
        0 <= x < moments.width(),
        0 <= y < moments.height(),
        at_rest(moments.at(x, y)),
    ensures
        fields[i].at(x, y) == share(directions[i].1, moments.at(x, y).density),
{
}

/// The equilibrium populations for the given densities and velocities:
/// one field for each direction, computed cell by cell with `formula`.
pub fn compute_equilibrium<T: Copy, F: Fn(Direction, Weight, Moments<T>) -> T>(
    moments: &Matrix<Moments<T>>,
    directions: &Vec<(Direction, Weight)>,
    formula: &F,
) -> (fields: Vec<Matrix<T>>)
    requires
        forall|direction: Direction, weight: Weight, cell: Moments<T>|
            call_requires(*formula, (direction, weight, cell)),
    ensures
        is_equilibrium(*formula, directions@, *moments, fields@),
{
    proof {
        use_type_invariant(moments);
    }
    let size = moments.get_shape();
    let mut fields: Vec<Matrix<T>> = Vec::with_capacity(directions.len());
    let mut i: usize = 0;
    while i < directions.len()
        invariant
            i <= directions@.len(),
            moments.wf(),
            size.0 == moments.width(),
            size.1 == moments.height(),
            fields@.len() == i,
            forall|direction: Direction, weight: Weight, cell: Moments<T>|
                call_requires(*formula, (direction, weight, cell)),
            forall|k: int|
                0 <= k < i ==> (#[trigger] fields@[k]).wf() && fields@[k].same_shape(moments),
            forall|k: int, x: int, y: int|
                0 <= k < i && 0 <= x < moments.width() && 0 <= y < moments.height()
                    ==> call_ensures(
                    *formula,
                    (directions@[k].0, directions@[k].1, moments.at(x, y)),
                    #[trigger] fields@[k].at(x, y),
                ),
        decreases directions@.len() - i,
    {
        let direction: Direction = directions[i].0;
        let weight: Weight = directions[i].1;
        let cell_of = |x: usize, y: usize| -> (value: T)
            requires
                x < size.0,
                y < size.1,
            ensures
                call_ensures(*formula, (direction, weight, moments.at(x as int, y as int)), value),
            { formula(direction, weight, moments.cell(x, y)) };
        let field: Matrix<T> = Matrix::tabulate(size, cell_of);
        fields.push(field);
        i += 1;
    }
    fields
}

} // verus!
