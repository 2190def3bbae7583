//! Discrete velocity sets: the directions along which populations move, and
//! the weight of each. Weights are exact fractions over a common denominator.

use crate::fields::{same_field, same_fields};
use crate::matrix::Matrix;
use vstd::prelude::*;

verus! {

/// A lattice velocity: the number of cells a population moves per step
/// along each axis.
#[derive(Copy, Clone, Debug, PartialEq, Eq, Structural)]
pub struct Direction {
    pub x: i8,
    pub y: i8,
}

impl Direction {
    /// `other` points exactly the opposite way.
    pub open spec fn opposes(self, other: Direction) -> bool {
        self.x + other.x == 0 && self.y + other.y == 0
    }

    /// This is the velocity of a population at rest.
    pub open spec fn is_rest(self) -> bool {
        self.x == 0 && self.y == 0
    }
}

/// The fraction `numerator / denominator`.
#[derive(Copy, Clone, Debug, PartialEq, Eq, Structural)]
pub struct Weight {
    pub numerator: u32,
    pub denominator: u32,
}

/// Why a list of directions and weights is no velocity set. Where several
/// reasons apply, the one that stands first here is reported.
#[derive(Copy, Clone, Debug, PartialEq, Eq, Structural)]
pub enum LatticeError {
    /// The list is empty.
    Empty,
    /// A weight is not in `(0, 1]`, or its denominator differs from the
    /// first weight's.
    BadWeight,
    /// The weights do not add up to one.
    NotNormalized,
    /// The weighted directions do not add up to the zero vector.
    Biased,
    /// No direction is the zero vector.
    NoRestDirection,
    /// A direction is listed twice.
    Duplicate,
    /// A direction is listed without its opposite.
    Unpaired,
}

/// Every weight lies in `(0, 1]` and all are fractions over one denominator.
pub open spec fn weights_well_formed(s: Seq<(Direction, Weight)>) -> bool {
    forall|i: int|
        0 <= i < s.len() ==> {
            &&& (#[trigger] s[i]).1.denominator == s[0].1.denominator
            &&& 0 < s[i].1.numerator <= s[i].1.denominator
        }
}

/// The sum of the weights' numerators.
pub open spec fn weight_sum(s: Seq<(Direction, Weight)>) -> int
    decreases s.len(),
{
    if s.len() == 0 {
        0
    } else {
        weight_sum(s.drop_last()) + s.last().1.numerator
    }
}

/// The sum of the weights' numerators, each times its direction's `x`.
pub open spec fn momentum_x(s: Seq<(Direction, Weight)>) -> int
    decreases s.len(),
{
    if s.len() == 0 {
        0
    } else {
        momentum_x(s.drop_last()) + s.last().1.numerator * s.last().0.x
    }
}

/// The sum of the weights' numerators, each times its direction's `y`.
pub open spec fn momentum_y(s: Seq<(Direction, Weight)>) -> int
    decreases s.len(),
{
    if s.len() == 0 {
        0
    } else {
        momentum_y(s.drop_last()) + s.last().1.numerator * s.last().0.y
    }
}

/// Some direction is the zero vector.
pub open spec fn has_rest(s: Seq<(Direction, Weight)>) -> bool {
    exists|i: int| 0 <= i < s.len() && (#[trigger] s[i]).0.is_rest()
}

/// No direction is listed twice.
pub open spec fn distinct(s: Seq<(Direction, Weight)>) -> bool {
    forall|i: int, j: int|
        0 <= i < j < s.len() ==> (#[trigger] s[i]).0 != (#[trigger] s[j]).0
}

/// Direction `i` has its opposite in the list.
pub open spec fn has_opposite(s: Seq<(Direction, Weight)>, i: int) -> bool {
    exists|j: int| 0 <= j < s.len() && s[i].0.opposes((#[trigger] s[j]).0)
}

/// Every direction has its opposite in the list.
pub open spec fn paired(s: Seq<(Direction, Weight)>) -> bool {
    forall|i: int| 0 <= i < s.len() ==> #[trigger] has_opposite(s, i)
}

/// What is wrong with a list of directions and weights, if anything.
pub open spec fn defect(s: Seq<(Direction, Weight)>) -> Option<LatticeError> {
    if s.len() == 0 {
        Some(LatticeError::Empty)
    } else if !weights_well_formed(s) {
        Some(LatticeError::BadWeight)
    } else if weight_sum(s) != s[0].1.denominator {
        Some(LatticeError::NotNormalized)
    } else if momentum_x(s) != 0 || momentum_y(s) != 0 {
        Some(LatticeError::Biased)
    } else if !has_rest(s) {
        Some(LatticeError::NoRestDirection)
    } else if !distinct(s) {
        Some(LatticeError::Duplicate)
    } else if !paired(s) {
        Some(LatticeError::Unpaired)
    } else {
        None
    }
}

/// Adding one more entry to a prefix adds that entry's share to each sum.
pub proof fn lemma_sums_step(s: Seq<(Direction, Weight)>, i: int)
    requires
        0 <= i < s.len(),
    ensures
        weight_sum(s.take(i + 1)) == weight_sum(s.take(i)) + s[i].1.numerator,
        momentum_x(s.take(i + 1)) == momentum_x(s.take(i)) + s[i].1.numerator * s[i].0.x,
        momentum_y(s.take(i + 1)) == momentum_y(s.take(i)) + s[i].1.numerator * s[i].0.y,
{
    assert(s.take(i + 1).drop_last() == s.take(i));
}

/// The numerators of a prefix never add up to more than those of the whole.
pub proof fn lemma_weight_sum_prefix(s: Seq<(Direction, Weight)>, i: int)
    requires
        0 <= i <= s.len(),
    ensures
        0 <= weight_sum(s.take(i)) <= weight_sum(s),
    decreases s.len() - i,
{
    if i == s.len() {
        assert(s.take(i) == s);
        lemma_weight_sum_nonnegative(s);
    } else {
        lemma_weight_sum_prefix(s, i + 1);
        lemma_sums_step(s, i);
        lemma_weight_sum_nonnegative(s.take(i));
    }
}

/// Numerators are never negative, and neither is their sum.
pub proof fn lemma_weight_sum_nonnegative(s: Seq<(Direction, Weight)>)
    ensures
        0 <= weight_sum(s),
    decreases s.len(),
{
    if s.len() > 0 {
        lemma_weight_sum_nonnegative(s.drop_last());
    }
}

/// Each component of a direction is at most 128 in magnitude, so the
/// weighted sum of the directions is at most 128 times the sum of the weights.
pub proof fn lemma_momentum_bound(s: Seq<(Direction, Weight)>)
    ensures
        -128 * weight_sum(s) <= momentum_x(s) <= 128 * weight_sum(s),
        -128 * weight_sum(s) <= momentum_y(s) <= 128 * weight_sum(s),
    decreases s.len(),
{
    if s.len() > 0 {
        lemma_momentum_bound(s.drop_last());
        let n = s.last().1.numerator as int;
        let x = s.last().0.x as int;
        let y = s.last().0.y as int;
        assert(-128 * n <= n * x <= 128 * n) by (nonlinear_arith)
            requires
                0 <= n,
                -128 <= x <= 127,
        ;
        assert(-128 * n <= n * y <= 128 * n) by (nonlinear_arith)
            requires
                0 <= n,
                -128 <= y <= 127,
        ;
    }
}

/// The position of the direction opposite to direction `i`.
pub open spec fn opposite_index(s: Seq<(Direction, Weight)>, i: int) -> int {
    choose|j: int| 0 <= j < s.len() && s[i].0.opposes((#[trigger] s[j]).0)
}

/// Among distinct directions the opposite of a direction is unique: whoever
/// opposes direction `i` stands at `opposite_index(s, i)`.
pub proof fn lemma_opposite_unique(s: Seq<(Direction, Weight)>, i: int, j: int)
    requires
        distinct(s),
        0 <= i < s.len(),
        0 <= j < s.len(),
        s[i].0.opposes(s[j].0),
    ensures
        opposite_index(s, i) == j,
{
    let k = opposite_index(s, i);
    assert(0 <= k < s.len() && s[i].0.opposes(s[k].0));
    assert(s[k].0 == s[j].0);
    if k < j {
        assert(s[k].0 != s[j].0);
    } else if j < k {
        assert(s[j].0 != s[k].0);
    }
}

/// Whether every weight lies in `(0, 1]` over the first weight's denominator.
fn weights_are_well_formed(entries: &Vec<(Direction, Weight)>) -> (ok: bool)
    requires
        entries@.len() > 0,
    ensures
        ok == weights_well_formed(entries@),
{
    let denominator: u32 = entries[0].1.denominator;
    let mut i: usize = 0;
    while i < entries.len()
        invariant
            i <= entries@.len(),
            entries@.len() > 0,
            denominator == entries@[0].1.denominator,
            weights_well_formed(entries@.take(i as int)),
        decreases entries@.len() - i,
    {
        let w: Weight = entries[i].1;
        if w.denominator != denominator || w.numerator == 0 || w.numerator > w.denominator {
            assert(!weights_well_formed(entries@));
            return false;
        }
        assert(weights_well_formed(entries@.take(i + 1)));
        i += 1;
    }
    assert(entries@.take(i as int) == entries@);
    true
}

/// Whether the weights add up to one. The sum is given up as soon as it
/// is too large, so that it never leaves the range of `u64`.
fn weights_are_normalized(entries: &Vec<(Direction, Weight)>) -> (ok: bool)
    requires
        entries@.len() > 0,
        weights_well_formed(entries@),
    ensures
        ok == (weight_sum(entries@) == entries@[0].1.denominator),
{
    let denominator: u64 = entries[0].1.denominator as u64;
    let mut sum: u64 = 0;
    let mut i: usize = 0;
    while i < entries.len()
        invariant
            i <= entries@.len(),
            entries@.len() > 0,
            denominator == entries@[0].1.denominator,
            sum == weight_sum(entries@.take(i as int)),
            sum <= denominator,
        decreases entries@.len() - i,
    {
        proof {
            lemma_sums_step(entries@, i as int);
            lemma_weight_sum_prefix(entries@, i + 1);
        }
        sum = sum + entries[i].1.numerator as u64;
        if sum > denominator {
            return false;
        }
        i += 1;
    }
    assert(entries@.take(i as int) == entries@);
    sum == denominator
}

/// Whether the weighted directions add up to the zero vector.
fn weights_are_unbiased(entries: &Vec<(Direction, Weight)>) -> (ok: bool)
    requires
        weight_sum(entries@) <= u32::MAX,
    ensures
        ok == (momentum_x(entries@) == 0 && momentum_y(entries@) == 0),
{
    let mut along_x: i64 = 0;
    let mut along_y: i64 = 0;
    let mut i: usize = 0;
    while i < entries.len()
        invariant
            i <= entries@.len(),
            weight_sum(entries@) <= u32::MAX,
            along_x == momentum_x(entries@.take(i as int)),
            along_y == momentum_y(entries@.take(i as int)),
        decreases entries@.len() - i,
    {
        let direction: Direction = entries[i].0;
        let numerator: i64 = entries[i].1.numerator as i64;
        proof {
            lemma_sums_step(entries@, i as int);
            lemma_weight_sum_prefix(entries@, i + 1);
            lemma_momentum_bound(entries@.take(i + 1));
            lemma_weight_sum_prefix(entries@, i as int);
            lemma_momentum_bound(entries@.take(i as int));
            let n = numerator as int;
            let x = direction.x as int;
            let y = direction.y as int;
            assert(-128 * n <= n * x <= 128 * n) by (nonlinear_arith)
                requires
                    0 <= n,
                    -128 <= x <= 127,
            ;
            assert(-128 * n <= n * y <= 128 * n) by (nonlinear_arith)
                requires
                    0 <= n,
                    -128 <= y <= 127,
            ;
        }
        along_x = along_x + numerator * (direction.x as i64);
        along_y = along_y + numerator * (direction.y as i64);
        i += 1;
    }
    assert(entries@.take(i as int) == entries@);
    along_x == 0 && along_y == 0
}

/// Whether the zero vector is among the directions.
fn rest_is_listed(entries: &Vec<(Direction, Weight)>) -> (ok: bool)
    ensures
        ok == has_rest(entries@),
{
    let mut i: usize = 0;
    while i < entries.len()
        invariant
            i <= entries@.len(),
            forall|k: int| 0 <= k < i ==> !(#[trigger] entries@[k]).0.is_rest(),
        decreases entries@.len() - i,
    {
        if entries[i].0.x == 0 && entries[i].0.y == 0 {
            return true;
        }
        i += 1;
    }
    false
}

/// Whether no direction is listed twice.
fn directions_are_distinct(entries: &Vec<(Direction, Weight)>) -> (ok: bool)
    ensures
        ok == distinct(entries@),
{
    let mut j: usize = 0;
    while j < entries.len()
        invariant
            j <= entries@.len(),
            forall|a: int, b: int|
                0 <= a < b < j ==> (#[trigger] entries@[a]).0 != (#[trigger] entries@[b]).0,
        decreases entries@.len() - j,
    {
        let mut i: usize = 0;
        while i < j
            invariant
                i <= j < entries@.len(),
                forall|a: int| 0 <= a < i ==> (#[trigger] entries@[a]).0 != entries@[j as int].0,
            decreases j - i,
        {
            if entries[i].0.x == entries[j].0.x && entries[i].0.y == entries[j].0.y {
                return false;
            }
            i += 1;
        }
        j += 1;
    }
    true
}

/// Looks for the direction opposite to direction `i`.
fn find_opposite(entries: &Vec<(Direction, Weight)>, i: usize) -> (found: Option<usize>)
    requires
        i < entries@.len(),
    ensures
        found is Some <==> has_opposite(entries@, i as int),
        found matches Some(j) ==> j < entries@.len() && entries@[i as int].0.opposes(
            entries@[j as int].0,
        ),
{
    let direction: Direction = entries[i].0;
    let mut j: usize = 0;
    while j < entries.len()
        invariant
            j <= entries@.len(),
            i < entries@.len(),
            direction == entries@[i as int].0,
            forall|k: int| 0 <= k < j ==> !direction.opposes((#[trigger] entries@[k]).0),
        decreases entries@.len() - j,
    {
        let other: Direction = entries[j].0;
        if direction.x as i16 + other.x as i16 == 0 && direction.y as i16 + other.y as i16 == 0 {
            return Some(j);
        }
        j += 1;
    }
    None
}

/// The table of opposites, if every direction has one.
fn pair_up(entries: &Vec<(Direction, Weight)>) -> (found: Option<Vec<usize>>)
    requires
        distinct(entries@),
    ensures
        found is Some <==> paired(entries@),
        found matches Some(table) ==> {
            &&& table@.len() == entries@.len()
            &&& forall|i: int|
                0 <= i < entries@.len() ==> (#[trigger] table@[i]) as int == opposite_index(
                    entries@,
                    i,
                )
        },
{
    let mut table: Vec<usize> = Vec::with_capacity(entries.len());
    let mut i: usize = 0;
    while i < entries.len()
        invariant
            i <= entries@.len(),
            distinct(entries@),
            table@.len() == i,
            forall|k: int| 0 <= k < i ==> #[trigger] has_opposite(entries@, k),
            forall|k: int|
                0 <= k < i ==> (#[trigger] table@[k]) as int == opposite_index(entries@, k),
        decreases entries@.len() - i,
    {
        match find_opposite(entries, i) {
            Some(j) => {
                proof {
                    lemma_opposite_unique(entries@, i as int, j as int);
                }
                table.push(j);
            },
            None => {
                return None;
            },
        }
        i += 1;
    }
    Some(table)
}

/// A valid set of lattice velocities with their weights.
pub struct VelocitySet {
    pub(crate) entries: Vec<(Direction, Weight)>,
    pub(crate) opposites: Vec<usize>,
}

impl View for VelocitySet {
    type V = Seq<(Direction, Weight)>;

    /// The directions in their order, each with its weight.
    closed spec fn view(&self) -> Seq<(Direction, Weight)> {
        self.entries@
    }
}

impl VelocitySet {
    /// For each direction, where its opposite stands.
    pub closed spec fn table(&self) -> Seq<usize> {
        self.opposites@
    }

    /// The list has no defect, and the table of opposites is right.
    #[verifier::type_invariant]
    pub open spec fn wf(&self) -> bool {
        &&& defect(self@) is None
        &&& self.table().len() == self@.len()
        &&& forall|i: int|
            0 <= i < self@.len() ==> (#[trigger] self.table()[i]) as int == opposite_index(
                self@,
                i,
            )
    }

    /// Makes a velocity set of the given directions and weights, or says
    /// what is wrong with them.
    pub fn new(entries: &Vec<(Direction, Weight)>) -> (made: Result<VelocitySet, LatticeError>)
        ensures
            match defect(entries@) {
                Some(error) => made == Err::<VelocitySet, LatticeError>(error),
                None => made is Ok && made->Ok_0@ == entries@ && made->Ok_0.wf(),
            },
    {
        if entries.len() == 0 {
            return Err(LatticeError::Empty);
        }
        if !weights_are_well_formed(entries) {
            return Err(LatticeError::BadWeight);
        }
        if !weights_are_normalized(entries) {
            return Err(LatticeError::NotNormalized);
        }
        if !weights_are_unbiased(entries) {
            return Err(LatticeError::Biased);
        }
        if !rest_is_listed(entries) {
            return Err(LatticeError::NoRestDirection);
        }
        if !directions_are_distinct(entries) {
            return Err(LatticeError::Duplicate);
        }
        let opposites: Vec<usize> = match pair_up(entries) {
            Some(table) => table,
            None => {
                return Err(LatticeError::Unpaired);
            },
        };
        let mut copy: Vec<(Direction, Weight)> = Vec::with_capacity(entries.len());
        let mut i: usize = 0;
        while i < entries.len()
            invariant
                i <= entries@.len(),
                copy@ == entries@.take(i as int),
            decreases entries@.len() - i,
        {
            copy.push(entries[i]);
            i += 1;
        }
        assert(entries@.take(i as int) == entries@);
        Ok(VelocitySet { entries: copy, opposites })
    }

    /// The number of directions.
    pub fn len(&self) -> (count: usize)
        ensures
            count == self@.len(),
    {
        self.entries.len()
    }

    /// The directions in their order, each with its weight.
    pub fn directions(&self) -> (list: Vec<(Direction, Weight)>)
        ensures
            list@ == self@,
    {
        let mut list: Vec<(Direction, Weight)> = Vec::with_capacity(self.entries.len());
        let mut i: usize = 0;
        while i < self.entries.len()
            invariant
                i <= self.entries@.len(),
                list@ == self.entries@.take(i as int),
            decreases self.entries@.len() - i,
        {
            list.push(self.entries[i]);
            i += 1;
        }
        list
    }

    /// Direction `i` of a set that has that many.
    pub(crate) fn direction_at(&self, i: usize) -> (direction: Direction)
        requires
            i < self@.len(),
        ensures
            direction == self@[i as int].0,
    {
        self.entries[i].0
    }

    /// The position of the direction opposite to direction `i` of a set
    /// that has that many.
    pub(crate) fn opposite_at(&self, i: usize) -> (j: usize)
        requires
            i < self@.len(),
        ensures
            j == opposite_index(self@, i as int),
            j < self@.len(),
            self@[i as int].0.opposes(self@[j as int].0),
    {
        proof {
            use_type_invariant(self);
            lemma_opposite_in_range(self@, i as int);
        }
        self.opposites[i]
    }

    /// Direction `i`, if the set has that many.
    pub fn direction(&self, i: usize) -> (found: Option<Direction>)
        ensures
            found == (if i < self@.len() {
                Some(self@[i as int].0)
            } else {
                None
            }),
    {
        if i < self.entries.len() {
            Some(self.entries[i].0)
        } else {
            None
        }
    }

    /// The weight of direction `i`, if the set has that many.
    pub fn weight(&self, i: usize) -> (found: Option<Weight>)
        ensures
            found == (if i < self@.len() {
                Some(self@[i as int].1)
            } else {
                None
            }),
    {
        if i < self.entries.len() {
            Some(self.entries[i].1)
        } else {
            None
        }
    }

    /// The position of the direction opposite to direction `i`, if the set
    /// has that many.
    pub fn opposite(&self, i: usize) -> (found: Option<usize>)
        ensures
            found == (if i < self@.len() {
                Some(opposite_index(self@, i as int) as usize)
            } else {
                None
            }),
            found matches Some(j) ==> j < self@.len() && self@[i as int].0.opposes(
                self@[j as int].0,
            ),
    {
        if i < self.entries.len() {
            Some(self.opposite_at(i))
        } else {
            None
        }
    }
}

/// In a list without defect, the opposite of the opposite of a direction is
/// the direction itself.
pub proof fn lemma_opposite_involution(s: Seq<(Direction, Weight)>, i: int)
    requires
        defect(s) is None,
        0 <= i < s.len(),
    ensures
        opposite_index(s, opposite_index(s, i)) == i,
{
    lemma_opposite_in_range(s, i);
    lemma_opposite_unique(s, opposite_index(s, i), i);
}

/// In a list without defect every direction's opposite is in the list, at
/// `opposite_index`.
pub proof fn lemma_opposite_in_range(s: Seq<(Direction, Weight)>, i: int)
    requires
        defect(s) is None,
        0 <= i < s.len(),
    ensures
        0 <= opposite_index(s, i) < s.len(),
        s[i].0.opposes(s[opposite_index(s, i)].0),
{
    assert(has_opposite(s, i));
}

/// In every velocity set the weights add up to one, and the directions,
/// each taken with its weight, add up to the zero vector. The weights are
/// fractions over one denominator, so their numerators add up to it.
pub proof fn lemma_weights_balance(set: VelocitySet)
    requires
        set.wf(),
    ensures
        set@.len() > 0,
        weights_well_formed(set@),
        weight_sum(set@) == set@[0].1.denominator,
        momentum_x(set@) == 0,
        momentum_y(set@) == 0,
{
}

/// A velocity set together with one population field for each of its
/// directions. Whether the fields fit the set and each other is checked
/// when a simulation state is made of them.
pub struct Lattice<T> {
    pub(crate) velocities: VelocitySet,
    pub(crate) populations: Vec<Matrix<T>>,
}

impl<T> Lattice<T> {
    /// The velocity set.
    pub closed spec fn velocities(&self) -> VelocitySet {
        self.velocities
    }

    /// The population fields in the order of the directions.
    pub closed spec fn populations(&self) -> Seq<Matrix<T>> {
        self.populations@
    }

    /// The velocity set is valid and every field is a matrix.
    #[verifier::type_invariant]
    pub open spec fn wf(&self) -> bool {
        &&& self.velocities().wf()
        &&& forall|i: int|
            0 <= i < self.populations().len() ==> (#[trigger] self.populations()[i]).wf()
    }
}

impl<T: Copy> Lattice<T> {

    /// Puts copies of the given population fields on a velocity set.
    pub fn new(velocities: VelocitySet, populations: &Vec<Matrix<T>>) -> (made: Lattice<T>)
        ensures
            made.wf(),
            made.velocities() == velocities,
            same_fields(made.populations(), populations@),
    {
        proof {
            use_type_invariant(&velocities);
        }
        let mut copies: Vec<Matrix<T>> = Vec::with_capacity(populations.len());
        let mut i: usize = 0;
        while i < populations.len()
            invariant
                i <= populations@.len(),
                copies@.len() == i,
                forall|k: int| 0 <= k < i ==> (#[trigger] copies@[k]).wf(),
                forall|k: int|
                    0 <= k < i ==> same_field(#[trigger] copies@[k], populations@[k]),
            decreases populations@.len() - i,
        {
            copies.push(populations[i].clone());
            i += 1;
        }
        Lattice { velocities, populations: copies }
    }

    /// Takes the lattice apart into its velocity set and its fields.
    pub fn into_parts(self) -> (parts: (VelocitySet, Vec<Matrix<T>>))
        ensures
            parts.0 == self.velocities(),
            parts.0.wf(),
            parts.1@ == self.populations(),
            forall|i: int| 0 <= i < parts.1@.len() ==> (#[trigger] parts.1@[i]).wf(),
    {
        proof {
            use_type_invariant(&self);
        }
        (self.velocities, self.populations)
    }
}

/// The nine velocities of the D2Q9 scheme with their weights: the rest
/// velocity with weight 4/9, the four axis velocities with weight 1/9 each,
/// and the four diagonal velocities with weight 1/36 each, all written over
/// the denominator 36.
pub open spec fn d2q9() -> Seq<(Direction, Weight)> {
    seq![
        (Direction { x: 0, y: 0 }, Weight { numerator: 16, denominator: 36 }),
        (Direction { x: 1, y: 0 }, Weight { numerator: 4, denominator: 36 }),
        (Direction { x: 0, y: 1 }, Weight { numerator: 4, denominator: 36 }),
        (Direction { x: -1i8, y: 0 }, Weight { numerator: 4, denominator: 36 }),
        (Direction { x: 0, y: -1i8 }, Weight { numerator: 4, denominator: 36 }),
        (Direction { x: 1, y: 1 }, Weight { numerator: 1, denominator: 36 }),
        (Direction { x: -1i8, y: 1 }, Weight { numerator: 1, denominator: 36 }),
        (Direction { x: -1i8, y: -1i8 }, Weight { numerator: 1, denominator: 36 }),
        (Direction { x: 1, y: -1i8 }, Weight { numerator: 1, denominator: 36 }),
    ]
}

/// The D2Q9 scheme is a valid velocity set.
pub proof fn lemma_d2q9_valid()
    ensures
        defect(d2q9()) is None,
{
    let s = d2q9();
    assert(s.len() == 9);
    assert(weights_well_formed(s));
    assert(s.take(0).len() == 0);
    lemma_sums_step(s, 0);
    lemma_sums_step(s, 1);
    lemma_sums_step(s, 2);
    lemma_sums_step(s, 3);
    lemma_sums_step(s, 4);
    lemma_sums_step(s, 5);
    lemma_sums_step(s, 6);
    lemma_sums_step(s, 7);
    lemma_sums_step(s, 8);
    assert(s.take(9) == s);
    assert(weight_sum(s) == 36);
    assert(momentum_x(s) == 0);
    assert(momentum_y(s) == 0);
    assert(s[0].0.is_rest());
    assert(distinct(s));
    assert(paired(s)) by {
        assert(s[0].0.opposes(s[0].0));
        assert(s[1].0.opposes(s[3].0));
        assert(s[2].0.opposes(s[4].0));
        assert(s[3].0.opposes(s[1].0));
        assert(s[4].0.opposes(s[2].0));
        assert(s[5].0.opposes(s[7].0));
        assert(s[6].0.opposes(s[8].0));
        assert(s[7].0.opposes(s[5].0));
        assert(s[8].0.opposes(s[6].0));
    }
}

/// The sum of the weights' numerators, each times the square of its
/// direction's `x`.
pub open spec fn second_moment_x(s: Seq<(Direction, Weight)>) -> int
    decreases s.len(),
{
    if s.len() == 0 {
        0
    } else {
        second_moment_x(s.drop_last()) + s.last().1.numerator * (s.last().0.x * s.last().0.x)
    }
}

/// The sum of the weights' numerators, each times the square of its
/// direction's `y`.
pub open spec fn second_moment_y(s: Seq<(Direction, Weight)>) -> int
    decreases s.len(),
{
    if s.len() == 0 {
        0
    } else {
        second_moment_y(s.drop_last()) + s.last().1.numerator * (s.last().0.y * s.last().0.y)
    }
}

/// Adding one more entry to a prefix adds that entry's share to the
/// second moments.
pub proof fn lemma_second_moments_step(s: Seq<(Direction, Weight)>, i: int)
    requires
        0 <= i < s.len(),
    ensures
        second_moment_x(s.take(i + 1)) == second_moment_x(s.take(i)) + s[i].1.numerator * (s[i].0.x
            * s[i].0.x),
        second_moment_y(s.take(i + 1)) == second_moment_y(s.take(i)) + s[i].1.numerator * (s[i].0.y
            * s[i].0.y),
{
    assert(s.take(i + 1).drop_last() == s.take(i));
}

/// The square of a component of a unit step is zero or one.
proof fn lemma_weighted_square(n: int, x: int)
    requires
        -1 <= x <= 1,
    ensures
        n * (x * x) == if x == 0 {
            0
        } else {
            n
        },
{
    assert(n * (x * x) == if x == 0 {
        0
    } else {
        n
    }) by (nonlinear_arith)
        requires
            x == -1 || x == 0 || x == 1,
    ;
}

/// The squared speed of sound of the D2Q9 scheme is one third along both
/// axes: the weighted squares of the velocities add up to 12/36.
pub proof fn lemma_d2q9_sound_speed()
    ensures
        second_moment_x(d2q9()) == 12,
        second_moment_y(d2q9()) == 12,
{
    let s = d2q9();
    assert forall|i: int| 0 <= i < 9 implies {
        &&& second_moment_x(s.take(i + 1)) == second_moment_x(s.take(i)) + if s[i].0.x == 0 {
            0
        } else {
            s[i].1.numerator as int
        }
        &&& second_moment_y(s.take(i + 1)) == second_moment_y(s.take(i)) + if s[i].0.y == 0 {
            0
        } else {
            s[i].1.numerator as int
        }
    } by {
        lemma_second_moments_step(s, i);
        lemma_weighted_square(s[i].1.numerator as int, s[i].0.x as int);
        lemma_weighted_square(s[i].1.numerator as int, s[i].0.y as int);
    }
    assert(s.take(9) == s);
}

/// The D2Q9 scheme: two dimensions, nine velocities.
pub struct D2Q9;

impl D2Q9 {
    /// The nine velocities with their weights.
    pub fn directions() -> (list: Vec<(Direction, Weight)>)
        ensures
            list@ == d2q9(),
    {
        let mut list: Vec<(Direction, Weight)> = Vec::with_capacity(9);
        list.push((Direction { x: 0, y: 0 }, Weight { numerator: 16, denominator: 36 }));
        list.push((Direction { x: 1, y: 0 }, Weight { numerator: 4, denominator: 36 }));
        list.push((Direction { x: 0, y: 1 }, Weight { numerator: 4, denominator: 36 }));
        list.push((Direction { x: -1, y: 0 }, Weight { numerator: 4, denominator: 36 }));
        list.push((Direction { x: 0, y: -1 }, Weight { numerator: 4, denominator: 36 }));
        list.push((Direction { x: 1, y: 1 }, Weight { numerator: 1, denominator: 36 }));
        list.push((Direction { x: -1, y: 1 }, Weight { numerator: 1, denominator: 36 }));
        list.push((Direction { x: -1, y: -1 }, Weight { numerator: 1, denominator: 36 }));
        list.push((Direction { x: 1, y: -1 }, Weight { numerator: 1, denominator: 36 }));
        list
    }

    /// The squared speed of sound of the scheme, one third, over the
    /// denominator of the weights.
    pub fn sound_speed_squared() -> (squared: Weight)
        ensures
            squared.denominator == d2q9()[0].1.denominator,
            squared.numerator == second_moment_x(d2q9()),
            squared.numerator == second_moment_y(d2q9()),
            3 * squared.numerator == squared.denominator,
    {
        proof {
            lemma_d2q9_sound_speed();
        }
        Weight { numerator: 12, denominator: 36 }
    }

    /// The scheme as a velocity set.
    pub fn velocities() -> (set: VelocitySet)
        ensures
            set.wf(),
            set@ == d2q9(),
    {
        proof {
            lemma_d2q9_valid();
        }
        match VelocitySet::new(&D2Q9::directions()) {
            Ok(set) => set,
            Err(_) => {
                VelocitySet { entries: Vec::new(), opposites: Vec::new() }
            },
        }
    }

    /// Puts copies of the given population fields, one for each velocity
    /// in the order of `directions`, on the D2Q9 scheme.
    pub fn new<T: Copy>(populations: &Vec<Matrix<T>>) -> (made: Lattice<T>)
        ensures
            made.wf(),
            made.velocities()@ == d2q9(),
            same_fields(made.populations(), populations@),
    {
        Lattice::new(D2Q9::velocities(), populations)
    }
}

} // verus!
