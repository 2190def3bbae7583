use lbm_sim::collision::{CollisionOperator, BGK, TRT};
use lbm_sim::equilibrium::{compute_equilibrium, Moments};
use lbm_sim::fields::StateError;
use lbm_sim::lattice::{Direction, Weight, D2Q9};
use lbm_sim::matrix::Matrix;

fn as_real(weight: Weight) -> f64 {
    weight.numerator as f64 / weight.denominator as f64
}

fn equilibrium(e: Direction, w: Weight, cell: Moments<f64>) -> f64 {
    let along = e.x as f64 * cell.velocity_x + e.y as f64 * cell.velocity_y;
    let squared = cell.velocity_x * cell.velocity_x + cell.velocity_y * cell.velocity_y;
    as_real(w) * cell.density * (1.0 + 3.0 * along + 4.5 * along * along - 1.5 * squared)
}

fn bgk(operator: BGK<f64>, f: f64, target: f64) -> f64 {
    f - (f - target) / operator.tau
}

fn trt(operator: TRT<f64>, f: (f64, f64), target: (f64, f64)) -> f64 {
    let own = f.0 - target.0;
    let opposite = f.1 - target.1;
    let even = (own + opposite) / 2.0;
    let odd = (own - opposite) / 2.0;
    f.0 - even / operator.tau_even - odd / operator.tau_odd
}

fn field(size: (usize, usize), first: f64, step: f64) -> Matrix<f64> {
    Matrix::tabulate(size, move |x: usize, y: usize| first + step * (size.0 * y + x) as f64)
}

#[test]
fn at_rest_the_equilibrium_is_the_weight_times_the_density() {
    let size = (3usize, 2usize);
    let moments = Matrix::tabulate(size, |x: usize, y: usize| Moments {
        density: 0.5 + (3 * y + x) as f64,
        velocity_x: 0.0,
        velocity_y: 0.0,
    });
    let directions = D2Q9::directions();
    let fields = compute_equilibrium(&moments, &directions, &equilibrium);
    assert_eq!(fields.len(), 9);
    for i in 0..9 {
        assert_eq!(fields[i].get_shape(), size);
        for x in 0..3 {
            for y in 0..2 {
                let rho = 0.5 + (3 * y + x) as f64;
                assert_eq!(fields[i].get(x, y), Some(as_real(directions[i].1) * rho));
            }
        }
    }
}

#[test]
fn the_equilibrium_of_uniform_density_one_at_rest_is_the_weights() {
    let moments =
        Matrix::new_filled(Moments { density: 1.0, velocity_x: 0.0, velocity_y: 0.0 }, (4, 4));
    let fields = compute_equilibrium(&moments, &D2Q9::directions(), &equilibrium);
    assert_eq!(fields[0].get_underlying(), vec![4.0 / 9.0; 16]);
    for i in 1..5 {
        assert_eq!(fields[i].get_underlying(), vec![1.0 / 9.0; 16]);
    }
    for i in 5..9 {
        assert_eq!(fields[i].get_underlying(), vec![1.0 / 36.0; 16]);
    }
}

#[test]
fn the_equilibrium_formula_is_given_direction_weight_and_cell() {
    // A formula on integers that shows what it was given.
    let shows = |e: Direction, w: Weight, cell: Moments<i64>| -> i64 {
        1_000_000 * (e.x as i64 + 1) + 100_000 * (e.y as i64 + 1) + 1_000 * w.numerator as i64
            + 100 * cell.density + 10 * cell.velocity_x + cell.velocity_y
    };
    let moments = Matrix::tabulate((2, 2), |x: usize, y: usize| Moments {
        density: 1 + x as i64,
        velocity_x: y as i64,
        velocity_y: 2 * x as i64 + 3 * y as i64,
    });
    let fields = compute_equilibrium(&moments, &D2Q9::directions(), &shows);
    // Direction 0 is (0, 0) with weight 16/36.
    assert_eq!(fields[0].get_underlying(), vec![1_116_100, 1_116_202, 1_116_113, 1_116_215]);
    // Direction 3 is (-1, 0) with weight 4/36.
    assert_eq!(fields[3].get_underlying(), vec![104_100, 104_202, 104_113, 104_215]);
    // Direction 8 is (1, -1) with weight 1/36.
    assert_eq!(fields[8].get_underlying(), vec![2_001_100, 2_001_202, 2_001_113, 2_001_215]);
    let none: Vec<(Direction, Weight)> = Vec::new();
    assert!(compute_equilibrium(&moments, &none, &shows).is_empty());
}

#[test]
fn the_equilibrium_of_a_moving_fluid() {
    // Density 2, velocity (1/4, 0): e.u = 1/4 along (1, 0), and
    // 1 + 3/4 + 9/32 - 3/32 = 31/16, so f = (1/9) * 2 * 31/16.
    let moments =
        Matrix::new_filled(Moments { density: 2.0, velocity_x: 0.25, velocity_y: 0.0 }, (1, 1));
    let fields = compute_equilibrium(&moments, &D2Q9::directions(), &equilibrium);
    assert_eq!(fields[1].get(0, 0), Some((4.0 / 36.0) * 2.0 * 1.9375));
    // Against the flow: 1 - 3/4 + 9/32 - 3/32 = 7/16.
    assert_eq!(fields[3].get(0, 0), Some((4.0 / 36.0) * 2.0 * 0.4375));
    // Across the flow and at rest: 1 - 3/32 = 29/32.
    assert_eq!(fields[2].get(0, 0), Some((4.0 / 36.0) * 2.0 * 0.90625));
    assert_eq!(fields[0].get(0, 0), Some((16.0 / 36.0) * 2.0 * 0.90625));
}

fn populations(size: (usize, usize)) -> Vec<Matrix<f64>> {
    (0..9).map(|i| field(size, 0.5 + i as f64, 0.25)).collect()
}

fn targets(size: (usize, usize)) -> Vec<Matrix<f64>> {
    (0..9).map(|i| field(size, 0.125 * i as f64, 0.5)).collect()
}

#[test]
fn relaxation_with_tau_one_gives_the_equilibrium() {
    let size = (3usize, 3usize);
    let set = D2Q9::velocities();
    let relaxed = BGK { tau: 1.0 }.relax(&set, &populations(size), &targets(size), &bgk).unwrap();
    let expected = targets(size);
    assert_eq!(relaxed.len(), 9);
    for i in 0..9 {
        assert_eq!(relaxed[i].get_shape(), size);
        assert_eq!(relaxed[i].get_underlying(), expected[i].get_underlying());
    }
}

#[test]
fn relaxation_with_tau_two_goes_half_the_way() {
    let size = (2usize, 2usize);
    let set = D2Q9::velocities();
    let f = populations(size);
    let t = targets(size);
    let relaxed = BGK { tau: 2.0 }.relax(&set, &f, &t, &bgk).unwrap();
    for i in 0..9 {
        for x in 0..2 {
            for y in 0..2 {
                let halfway = (f[i].get(x, y).unwrap() + t[i].get(x, y).unwrap()) / 2.0;
                assert_eq!(relaxed[i].get(x, y), Some(halfway));
            }
        }
    }
    // Field 4 starts at 4.5, its equilibrium at 0.5.
    assert_eq!(relaxed[4].get(0, 0), Some(2.5));
}

#[test]
fn two_equal_relaxation_times_relax_as_one() {
    let size = (3usize, 2usize);
    let set = D2Q9::velocities();
    let f = populations(size);
    let t = targets(size);
    for tau in [0.5, 1.0, 2.0, 8.0] {
        let one = BGK { tau }.relax(&set, &f, &t, &bgk).unwrap();
        let two = TRT { tau_even: tau, tau_odd: tau }.relax(&set, &f, &t, &trt).unwrap();
        for i in 0..9 {
            assert_eq!(one[i].get_underlying(), two[i].get_underlying());
        }
    }
}

#[test]
fn two_relaxation_times_pair_each_direction_with_its_opposite() {
    // A formula on integers that shows what it was given.
    let shows = |operator: TRT<i64>, f: (i64, i64), target: (i64, i64)| -> i64 {
        operator.tau_even + 10 * operator.tau_odd + 100 * f.0 + 10_000 * f.1 + 1_000_000 * target.0
            + 100_000_000 * target.1
    };
    let set = D2Q9::velocities();
    let f: Vec<Matrix<i64>> = (0..9).map(|i| Matrix::new_filled(10 + i, (2, 1))).collect();
    let t: Vec<Matrix<i64>> = (0..9).map(|i| Matrix::new_filled(20 + i, (2, 1))).collect();
    let relaxed = TRT { tau_even: 3, tau_odd: 4 }.relax(&set, &f, &t, &shows).unwrap();
    let opposite = [0i64, 3, 4, 1, 2, 7, 8, 5, 6];
    for i in 0..9usize {
        let j = opposite[i];
        let expected = 43 + 100 * (10 + i as i64) + 10_000 * (10 + j) + 1_000_000 * (20 + i as i64)
            + 100_000_000 * (20 + j);
        assert_eq!(relaxed[i].get_underlying(), vec![expected; 2]);
    }
    assert_eq!(relaxed[1].get(0, 0), Some(2_321_131_143));
}

#[test]
fn the_odd_relaxation_time_acts_on_the_difference_of_opposites() {
    let set = D2Q9::velocities();
    // Only direction 1 is away from equilibrium, by one.
    let f: Vec<Matrix<f64>> =
        (0..9).map(|i| Matrix::new_filled(if i == 1 { 1.0 } else { 0.0 }, (1, 1))).collect();
    let t: Vec<Matrix<f64>> = (0..9).map(|_| Matrix::new_filled(0.0, (1, 1))).collect();
    let relaxed = TRT { tau_even: 2.0, tau_odd: 4.0 }.relax(&set, &f, &t, &trt).unwrap();
    // Even part 1/2, odd part 1/2: 1 - 1/4 - 1/8.
    assert_eq!(relaxed[1].get(0, 0), Some(0.625));
    // The opposite direction: even part 1/2, odd part -1/2: 0 - 1/4 + 1/8.
    assert_eq!(relaxed[3].get(0, 0), Some(-0.125));
    assert_eq!(relaxed[2].get(0, 0), Some(0.0));
    // Together they hold what direction 1 held, less what left the even part.
    assert_eq!(relaxed[1].get(0, 0).unwrap() + relaxed[3].get(0, 0).unwrap(), 0.5);
}

#[test]
fn the_operator_relaxes_with_the_formula_that_belongs_to_it() {
    let size = (2usize, 2usize);
    let set = D2Q9::velocities();
    let f = populations(size);
    let t = targets(size);
    let single = CollisionOperator::BGK(BGK { tau: 4.0 });
    let double = CollisionOperator::TRT(TRT { tau_even: 4.0, tau_odd: 0.75 });
    let by_single = single.relax(&set, &f, &t, &bgk, &trt).unwrap();
    let by_double = double.relax(&set, &f, &t, &bgk, &trt).unwrap();
    let expected_single = BGK { tau: 4.0 }.relax(&set, &f, &t, &bgk).unwrap();
    let expected_double = TRT { tau_even: 4.0, tau_odd: 0.75 }.relax(&set, &f, &t, &trt).unwrap();
    for i in 0..9 {
        assert_eq!(by_single[i].get_underlying(), expected_single[i].get_underlying());
        assert_eq!(by_double[i].get_underlying(), expected_double[i].get_underlying());
    }
    assert_ne!(by_single[1].get_underlying(), by_double[1].get_underlying());
}

#[test]
fn relaxation_refuses_fields_that_do_not_fit() {
    let set = D2Q9::velocities();
    let f = populations((2, 2));
    let t = targets((2, 2));
    let few: Vec<Matrix<f64>> = targets((2, 2)).into_iter().take(8).collect();
    let operator = CollisionOperator::BGK(BGK { tau: 1.0 });
    assert!(matches!(operator.relax(&set, &few, &t, &bgk, &trt), Err(StateError::FieldCount)));
    assert!(matches!(operator.relax(&set, &f, &few, &bgk, &trt), Err(StateError::FieldCount)));
    let mut bent = populations((2, 2));
    bent[7] = field((4, 1), 0.0, 1.0);
    assert!(matches!(operator.relax(&set, &bent, &t, &bgk, &trt), Err(StateError::ShapeMismatch)));
    assert!(matches!(operator.relax(&set, &f, &bent, &bgk, &trt), Err(StateError::ShapeMismatch)));
    let other = targets((1, 4));
    assert!(matches!(
        TRT { tau_even: 1.0, tau_odd: 1.0 }.relax(&set, &f, &other, &trt),
        Err(StateError::ShapeMismatch)
    ));
    assert!(matches!(BGK { tau: 1.0 }.relax(&set, &few, &few, &bgk), Err(StateError::FieldCount)));
    assert!(operator.relax(&set, &f, &t, &bgk, &trt).is_ok());
}
