use lbm_sim::fields::StateError;
use lbm_sim::lattice::D2Q9;
use lbm_sim::matrix::Matrix;
use lbm_sim::streaming::stream;

fn numbered(width: usize, height: usize, offset: i64) -> Matrix<i64> {
    Matrix::tabulate((width, height), move |x: usize, y: usize| offset + (y * width + x) as i64)
}

fn numbered_fields(width: usize, height: usize) -> Vec<Matrix<i64>> {
    (0..9).map(|i| numbered(width, height, 1000 * i)).collect()
}

fn mask(width: usize, height: usize, obstacles: &[(usize, usize)]) -> Matrix<bool> {
    let list: Vec<(usize, usize)> = obstacles.to_vec();
    Matrix::tabulate((width, height), move |x: usize, y: usize| list.contains(&(x, y)))
}

fn wrapped(position: usize, by: i8, extent: usize) -> usize {
    (position as i64 + by as i64).rem_euclid(extent as i64) as usize
}

#[test]
fn free_streaming_shifts_each_field_by_its_direction() {
    let set = D2Q9::velocities();
    let (w, h) = (4usize, 3usize);
    let geometry = Matrix::new_filled(false, (w, h));
    let before = numbered_fields(w, h);
    let after = stream(&set, &geometry, &before).unwrap();
    let directions = D2Q9::directions();
    assert_eq!(after.len(), 9);
    for i in 0..9 {
        let (e, _) = directions[i];
        assert_eq!(after[i].get_shape(), (w, h));
        for x in 0..w {
            for y in 0..h {
                let there = after[i].get(wrapped(x, e.x, w), wrapped(y, e.y, h));
                assert_eq!(there, before[i].get(x, y));
            }
        }
    }
}

#[test]
fn free_streaming_wraps_around_the_edges() {
    let set = D2Q9::velocities();
    let geometry = Matrix::new_filled(false, (4, 3));
    let before = numbered_fields(4, 3);
    let after = stream(&set, &geometry, &before).unwrap();
    // Direction 1 is (1, 0): the last column arrives in the first.
    assert_eq!(after[1].get(0, 2), before[1].get(3, 2));
    // Direction 4 is (0, -1): the first row arrives in the last.
    assert_eq!(after[4].get(1, 2), before[4].get(1, 0));
    // Direction 7 is (-1, -1): the corner (0, 0) arrives in the corner (3, 2).
    assert_eq!(after[7].get(3, 2), before[7].get(0, 0));
    // Direction 5 is (1, 1): the corner (3, 2) arrives in the corner (0, 0).
    assert_eq!(after[5].get(0, 0), before[5].get(3, 2));
    // The rest direction does not move.
    assert_eq!(after[0].get_underlying(), before[0].get_underlying());
    // Exact values: field 1 holds 1000 + 4 * y + x.
    assert_eq!(after[1].get_underlying(), vec![
        1003, 1000, 1001, 1002, 1007, 1004, 1005, 1006, 1011, 1008, 1009, 1010
    ]);
}

#[test]
fn streaming_on_a_single_column_wraps_onto_itself() {
    let set = D2Q9::velocities();
    let geometry = Matrix::new_filled(false, (1, 3));
    let before = numbered_fields(1, 3);
    let after = stream(&set, &geometry, &before).unwrap();
    // Direction 1 is (1, 0): with one column every value stays in its cell.
    assert_eq!(after[1].get_underlying(), before[1].get_underlying());
    // Direction 5 is (1, 1): only the row changes.
    assert_eq!(after[5].get_underlying(), vec![5002, 5000, 5001]);
}

#[test]
fn a_population_that_meets_an_obstacle_turns_round() {
    let set = D2Q9::velocities();
    let (w, h) = (5usize, 5usize);
    let geometry = mask(w, h, &[(2, 2)]);
    let before = numbered_fields(w, h);
    let after = stream(&set, &geometry, &before).unwrap();
    let directions = D2Q9::directions();
    for i in 1..9 {
        let (e, _) = directions[i];
        let back = set.opposite(i).unwrap();
        // The fluid cell from which direction i leads into the obstacle.
        let x = wrapped(2, -e.x, w);
        let y = wrapped(2, -e.y, h);
        assert_eq!(after[back].get(x, y), before[i].get(x, y));
    }
}

#[test]
fn an_obstacle_cell_keeps_what_it_holds() {
    let set = D2Q9::velocities();
    let (w, h) = (5usize, 4usize);
    let geometry = mask(w, h, &[(2, 2), (0, 0)]);
    let mut fields = numbered_fields(w, h);
    let start = numbered_fields(w, h);
    for _ in 0..7 {
        fields = stream(&set, &geometry, &fields).unwrap();
        for i in 0..9 {
            assert_eq!(fields[i].get(2, 2), start[i].get(2, 2));
            assert_eq!(fields[i].get(0, 0), start[i].get(0, 0));
        }
    }
}

#[test]
fn streaming_rearranges_the_values_and_loses_none() {
    let set = D2Q9::velocities();
    let (w, h) = (6usize, 5usize);
    let geometry = mask(w, h, &[(2, 2), (3, 2), (0, 4), (5, 0)]);
    let before = numbered_fields(w, h);
    let after = stream(&set, &geometry, &before).unwrap();
    let mut was: Vec<i64> = before.iter().flat_map(|f| f.get_underlying()).collect();
    let mut is: Vec<i64> = after.iter().flat_map(|f| f.get_underlying()).collect();
    was.sort();
    is.sort();
    assert_eq!(was, is);
    // The fluid cells together hold what they held: nothing went into an obstacle.
    let fluid = |fields: &Vec<Matrix<i64>>| -> i64 {
        let mut total = 0;
        for f in fields {
            for x in 0..w {
                for y in 0..h {
                    if geometry.get(x, y) == Some(false) {
                        total += f.get(x, y).unwrap();
                    }
                }
            }
        }
        total
    };
    assert_eq!(fluid(&before), fluid(&after));
}

#[test]
fn stream_rejects_fields_that_do_not_fit() {
    let set = D2Q9::velocities();
    let geometry = Matrix::new_filled(false, (4, 3));
    let eight: Vec<Matrix<i64>> = (0..8).map(|i| numbered(4, 3, i)).collect();
    assert!(matches!(stream(&set, &geometry, &eight), Err(StateError::FieldCount)));
    let mut nine = numbered_fields(4, 3);
    nine[5] = numbered(3, 4, 0);
    assert!(matches!(stream(&set, &geometry, &nine), Err(StateError::ShapeMismatch)));
    // Both defects at once: the count is reported.
    let mut ten = numbered_fields(4, 3);
    ten.push(numbered(1, 1, 0));
    assert!(matches!(stream(&set, &geometry, &ten), Err(StateError::FieldCount)));
}
