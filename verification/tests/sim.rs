use lbm_sim::display::{DisplayMode, RGB};
use lbm_sim::geometry::disc;
use lbm_sim::collision::{CollisionOperator, BGK, TRT};
use lbm_sim::equilibrium::Moments;
use lbm_sim::fields::StateError;
use lbm_sim::lattice::{Direction, Weight, D2Q9};
use lbm_sim::matrix::Matrix;
use lbm_sim::state::{Discretization, Formulas};
use lbm_sim::sim::{
    initial_state, Key, LBMSim, MAX_SPEED_FACTOR, MIN_SPEED_FACTOR, OBSTACLE_RADIUS,
};
use piston::input::{Button, ButtonArgs, ButtonState, Event, Input, MouseButton, UpdateArgs};

fn fields(size: (usize, usize)) -> Vec<Matrix<f64>> {
    (0..9).map(|i| Matrix::new_filled(0.25 * i as f64, size)).collect()
}

fn simulation(size: (usize, usize)) -> LBMSim<f64> {
    let operator = CollisionOperator::TRT(TRT { tau_even: 600.5, tau_odd: 0.5 + 0.25 / 600.0 });
    let spacing = Discretization { delta_x: 1.0, delta_t: 1.0 };
    initial_state(size, &fields(size), operator, spacing).unwrap()
}

fn button(state: ButtonState, button: Button) -> Event {
    Event::Input(Input::Button(ButtonArgs { state, button, scancode: None }), None)
}

fn released(key: piston::input::Key) -> Event {
    button(ButtonState::Release, Button::Keyboard(key))
}

#[test]
fn the_limits_are_one_and_a_hundred_steps_and_the_radius_twenty_five_cells() {
    assert_eq!(MIN_SPEED_FACTOR, 1);
    assert_eq!(MAX_SPEED_FACTOR, 100);
    assert_eq!(OBSTACLE_RADIUS, 25);
}

#[test]
fn a_simulation_starts_slow_and_shows_the_velocity() {
    let sim = simulation((8, 6));
    assert_eq!(sim.size(), (8, 6));
    assert_eq!(sim.speed_factor(), 1);
    assert_eq!(sim.display_mode(), DisplayMode::Velocity);
    assert_eq!(sim.state().time(), 0);
    assert_eq!(sim.state().velocities().directions(), D2Q9::directions());
    assert_eq!(sim.state().populations().len(), 9);
    for i in 0..9 {
        assert_eq!(sim.state().populations()[i].get_underlying(), vec![0.25 * i as f64; 48]);
    }
    assert_eq!(sim.state().geometry().get_shape(), (8, 6));
    assert_eq!(sim.state().discretization().delta_x, 1.0);
    assert!(matches!(sim.state().collision(), CollisionOperator::TRT(trt) if trt.tau_even == 600.5));
}

#[test]
fn a_simulation_starts_with_a_round_obstacle_in_the_middle() {
    let size = (80usize, 60usize);
    let sim = simulation(size);
    let mask = sim.state().geometry();
    assert_eq!(mask.get_underlying(), disc(size, 25).get_underlying());
    // The middle is (40, 30). Along the row of the middle the obstacle
    // covers the columns 16 to 64, both within 25 cells, and no more.
    assert_eq!(mask.get(40, 30), Some(true));
    assert_eq!(mask.get(16, 30), Some(true));
    assert_eq!(mask.get(64, 30), Some(true));
    assert_eq!(mask.get(15, 30), Some(false));
    assert_eq!(mask.get(65, 30), Some(false));
    assert_eq!(mask.get(40, 6), Some(true));
    assert_eq!(mask.get(40, 5), Some(false));
    assert_eq!(mask.get(40, 54), Some(true));
    assert_eq!(mask.get(40, 55), Some(false));
    // 15^2 + 20^2 = 25^2 is on the circle and not inside; 15^2 + 19^2 is inside.
    assert_eq!(mask.get(55, 50), Some(false));
    assert_eq!(mask.get(55, 49), Some(true));
    assert_eq!(mask.get(0, 0), Some(false));
    for x in 0..size.0 {
        for y in 0..size.1 {
            let r = ((x as f64 - size.0 as f64 / 2.0).powi(2) + (y as f64 - size.1 as f64 / 2.0).powi(2)).sqrt();
            assert_eq!(mask.get(x, y), Some(r < 25.0));
        }
    }
}

#[test]
fn the_middle_of_an_odd_grid_lies_between_cells() {
    let size = (7usize, 5usize);
    let mask = disc(size, 2);
    // The middle is (3.5, 2.5): cell (x, y) is inside where
    // (2x - 7)^2 + (2y - 5)^2 < 16.
    for x in 0..7i64 {
        for y in 0..5i64 {
            let inside = (2 * x - 7).pow(2) + (2 * y - 5).pow(2) < 16;
            assert_eq!(mask.get(x as usize, y as usize), Some(inside));
        }
    }
    assert_eq!(mask.get(3, 2), Some(true));
    assert_eq!(mask.get(2, 2), Some(true));
    assert_eq!(mask.get(2, 1), Some(false));
    assert_eq!(mask.get(1, 2), Some(false));
    assert_eq!(mask.get(5, 3), Some(true));
    assert_eq!(mask.get(6, 3), Some(false));
}

#[test]
fn a_disc_of_radius_zero_is_empty_and_a_huge_one_covers_the_grid() {
    assert_eq!(disc((4, 4), 0).get_underlying(), vec![false; 16]);
    assert_eq!(disc((4, 3), u32::MAX).get_underlying(), vec![true; 12]);
    assert_eq!(disc((0, 3), 5).get_shape(), (0, 3));
}

#[test]
fn a_simulation_needs_nine_fields_of_its_size() {
    let operator = CollisionOperator::BGK(BGK { tau: 15.0 });
    let spacing = Discretization { delta_x: 1.0, delta_t: 1.0 };
    let eight: Vec<Matrix<f64>> = fields((4, 4)).into_iter().take(8).collect();
    assert!(matches!(initial_state((4, 4), &eight, operator, spacing), Err(StateError::FieldCount)));
    assert!(matches!(
        initial_state((4, 5), &fields((4, 4)), operator, spacing),
        Err(StateError::ShapeMismatch)
    ));
    assert!(matches!(
        initial_state((usize::MAX, usize::MAX), &fields((4, 4)), operator, spacing),
        Err(StateError::ShapeMismatch)
    ));
    assert!(initial_state((4, 4), &fields((4, 4)), operator, spacing).is_ok());
}

#[test]
fn plus_and_minus_change_the_speed_within_its_limits() {
    let mut sim = simulation((4, 4));
    assert_eq!(sim.handle_key(Some(Key::Minus)), None);
    assert_eq!(sim.speed_factor(), 1);
    assert_eq!(sim.handle_key(Some(Key::Plus)), Some(2));
    assert_eq!(sim.handle_key(Some(Key::Plus)), Some(3));
    assert_eq!(sim.handle_key(Some(Key::Minus)), Some(2));
    assert_eq!(sim.speed_factor(), 2);
    for expected in 3..=100 {
        assert_eq!(sim.handle_key(Some(Key::Plus)), Some(expected));
    }
    assert_eq!(sim.handle_key(Some(Key::Plus)), None);
    assert_eq!(sim.speed_factor(), 100);
    assert_eq!(sim.handle_key(Some(Key::Minus)), Some(99));
    assert_eq!(sim.display_mode(), DisplayMode::Velocity);
}

#[test]
fn space_moves_on_to_the_next_display_mode() {
    let mut sim = simulation((4, 4));
    assert_eq!(sim.handle_key(Some(Key::Space)), None);
    assert_eq!(sim.display_mode(), DisplayMode::MomentumDensity);
    assert_eq!(sim.handle_key(Some(Key::Space)), None);
    assert_eq!(sim.display_mode(), DisplayMode::Density);
    assert_eq!(sim.handle_key(Some(Key::Other)), None);
    assert_eq!(sim.handle_key(None), None);
    assert_eq!(sim.display_mode(), DisplayMode::Density);
    assert_eq!(sim.speed_factor(), 1);
}

#[test]
fn the_release_of_a_key_is_handled() {
    let mut sim = simulation((4, 4));
    assert_eq!(sim.handle(&released(piston::input::Key::Plus)), Some(2));
    assert_eq!(sim.handle(&released(piston::input::Key::Plus)), Some(3));
    assert_eq!(sim.handle(&released(piston::input::Key::Minus)), Some(2));
    assert_eq!(sim.handle(&released(piston::input::Key::Space)), None);
    assert_eq!(sim.display_mode(), DisplayMode::MomentumDensity);
    assert_eq!(sim.handle(&released(piston::input::Key::A)), None);
    assert_eq!(sim.handle(&released(piston::input::Key::NumPadPlus)), None);
    assert_eq!(sim.speed_factor(), 2);
    assert_eq!(sim.display_mode(), DisplayMode::MomentumDensity);
}

#[test]
fn other_events_are_not_handled() {
    let mut sim = simulation((4, 4));
    let pressed = button(ButtonState::Press, Button::Keyboard(piston::input::Key::Plus));
    assert_eq!(sim.handle(&pressed), None);
    let space_pressed = button(ButtonState::Press, Button::Keyboard(piston::input::Key::Space));
    assert_eq!(sim.handle(&space_pressed), None);
    let mouse = button(ButtonState::Release, Button::Mouse(MouseButton::Left));
    assert_eq!(sim.handle(&mouse), None);
    let update: Event = UpdateArgs { dt: 0.5 }.into();
    assert_eq!(sim.handle(&update), None);
    let focus = Event::Input(Input::Focus(true), None);
    assert_eq!(sim.handle(&focus), None);
    assert_eq!(sim.speed_factor(), 1);
    assert_eq!(sim.display_mode(), DisplayMode::Velocity);
}

#[test]
fn a_frame_takes_as_many_steps_as_the_speed_factor_says() {
    // Formulas by which every step adds one to every population.
    let formulas = Formulas {
        moments: |_: Vec<f64>| Moments { density: 0.0, velocity_x: 0.0, velocity_y: 0.0 },
        equilibrium: |_: Direction, _: Weight, _: Moments<f64>| 1.0,
        bgk: |_: BGK<f64>, _: f64, _: f64| -> f64 { unreachable!() },
        trt: |_: TRT<f64>, f: (f64, f64), target: (f64, f64)| f.0 + target.0,
    };
    let mut sim = simulation((5, 4));
    assert!(sim.step(&formulas).is_ok());
    assert_eq!(sim.state().time(), 1);
    assert_eq!(sim.handle_key(Some(Key::Plus)), Some(2));
    assert_eq!(sim.handle_key(Some(Key::Plus)), Some(3));
    assert!(sim.step(&formulas).is_ok());
    assert_eq!(sim.state().time(), 4);
    assert_eq!(sim.speed_factor(), 3);
    assert_eq!(sim.size(), (5, 4));
    assert_eq!(sim.display_mode(), DisplayMode::Velocity);
    // The whole grid lies within the obstacle: nothing moves.
    for i in 0..9 {
        assert_eq!(sim.state().populations()[i].get_underlying(), vec![0.25 * i as f64 + 4.0; 20]);
    }
    for _ in 0..97 {
        sim.handle_key(Some(Key::Plus));
    }
    assert_eq!(sim.speed_factor(), 100);
    assert!(sim.step(&formulas).is_ok());
    assert_eq!(sim.state().time(), 104);
}

#[test]
fn render_colours_each_cell_by_the_quantity_on_display() {
    let size = (3usize, 2usize);
    let populations: Vec<Matrix<f64>> = (0..9)
        .map(|i| Matrix::tabulate(size, move |x: usize, y: usize| (i + 1) as f64 * (3 * y + x) as f64))
        .collect();
    let operator = CollisionOperator::BGK(BGK { tau: 1.0 });
    let spacing = Discretization { delta_x: 1.0, delta_t: 1.0 };
    let sim = initial_state(size, &populations, operator, spacing).unwrap();
    // So small a grid lies within the obstacle.
    let intensity = |_: DisplayMode, f: Vec<f64>| -> i8 { f[0] as i8 };
    let picture = sim.render(&intensity, RGB(1, 2, 3));
    assert_eq!(picture.get_shape(), size);
    assert_eq!(picture.get_underlying(), vec![RGB(1, 2, 3); 6]);
}

#[test]
fn render_draws_the_obstacle_over_the_field() {
    let size = (60usize, 4usize);
    let populations: Vec<Matrix<f64>> = (0..9)
        .map(|i| Matrix::tabulate(size, move |x: usize, y: usize| (i + 1) as f64 * (x + y) as f64))
        .collect();
    let operator = CollisionOperator::BGK(BGK { tau: 1.0 });
    let spacing = Discretization { delta_x: 1.0, delta_t: 1.0 };
    let mut sim = initial_state(size, &populations, operator, spacing).unwrap();
    // The intensity is the first population for the velocity, minus the
    // second for the momentum density, and zero for the rest.
    let intensity = |mode: DisplayMode, f: Vec<f64>| -> i8 {
        match mode {
            DisplayMode::Velocity => f[0] as i8,
            DisplayMode::MomentumDensity => -(f[1] as i8),
            _ => 0,
        }
    };
    let white = RGB(255, 255, 255);
    // The middle is (30, 2): in the first row the columns 6 to 54 lie
    // within 25 cells of it.
    let picture = sim.render(&intensity, white);
    assert_eq!(picture.get_shape(), size);
    for x in 0..60usize {
        let expected = if (6..=54).contains(&x) { white } else { RGB(0, 2 * x as u8, 0) };
        assert_eq!(picture.get(x, 0), Some(expected));
    }
    assert_eq!(picture.get(5, 1), Some(RGB(0, 12, 0)));
    assert_eq!(picture.get(5, 2), Some(RGB(0, 14, 0)));
    assert_eq!(picture.get(6, 2), Some(white));
    assert_eq!(picture.get(59, 3), Some(RGB(0, 124, 0)));
    sim.handle_key(Some(Key::Space));
    let picture = sim.render(&intensity, white);
    assert_eq!(picture.get(3, 0), Some(RGB(12, 0, 0)));
    assert_eq!(picture.get(4, 1), Some(RGB(20, 0, 0)));
    assert_eq!(picture.get(30, 2), Some(white));
    sim.handle_key(Some(Key::Space));
    let picture = sim.render(&intensity, white);
    for x in 0..60usize {
        let expected = if (6..=54).contains(&x) { white } else { RGB(0, 0, 0) };
        assert_eq!(picture.get(x, 0), Some(expected));
    }
}
