use battlestar::entities::{Asteroid, Color, Ship};
use battlestar::game::Game;
use battlestar::math::{Scalar, Vec2};
use battlestar::network::{ClientInput, ServerMessage};
use battlestar::physics::PhysicsConstants;

fn flt(x: f32) -> Scalar {
    Scalar::from_bits(x.to_bits())
}

fn rust_red() -> Color {
    Color::new(flt(0.9), flt(0.3), flt(0.3))
}

fn pale() -> Color {
    Color::new(flt(0.95), flt(0.95), flt(0.95))
}

fn at(x: f32, y: f32) -> Vec2 {
    Vec2::new(flt(x), flt(y))
}

fn test_constants() -> PhysicsConstants {
    PhysicsConstants::from_game_constants(
        flt(300.0),
        flt(4.0),
        flt(400.0),
        flt(0.95),
        flt(2000.0),
        flt(25.0),
    )
}

fn nine_asteroids() -> Vec<Asteroid> {
    vec![
        Asteroid::new(1, at(200.0, 100.0), at(20.0, 15.0), flt(20.0)),
        Asteroid::new(2, at(-150.0, -120.0), at(-10.0, 25.0), flt(24.0)),
        Asteroid::new(3, at(500.0, -400.0), at(-15.0, 20.0), flt(18.0)),
        Asteroid::new(4, at(-600.0, 300.0), at(25.0, -10.0), flt(22.0)),
        Asteroid::new(5, at(100.0, 600.0), at(-20.0, -15.0), flt(16.0)),
        Asteroid::new(6, at(400.0, 400.0), at(10.0, -25.0), flt(20.0)),
        Asteroid::new(7, at(-500.0, -500.0), at(15.0, 15.0), flt(25.0)),
        Asteroid::new(8, at(700.0, -100.0), at(-10.0, 20.0), flt(19.0)),
        Asteroid::new(9, at(-300.0, 700.0), at(18.0, -12.0), flt(21.0)),
    ]
}

fn two_asteroids() -> Vec<Asteroid> {
    vec![
        Asteroid::new(1, at(200.0, 100.0), at(20.0, 15.0), flt(16.0)),
        Asteroid::new(2, at(-150.0, -120.0), at(-10.0, 25.0), flt(24.0)),
    ]
}

fn new_game() -> Game {
    Game::new(nine_asteroids(), test_constants())
}

fn green() -> Color {
    Color::new(flt(0.3), flt(0.9), flt(0.4))
}

#[test]
fn test_game_creation() {
    let game = new_game();
    assert_eq!(game.ships().len(), 0);
    assert_eq!(game.asteroids().len(), 9);
    assert_eq!(game.current_tick(), 0);
    assert_eq!(game.full_state_interval(), 100);
    assert_eq!(game.invincibility_ticks(), 20);
    assert_eq!(game.constants(), test_constants());
}

#[test]
fn test_spawn_player() {
    let mut game = new_game();
    game.spawn_player(1, green());

    assert_eq!(game.ships().len(), 1);
    assert!(game.has_ship(1));

    let ship = game.ship(1).unwrap();
    assert_eq!(ship.id, 1);
    assert_eq!(ship.position, Vec2::zero());
    assert_eq!(ship.color, green());
    assert!(game.needs_color(1));
}

#[test]
fn spawn_player_replaces_the_ship_of_the_same_id() {
    let mut game = new_game();
    game.spawn_player(1, green());
    game.spawn_player(2, green());
    assert!(game.place_ship(1, at(5.0, 6.0), at(1.0, 1.0), flt(2.0)));
    let ship = game.spawn_player(1, rust_red());
    assert_eq!(ship, Ship::new(1, rust_red()));
    assert_eq!(game.ships().len(), 2);
    assert_eq!(game.ship(1), Some(Ship::new(1, rust_red())));
    assert_eq!(game.ships()[0].id, 1);
    assert_eq!(game.ships()[1].id, 2);
}

#[test]
fn test_remove_player() {
    let mut game = new_game();
    game.spawn_player(1, green());
    assert_eq!(game.ships().len(), 1);

    game.remove_player(1);
    assert_eq!(game.ships().len(), 0);
}

#[test]
fn remove_player_leaves_the_others() {
    let mut game = new_game();
    game.spawn_player(1, green());
    game.spawn_player(2, rust_red());
    game.spawn_player(3, pale());
    game.remove_player(2);
    assert_eq!(game.ships().len(), 2);
    assert!(game.has_ship(1));
    assert!(!game.has_ship(2));
    assert!(game.has_ship(3));
    assert_eq!(game.ship(3).unwrap().color, pale());
    game.remove_player(42);
    assert_eq!(game.ships().len(), 2);
    assert_eq!(game.ship(2), None);
}

#[test]
fn test_apply_input_spawns_ship() {
    let mut game = new_game();
    let input = ClientInput { player_id: 1, thrust: flt(1.0), rotate: flt(0.0) };

    game.apply_input(input, green());

    assert_eq!(game.ships().len(), 1);
    assert!(game.has_ship(1));
}

#[test]
fn apply_input_spawns_only_once() {
    let mut game = new_game();
    let input = ClientInput { player_id: 1, thrust: flt(1.0), rotate: flt(0.0) };
    game.apply_input(input, green());
    assert!(game.place_ship(1, at(5.0, 6.0), at(1.0, 1.0), flt(2.0)));
    game.apply_input(input, rust_red());
    assert_eq!(game.ships().len(), 1);
    let ship = game.ship(1).unwrap();
    assert_eq!(ship.color, green());
    assert_eq!(ship.position, at(5.0, 6.0));
}

#[test]
fn test_input_validation_clamps() {
    let mut game = new_game();
    let input = ClientInput { player_id: 1, thrust: flt(10.0), rotate: flt(-10.0) };

    let applied = game.apply_input(input, green());

    assert!(game.has_ship(1));
    assert_eq!(applied.thrust, flt(1.0));
    assert_eq!(applied.rotate, flt(-1.0));
}

#[test]
fn test_tick_increments_counter() {
    let mut game = new_game();
    game.tick(&vec![]);
    assert_eq!(game.current_tick(), 1);

    game.tick(&vec![]);
    assert_eq!(game.current_tick(), 2);
}

#[test]
fn test_collision_respawns_ship() {
    let mut game = new_game();
    game.spawn_player(1, green());

    let rock = game.asteroids()[0].position;
    assert!(game.place_ship(1, rock, at(3.0, 4.0), flt(1.0)));

    game.tick(&vec![1]);

    let ship = game.ship(1).unwrap();
    assert_eq!(ship.position, Vec2::zero());
    assert_eq!(ship.velocity, Vec2::zero());
    assert_eq!(ship.rotation, flt(0.0));
    assert_eq!(ship.respawn_tick, Some(1));
    assert_eq!(ship.color, green());
    assert!(game.needs_color(1));
}

#[test]
fn tick_spares_ships_that_overlap_nothing() {
    let mut game = new_game();
    game.spawn_player(1, green());
    game.spawn_player(2, green());
    game.tick(&vec![]);
    assert!(game.place_ship(1, at(9.0, 9.0), at(3.0, 4.0), flt(1.0)));
    assert!(game.place_ship(2, at(7.0, 7.0), at(1.0, 2.0), flt(2.0)));
    game.tick(&vec![2, 2, 77]);
    let first = game.ship(1).unwrap();
    assert_eq!(first.position, at(9.0, 9.0));
    assert_eq!(first.velocity, at(3.0, 4.0));
    assert_eq!(first.respawn_tick, None);
    assert!(!game.needs_color(1));
    let second = game.ship(2).unwrap();
    assert_eq!(second.position, Vec2::zero());
    assert_eq!(second.respawn_tick, Some(2));
    assert!(game.needs_color(2));
    assert!(!game.needs_color(77));
    assert_eq!(game.ships().len(), 2);
}

#[test]
fn colour_of_a_new_ship_is_due_through_the_tick_that_follows() {
    let mut game = new_game();
    game.spawn_player(1, green());
    assert!(game.needs_color(1));
    assert!(game.spawned_since_tick(1));
    game.tick(&vec![]);
    assert!(game.needs_color(1));
    assert!(!game.spawned_since_tick(1));
    game.tick(&vec![]);
    assert!(!game.needs_color(1));
    assert!(!game.spawned_since_tick(1));
}

#[test]
fn first_input_sends_the_colour_with_the_next_tick() {
    let mut game = new_game();
    for _ in 0..4 {
        game.tick(&vec![]);
    }
    let input = ClientInput { player_id: 7, thrust: flt(0.0), rotate: flt(0.0) };
    game.apply_input(input, green());
    game.tick(&vec![]);
    assert_eq!(game.current_tick(), 5);
    assert!(!game.is_full_state_tick());
    let delta = game.to_delta_state();
    assert_eq!(delta.changed_ships.len(), 1);
    assert_eq!(delta.changed_ships[0].id, 7);
    assert_eq!(delta.changed_ships[0].color, Some(green()));
    match game.broadcast_message() {
        ServerMessage::DeltaState(delta) => {
            assert_eq!(delta.changed_ships[0].color, Some(green()));
        }
        _ => panic!("tick five is no full-state tick"),
    }
    game.apply_input(input, rust_red());
    game.tick(&vec![]);
    let delta = game.to_delta_state();
    assert_eq!(delta.changed_ships[0].id, 7);
    assert_eq!(delta.changed_ships[0].color, None);
}

#[test]
fn respawned_ship_is_protected_for_the_whole_window() {
    let mut game = new_game();
    game.spawn_player(1, green());
    game.tick(&vec![1]);
    let respawned_at = game.current_tick();
    assert_eq!(game.ship(1).unwrap().respawn_tick, Some(respawned_at));
    let window = game.invincibility_ticks();
    for _ in 1..window {
        assert!(game.place_ship(1, at(50.0, 50.0), at(1.0, 0.0), flt(0.0)));
        game.tick(&vec![1]);
        let ship = game.ship(1).unwrap();
        assert!(ship.is_invincible(game.current_tick(), window));
        assert_eq!(ship.position, at(50.0, 50.0));
        assert_eq!(ship.respawn_tick, Some(respawned_at));
        assert!(!game.needs_color(1));
    }
    assert_eq!(game.current_tick(), respawned_at + window - 1);
    game.tick(&vec![1]);
    assert_eq!(game.current_tick(), respawned_at + window);
    let ship = game.ship(1).unwrap();
    assert_eq!(ship.position, Vec2::zero());
    assert_eq!(ship.respawn_tick, Some(respawned_at + window));
    assert!(game.needs_color(1));
}

#[test]
fn protection_ends_exactly_after_the_window() {
    let mut game = new_game();
    game.spawn_player(1, green());
    for _ in 0..4 {
        game.tick(&vec![]);
    }
    game.tick(&vec![1]);
    let n = game.current_tick();
    assert_eq!(n, 5);
    let ship = game.ship(1).unwrap();
    assert_eq!(ship.position, Vec2::zero());
    let window = game.invincibility_ticks();
    for tick in n..n + window {
        assert!(ship.is_invincible(tick, window));
    }
    assert!(ship.is_invincible(n + window - 1, window));
    assert!(!ship.is_invincible(n + window, window));
}

#[test]
fn test_to_network_state() {
    let mut game = Game::new(two_asteroids(), test_constants());
    game.spawn_player(1, green());
    game.spawn_player(2, green());

    let network_state = game.to_network_state();

    assert_eq!(network_state.ships.len(), 2);
    assert_eq!(network_state.asteroids.len(), 2);
    assert_eq!(network_state.tick, 0);
    assert_eq!(&network_state.ships, game.ships());
    assert_eq!(&network_state.asteroids, game.asteroids());
}

#[test]
fn delta_carries_colour_only_when_due() {
    let mut game = new_game();
    game.spawn_player(1, green());
    game.spawn_player(2, rust_red());
    game.tick(&vec![]);
    let delta = game.to_delta_state();
    assert_eq!(delta.tick, 1);
    assert_eq!(delta.changed_ships[0].color, Some(green()));
    assert_eq!(delta.changed_ships[1].color, Some(rust_red()));
    game.tick(&vec![2]);
    let delta = game.to_delta_state();
    assert_eq!(delta.tick, 2);
    assert!(!delta.is_full_state);
    assert_eq!(delta.removed_ship_ids.len(), 0);
    assert_eq!(delta.changed_ships.len(), 2);
    assert_eq!(delta.changed_ships[0].id, 1);
    assert_eq!(delta.changed_ships[0].color, None);
    assert_eq!(delta.changed_ships[1].id, 2);
    assert_eq!(delta.changed_ships[1].color, Some(rust_red()));
    game.tick(&vec![]);
    let delta = game.to_delta_state();
    assert_eq!(delta.changed_ships[0].color, None);
    assert_eq!(delta.changed_ships[1].color, None);
}

#[test]
fn delta_carries_colour_of_a_ship_that_just_spawned() {
    let mut game = new_game();
    game.tick(&vec![]);
    game.spawn_player(5, green());
    let delta = game.to_delta_state();
    assert_eq!(delta.changed_ships.len(), 1);
    assert_eq!(delta.changed_ships[0].color, Some(green()));
    assert_eq!(delta.changed_ships[0].position, Vec2::zero());
}

#[test]
fn delta_on_a_full_state_tick_carries_every_colour() {
    let mut game = new_game();
    game.spawn_player(1, green());
    game.spawn_player(2, rust_red());
    assert!(game.set_full_state_interval(3));
    for _ in 0..3 {
        game.tick(&vec![]);
    }
    let delta = game.to_delta_state();
    assert!(delta.is_full_state);
    assert_eq!(delta.tick, 3);
    assert_eq!(delta.changed_ships[0].color, Some(green()));
    assert_eq!(delta.changed_ships[1].color, Some(rust_red()));
}

#[test]
fn full_state_every_hundred_ticks() {
    let mut game = new_game();
    game.spawn_player(1, green());
    let mut last = game.current_tick();
    for _ in 0..250 {
        game.tick(&vec![]);
        let tick = game.current_tick();
        assert!(tick > last);
        last = tick;
        let full = tick == 100 || tick == 200;
        assert_eq!(game.is_full_state_tick(), full);
        match game.broadcast_message() {
            ServerMessage::GameState(state) => {
                assert!(full);
                assert_eq!(state.tick, tick);
                assert_eq!(state.ships.len(), 1);
                assert_eq!(state.asteroids.len(), 9);
            }
            ServerMessage::DeltaState(delta) => {
                assert!(!full);
                assert_eq!(delta.tick, tick);
                assert!(!delta.is_full_state);
                assert_eq!(delta.changed_ships.len(), 1);
            }
            ServerMessage::Welcome { .. } => panic!("a tick never greets"),
        }
    }
}

#[test]
fn zero_interval_is_refused() {
    let mut game = new_game();
    assert!(!game.set_full_state_interval(0));
    assert_eq!(game.full_state_interval(), 100);
    assert!(game.set_full_state_interval(7));
    assert_eq!(game.full_state_interval(), 7);
    game.set_invincibility_ticks(60);
    assert_eq!(game.invincibility_ticks(), 60);
}

#[test]
fn place_asteroid_moves_only_that_asteroid() {
    let mut game = Game::new(two_asteroids(), test_constants());
    assert!(game.place_asteroid(1, at(1.0, 2.0)));
    assert!(!game.place_asteroid(2, at(1.0, 2.0)));
    assert_eq!(game.asteroids()[1].position, at(1.0, 2.0));
    assert_eq!(game.asteroids()[1].velocity, at(-10.0, 25.0));
    assert_eq!(game.asteroids()[1].radius, flt(24.0));
    assert_eq!(game.asteroids()[0].position, at(200.0, 100.0));
}

#[test]
fn place_ship_of_an_unknown_player_does_nothing() {
    let mut game = new_game();
    game.spawn_player(1, green());
    assert!(!game.place_ship(2, at(1.0, 2.0), at(0.0, 0.0), flt(0.0)));
    assert_eq!(game.ships().len(), 1);
    assert_eq!(game.ship(1), Some(Ship::new(1, green())));
}

#[test]
fn place_ship_applies_the_edge_of_the_world() {
    let mut game = new_game();
    game.spawn_player(1, green());
    assert!(game.place_ship(1, at(2001.0, -2500.0), at(10.0, 20.0), flt(0.5)));
    let ship = game.ship(1).unwrap();
    assert_eq!(ship.position, at(-2000.0, 2000.0));
    assert_eq!(ship.velocity, at(10.0, 20.0));
    assert_eq!(ship.rotation, flt(0.5));
    assert!(game.place_ship(1, at(2000.0, -2000.0), at(0.0, 0.0), flt(0.0)));
    assert_eq!(game.ship(1).unwrap().position, at(2000.0, -2000.0));
}

#[test]
fn place_asteroid_applies_the_edge_of_the_world() {
    let mut game = Game::new(two_asteroids(), test_constants());
    assert!(game.place_asteroid(0, at(-2000.5, 1999.0)));
    assert_eq!(game.asteroids()[0].position, at(2000.0, 1999.0));
}

#[test]
fn new_world_applies_the_edge_to_its_asteroids() {
    let rocks = vec![
        Asteroid::new(1, at(3000.0, 5.0), at(1.0, 1.0), flt(10.0)),
        Asteroid::new(2, at(-1.0, -2000.0), at(1.0, 1.0), flt(10.0)),
    ];
    let game = Game::new(rocks, test_constants());
    assert_eq!(game.asteroids()[0].position, at(-2000.0, 5.0));
    assert_eq!(game.asteroids()[0].radius, flt(10.0));
    assert_eq!(game.asteroids()[1].position, at(-1.0, -2000.0));
}

#[test]
fn two_worlds_given_the_same_events_agree() {
    let mut server = new_game();
    let mut mirror = new_game();
    for round in 0..120u32 {
        let id = round % 5 + 1;
        let input = ClientInput { player_id: id, thrust: flt(1.0), rotate: flt(0.5) };
        let a = server.apply_input(input, green());
        let b = mirror.apply_input(input, green());
        assert_eq!(a, b);
        let position = at(round as f32 * 40.0, -(round as f32) * 40.0);
        assert_eq!(
            server.place_ship(id, position, at(1.0, 2.0), flt(0.1)),
            mirror.place_ship(id, position, at(1.0, 2.0), flt(0.1))
        );
        let overlapping = if round % 7 == 0 { vec![id] } else { vec![] };
        server.tick(&overlapping);
        mirror.tick(&overlapping);
        assert_eq!(server.current_tick(), mirror.current_tick());
        assert_eq!(server.ships(), mirror.ships());
        assert_eq!(server.to_delta_state(), mirror.to_delta_state());
        assert_eq!(server.broadcast_message(), mirror.broadcast_message());
    }
}

fn unflt(s: Scalar) -> f32 {
    f32::from_bits(s.to_bits())
}

/// One step of a ship under control, in the arithmetic of the integrator.
fn steered(ship: &Ship, thrust: f32, rotate: f32, dt: f32) -> (f32, Vec2, Vec2) {
    let c = test_constants();
    let rotation = unflt(ship.rotation) - rotate * unflt(c.rotation_speed) * dt;
    let mut vx = unflt(ship.velocity.x) - thrust * rotation.sin() * unflt(c.thrust_accel) * dt;
    let mut vy = unflt(ship.velocity.y) + thrust * rotation.cos() * unflt(c.thrust_accel) * dt;
    let drag_factor = unflt(c.drag).powf(dt * 60.0);
    vx *= drag_factor;
    vy *= drag_factor;
    let speed = (vx * vx + vy * vy).sqrt();
    if speed > unflt(c.max_speed) {
        let scale = unflt(c.max_speed) / speed;
        vx *= scale;
        vy *= scale;
    }
    let px = unflt(ship.position.x) + vx * dt;
    let py = unflt(ship.position.y) + vy * dt;
    (rotation, at(vx, vy), at(px, py))
}

#[test]
fn test_apply_input_moves_ship() {
    let mut game = new_game();
    let input = ClientInput { player_id: 1, thrust: flt(1.0), rotate: flt(0.0) };

    let applied = game.apply_input(input, green());
    let ship = game.ship(1).unwrap();
    let (rotation, velocity, position) =
        steered(&ship, unflt(applied.thrust), unflt(applied.rotate), 0.05);
    assert!(game.place_ship(1, position, velocity, flt(rotation)));

    let ship = game.ship(1).unwrap();
    let initial_velocity = ship.velocity;

    let applied = game.apply_input(input, green());
    let (rotation, velocity, position) =
        steered(&ship, unflt(applied.thrust), unflt(applied.rotate), 0.05);
    assert!(game.place_ship(1, position, velocity, flt(rotation)));

    let ship = game.ship(1).unwrap();
    assert!(
        unflt(ship.velocity.y) > unflt(initial_velocity.y),
        "Velocity should increase with thrust"
    );
}

#[test]
fn test_tick_updates_asteroids() {
    let mut game = new_game();
    let initial_pos = game.asteroids()[0].position;

    let dt: f32 = 0.05;
    let rocks = game.asteroids().clone();
    for (index, rock) in rocks.iter().enumerate() {
        let moved = at(
            unflt(rock.position.x) + unflt(rock.velocity.x) * dt,
            unflt(rock.position.y) + unflt(rock.velocity.y) * dt,
        );
        assert!(game.place_asteroid(index, moved));
    }
    game.tick(&vec![]);

    let final_pos = game.asteroids()[0].position;
    assert_ne!(initial_pos, final_pos, "Asteroid should move after tick");
    assert_eq!(final_pos, at(201.0, 100.75));
}

fn row(values: &[f32]) -> Vec<Scalar> {
    values.iter().map(|v| flt(*v)).collect()
}

#[test]
fn overlapping_ships_are_those_within_reach_of_an_asteroid() {
    let mut game = Game::new(two_asteroids(), test_constants());
    game.spawn_player(4, green());
    game.spawn_player(9, green());
    game.spawn_player(2, green());
    let reaches = row(&[41.0, 49.0]);
    let distances = vec![row(&[300.0, 48.5]), row(&[41.0, 49.0]), row(&[0.0, 900.0])];
    assert_eq!(game.overlapping_ships(&distances, &reaches), vec![4, 2]);
    let far = vec![row(&[300.0, 50.0]), row(&[41.0, 49.0]), row(&[41.5, 900.0])];
    assert_eq!(game.overlapping_ships(&far, &reaches), Vec::<u32>::new());
    let short = vec![row(&[1.0, 1.0])];
    assert_eq!(game.overlapping_ships(&short, &reaches), vec![4]);
    let long = vec![row(&[]), row(&[]), row(&[900.0, 1.0, 0.0]), row(&[0.0, 0.0])];
    assert_eq!(game.overlapping_ships(&long, &reaches), vec![2]);
    assert_eq!(game.overlapping_ships(&distances, &vec![]), Vec::<u32>::new());
}

#[test]
fn a_ship_on_an_asteroid_respawns_through_its_distances() {
    let mut game = Game::new(two_asteroids(), test_constants());
    game.spawn_player(1, green());
    game.spawn_player(2, green());
    let reaches = row(&[25.0 + 16.0, 25.0 + 24.0]);
    let distances = vec![row(&[0.0, 500.0]), row(&[400.0, 500.0])];
    let overlapping = game.overlapping_ships(&distances, &reaches);
    game.tick(&overlapping);
    assert_eq!(game.ship(1).unwrap().respawn_tick, Some(1));
    assert_eq!(game.ship(2).unwrap().respawn_tick, None);
}
