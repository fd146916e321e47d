use battlestar::entities::{Color, Ship};
use battlestar::math::{Scalar, Vec2};
use battlestar::network::{DeltaState, GameState, ShipUpdate};

fn val(x: f32) -> Scalar {
    Scalar::from_bits(x.to_bits())
}

fn create_test_ship(id: u32) -> Ship {
    Ship::new(id, Color::red())
}

#[test]
fn test_delta_state_creation() {
    let delta = DeltaState::new(42, false);
    assert_eq!(delta.tick, 42);
    assert!(!delta.is_full_state);
    assert!(!delta.has_changes());
}

#[test]
fn test_ship_update_with_color() {
    let ship = create_test_ship(1);
    let update = ShipUpdate::with_color(&ship);

    assert_eq!(update.id, 1);
    assert!(update.color.is_some());
    assert_eq!(update.color.unwrap(), Color::red());
}

#[test]
fn test_ship_update_without_color() {
    let ship = create_test_ship(1);
    let update = ShipUpdate::without_color(&ship);

    assert_eq!(update.id, 1);
    assert!(update.color.is_none());
}

#[test]
fn test_delta_add_ship_update() {
    let mut delta = DeltaState::new(1, false);
    let ship = create_test_ship(1);

    delta.add_ship_update(ShipUpdate::with_color(&ship));

    assert!(delta.has_changes());
    assert_eq!(delta.changed_ships.len(), 1);
}

#[test]
fn test_delta_add_removed_ship() {
    let mut delta = DeltaState::new(1, false);
    delta.add_removed_ship(42);

    assert!(delta.has_changes());
    assert_eq!(delta.removed_ship_ids.len(), 1);
    assert_eq!(delta.removed_ship_ids[0], 42);
}

#[test]
fn ship_update_copies_the_motion() {
    let mut ship = create_test_ship(9);
    ship.position = Vec2::new(val(1.0), val(2.0));
    ship.velocity = Vec2::new(val(3.0), val(4.0));
    ship.rotation = val(0.25);
    let update = ShipUpdate::from_ship(&ship, false);
    assert_eq!(update.id, 9);
    assert_eq!(update.position, ship.position);
    assert_eq!(update.velocity, ship.velocity);
    assert_eq!(update.rotation, ship.rotation);
    assert_eq!(update.color, None);
    assert_eq!(ShipUpdate::from_ship(&ship, true).color, Some(Color::red()));
}

#[test]
fn empty_game_state() {
    let state = GameState::new();
    assert_eq!(state.ships.len(), 0);
    assert_eq!(state.asteroids.len(), 0);
    assert_eq!(state.tick, 0);
    assert_eq!(GameState::default(), state);
}
