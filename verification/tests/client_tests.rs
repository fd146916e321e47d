use battlestar::client::{
    choose_correction, choose_seam, classify_ship, classify_update, departed_after_delta,
    departed_after_snapshot, Correction, NetworkedPlayer, Player, Seam, ShipAction,
};
use battlestar::math::Scalar;
use battlestar::entities::{Color, Ship};
use battlestar::network::{DeltaState, GameState, ShipUpdate};

fn known_ships(ids: &[u32]) -> Vec<NetworkedPlayer> {
    ids.iter().map(|id| NetworkedPlayer { id: *id }).collect()
}

fn delta_naming(ids: &[u32], removed: &[u32], full: bool) -> DeltaState {
    let mut delta = DeltaState::new(7, full);
    for id in ids {
        delta.add_ship_update(ShipUpdate::without_color(&Ship::new(*id, Color::red())));
    }
    for id in removed {
        delta.add_removed_ship(*id);
    }
    delta
}

#[test]
fn markers_compare_equal() {
    assert_eq!(Player, Player);
    assert_eq!(NetworkedPlayer { id: 3 }, NetworkedPlayer { id: 3 });
    assert_ne!(NetworkedPlayer { id: 3 }, NetworkedPlayer { id: 4 });
}

#[test]
fn own_ship_is_reconciled() {
    let known = known_ships(&[2, 3]);
    let update = ShipUpdate::without_color(&Ship::new(1, Color::red()));
    assert_eq!(classify_update(1, &known, &update), ShipAction::ReconcileLocal);
    let own_and_known = known_ships(&[1]);
    assert_eq!(classify_update(1, &own_and_known, &update), ShipAction::ReconcileLocal);
}

#[test]
fn known_ship_is_blended() {
    let known = known_ships(&[2, 3, 3]);
    let update = ShipUpdate::with_color(&Ship::new(3, Color::red()));
    assert_eq!(classify_update(1, &known, &update), ShipAction::BlendRemote { index: 1 });
}

#[test]
fn unknown_ship_with_colour_is_spawned() {
    let known = known_ships(&[2]);
    let update = ShipUpdate::with_color(&Ship::new(5, Color::red()));
    assert_eq!(
        classify_update(1, &known, &update),
        ShipAction::SpawnRemote { color: Color::red() }
    );
}

#[test]
fn unknown_ship_without_colour_is_ignored() {
    let known = known_ships(&[2]);
    let update = ShipUpdate::without_color(&Ship::new(5, Color::red()));
    assert_eq!(classify_update(1, &known, &update), ShipAction::Ignore);
}

#[test]
fn snapshot_ship_is_never_ignored() {
    let known = known_ships(&[2]);
    let ship = Ship::new(5, Color::white());
    assert_eq!(
        classify_ship(1, &known, &ship),
        ShipAction::SpawnRemote { color: Color::white() }
    );
    assert_eq!(classify_ship(5, &known, &ship), ShipAction::ReconcileLocal);
    assert_eq!(
        classify_ship(1, &known, &Ship::new(2, Color::red())),
        ShipAction::BlendRemote { index: 0 }
    );
}

#[test]
fn incremental_message_removes_only_what_it_reports() {
    let known = known_ships(&[2, 3, 4, 3]);
    let delta = delta_naming(&[2], &[3, 9], false);
    assert_eq!(departed_after_delta(&known, &delta), vec![1]);
    let quiet = delta_naming(&[], &[], false);
    assert_eq!(departed_after_delta(&known, &quiet), Vec::<usize>::new());
}

#[test]
fn complete_message_removes_what_it_does_not_name() {
    let known = known_ships(&[2, 3, 4, 5]);
    let delta = delta_naming(&[1, 2, 4], &[4], true);
    assert_eq!(departed_after_delta(&known, &delta), vec![1, 2, 3]);
}

#[test]
fn snapshot_removes_what_it_does_not_name() {
    let known = known_ships(&[2, 3, 4]);
    let mut state = GameState::new();
    state.ships.push(Ship::new(3, Color::red()));
    state.ships.push(Ship::new(8, Color::red()));
    assert_eq!(departed_after_snapshot(&known, &state), vec![0, 2]);
    assert_eq!(
        departed_after_snapshot(&known, &GameState::new()),
        vec![0, 1, 2]
    );
}

fn fl(x: f32) -> Scalar {
    Scalar::from_bits(x.to_bits())
}

#[test]
fn far_ships_snap_and_near_ships_blend() {
    assert_eq!(choose_correction(fl(100.5), fl(100.0)), Correction::Snap);
    assert_eq!(choose_correction(fl(100.0), fl(100.0)), Correction::Blend);
    assert_eq!(choose_correction(fl(3.0), fl(100.0)), Correction::Blend);
    assert_eq!(choose_correction(fl(0.0), fl(100.0)), Correction::Blend);
    assert_eq!(choose_correction(fl(f32::INFINITY), fl(100.0)), Correction::Snap);
}

#[test]
fn correction_takes_the_short_way_across_the_seam() {
    assert_eq!(choose_seam(fl(3990.0), fl(2000.0)), Seam::LessOneWidth);
    assert_eq!(choose_seam(fl(-3990.0), fl(2000.0)), Seam::PlusOneWidth);
    assert_eq!(choose_seam(fl(2000.0), fl(2000.0)), Seam::Direct);
    assert_eq!(choose_seam(fl(-2000.0), fl(2000.0)), Seam::Direct);
    assert_eq!(choose_seam(fl(12.0), fl(2000.0)), Seam::Direct);
    assert_eq!(choose_seam(fl(2000.5), fl(2000.0)), Seam::LessOneWidth);
}
