use vstd::prelude::*;
use crate::entities::{Asteroid, Color, Ship};
use crate::math::{Scalar, Vec2};

verus! {

/// What a client sends: its controls, and an id that the server never trusts.
#[derive(Clone, Copy, Debug, PartialEq, Eq, Structural)]
pub struct ClientInput {
    pub player_id: u32,
    pub thrust: Scalar,
    pub rotate: Scalar,
}

/// The per-tick record of one ship. The colour travels only when the
/// receiver may not know it yet.
#[derive(Clone, Copy, Debug, PartialEq, Eq)]
pub struct ShipUpdate {
    pub id: u32,
    pub position: Vec2,
    pub velocity: Vec2,
    pub rotation: Scalar,
    pub color: Option<Color>,
}

impl ShipUpdate {
    /// The record of `ship`, with its colour exactly when `include_color` is set.
    pub open spec fn of(ship: Ship, include_color: bool) -> ShipUpdate {
        ShipUpdate {
            id: ship.id,
            position: ship.position,
            velocity: ship.velocity,
            rotation: ship.rotation,
            color: if include_color {
                Some(ship.color)
            } else {
                None
            },
        }
    }

    pub fn from_ship(ship: &Ship, include_color: bool) -> (update: ShipUpdate)
        ensures
            update == ShipUpdate::of(*ship, include_color),
    {
        ShipUpdate {
            id: ship.id,
            position: ship.position,
            velocity: ship.velocity,
            rotation: ship.rotation,
            color: if include_color {
                Some(ship.color)
            } else {
                None
            },
        }
    }

    /// The record of a ship that spawned or respawned.
    pub fn with_color(ship: &Ship) -> (update: ShipUpdate)
        ensures
            update == ShipUpdate::of(*ship, true),
    {
        ShipUpdate::from_ship(ship, true)
    }

    /// The record of a ship that only moved.
    pub fn without_color(ship: &Ship) -> (update: ShipUpdate)
        ensures
            update == ShipUpdate::of(*ship, false),
    {
        ShipUpdate::from_ship(ship, false)
    }
}

/// The incremental message: what changed since the tick before.
#[derive(Clone, Debug, PartialEq, Eq)]
pub struct DeltaState {
    pub tick: u64,
    pub changed_ships: Vec<ShipUpdate>,
    pub removed_ship_ids: Vec<u32>,
    pub is_full_state: bool,
}

impl DeltaState {
    /// A delta that names no ship.
    pub fn new(tick: u64, is_full_state: bool) -> (delta: DeltaState)
        ensures
            delta.tick == tick,
            delta.is_full_state == is_full_state,
            delta.changed_ships@ == Seq::<ShipUpdate>::empty(),
            delta.removed_ship_ids@ == Seq::<u32>::empty(),
    {
        DeltaState { tick, changed_ships: Vec::new(), removed_ship_ids: Vec::new(), is_full_state }
    }

    pub fn add_ship_update(&mut self, update: ShipUpdate)
        ensures
            final(self).changed_ships@ == old(self).changed_ships@.push(update),
            final(self).removed_ship_ids@ == old(self).removed_ship_ids@,
            final(self).tick == old(self).tick,
            final(self).is_full_state == old(self).is_full_state,
    {
        self.changed_ships.push(update);
    }

    pub fn add_removed_ship(&mut self, id: u32)
        ensures
            final(self).removed_ship_ids@ == old(self).removed_ship_ids@.push(id),
            final(self).changed_ships@ == old(self).changed_ships@,
            final(self).tick == old(self).tick,
            final(self).is_full_state == old(self).is_full_state,
    {
        self.removed_ship_ids.push(id);
    }

    /// Whether the delta names at least one ship, changed or removed.
    pub fn has_changes(&self) -> (r: bool)
        ensures
            r == (self.changed_ships@.len() > 0 || self.removed_ship_ids@.len() > 0),
    {
        self.changed_ships.len() > 0 || self.removed_ship_ids.len() > 0
    }
}

/// The full snapshot: every ship and every asteroid.
#[derive(Clone, Debug, PartialEq, Eq)]
pub struct GameState {
    pub ships: Vec<Ship>,
    pub asteroids: Vec<Asteroid>,
    pub tick: u64,
}

impl GameState {
    /// The snapshot of an empty world at tick zero.
    pub fn new() -> (state: GameState)
        ensures
            state.ships@ == Seq::<Ship>::empty(),
            state.asteroids@ == Seq::<Asteroid>::empty(),
            state.tick == 0,
    {
        GameState { ships: Vec::new(), asteroids: Vec::new(), tick: 0 }
    }
}

impl Default for GameState {
    fn default() -> (state: GameState)
        ensures
            state.ships@ == Seq::<Ship>::empty(),
            state.asteroids@ == Seq::<Asteroid>::empty(),
            state.tick == 0,
    {
        GameState::new()
    }
}

/// What the server sends.
#[derive(Clone, Debug, PartialEq, Eq)]
pub enum ServerMessage {
    Welcome { assigned_id: u32 },
    GameState(GameState),
    DeltaState(DeltaState),
}

} // verus!
