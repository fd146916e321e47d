use std::collections::HashSet;
use vstd::prelude::*;
use crate::entities::{Asteroid, Color, Ship};
use crate::ids::contains_id;
use crate::math::{Scalar, Vec2};
use crate::network::{ClientInput, DeltaState, GameState, ServerMessage, ShipUpdate};
use crate::physics::{
    collides_with_any, usable_limit, within_world, wrapped_position, Input, PhysicsConstants,
};
use crate::world::{
    lemma_place_asteroid_keeps_world, lemma_place_keeps_world, lemma_remove_forgets,
    lemma_spawn_adds_one, GameView,
};

verus! {

broadcast use vstd::std_specs::hash::group_hash_axioms;

/// Ticks between two full snapshots, unless the world is told otherwise.
pub const DEFAULT_FULL_STATE_INTERVAL: u64 = 100;

/// Ticks of protection after a respawn, unless the world is told otherwise:
/// one second at twenty ticks a second.
pub const DEFAULT_INVINCIBILITY_TICKS: u64 = 20;

/// The authoritative world: ships, asteroids and the tick counter.
///
/// The ships stand in a vector, in the order in which they joined, and are
/// found by their id. That fixes the order in which every message lists
/// them, so that two worlds that saw the same events send the same bytes,
/// and it lets a tick change each ship in place.
pub struct Game {
    ships: Vec<Ship>,
    asteroids: Vec<Asteroid>,
    tick: u64,
    constants: PhysicsConstants,
    ships_needing_color: HashSet<u32>,
    ships_spawned: HashSet<u32>,
    full_state_interval: u64,
    invincibility_ticks: u64,
}

impl View for Game {
    type V = GameView;

    closed spec fn view(&self) -> GameView {
        GameView {
            ships: self.ships@,
            asteroids: self.asteroids@,
            tick: self.tick,
            constants: self.constants,
            ships_needing_color: self.ships_needing_color@,
            ships_spawned: self.ships_spawned@,
            full_state_interval: self.full_state_interval,
            invincibility_ticks: self.invincibility_ticks,
        }
    }
}

impl Game {
    /// A world at tick zero with the given asteroids and no ship. The world's
    /// edge is applied to the asteroids' positions.
    pub fn new(asteroids: Vec<Asteroid>, constants: PhysicsConstants) -> (game: Game)
        ensures
            game@.wf(),
            game@ == (GameView {
                ships: Seq::empty(),
                asteroids: Seq::new(
                    asteroids@.len(),
                    |k: int|
                        Asteroid {
                            position: wrapped_position(
                                asteroids@[k].position,
                                constants.world_limit,
                            ),
                            ..asteroids@[k]
                        },
                ),
                tick: 0,
                constants,
                ships_needing_color: Set::empty(),
                ships_spawned: Set::empty(),
                full_state_interval: DEFAULT_FULL_STATE_INTERVAL,
                invincibility_ticks: DEFAULT_INVINCIBILITY_TICKS,
            }),
    {
        let mut placed: Vec<Asteroid> = Vec::new();
        let mut k: usize = 0;
        while k < asteroids.len()
            invariant
                k <= asteroids.len(),
                placed@.len() == k,
                forall|j: int|
                    0 <= j < k ==> #[trigger] placed@[j] == (Asteroid {
                        position: wrapped_position(asteroids@[j].position, constants.world_limit),
                        ..asteroids@[j]
                    }),
            decreases asteroids.len() - k,
        {
            let mut rock = asteroids[k];
            rock.update(rock.position, constants.world_limit);
            placed.push(rock);
            k += 1;
        }
        let game = Game {
            ships: Vec::new(),
            asteroids: placed,
            tick: 0,
            constants,
            ships_needing_color: HashSet::new(),
            ships_spawned: HashSet::new(),
            full_state_interval: DEFAULT_FULL_STATE_INTERVAL,
            invincibility_ticks: DEFAULT_INVINCIBILITY_TICKS,
        };
        proof {
            assert(game@.asteroids =~= Seq::new(
                asteroids@.len(),
                |k: int|
                    Asteroid {
                        position: wrapped_position(asteroids@[k].position, constants.world_limit),
                        ..asteroids@[k]
                    },
            ));
            if usable_limit(constants.world_limit) {
                assert forall|j: int| 0 <= j < game@.asteroids.len() implies within_world(
                    (#[trigger] game@.asteroids[j]).position,
                    constants.world_limit,
                ) by {
                    crate::physics::lemma_wrap_stays_inside(
                        asteroids@[j].position.x,
                        constants.world_limit,
                    );
                    crate::physics::lemma_wrap_stays_inside(
                        asteroids@[j].position.y,
                        constants.world_limit,
                    );
                }
            }
        }
        game
    }

    /// Where the ship with this id stands, if there is one.
    fn find_ship(&self, id: u32) -> (r: Option<usize>)
        requires
            self@.wf(),
        ensures
            r is Some <==> self@.has_ship(id),
            r is Some ==> r->0 == self@.position_of(id) && r->0 < self@.ships.len()
                && self@.ships[r->0 as int].id == id,
    {
        let mut i: usize = 0;
        while i < self.ships.len()
            invariant
                i <= self.ships.len(),
                self@.wf(),
                forall|j: int| 0 <= j < i ==> self.ships@[j].id != id,
            decreases self.ships.len() - i,
        {
            if self.ships[i].id == id {
                return Some(i);
            }
            i += 1;
        }
        None
    }

    /// Creates the ship of player `id`, at rest at the origin and with the
    /// given colour, and notes that its colour has to be sent: at once, and
    /// with the tick that follows. The colour has to be one that new ships
    /// get, each channel at least three tenths and below one.
    pub fn spawn_player(&mut self, id: u32, color: Color) -> (ship: Ship)
        requires
            old(self)@.wf(),
            color.spawnable(),
        ensures
            final(self)@.wf(),
            final(self)@ == old(self)@.after_spawn(id, color),
            ship == Ship::fresh(id, color),
            final(self)@.has_ship(id),
            final(self)@.ship(id) == ship,
    {
        let ghost before = self@;
        let ship = Ship::new(id, color);
        match self.find_ship(id) {
            Some(i) => {
                self.ships[i] = ship;
                assert(self.ships@[i as int].id == id);
            },
            None => {
                self.ships.push(ship);
                assert(self.ships@[self.ships.len() - 1].id == id);
            },
        }
        self.ships_needing_color.insert(id);
        self.ships_spawned.insert(id);
        proof {
            assert(self@.ships =~= before.after_spawn(id, color).ships);
            lemma_spawn_adds_one(before, id, color);
        }
        ship
    }

    /// Removes the ship of a player who left.
    pub fn remove_player(&mut self, id: u32)
        requires
            old(self)@.wf(),
        ensures
            final(self)@.wf(),
            final(self)@ == old(self)@.after_remove(id),
            !final(self)@.has_ship(id),
    {
        let ghost before = self@;
        match self.find_ship(id) {
            Some(i) => {
                self.ships.remove(i);
            },
            None => {},
        }
        proof {
            lemma_remove_forgets(before, id);
        }
    }

    /// Whether player `id` has a ship.
    pub fn has_ship(&self, id: u32) -> (r: bool)
        requires
            self@.wf(),
        ensures
            r == self@.has_ship(id),
    {
        self.find_ship(id).is_some()
    }

    /// The ship of player `id`, if there is one.
    pub fn ship(&self, id: u32) -> (r: Option<Ship>)
        requires
            self@.wf(),
        ensures
            r is Some <==> self@.has_ship(id),
            r is Some ==> r->0 == self@.ship(id) && r->0.id == id,
    {
        match self.find_ship(id) {
            Some(i) => Some(self.ships[i]),
            None => None,
        }
    }
}

impl Game {
    /// Takes one input of a player: holds its controls to the unit interval,
    /// creates the player's ship with `spawn_color` if the player has none,
    /// and returns the controls that the integrator has to apply to the ship.
    /// The colour has to be one that new ships get.
    pub fn apply_input(&mut self, input: ClientInput, spawn_color: Color) -> (applied: Input)
        requires
            old(self)@.wf(),
            spawn_color.spawnable(),
        ensures
            final(self)@.wf(),
            applied == (Input { thrust: input.thrust, rotate: input.rotate }).clamped(),
            final(self)@ == old(self)@.after_input(input.player_id, spawn_color),
            final(self)@.has_ship(input.player_id),
    {
        let mut game_input = Input::new(input.thrust, input.rotate);
        game_input.clamp();
        if !self.has_ship(input.player_id) {
            self.spawn_player(input.player_id, spawn_color);
        }
        game_input
    }

    /// Installs the motion that the integrator computed for the ship of
    /// player `id`, and applies the world's edge to the position. Returns
    /// whether there is such a ship.
    pub fn place_ship(&mut self, id: u32, position: Vec2, velocity: Vec2, rotation: Scalar) -> (placed:
        bool)
        requires
            old(self)@.wf(),
        ensures
            final(self)@.wf(),
            placed == old(self)@.has_ship(id),
            final(self)@ == old(self)@.after_place(id, position, velocity, rotation),
    {
        proof {
            lemma_place_keeps_world(self@, id, position, velocity, rotation);
        }
        match self.find_ship(id) {
            Some(i) => {
                let mut ship = self.ships[i];
                ship.apply_input(rotation, velocity, position, &self.constants);
                self.ships[i] = ship;
                true
            },
            None => false,
        }
    }

    /// Installs the position that the integrator computed for the asteroid
    /// at `index`, and applies the world's edge to it. Returns whether there
    /// is such an asteroid.
    pub fn place_asteroid(&mut self, index: usize, position: Vec2) -> (placed: bool)
        requires
            old(self)@.wf(),
        ensures
            final(self)@.wf(),
            placed == (index < old(self)@.asteroids.len()),
            final(self)@ == old(self)@.after_place_asteroid(index as int, position),
    {
        proof {
            lemma_place_asteroid_keeps_world(self@, index as int, position);
        }
        if index < self.asteroids.len() {
            let mut rock = self.asteroids[index];
            rock.update(position, self.constants.world_limit);
            self.asteroids[index] = rock;
            true
        } else {
            false
        }
    }

    /// Advances the world by one tick. `overlapping` names the ships that
    /// overlap an asteroid after this tick's motion. The counter goes up by
    /// one and wraps at the end of its range; every named ship that is not
    /// protected on the new tick respawns, once, and is noted as needing its
    /// colour sent. Every other ship stays as it is. The colours that were
    /// due on the tick before are dropped; those of the ships created since
    /// that tick ended are due on the new one.
    pub fn tick(&mut self, overlapping: &Vec<u32>)
        requires
            old(self)@.wf(),
        ensures
            final(self)@.wf(),
            final(self)@ == old(self)@.after_tick(overlapping@),
    {
        let ghost before = self@;
        let now: u64 = if self.tick == u64::MAX {
            0
        } else {
            self.tick + 1
        };
        self.tick = now;
        std::mem::swap(&mut self.ships_needing_color, &mut self.ships_spawned);
        self.ships_spawned.clear();
        let mut i: usize = 0;
        while i < self.ships.len()
            invariant
                i <= self.ships.len(),
                before.wf(),
                now == before.next_tick(),
                self.ships@.len() == before.ships.len(),
                self.tick == now,
                self.asteroids@ == before.asteroids,
                self.constants == before.constants,
                self.full_state_interval == before.full_state_interval,
                self.invincibility_ticks == before.invincibility_ticks,
                forall|j: int|
                    0 <= j < i ==> self.ships@[j] == before.after_tick(overlapping@).ships[j],
                forall|j: int| i <= j < self.ships@.len() ==> self.ships@[j] == before.ships[j],
                self.ships_spawned@ == Set::<u32>::empty(),
                forall|id: u32|
                    #[trigger] self.ships_needing_color@.contains(id) <==> (
                    before.ships_spawned.contains(id) || before.destroys_among(
                        id,
                        now,
                        overlapping@,
                        i as int,
                    )),
            decreases self.ships.len() - i,
        {
            let ship = self.ships[i];
            let ghost due = self.ships_needing_color@;
            let dies = !ship.is_invincible(now, self.invincibility_ticks) && contains_id(
                overlapping,
                ship.id,
            );
            if dies {
                let mut reborn = ship;
                reborn.respawn(now);
                self.ships[i] = reborn;
                self.ships_needing_color.insert(ship.id);
            }
            proof {
                assert(dies == before.destroyed(before.ships[i as int], now, overlapping@));
                assert forall|id: u32|
                    before.destroys_among(id, now, overlapping@, i + 1) <==> (
                    before.destroys_among(id, now, overlapping@, i as int) || (dies && id
                        == ship.id)) by {
                    if before.destroys_among(id, now, overlapping@, i + 1) {
                        let j = choose|j: int|
                            0 <= j < i + 1 && j < before.ships.len() && before.ships[j].id == id
                                && before.destroyed(#[trigger] before.ships[j], now, overlapping@);
                        if j < i {
                            assert(before.destroys_among(id, now, overlapping@, i as int));
                        }
                    }
                    if before.destroys_among(id, now, overlapping@, i as int) {
                        let j = choose|j: int|
                            0 <= j < i && j < before.ships.len() && before.ships[j].id == id
                                && before.destroyed(#[trigger] before.ships[j], now, overlapping@);
                        assert(j < i + 1);
                    }
                }
                assert forall|id: u32|
                    #[trigger] self.ships_needing_color@.contains(id) <==> (
                    before.ships_spawned.contains(id) || before.destroys_among(
                        id,
                        now,
                        overlapping@,
                        i + 1,
                    )) by {
                    assert(due.contains(id) <==> (before.ships_spawned.contains(id)
                        || before.destroys_among(id, now, overlapping@, i as int)));
                    assert(self.ships_needing_color@.contains(id) <==> (due.contains(id) || (dies
                        && id == ship.id)));
                }
            }
            i += 1;
        }
        proof {
            assert(self@.ships =~= before.after_tick(overlapping@).ships);
            assert forall|id: u32|
                before.destroys_among(id, now, overlapping@, before.ships.len() as int)
                    == before.destroys_id(id, now, overlapping@) by {}
            assert forall|id: u32|
                self@.ships_needing_color.contains(id) <==> before.after_tick(
                    overlapping@,
                ).ships_needing_color.contains(id) by {
                assert(self.ships_needing_color@.contains(id) <==> (before.ships_spawned.contains(
                    id,
                ) || before.destroys_among(id, now, overlapping@, i as int)));
            }
            assert(self@.ships_needing_color =~= before.after_tick(
                overlapping@,
            ).ships_needing_color);
        }
    }

    /// The full snapshot of the world.
    pub fn to_network_state(&self) -> (state: GameState)
        ensures
            state.ships@ == self@.ships,
            state.asteroids@ == self@.asteroids,
            state.tick == self@.tick,
    {
        let mut ships: Vec<Ship> = Vec::new();
        let mut i: usize = 0;
        while i < self.ships.len()
            invariant
                i <= self.ships.len(),
                ships@ == self.ships@.take(i as int),
            decreases self.ships.len() - i,
        {
            ships.push(self.ships[i]);
            assert(self.ships@.take(i + 1) =~= self.ships@.take(i as int).push(self.ships@[i as int]));
            i += 1;
        }
        assert(self.ships@.take(i as int) =~= self.ships@);
        let mut asteroids: Vec<Asteroid> = Vec::new();
        let mut k: usize = 0;
        while k < self.asteroids.len()
            invariant
                k <= self.asteroids.len(),
                asteroids@ == self.asteroids@.take(k as int),
            decreases self.asteroids.len() - k,
        {
            asteroids.push(self.asteroids[k]);
            assert(self.asteroids@.take(k + 1) =~= self.asteroids@.take(k as int).push(
                self.asteroids@[k as int],
            ));
            k += 1;
        }
        assert(self.asteroids@.take(k as int) =~= self.asteroids@);
        GameState { ships, asteroids, tick: self.tick }
    }

    /// The incremental message for the current tick: one record per ship, in
    /// the ships' order. A record carries the colour exactly where the ship
    /// respawned on this tick, was created on it (since the tick before
    /// ended) or after it, or where the full snapshot is due on this tick.
    /// It names no removed ship: those are added by whoever saw the player
    /// leave.
    pub fn to_delta_state(&self) -> (delta: DeltaState)
        requires
            self@.wf(),
        ensures
            delta.tick == self@.tick,
            delta.is_full_state == self@.is_full_state_tick(),
            delta.changed_ships@ == self@.ship_updates(),
            delta.removed_ship_ids@ == Seq::<u32>::empty(),
    {
        let is_full_state = self.tick % self.full_state_interval == 0;
        let mut delta = DeltaState::new(self.tick, is_full_state);
        let mut i: usize = 0;
        while i < self.ships.len()
            invariant
                i <= self.ships.len(),
                self@.wf(),
                is_full_state == self@.is_full_state_tick(),
                delta.tick == self@.tick,
                delta.is_full_state == is_full_state,
                delta.removed_ship_ids@ == Seq::<u32>::empty(),
                delta.changed_ships@.len() == i,
                forall|j: int| 0 <= j < i ==> delta.changed_ships@[j] == self@.ship_updates()[j],
            decreases self.ships.len() - i,
        {
            let ship = self.ships[i];
            let needs_color = self.ships_needing_color.contains(&ship.id) || is_full_state;
            let update = if needs_color {
                ShipUpdate::with_color(&ship)
            } else {
                ShipUpdate::without_color(&ship)
            };
            delta.add_ship_update(update);
            i += 1;
        }
        assert(delta.changed_ships@ =~= self@.ship_updates());
        delta
    }

    /// Whether the full snapshot is due on the current tick.
    pub fn is_full_state_tick(&self) -> (r: bool)
        requires
            self@.wf(),
        ensures
            r == self@.is_full_state_tick(),
    {
        self.tick % self.full_state_interval == 0
    }

    /// The message to broadcast for the current tick: the full snapshot where
    /// it is due, the incremental message on every other tick.
    pub fn broadcast_message(&self) -> (message: ServerMessage)
        requires
            self@.wf(),
        ensures
            match message {
                ServerMessage::GameState(state) => {
                    &&& self@.is_full_state_tick()
                    &&& state.ships@ == self@.ships
                    &&& state.asteroids@ == self@.asteroids
                    &&& state.tick == self@.tick
                },
                ServerMessage::DeltaState(delta) => {
                    &&& !self@.is_full_state_tick()
                    &&& delta.tick == self@.tick
                    &&& !delta.is_full_state
                    &&& delta.changed_ships@ == self@.ship_updates()
                    &&& delta.removed_ship_ids@ == Seq::<u32>::empty()
                },
                ServerMessage::Welcome { .. } => false,
            },
    {
        if self.is_full_state_tick() {
            ServerMessage::GameState(self.to_network_state())
        } else {
            ServerMessage::DeltaState(self.to_delta_state())
        }
    }

    /// Sets the number of ticks between two full snapshots. Zero is refused
    /// and changes nothing.
    pub fn set_full_state_interval(&mut self, interval: u64) -> (accepted: bool)
        requires
            old(self)@.wf(),
        ensures
            final(self)@.wf(),
            accepted == (interval > 0),
            accepted ==> final(self)@ == (GameView { full_state_interval: interval, ..old(self)@ }),
            !accepted ==> final(self)@ == old(self)@,
    {
        if interval > 0 {
            self.full_state_interval = interval;
            true
        } else {
            false
        }
    }

    /// Sets the number of ticks for which a ship is protected after a respawn.
    pub fn set_invincibility_ticks(&mut self, ticks: u64)
        requires
            old(self)@.wf(),
        ensures
            final(self)@.wf(),
            final(self)@ == (GameView { invincibility_ticks: ticks, ..old(self)@ }),
    {
        self.invincibility_ticks = ticks;
    }

    pub fn ships(&self) -> (r: &Vec<Ship>)
        ensures
            r@ == self@.ships,
    {
        &self.ships
    }

    pub fn asteroids(&self) -> (r: &Vec<Asteroid>)
        ensures
            r@ == self@.asteroids,
    {
        &self.asteroids
    }

    pub fn current_tick(&self) -> (r: u64)
        ensures
            r == self@.tick,
    {
        self.tick
    }

    pub fn constants(&self) -> (r: PhysicsConstants)
        ensures
            r == self@.constants,
    {
        self.constants
    }

    pub fn full_state_interval(&self) -> (r: u64)
        ensures
            r == self@.full_state_interval,
    {
        self.full_state_interval
    }

    pub fn invincibility_ticks(&self) -> (r: u64)
        ensures
            r == self@.invincibility_ticks,
    {
        self.invincibility_ticks
    }

    /// Whether the ship of player `id` was created since the last tick ended.
    pub fn spawned_since_tick(&self, id: u32) -> (r: bool)
        ensures
            r == self@.ships_spawned.contains(id),
    {
        self.ships_spawned.contains(&id)
    }

    /// The ships that overlap an asteroid. `distances` holds, for each ship
    /// in the ships' order, its distance to each asteroid; `reaches` holds,
    /// for each asteroid, the sum of its radius and a ship's. A ship overlaps
    /// an asteroid when the distance is strictly below the reach; a ship for
    /// which no distances are given overlaps none.
    pub fn overlapping_ships(&self, distances: &Vec<Vec<Scalar>>, reaches: &Vec<Scalar>) -> (hit:
        Vec<u32>)
        ensures
            forall|id: u32|
                hit@.contains(id) <==> self@.overlaps_id(
                    Seq::new(distances@.len(), |i: int| distances@[i]@),
                    reaches@,
                    id,
                ),
            hit@.len() <= self@.ships.len(),
    {
        let ghost rows = Seq::new(distances@.len(), |i: int| distances@[i]@);
        let mut hit: Vec<u32> = Vec::new();
        let mut i: usize = 0;
        while i < self.ships.len() && i < distances.len()
            invariant
                rows == Seq::new(distances@.len(), |i: int| distances@[i]@),
                hit@.len() <= i,
                i <= self.ships.len(),
                forall|id: u32|
                    hit@.contains(id) <==> (exists|j: int|
                        0 <= j < i && self@.overlaps(rows, reaches@, j) && (
                        #[trigger] self@.ships[j]).id == id),
            decreases self.ships.len() - i,
        {
            let ghost before = hit@;
            if collides_with_any(&distances[i], reaches) {
                let id = self.ships[i].id;
                hit.push(id);
                assert(rows[i as int] == distances@[i as int]@);
                assert(self@.overlaps(rows, reaches@, i as int));
                assert(hit@[before.len() as int] == id);
                assert forall|other: u32| hit@.contains(other) <==> (exists|j: int|
                    0 <= j < i + 1 && self@.overlaps(rows, reaches@, j) && (
                    #[trigger] self@.ships[j]).id == other) by {
                    if before.contains(other) {
                        let w = choose|w: int| 0 <= w < before.len() && before[w] == other;
                        assert(hit@[w] == other);
                    }
                    if hit@.contains(other) {
                        let w = choose|w: int| 0 <= w < hit@.len() && hit@[w] == other;
                        if w < before.len() {
                            assert(before[w] == other);
                        }
                    }
                }
            } else {
                assert(rows[i as int] == distances@[i as int]@);
                assert(!self@.overlaps(rows, reaches@, i as int));
            }
            i += 1;
        }
        hit
    }

    /// Whether the colour of player `id` is noted as due.
    pub fn needs_color(&self, id: u32) -> (r: bool)
        ensures
            r == self@.ships_needing_color.contains(id),
    {
        self.ships_needing_color.contains(&id)
    }
}

} // verus!
