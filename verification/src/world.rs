use vstd::prelude::*;
use crate::entities::{protected_at, Asteroid, Color, Ship};
use crate::math::{Scalar, Vec2};
use crate::network::{ClientInput, ShipUpdate};
use crate::physics::{
    collides_at, usable_limit, within_world, wrapped_position, PhysicsConstants,
};

verus! {

/// The world as contracts see it.
pub struct GameView {
    /// The ships, in the order in which they joined.
    pub ships: Seq<Ship>,
    pub asteroids: Seq<Asteroid>,
    pub tick: u64,
    pub constants: PhysicsConstants,
    /// Ids whose colour is due in the message of the current tick: those
    /// that respawned on it, and those created since the tick before ended.
    pub ships_needing_color: Set<u32>,
    /// Ids of the ships created since the last tick ended.
    pub ships_spawned: Set<u32>,
    pub full_state_interval: u64,
    pub invincibility_ticks: u64,
}

impl GameView {
    /// No two ships share an id.
    pub open spec fn distinct_ids(self) -> bool {
        forall|i: int, j: int|
            0 <= i < j < self.ships.len() ==> self.ships[i].id != self.ships[j].id
    }

    /// Where the world's limit is usable, no ship and no asteroid is beyond
    /// an edge of the world.
    pub open spec fn bounded(self) -> bool {
        usable_limit(self.constants.world_limit) ==> {
            &&& forall|i: int|
                0 <= i < self.ships.len() ==> within_world(
                    (#[trigger] self.ships[i]).position,
                    self.constants.world_limit,
                )
            &&& forall|k: int|
                0 <= k < self.asteroids.len() ==> within_world(
                    (#[trigger] self.asteroids[k]).position,
                    self.constants.world_limit,
                )
        }
    }

    /// Every ship has a colour of the range that new ships get.
    pub open spec fn spawn_colors(self) -> bool {
        forall|i: int| 0 <= i < self.ships.len() ==> (#[trigger] self.ships[i]).color.spawnable()
    }

    /// What every world satisfies: distinct ids, a snapshot interval of at
    /// least one tick, everything within the world's edges, and every ship
    /// in a colour that new ships get.
    pub open spec fn wf(self) -> bool {
        self.distinct_ids() && self.full_state_interval > 0 && self.bounded()
            && self.spawn_colors()
    }

    pub open spec fn has_ship(self, id: u32) -> bool {
        exists|i: int| 0 <= i < self.ships.len() && self.ships[i].id == id
    }

    /// Where the ship with this id stands among the ships.
    pub open spec fn position_of(self, id: u32) -> int {
        choose|i: int| 0 <= i < self.ships.len() && self.ships[i].id == id
    }

    /// The ship with this id. Meaningful where `has_ship(id)`.
    pub open spec fn ship(self, id: u32) -> Ship {
        self.ships[self.position_of(id)]
    }

    /// The tick counter after one more tick. It wraps to zero at the end of
    /// its range.
    pub open spec fn next_tick(self) -> u64 {
        if self.tick == u64::MAX {
            0
        } else {
            (self.tick + 1) as u64
        }
    }

    /// Whether the current tick is one on which the full snapshot is due.
    pub open spec fn is_full_state_tick(self) -> bool {
        self.tick % self.full_state_interval == 0
    }

    /// Whether `ship` is destroyed at tick `now`, given the ids of the ships
    /// that overlap an asteroid: it overlaps one and is not protected.
    pub open spec fn destroyed(self, ship: Ship, now: u64, overlapping: Seq<u32>) -> bool {
        !protected_at(ship.respawn_tick, now, self.invincibility_ticks) && overlapping.contains(
            ship.id,
        )
    }

    /// Whether one of the first `n` ships has this id and is destroyed at
    /// tick `now`.
    pub open spec fn destroys_among(
        self,
        id: u32,
        now: u64,
        overlapping: Seq<u32>,
        n: int,
    ) -> bool {
        exists|i: int|
            0 <= i < n && i < self.ships.len() && self.ships[i].id == id && self.destroyed(
                #[trigger] self.ships[i],
                now,
                overlapping,
            )
    }

    /// Whether a ship with this id is destroyed at tick `now`.
    pub open spec fn destroys_id(self, id: u32, now: u64, overlapping: Seq<u32>) -> bool {
        exists|i: int|
            0 <= i < self.ships.len() && self.ships[i].id == id && self.destroyed(
                #[trigger] self.ships[i],
                now,
                overlapping,
            )
    }

    /// The world after one tick in which the ships named by `overlapping`
    /// overlap an asteroid. The colours due on the new tick are those of the
    /// ships destroyed on it and of the ships created since the tick before
    /// ended; what was due before is dropped.
    pub open spec fn after_tick(self, overlapping: Seq<u32>) -> GameView {
        let now = self.next_tick();
        GameView {
            tick: now,
            ships: Seq::new(
                self.ships.len(),
                |i: int|
                    if self.destroyed(self.ships[i], now, overlapping) {
                        self.ships[i].respawned(now)
                    } else {
                        self.ships[i]
                    },
            ),
            ships_needing_color: Set::new(
                |id: u32| self.destroys_id(id, now, overlapping) || self.ships_spawned.contains(id),
            ),
            ships_spawned: Set::empty(),
            ..self
        }
    }

    /// The world after a ship was created for `id`. A ship that already has
    /// the id is replaced by the new one. The colour of the new ship is due
    /// at once and stays due through the tick that follows.
    pub open spec fn after_spawn(self, id: u32, color: Color) -> GameView {
        GameView {
            ships: if self.has_ship(id) {
                self.ships.update(self.position_of(id), Ship::fresh(id, color))
            } else {
                self.ships.push(Ship::fresh(id, color))
            },
            ships_needing_color: self.ships_needing_color.insert(id),
            ships_spawned: self.ships_spawned.insert(id),
            ..self
        }
    }

    /// The world after an input of player `id` was taken: a player without a
    /// ship gets one in `spawn_color`, and nothing changes for a player who
    /// has one.
    pub open spec fn after_input(self, id: u32, spawn_color: Color) -> GameView {
        if self.has_ship(id) {
            self
        } else {
            self.after_spawn(id, spawn_color)
        }
    }

    /// The world after the first `n` of `inputs` were taken in order, the
    /// one at `i` with the colour at `i`.
    pub open spec fn after_inputs(
        self,
        inputs: Seq<ClientInput>,
        spawn_colors: Seq<Color>,
        n: nat,
    ) -> GameView
        decreases n,
    {
        if n == 0 {
            self
        } else {
            self.after_inputs(inputs, spawn_colors, (n - 1) as nat).after_input(
                inputs[n - 1].player_id,
                spawn_colors[n - 1],
            )
        }
    }

    /// Whether the ship at `i` overlaps an asteroid, given for every ship the
    /// distances to the asteroids and for every asteroid the sum of its
    /// radius and a ship's. A ship without distances overlaps none.
    pub open spec fn overlaps(self, distances: Seq<Seq<Scalar>>, reaches: Seq<Scalar>, i: int) -> bool {
        0 <= i < self.ships.len() && i < distances.len() && exists|k: int|
            collides_at(distances[i], reaches, k)
    }

    /// Whether a ship with this id overlaps an asteroid.
    pub open spec fn overlaps_id(
        self,
        distances: Seq<Seq<Scalar>>,
        reaches: Seq<Scalar>,
        id: u32,
    ) -> bool {
        exists|i: int| self.overlaps(distances, reaches, i) && (#[trigger] self.ships[i]).id == id
    }

    /// The world after the ship with this id, if there is one, has left.
    pub open spec fn after_remove(self, id: u32) -> GameView {
        if self.has_ship(id) {
            GameView { ships: self.ships.remove(self.position_of(id)), ..self }
        } else {
            self
        }
    }

    /// The world after the ship with this id, if there is one, was given a
    /// new motion. The world's edge is applied to the position.
    pub open spec fn after_place(
        self,
        id: u32,
        position: Vec2,
        velocity: Vec2,
        rotation: Scalar,
    ) -> GameView {
        if self.has_ship(id) {
            GameView {
                ships: self.ships.update(
                    self.position_of(id),
                    self.ship(id).moved(
                        wrapped_position(position, self.constants.world_limit),
                        velocity,
                        rotation,
                    ),
                ),
                ..self
            }
        } else {
            self
        }
    }

    /// The world after the asteroid at `index`, if there is one, was given a
    /// new position. The world's edge is applied to it.
    pub open spec fn after_place_asteroid(self, index: int, position: Vec2) -> GameView {
        if 0 <= index < self.asteroids.len() {
            GameView {
                asteroids: self.asteroids.update(
                    index,
                    Asteroid {
                        position: wrapped_position(position, self.constants.world_limit),
                        ..self.asteroids[index]
                    },
                ),
                ..self
            }
        } else {
            self
        }
    }

    /// Whether the record of `ship` carries its colour on the current tick.
    pub open spec fn sends_color(self, ship: Ship) -> bool {
        self.ships_needing_color.contains(ship.id) || self.is_full_state_tick()
    }

    /// The records of all ships for the current tick.
    pub open spec fn ship_updates(self) -> Seq<ShipUpdate> {
        Seq::new(
            self.ships.len(),
            |i: int| ShipUpdate::of(self.ships[i], self.sends_color(self.ships[i])),
        )
    }
}

/// In a well-formed world with a usable limit every coordinate of every ship
/// and asteroid lies between the negative and the positive edge.
pub proof fn lemma_everything_within_world(world: GameView)
    requires
        world.wf(),
        usable_limit(world.constants.world_limit),
    ensures
        forall|i: int|
            0 <= i < world.ships.len() ==> {
                &&& !world.constants.world_limit.less((#[trigger] world.ships[i]).position.x)
                &&& !world.ships[i].position.x.less(world.constants.world_limit.negated())
                &&& !world.constants.world_limit.less(world.ships[i].position.y)
                &&& !world.ships[i].position.y.less(world.constants.world_limit.negated())
            },
        forall|k: int|
            0 <= k < world.asteroids.len() ==> {
                &&& !world.constants.world_limit.less((#[trigger] world.asteroids[k]).position.x)
                &&& !world.asteroids[k].position.x.less(world.constants.world_limit.negated())
                &&& !world.constants.world_limit.less(world.asteroids[k].position.y)
                &&& !world.asteroids[k].position.y.less(world.constants.world_limit.negated())
            },
{
    assert forall|i: int| 0 <= i < world.ships.len() implies within_world(
        (#[trigger] world.ships[i]).position,
        world.constants.world_limit,
    ) by {}
    assert forall|k: int| 0 <= k < world.asteroids.len() implies within_world(
        (#[trigger] world.asteroids[k]).position,
        world.constants.world_limit,
    ) by {}
}

/// Placing a ship keeps the world well formed and moves no other ship: the
/// placed ship is within the world's edges wherever it was put.
pub proof fn lemma_place_keeps_world(
    world: GameView,
    id: u32,
    position: Vec2,
    velocity: Vec2,
    rotation: Scalar,
)
    requires
        world.wf(),
    ensures
        world.after_place(id, position, velocity, rotation).wf(),
        world.after_place(id, position, velocity, rotation).ships.len() == world.ships.len(),
        world.has_ship(id) ==> world.after_place(id, position, velocity, rotation).ships[world.position_of(
            id,
        )] == world.ship(id).moved(
            wrapped_position(position, world.constants.world_limit),
            velocity,
            rotation,
        ),
        forall|i: int|
            0 <= i < world.ships.len() && world.ships[i].id != id ==> #[trigger] world.after_place(
                id,
                position,
                velocity,
                rotation,
            ).ships[i] == world.ships[i],
{
    let after = world.after_place(id, position, velocity, rotation);
    let limit = world.constants.world_limit;
    if world.has_ship(id) {
        let at = world.position_of(id);
        assert forall|i: int, j: int| 0 <= i < j < after.ships.len() implies after.ships[i].id
            != after.ships[j].id by {
            assert(after.ships[i].id == world.ships[i].id);
            assert(after.ships[j].id == world.ships[j].id);
        }
        if usable_limit(limit) {
            crate::physics::lemma_wrap_stays_inside(position.x, limit);
            crate::physics::lemma_wrap_stays_inside(position.y, limit);
            assert forall|i: int| 0 <= i < after.ships.len() implies within_world(
                (#[trigger] after.ships[i]).position,
                limit,
            ) by {
                if i != at {
                    assert(after.ships[i] == world.ships[i]);
                }
            }
        }
    }
}

/// Placing an asteroid keeps the world well formed and moves nothing else.
pub proof fn lemma_place_asteroid_keeps_world(world: GameView, index: int, position: Vec2)
    requires
        world.wf(),
    ensures
        world.after_place_asteroid(index, position).wf(),
        world.after_place_asteroid(index, position).ships == world.ships,
        world.after_place_asteroid(index, position).asteroids.len() == world.asteroids.len(),
{
    let after = world.after_place_asteroid(index, position);
    let limit = world.constants.world_limit;
    if 0 <= index < world.asteroids.len() && usable_limit(limit) {
        crate::physics::lemma_wrap_stays_inside(position.x, limit);
        crate::physics::lemma_wrap_stays_inside(position.y, limit);
        assert forall|k: int| 0 <= k < after.asteroids.len() implies within_world(
            (#[trigger] after.asteroids[k]).position,
            limit,
        ) by {
            if k != index {
                assert(after.asteroids[k] == world.asteroids[k]);
            }
        }
    }
}

/// A tick keeps the world well formed: it neither adds nor removes a ship,
/// and no ship changes its id or colour.
pub proof fn lemma_tick_keeps_ships(world: GameView, overlapping: Seq<u32>)
    requires
        world.wf(),
    ensures
        world.after_tick(overlapping).wf(),
        world.after_tick(overlapping).ships.len() == world.ships.len(),
        world.after_tick(overlapping).asteroids == world.asteroids,
        forall|i: int|
            0 <= i < world.ships.len() ==> (#[trigger] world.after_tick(overlapping).ships[i]).id
                == world.ships[i].id && world.after_tick(overlapping).ships[i].color
                == world.ships[i].color,
{
}

/// Every tick moves the counter on by exactly one, modulo two to the power
/// of sixty-four: it grows strictly, except for the one step from the end of
/// its range to zero.
pub proof fn lemma_tick_counts_up(world: GameView, overlapping: Seq<u32>)
    ensures
        world.after_tick(overlapping).tick as int == (world.tick + 1) % 0x1_0000_0000_0000_0000,
        world.tick < u64::MAX ==> world.after_tick(overlapping).tick > world.tick,
        world.tick == u64::MAX ==> world.after_tick(overlapping).tick == 0,
{
}

/// A ship that overlaps an asteroid and is not protected on the new tick is
/// back at the origin, at rest and with heading zero, after the tick; its
/// respawn tick is the new tick and its colour is due. This holds however
/// often the ship is named.
pub proof fn lemma_collision_respawns(world: GameView, overlapping: Seq<u32>, i: int)
    requires
        world.wf(),
        0 <= i < world.ships.len(),
        overlapping.contains(world.ships[i].id),
        !protected_at(world.ships[i].respawn_tick, world.next_tick(), world.invincibility_ticks),
    ensures
        world.after_tick(overlapping).ships[i].position == Vec2::origin(),
        world.after_tick(overlapping).ships[i].velocity == Vec2::origin(),
        world.after_tick(overlapping).ships[i].rotation == Scalar::zero(),
        world.after_tick(overlapping).ships[i].respawn_tick == Some(
            world.after_tick(overlapping).tick,
        ),
        world.after_tick(overlapping).ships_needing_color.contains(world.ships[i].id),
{
    let now = world.next_tick();
    assert(world.destroyed(world.ships[i], now, overlapping));
    assert(world.destroys_id(world.ships[i].id, now, overlapping));
}

/// A ship that is destroyed on a tick is protected from that tick on for
/// exactly the world's number of protection ticks: on every tick of that
/// window, the first included, and on no later one.
pub proof fn lemma_respawn_starts_window(
    world: GameView,
    overlapping: Seq<u32>,
    i: int,
    later: u64,
)
    requires
        world.wf(),
        0 <= i < world.ships.len(),
        overlapping.contains(world.ships[i].id),
        !protected_at(world.ships[i].respawn_tick, world.next_tick(), world.invincibility_ticks),
        later >= world.next_tick(),
    ensures
        protected_at(
            world.after_tick(overlapping).ships[i].respawn_tick,
            later,
            world.invincibility_ticks,
        ) <==> later - world.after_tick(overlapping).tick < world.invincibility_ticks,
{
    lemma_collision_respawns(world, overlapping, i);
}

/// A ship that is protected on the new tick, or that overlaps no asteroid,
/// comes through the tick unchanged, and its colour is due on the new tick
/// only if the ship was created since the tick before ended.
pub proof fn lemma_spared_ship_unchanged(world: GameView, overlapping: Seq<u32>, i: int)
    requires
        world.wf(),
        0 <= i < world.ships.len(),
        protected_at(world.ships[i].respawn_tick, world.next_tick(), world.invincibility_ticks)
            || !overlapping.contains(world.ships[i].id),
    ensures
        world.after_tick(overlapping).ships[i] == world.ships[i],
        world.after_tick(overlapping).ships_needing_color.contains(world.ships[i].id)
            == world.ships_spawned.contains(world.ships[i].id),
{
    let now = world.next_tick();
    let id = world.ships[i].id;
    if world.destroys_id(id, now, overlapping) {
        let j = choose|j: int|
            0 <= j < world.ships.len() && world.ships[j].id == id && world.destroyed(
                #[trigger] world.ships[j],
                now,
                overlapping,
            );
        assert(j == i);
    }
}

/// The record of a ship carries the ship's colour exactly when the colour is
/// due for that ship or the full snapshot is due on the current tick;
/// otherwise it carries none. The other fields are always the ship's own.
pub proof fn lemma_color_exactly_when_due(world: GameView, i: int)
    requires
        0 <= i < world.ships.len(),
    ensures
        world.ship_updates().len() == world.ships.len(),
        world.ship_updates()[i].id == world.ships[i].id,
        world.ship_updates()[i].position == world.ships[i].position,
        world.ship_updates()[i].velocity == world.ships[i].velocity,
        world.ship_updates()[i].rotation == world.ships[i].rotation,
        world.ship_updates()[i].color == if world.ships_needing_color.contains(world.ships[i].id)
            || world.is_full_state_tick() {
            Some(world.ships[i].color)
        } else {
            None::<Color>
        },
{
}

/// Right after a tick, the record of a ship carries a colour exactly when
/// the ship respawned on that tick, was created since the tick before ended,
/// or the full snapshot is due on the new tick.
pub proof fn lemma_color_after_tick(world: GameView, overlapping: Seq<u32>, i: int)
    requires
        world.wf(),
        0 <= i < world.ships.len(),
    ensures
        world.after_tick(overlapping).ship_updates()[i].color is Some <==> (world.destroyed(
            world.ships[i],
            world.next_tick(),
            overlapping,
        ) || world.ships_spawned.contains(world.ships[i].id) || world.after_tick(
            overlapping,
        ).is_full_state_tick()),
        world.after_tick(overlapping).ship_updates()[i].color is Some ==> world.after_tick(
            overlapping,
        ).ship_updates()[i].color == Some(world.ships[i].color),
        world.after_tick(overlapping).ships_spawned == Set::<u32>::empty(),
{
    let now = world.next_tick();
    let after = world.after_tick(overlapping);
    let id = world.ships[i].id;
    assert(after.ships[i].id == id);
    if world.destroyed(world.ships[i], now, overlapping) {
        assert(world.destroys_id(id, now, overlapping));
    }
    if world.destroys_id(id, now, overlapping) {
        let j = choose|j: int|
            0 <= j < world.ships.len() && world.ships[j].id == id && world.destroyed(
                #[trigger] world.ships[j],
                now,
                overlapping,
            );
        assert(j == i);
    }
}

/// A ship that was just created is the last of the ships or stands where the
/// ship it replaced stood; it is at rest at the origin, its colour is due,
/// and every other ship is as before.
pub proof fn lemma_spawn_adds_one(world: GameView, id: u32, color: Color)
    requires
        world.wf(),
        color.spawnable(),
    ensures
        world.after_spawn(id, color).wf(),
        world.after_spawn(id, color).has_ship(id),
        world.after_spawn(id, color).ship(id) == Ship::fresh(id, color),
        world.after_spawn(id, color).ships_needing_color.contains(id),
        world.after_spawn(id, color).ships_spawned.contains(id),
        !world.has_ship(id) ==> world.after_spawn(id, color).ships.len() == world.ships.len() + 1,
        forall|other: u32|
            other != id && world.has_ship(other) ==> world.after_spawn(id, color).has_ship(other)
                && world.after_spawn(id, color).ship(other) == world.ship(other),
{
    let after = world.after_spawn(id, color);
    let at = if world.has_ship(id) {
        world.position_of(id)
    } else {
        world.ships.len() as int
    };
    assert(after.ships[at].id == id);
    assert forall|other: u32| other != id && world.has_ship(other) implies after.has_ship(other)
        && after.ship(other) == world.ship(other) by {
        let k = world.position_of(other);
        assert(after.ships[k] == world.ships[k]);
        assert(after.has_ship(other));
        let k2 = after.position_of(other);
        assert(after.ships[k2].id == other);
        if k2 != k {
            assert(k2 < after.ships.len());
        }
    }
}

/// Once a player's ship was removed the world has no ship of that id, and
/// every other ship is as before.
pub proof fn lemma_remove_forgets(world: GameView, id: u32)
    requires
        world.wf(),
    ensures
        world.after_remove(id).wf(),
        !world.after_remove(id).has_ship(id),
        forall|other: u32|
            other != id && world.has_ship(other) ==> world.after_remove(id).has_ship(other)
                && world.after_remove(id).ship(other) == world.ship(other),
{
    let after = world.after_remove(id);
    if world.has_ship(id) {
        let at = world.position_of(id);
        assert forall|k: int| 0 <= k < after.ships.len() implies after.ships[k] == world.ships[if k
            < at {
            k
        } else {
            k + 1
        }] by {}
        assert forall|other: u32| other != id && world.has_ship(other) implies after.has_ship(other)
            && after.ship(other) == world.ship(other) by {
            let k = world.position_of(other);
            let k_after = if k < at {
                k
            } else {
                k - 1
            };
            assert(after.ships[k_after] == world.ships[k]);
            assert(after.has_ship(other));
            let k2 = after.position_of(other);
            assert(after.ships[k2].id == other);
        }
    }
}

/// The colour of a new ship travels with the tick on which the ship
/// appears: when a ship is created and the world then ticks, the record of
/// that ship for the new tick carries the colour it was created with,
/// whatever else happens on the tick. On the tick after, the colour is due
/// again only if the ship respawns or the full snapshot is due.
pub proof fn lemma_spawn_color_travels(
    world: GameView,
    id: u32,
    color: Color,
    overlapping: Seq<u32>,
    next_overlapping: Seq<u32>,
)
    requires
        world.wf(),
        color.spawnable(),
    ensures
        ({
            let spawned = world.after_spawn(id, color);
            let at = spawned.position_of(id);
            let ticked = spawned.after_tick(overlapping);
            let later = ticked.after_tick(next_overlapping);
            &&& 0 <= at < ticked.ships.len()
            &&& ticked.ship_updates()[at].id == id
            &&& ticked.ship_updates()[at].color == Some(color)
            &&& later.ship_updates()[at].id == id
            &&& later.ship_updates()[at].color is Some <==> (ticked.destroyed(
                ticked.ships[at],
                ticked.next_tick(),
                next_overlapping,
            ) || later.is_full_state_tick())
        }),
{
    lemma_spawn_adds_one(world, id, color);
    let spawned = world.after_spawn(id, color);
    let at = spawned.position_of(id);
    assert(spawned.ships[at] == Ship::fresh(id, color));
    lemma_tick_keeps_ships(spawned, overlapping);
    lemma_color_after_tick(spawned, overlapping, at);
    let ticked = spawned.after_tick(overlapping);
    assert(ticked.ships[at].id == id);
    lemma_tick_keeps_ships(ticked, next_overlapping);
    lemma_color_after_tick(ticked, next_overlapping, at);
}

/// Taking inputs keeps the world well formed, removes no ship and changes
/// none that was there; afterwards every player whose input was taken has a
/// ship.
pub proof fn lemma_inputs_give_ships(
    world: GameView,
    inputs: Seq<ClientInput>,
    spawn_colors: Seq<Color>,
    n: nat,
)
    requires
        world.wf(),
        n <= inputs.len(),
        n <= spawn_colors.len(),
        forall|i: int| 0 <= i < n ==> (#[trigger] spawn_colors[i]).spawnable(),
    ensures
        world.after_inputs(inputs, spawn_colors, n).wf(),
        world.after_inputs(inputs, spawn_colors, n).tick == world.tick,
        world.after_inputs(inputs, spawn_colors, n).asteroids == world.asteroids,
        forall|id: u32|
            world.has_ship(id) ==> world.after_inputs(inputs, spawn_colors, n).has_ship(id)
                && world.after_inputs(inputs, spawn_colors, n).ship(id) == world.ship(id),
        forall|i: int|
            0 <= i < n ==> world.after_inputs(inputs, spawn_colors, n).has_ship(
                (#[trigger] inputs[i]).player_id,
            ),
        forall|i: int|
            0 <= i < n && !world.has_ship((#[trigger] inputs[i]).player_id) ==> world.after_inputs(
                inputs,
                spawn_colors,
                n,
            ).ships_spawned.contains(inputs[i].player_id),
        forall|id: u32|
            world.ships_spawned.contains(id) ==> world.after_inputs(
                inputs,
                spawn_colors,
                n,
            ).ships_spawned.contains(id),
    decreases n,
{
    if n > 0 {
        let m = (n - 1) as nat;
        lemma_inputs_give_ships(world, inputs, spawn_colors, m);
        let before = world.after_inputs(inputs, spawn_colors, m);
        let id = inputs[n - 1].player_id;
        let after = world.after_inputs(inputs, spawn_colors, n);
        assert(after == before.after_input(id, spawn_colors[n - 1]));
        if !before.has_ship(id) {
            lemma_spawn_adds_one(before, id, spawn_colors[n - 1]);
            assert forall|other: u32| world.has_ship(other) implies after.has_ship(other)
                && after.ship(other) == world.ship(other) by {
                assert(before.has_ship(other));
                assert(other != id);
            }
            assert forall|i: int| 0 <= i < n implies after.has_ship(
                (#[trigger] inputs[i]).player_id,
            ) by {
                if i < m {
                    assert(before.has_ship(inputs[i].player_id));
                }
            }
        }
        assert forall|i: int|
            0 <= i < n && !world.has_ship(
                (#[trigger] inputs[i]).player_id,
            ) implies after.ships_spawned.contains(inputs[i].player_id) by {
            if i < m {
                assert(before.ships_spawned.contains(inputs[i].player_id));
            } else if before.has_ship(id) {
                lemma_ships_come_from_inputs(world, inputs, spawn_colors, m, id);
            }
        }
    }
}

/// A ship that is there after inputs were taken was there before, or was
/// created by one of them and is noted as created.
pub proof fn lemma_ships_come_from_inputs(
    world: GameView,
    inputs: Seq<ClientInput>,
    spawn_colors: Seq<Color>,
    n: nat,
    id: u32,
)
    requires
        n <= inputs.len(),
        n <= spawn_colors.len(),
        world.after_inputs(inputs, spawn_colors, n).has_ship(id),
    ensures
        world.has_ship(id) || world.after_inputs(inputs, spawn_colors, n).ships_spawned.contains(
            id,
        ),
    decreases n,
{
    if n > 0 {
        let m = (n - 1) as nat;
        let before = world.after_inputs(inputs, spawn_colors, m);
        let after = world.after_inputs(inputs, spawn_colors, n);
        let player = inputs[n - 1].player_id;
        assert(after == before.after_input(player, spawn_colors[n - 1]));
        if before.has_ship(player) {
            lemma_ships_come_from_inputs(world, inputs, spawn_colors, m, id);
        } else if id != player {
            let k = after.position_of(id);
            assert(after.ships[k].id == id);
            assert(k < before.ships.len());
            assert(before.ships[k].id == id);
            lemma_ships_come_from_inputs(world, inputs, spawn_colors, m, id);
        }
    }
}

/// A ship that is not protected on the new tick, and whose distance to some
/// asteroid is strictly below the sum of the two radii, respawns on the
/// tick: whoever lists the overlapping ships by these distances has it
/// among them.
pub proof fn lemma_distance_below_reach_respawns(
    world: GameView,
    distances: Seq<Seq<Scalar>>,
    reaches: Seq<Scalar>,
    overlapping: Seq<u32>,
    i: int,
    k: int,
)
    requires
        world.wf(),
        0 <= i < world.ships.len(),
        i < distances.len(),
        collides_at(distances[i], reaches, k),
        forall|id: u32| overlapping.contains(id) <==> world.overlaps_id(distances, reaches, id),
        !protected_at(world.ships[i].respawn_tick, world.next_tick(), world.invincibility_ticks),
    ensures
        world.after_tick(overlapping).ships[i] == world.ships[i].respawned(world.next_tick()),
        world.after_tick(overlapping).ships_needing_color.contains(world.ships[i].id),
{
    assert(world.overlaps(distances, reaches, i));
    assert(world.overlaps_id(distances, reaches, world.ships[i].id));
    lemma_collision_respawns(world, overlapping, i);
}

} // verus!
