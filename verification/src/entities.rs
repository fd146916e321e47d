use vstd::prelude::*;
use crate::math::{Scalar, Vec2};
use crate::physics::{wrap_position, wrapped_position, PhysicsConstants};

verus! {

/// Bit pattern of the least value of a channel of a colour that a new ship
/// may get: three tenths, rounded to single precision.
pub const MIN_SPAWN_CHANNEL_BITS: u32 = 0x3E99_999A;

/// Bit pattern of the bound that every channel of such a colour stays below:
/// the number one.
pub const SPAWN_CHANNEL_BOUND_BITS: u32 = 0x3F80_0000;

/// Whether a channel lies in the range of the colours that new ships get: it
/// is a number, at least three tenths and below one.
pub open spec fn spawn_channel(channel: Scalar) -> bool {
    !channel.less(Scalar { bits: MIN_SPAWN_CHANNEL_BITS }) && channel.less(
        Scalar { bits: SPAWN_CHANNEL_BOUND_BITS },
    )
}

/// The colour of a ship, one scalar per channel.
#[derive(Clone, Copy, Debug, PartialEq, Eq, Structural)]
pub struct Color {
    pub r: Scalar,
    pub g: Scalar,
    pub b: Scalar,
}

impl Color {
    /// Whether a new ship may get this colour: every channel is at least
    /// three tenths and below one.
    pub open spec fn spawnable(self) -> bool {
        spawn_channel(self.r) && spawn_channel(self.g) && spawn_channel(self.b)
    }

    /// Whether a new ship may get this colour.
    pub fn is_spawn_color(&self) -> (r: bool)
        ensures
            r == self.spawnable(),
    {
        let low = Scalar { bits: MIN_SPAWN_CHANNEL_BITS };
        let bound = Scalar { bits: SPAWN_CHANNEL_BOUND_BITS };
        !self.r.lt(low) && self.r.lt(bound) && !self.g.lt(low) && self.g.lt(bound) && !self.b.lt(
            low,
        ) && self.b.lt(bound)
    }

    pub fn new(r: Scalar, g: Scalar, b: Scalar) -> (c: Color)
        ensures
            c.r == r,
            c.g == g,
            c.b == b,
    {
        Color { r, g, b }
    }

    /// All three channels at one.
    pub fn white() -> (c: Color)
        ensures
            c == (Color { r: Scalar::one(), g: Scalar::one(), b: Scalar::one() }),
    {
        Color { r: Scalar { bits: 0x3F80_0000 }, g: Scalar { bits: 0x3F80_0000 }, b: Scalar { bits: 0x3F80_0000 } }
    }

    /// All three channels at zero.
    pub fn black() -> (c: Color)
        ensures
            c == (Color { r: Scalar::zero(), g: Scalar::zero(), b: Scalar::zero() }),
    {
        Color { r: Scalar { bits: 0 }, g: Scalar { bits: 0 }, b: Scalar { bits: 0 } }
    }

    /// The green channel at one, the others at zero.
    pub fn green() -> (c: Color)
        ensures
            c == (Color { r: Scalar::zero(), g: Scalar::one(), b: Scalar::zero() }),
    {
        Color { r: Scalar { bits: 0 }, g: Scalar { bits: 0x3F80_0000 }, b: Scalar { bits: 0 } }
    }

    /// The blue channel at one, the others at zero.
    pub fn blue() -> (c: Color)
        ensures
            c == (Color { r: Scalar::zero(), g: Scalar::zero(), b: Scalar::one() }),
    {
        Color { r: Scalar { bits: 0 }, g: Scalar { bits: 0 }, b: Scalar { bits: 0x3F80_0000 } }
    }

    /// The red channel at one, the others at zero.
    pub fn red() -> (c: Color)
        ensures
            c == (Color { r: Scalar::one(), g: Scalar::zero(), b: Scalar::zero() }),
    {
        Color { r: Scalar { bits: 0x3F80_0000 }, g: Scalar { bits: 0 }, b: Scalar { bits: 0 } }
    }
}

impl Default for Color {
    fn default() -> (c: Color)
        ensures
            c == (Color { r: Scalar::one(), g: Scalar::one(), b: Scalar::one() }),
    {
        Color::white()
    }
}

/// Whether a ship that respawned at `respawn_tick` (if it ever did) is still
/// protected at `current_tick`, for a protection of `window` ticks: exactly
/// on the ticks from the respawn up to, and without, the respawn plus the
/// window.
pub open spec fn protected_at(respawn_tick: Option<u64>, current_tick: u64, window: u64) -> bool {
    match respawn_tick {
        Some(since) => since <= current_tick && current_tick - since < window,
        None => false,
    }
}

/// A player's ship.
#[derive(Clone, Copy, Debug, PartialEq, Eq)]
pub struct Ship {
    pub id: u32,
    pub position: Vec2,
    pub velocity: Vec2,
    pub rotation: Scalar,
    pub color: Color,
    /// Tick of the last respawn, if there was one.
    pub respawn_tick: Option<u64>,
}

impl Ship {
    /// The ship as it is right after a respawn at `current_tick`: at rest at
    /// the origin, heading zero, same id and colour.
    pub open spec fn respawned(self, current_tick: u64) -> Ship {
        Ship {
            id: self.id,
            position: Vec2::origin(),
            velocity: Vec2::origin(),
            rotation: Scalar::zero(),
            color: self.color,
            respawn_tick: Some(current_tick),
        }
    }

    /// A ship that was just created: at rest at the origin and never respawned.
    pub open spec fn fresh(id: u32, color: Color) -> Ship {
        Ship {
            id,
            position: Vec2::origin(),
            velocity: Vec2::origin(),
            rotation: Scalar::zero(),
            color,
            respawn_tick: None,
        }
    }

    /// The ship with its motion replaced and everything else kept.
    pub open spec fn moved(self, position: Vec2, velocity: Vec2, rotation: Scalar) -> Ship {
        Ship {
            id: self.id,
            position,
            velocity,
            rotation,
            color: self.color,
            respawn_tick: self.respawn_tick,
        }
    }

    pub fn new(id: u32, color: Color) -> (ship: Ship)
        ensures
            ship == Ship::fresh(id, color),
    {
        Ship {
            id,
            position: Vec2::zero(),
            velocity: Vec2::zero(),
            rotation: Scalar { bits: 0 },
            color,
            respawn_tick: None,
        }
    }

    /// Puts the ship back at the origin after it was destroyed.
    pub fn respawn(&mut self, current_tick: u64)
        ensures
            *final(self) == old(self).respawned(current_tick),
    {
        self.position = Vec2::zero();
        self.velocity = Vec2::zero();
        self.rotation = Scalar { bits: 0 };
        self.respawn_tick = Some(current_tick);
    }

    /// Whether the ship is still protected after its last respawn.
    pub fn is_invincible(&self, current_tick: u64, invincibility_ticks: u64) -> (r: bool)
        ensures
            r == protected_at(self.respawn_tick, current_tick, invincibility_ticks),
    {
        match self.respawn_tick {
            Some(since) => since <= current_tick && current_tick - since < invincibility_ticks,
            None => false,
        }
    }

    /// Ends a step under control: installs the heading, the velocity and the
    /// position that the integrator computed for this step, and applies the
    /// world's edge to the position.
    pub fn apply_input(
        &mut self,
        rotation: Scalar,
        velocity: Vec2,
        position: Vec2,
        constants: &PhysicsConstants,
    )
        ensures
            *final(self) == old(self).moved(
                wrapped_position(position, constants.world_limit),
                velocity,
                rotation,
            ),
    {
        let mut wrapped = position;
        wrap_position(&mut wrapped, constants.world_limit);
        self.rotation = rotation;
        self.velocity = velocity;
        self.position = wrapped;
    }

    /// Ends a step without control: installs the velocity and the position
    /// that the integrator computed for this step, and applies the world's
    /// edge to the position. The heading stays.
    pub fn update(&mut self, velocity: Vec2, position: Vec2, constants: &PhysicsConstants)
        ensures
            *final(self) == old(self).moved(
                wrapped_position(position, constants.world_limit),
                velocity,
                old(self).rotation,
            ),
    {
        let mut wrapped = position;
        wrap_position(&mut wrapped, constants.world_limit);
        self.velocity = velocity;
        self.position = wrapped;
    }
}

/// A drifting rock. Its velocity and radius never change.
#[derive(Clone, Copy, Debug, PartialEq, Eq)]
pub struct Asteroid {
    pub id: u32,
    pub position: Vec2,
    pub velocity: Vec2,
    pub radius: Scalar,
}

impl Asteroid {
    pub fn new(id: u32, position: Vec2, velocity: Vec2, radius: Scalar) -> (a: Asteroid)
        ensures
            a == (Asteroid { id, position, velocity, radius }),
    {
        Asteroid { id, position, velocity, radius }
    }

    /// Ends a step: installs the position that the integrator computed for
    /// this step and applies the world's edge to it.
    pub fn update(&mut self, position: Vec2, world_limit: Scalar)
        ensures
            *final(self) == (Asteroid {
                position: wrapped_position(position, world_limit),
                ..*old(self)
            }),
    {
        let mut wrapped = position;
        wrap_position(&mut wrapped, world_limit);
        self.position = wrapped;
    }
}

/// A ship is protected on every tick of its window and on no other: from the
/// respawn tick on, for `window` ticks.
pub proof fn lemma_protection_window(respawn_tick: u64, current_tick: u64, window: u64)
    ensures
        protected_at(Some(respawn_tick), current_tick, window) <==> (respawn_tick <= current_tick
            && (current_tick as int) < respawn_tick + window),
        !protected_at(None, current_tick, window),
{
}

/// A ship that respawns at a tick is protected on that very tick whenever the
/// window is not empty, and no longer once the window has passed.
pub proof fn lemma_respawn_protects(ship: Ship, respawn_tick: u64, later: u64, window: u64)
    requires
        respawn_tick <= later,
    ensures
        protected_at(ship.respawned(respawn_tick).respawn_tick, later, window) <==> later
            - respawn_tick < window,
{
}

} // verus!
