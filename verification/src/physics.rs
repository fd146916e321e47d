use vstd::prelude::*;
use crate::math::{Scalar, Vec2};

verus! {

/// Bit pattern of the number minus one.
pub const MINUS_ONE_BITS: u32 = 0xBF80_0000;

/// Bit pattern of the number one.
pub const ONE_BITS: u32 = 0x3F80_0000;

/// A control value held to the interval from minus one to one: a value below
/// minus one becomes minus one, a value above one becomes one, and anything
/// else, a pattern that is not a number included, stays as it is.
pub open spec fn clamped_unit(value: Scalar) -> Scalar {
    if value.less(Scalar { bits: MINUS_ONE_BITS }) {
        Scalar { bits: MINUS_ONE_BITS }
    } else if (Scalar { bits: ONE_BITS }).less(value) {
        Scalar { bits: ONE_BITS }
    } else {
        value
    }
}

/// A coordinate after the world's edge has been applied: past the positive
/// edge it reappears exactly on the negative edge, past the negative edge
/// exactly on the positive one, and inside the world it is untouched.
pub open spec fn wrapped_coordinate(coordinate: Scalar, world_limit: Scalar) -> Scalar {
    if world_limit.less(coordinate) {
        world_limit.negated()
    } else if coordinate.less(world_limit.negated()) {
        world_limit
    } else {
        coordinate
    }
}

/// A position after the world's edge has been applied to both axes.
pub open spec fn wrapped_position(position: Vec2, world_limit: Scalar) -> Vec2 {
    Vec2 {
        x: wrapped_coordinate(position.x, world_limit),
        y: wrapped_coordinate(position.y, world_limit),
    }
}

/// Whether a world can have this limit: it is a number and not below zero.
pub open spec fn usable_limit(world_limit: Scalar) -> bool {
    !world_limit.nan() && world_limit.ordinal() >= 0
}

/// Whether a coordinate is not beyond either edge of the world.
pub open spec fn inside(coordinate: Scalar, world_limit: Scalar) -> bool {
    !world_limit.less(coordinate) && !coordinate.less(world_limit.negated())
}

/// Whether a position is not beyond any edge of the world.
pub open spec fn within_world(position: Vec2, world_limit: Scalar) -> bool {
    inside(position.x, world_limit) && inside(position.y, world_limit)
}

/// Constants of the motion model, shared by every party that integrates ships.
#[derive(Clone, Copy, Debug, PartialEq, Eq, Structural)]
pub struct PhysicsConstants {
    pub thrust_accel: Scalar,
    pub rotation_speed: Scalar,
    pub max_speed: Scalar,
    pub drag: Scalar,
    pub world_limit: Scalar,
    pub ship_radius: Scalar,
}

impl PhysicsConstants {
    pub fn from_game_constants(
        thrust_accel: Scalar,
        rotation_speed: Scalar,
        max_speed: Scalar,
        drag: Scalar,
        world_limit: Scalar,
        ship_radius: Scalar,
    ) -> (r: PhysicsConstants)
        ensures
            r == (PhysicsConstants {
                thrust_accel,
                rotation_speed,
                max_speed,
                drag,
                world_limit,
                ship_radius,
            }),
    {
        PhysicsConstants { thrust_accel, rotation_speed, max_speed, drag, world_limit, ship_radius }
    }
}

/// What a player asks of their ship: thrust along the heading and a turn rate.
#[derive(Clone, Copy, Debug, PartialEq, Eq, Structural)]
pub struct Input {
    pub thrust: Scalar,
    pub rotate: Scalar,
}

impl Input {
    /// The input with both controls held to the unit interval.
    pub open spec fn clamped(self) -> Input {
        Input { thrust: clamped_unit(self.thrust), rotate: clamped_unit(self.rotate) }
    }

    pub fn new(thrust: Scalar, rotate: Scalar) -> (r: Input)
        ensures
            r.thrust == thrust,
            r.rotate == rotate,
    {
        Input { thrust, rotate }
    }

    /// Holds both controls to the unit interval. This is the only gate on
    /// the magnitude of what a client sends.
    pub fn clamp(&mut self)
        ensures
            *final(self) == old(self).clamped(),
    {
        self.thrust = clamp_unit(self.thrust);
        self.rotate = clamp_unit(self.rotate);
    }
}

/// Holds one control value to the unit interval.
pub fn clamp_unit(value: Scalar) -> (r: Scalar)
    ensures
        r == clamped_unit(value),
{
    let low = Scalar { bits: MINUS_ONE_BITS };
    let high = Scalar { bits: ONE_BITS };
    if value.lt(low) {
        low
    } else if value.gt(high) {
        high
    } else {
        value
    }
}

/// Validates an input before it reaches the simulation.
pub fn validate_input(input: &mut Input)
    ensures
        *final(input) == old(input).clamped(),
{
    input.clamp();
}

/// Applies the world's edge to one coordinate.
pub fn wrap_coordinate(coordinate: Scalar, world_limit: Scalar) -> (r: Scalar)
    ensures
        r == wrapped_coordinate(coordinate, world_limit),
{
    let edge = world_limit.neg();
    if coordinate.gt(world_limit) {
        edge
    } else if coordinate.lt(edge) {
        world_limit
    } else {
        coordinate
    }
}

/// Applies the world's edge to a position, each axis by itself.
pub fn wrap_position(pos: &mut Vec2, world_limit: Scalar)
    ensures
        *final(pos) == wrapped_position(*old(pos), world_limit),
        usable_limit(world_limit) ==> within_world(*final(pos), world_limit),
{
    pos.x = wrap_coordinate(pos.x, world_limit);
    pos.y = wrap_coordinate(pos.y, world_limit);
}

/// Whether two discs collide, given the distance of their centres and the
/// sum of their radii: the distance is strictly below the sum. Discs that
/// just touch do not collide.
pub fn check_collision(distance: Scalar, collision_distance: Scalar) -> (r: bool)
    ensures
        r == distance.less(collision_distance),
{
    distance.lt(collision_distance)
}

/// Whether, of several pairs of discs, the pair at `k` collides. A pair for
/// which either number is missing does not.
pub open spec fn collides_at(distances: Seq<Scalar>, collision_distances: Seq<Scalar>, k: int) -> bool {
    0 <= k < distances.len() && k < collision_distances.len() && distances[k].less(
        collision_distances[k],
    )
}

/// Whether a disc collides with at least one of several others, given for
/// each of them the distance of the centres and the sum of the radii.
pub fn collides_with_any(distances: &Vec<Scalar>, collision_distances: &Vec<Scalar>) -> (r: bool)
    ensures
        r == exists|k: int| collides_at(distances@, collision_distances@, k),
{
    let mut k: usize = 0;
    while k < distances.len() && k < collision_distances.len()
        invariant
            forall|j: int| 0 <= j < k ==> !collides_at(distances@, collision_distances@, j),
        decreases distances.len() - k,
    {
        if check_collision(distances[k], collision_distances[k]) {
            assert(collides_at(distances@, collision_distances@, k as int));
            return true;
        }
        k += 1;
    }
    false
}

/// Discs that just touch do not collide, and neither do discs whose distance
/// or radii are not numbers.
pub proof fn lemma_touching_is_no_collision(distance: Scalar, collision_distance: Scalar)
    ensures
        !distance.less(distance),
        distance.nan() || collision_distance.nan() ==> !distance.less(collision_distance),
        distance.less(collision_distance) ==> !collision_distance.less(distance),
{
}

/// A coordinate beyond either edge lands exactly on the opposite edge: past
/// the positive edge on the negative one and the other way round.
pub proof fn lemma_wrap_teleports(coordinate: Scalar, world_limit: Scalar)
    requires
        usable_limit(world_limit),
    ensures
        world_limit.less(coordinate) ==> wrapped_coordinate(coordinate, world_limit)
            == world_limit.negated(),
        coordinate.less(world_limit.negated()) ==> wrapped_coordinate(coordinate, world_limit)
            == world_limit,
        inside(coordinate, world_limit) ==> wrapped_coordinate(coordinate, world_limit)
            == coordinate,
{
}

/// After wrapping, no coordinate is beyond an edge of the world, and the
/// origin never is.
pub proof fn lemma_wrap_stays_inside(coordinate: Scalar, world_limit: Scalar)
    requires
        usable_limit(world_limit),
    ensures
        inside(wrapped_coordinate(coordinate, world_limit), world_limit),
        inside(Scalar::zero(), world_limit),
{
}

/// A clamped control that is a number lies between minus one and one, and a
/// control that already does is left alone.
pub proof fn lemma_clamp_bounds(value: Scalar)
    ensures
        !clamped_unit(value).less(Scalar { bits: MINUS_ONE_BITS }),
        !(Scalar { bits: ONE_BITS }).less(clamped_unit(value)),
        clamped_unit(clamped_unit(value)) == clamped_unit(value),
        (Scalar { bits: ONE_BITS }).less(value) ==> clamped_unit(value) == (Scalar {
            bits: ONE_BITS,
        }),
{
}

} // verus!
