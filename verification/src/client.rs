use vstd::prelude::*;
use crate::entities::{Color, Ship};
use crate::ids::contains_id;
use crate::math::Scalar;
use crate::network::{DeltaState, GameState, ShipUpdate};

verus! {

/// Marks the one ship that this client steers and predicts.
#[derive(Clone, Copy, Debug, PartialEq, Eq, Structural)]
pub struct Player;

/// Marks a ship that another player steers, by that player's id.
#[derive(Clone, Copy, Debug, PartialEq, Eq, Structural)]
pub struct NetworkedPlayer {
    pub id: u32,
}

/// What a client does with the record of one ship.
#[derive(Clone, Copy, Debug, PartialEq, Eq)]
pub enum ShipAction {
    /// The record is about the client's own ship: reconcile the prediction
    /// with it.
    ReconcileLocal,
    /// The record is about the known ship at `index`: blend towards it.
    BlendRemote { index: usize },
    /// The record is about a ship that the client does not show yet, and
    /// brings the colour to show it in.
    SpawnRemote { color: Color },
    /// The record is about a ship that the client does not show yet and
    /// cannot show, for want of a colour.
    Ignore,
}

/// How a shown ship is brought to what the server reports.
#[derive(Clone, Copy, Debug, PartialEq, Eq, Structural)]
pub enum Correction {
    /// The ship is far off: take the server's position, heading and velocity
    /// as they are.
    Snap,
    /// The ship is near: move a share of the way towards the server's state.
    Blend,
}

/// Which way leads from a shown coordinate to the server's, in a world that
/// closes on itself.
#[derive(Clone, Copy, Debug, PartialEq, Eq, Structural)]
pub enum Seam {
    /// The plain difference is the short way.
    Direct,
    /// The plain difference is more than half the world's width: the short
    /// way is the difference less one width.
    LessOneWidth,
    /// The plain difference is below minus half the world's width: the short
    /// way is the difference plus one width.
    PlusOneWidth,
}

/// The correction that is due at a given distance between what is shown and
/// what the server reports: a snap strictly beyond the threshold, a blend up
/// to it.
pub open spec fn correction_at(distance: Scalar, snap_distance: Scalar) -> Correction {
    if snap_distance.less(distance) {
        Correction::Snap
    } else {
        Correction::Blend
    }
}

/// The way that is due for a plain difference `delta` of two coordinates in
/// a world that reaches from minus `world_limit` to `world_limit`, so that
/// half its width is `world_limit`.
pub open spec fn seam_for(delta: Scalar, world_limit: Scalar) -> Seam {
    if world_limit.less(delta) {
        Seam::LessOneWidth
    } else if delta.less(world_limit.negated()) {
        Seam::PlusOneWidth
    } else {
        Seam::Direct
    }
}

/// Decides between snap and blend.
pub fn choose_correction(distance: Scalar, snap_distance: Scalar) -> (correction: Correction)
    ensures
        correction == correction_at(distance, snap_distance),
{
    if distance.gt(snap_distance) {
        Correction::Snap
    } else {
        Correction::Blend
    }
}

/// Decides which way round the world a coordinate is corrected.
pub fn choose_seam(delta: Scalar, world_limit: Scalar) -> (seam: Seam)
    ensures
        seam == seam_for(delta, world_limit),
{
    if delta.gt(world_limit) {
        Seam::LessOneWidth
    } else if delta.lt(world_limit.neg()) {
        Seam::PlusOneWidth
    } else {
        Seam::Direct
    }
}

/// Whether a ship of `id` is among the known ones.
pub open spec fn knows(known: Seq<NetworkedPlayer>, id: u32) -> bool {
    exists|i: int| 0 <= i < known.len() && known[i].id == id
}

/// Whether no known ship before position `i` has the id of the one at `i`.
pub open spec fn first_of_its_id(known: Seq<NetworkedPlayer>, i: int) -> bool {
    forall|j: int| 0 <= j < i ==> known[j].id != known[i].id
}

/// What is due for a record, given the client's own id and the ships that
/// it shows.
pub open spec fn action_for(
    player_id: u32,
    known: Seq<NetworkedPlayer>,
    update: ShipUpdate,
    action: ShipAction,
) -> bool {
    match action {
        ShipAction::ReconcileLocal => update.id == player_id,
        ShipAction::BlendRemote { index } => {
            &&& update.id != player_id
            &&& index < known.len()
            &&& known[index as int].id == update.id
            &&& first_of_its_id(known, index as int)
        },
        ShipAction::SpawnRemote { color } => {
            &&& update.id != player_id
            &&& !knows(known, update.id)
            &&& update.color == Some(color)
        },
        ShipAction::Ignore => {
            &&& update.id != player_id
            &&& !knows(known, update.id)
            &&& update.color is None
        },
    }
}

/// The ids that a sequence of records names, in order.
pub open spec fn update_ids(updates: Seq<ShipUpdate>) -> Seq<u32> {
    Seq::new(updates.len(), |i: int| updates[i].id)
}

/// The ids of a sequence of ships, in order.
pub open spec fn ship_ids(ships: Seq<Ship>) -> Seq<u32> {
    Seq::new(ships.len(), |i: int| ships[i].id)
}

/// Whether the known ship at `i` is taken off the screen by a message that
/// names the ships `seen`, reports `removed` as gone and is complete or not:
/// it is the first of its id and reported gone, or the message is complete
/// and does not name it.
pub open spec fn departs(
    known: Seq<NetworkedPlayer>,
    i: int,
    seen: Seq<u32>,
    removed: Seq<u32>,
    complete: bool,
) -> bool {
    (removed.contains(known[i].id) && first_of_its_id(known, i)) || (complete && !seen.contains(
        known[i].id,
    ))
}

/// Whether `positions` lists, in growing order, exactly the known ships that
/// depart.
pub open spec fn lists_departures(
    positions: Seq<usize>,
    known: Seq<NetworkedPlayer>,
    seen: Seq<u32>,
    removed: Seq<u32>,
    complete: bool,
) -> bool {
    &&& forall|a: int, b: int| 0 <= a < b < positions.len() ==> positions[a] < positions[b]
    &&& forall|a: int| 0 <= a < positions.len() ==> (#[trigger] positions[a]) < known.len()
    &&& forall|i: usize|
        i < known.len() ==> (positions.contains(i) <==> #[trigger] departs(
            known,
            i as int,
            seen,
            removed,
            complete,
        ))
}

/// Decides what to do with the record of one ship.
pub fn classify_update(player_id: u32, known: &Vec<NetworkedPlayer>, update: &ShipUpdate) -> (action:
    ShipAction)
    ensures
        action_for(player_id, known@, *update, action),
{
    if update.id == player_id {
        return ShipAction::ReconcileLocal;
    }
    let mut i: usize = 0;
    while i < known.len()
        invariant
            i <= known.len(),
            update.id != player_id,
            forall|j: int| 0 <= j < i ==> known@[j].id != update.id,
        decreases known.len() - i,
    {
        if known[i].id == update.id {
            return ShipAction::BlendRemote { index: i };
        }
        i += 1;
    }
    match update.color {
        Some(color) => ShipAction::SpawnRemote { color },
        None => ShipAction::Ignore,
    }
}

/// Decides what to do with one ship of a full snapshot. A snapshot always
/// brings the colour, so no ship of it is ignored.
pub fn classify_ship(player_id: u32, known: &Vec<NetworkedPlayer>, ship: &Ship) -> (action:
    ShipAction)
    ensures
        action_for(player_id, known@, ShipUpdate::of(*ship, true), action),
        !(action is Ignore),
{
    let update = ShipUpdate::with_color(ship);
    classify_update(player_id, known, &update)
}

fn is_first_of_its_id(known: &Vec<NetworkedPlayer>, i: usize) -> (r: bool)
    requires
        i < known.len(),
    ensures
        r == first_of_its_id(known@, i as int),
{
    let mut j: usize = 0;
    while j < i
        invariant
            j <= i,
            i < known.len(),
            forall|k: int| 0 <= k < j ==> known@[k].id != known@[i as int].id,
        decreases i - j,
    {
        if known[j].id == known[i].id {
            return false;
        }
        j += 1;
    }
    true
}

fn departures(known: &Vec<NetworkedPlayer>, seen: &Vec<u32>, removed: &Vec<u32>, complete: bool) -> (gone:
    Vec<usize>)
    ensures
        lists_departures(gone@, known@, seen@, removed@, complete),
{
    let mut gone: Vec<usize> = Vec::new();
    let mut i: usize = 0;
    while i < known.len()
        invariant
            i <= known.len(),
            forall|a: int, b: int| 0 <= a < b < gone@.len() ==> gone@[a] < gone@[b],
            forall|a: int| 0 <= a < gone@.len() ==> (#[trigger] gone@[a]) < i,
            forall|k: usize|
                k < i ==> (gone@.contains(k) <==> #[trigger] departs(
                    known@,
                    k as int,
                    seen@,
                    removed@,
                    complete,
                )),
        decreases known.len() - i,
    {
        let id = known[i].id;
        let reported = contains_id(removed, id) && is_first_of_its_id(known, i);
        let missing = complete && !contains_id(seen, id);
        let ghost before = gone@;
        if reported || missing {
            gone.push(i);
            assert(gone@[before.len() as int] == i);
            assert forall|k: usize| k < i + 1 implies (gone@.contains(k) <==> #[trigger] departs(
                known@,
                k as int,
                seen@,
                removed@,
                complete,
            )) by {
                if k < i {
                    if before.contains(k) {
                        let w = choose|w: int| 0 <= w < before.len() && before[w] == k;
                        assert(gone@[w] == k);
                    }
                    if gone@.contains(k) {
                        let w = choose|w: int| 0 <= w < gone@.len() && gone@[w] == k;
                        assert(w < before.len());
                        assert(before[w] == k);
                    }
                }
            }
        } else {
            assert(!gone@.contains(i));
        }
        i += 1;
    }
    gone
}

/// The positions of the known ships to take off the screen after an
/// incremental message: those reported as removed and, where the message is
/// complete, those that it does not name.
pub fn departed_after_delta(known: &Vec<NetworkedPlayer>, delta: &DeltaState) -> (gone: Vec<usize>)
    ensures
        lists_departures(
            gone@,
            known@,
            update_ids(delta.changed_ships@),
            delta.removed_ship_ids@,
            delta.is_full_state,
        ),
{
    let mut seen: Vec<u32> = Vec::new();
    let mut i: usize = 0;
    while i < delta.changed_ships.len()
        invariant
            i <= delta.changed_ships.len(),
            seen@.len() == i,
            forall|j: int| 0 <= j < i ==> seen@[j] == delta.changed_ships@[j].id,
        decreases delta.changed_ships.len() - i,
    {
        seen.push(delta.changed_ships[i].id);
        i += 1;
    }
    assert(seen@ =~= update_ids(delta.changed_ships@));
    departures(known, &seen, &delta.removed_ship_ids, delta.is_full_state)
}

/// The positions of the known ships to take off the screen after a full
/// snapshot: those that it does not name.
pub fn departed_after_snapshot(known: &Vec<NetworkedPlayer>, state: &GameState) -> (gone: Vec<usize>)
    ensures
        lists_departures(gone@, known@, ship_ids(state.ships@), Seq::<u32>::empty(), true),
{
    let mut seen: Vec<u32> = Vec::new();
    let mut i: usize = 0;
    while i < state.ships.len()
        invariant
            i <= state.ships.len(),
            seen@.len() == i,
            forall|j: int| 0 <= j < i ==> seen@[j] == state.ships@[j].id,
        decreases state.ships.len() - i,
    {
        seen.push(state.ships[i].id);
        i += 1;
    }
    assert(seen@ =~= ship_ids(state.ships@));
    let removed: Vec<u32> = Vec::new();
    departures(known, &seen, &removed, true)
}

/// For one record exactly one action is due, up to the colour it brings:
/// two actions that are both due are the same.
pub proof fn lemma_one_action(
    player_id: u32,
    known: Seq<NetworkedPlayer>,
    update: ShipUpdate,
    one: ShipAction,
    other: ShipAction,
)
    requires
        action_for(player_id, known, update, one),
        action_for(player_id, known, update, other),
    ensures
        one == other,
{
    match (one, other) {
        (ShipAction::BlendRemote { index: a }, ShipAction::BlendRemote { index: b }) => {
            if a < b {
                assert(known[a as int].id == update.id);
            } else if b < a {
                assert(known[b as int].id == update.id);
            }
        },
        _ => {},
    }
}

/// A ship that a complete message names, and that is not reported gone,
/// stays on the screen; a ship that no complete message mentions goes.
pub proof fn lemma_named_ships_stay(
    positions: Seq<usize>,
    known: Seq<NetworkedPlayer>,
    seen: Seq<u32>,
    removed: Seq<u32>,
    complete: bool,
    i: usize,
)
    requires
        lists_departures(positions, known, seen, removed, complete),
        i < known.len(),
    ensures
        seen.contains(known[i as int].id) && !removed.contains(known[i as int].id)
            ==> !positions.contains(i),
        complete && !seen.contains(known[i as int].id) ==> positions.contains(i),
        !complete && !removed.contains(known[i as int].id) ==> !positions.contains(i),
{
    assert(positions.contains(i) <==> departs(known, i as int, seen, removed, complete));
}

} // verus!
