use std::collections::{HashMap, HashSet};
use vstd::prelude::*;
use crate::game::Game;
use crate::world::{lemma_remove_forgets, GameView};
use crate::entities::Color;
use crate::network::{ClientInput, ServerMessage};
use crate::physics::Input;
use crate::world::lemma_inputs_give_ships;

verus! {

broadcast use vstd::std_specs::hash::group_hash_axioms;

/// Least time, in nanoseconds, between two inputs of one player that are
/// both accepted: fifteen milliseconds.
pub const MIN_INPUT_INTERVAL_NANOS: u64 = 15_000_000;

/// The id that the first player gets.
pub const FIRST_PLAYER_ID: u32 = 1;

/// Time that passed from `earlier` to `now`, zero if the clock went back.
pub open spec fn elapsed_nanos(earlier: u64, now: u64) -> int {
    if now >= earlier {
        now - earlier
    } else {
        0
    }
}

/// The id that is handed out after `id`. The counter wraps at the end of its
/// range.
pub open spec fn id_after(id: u32) -> u32 {
    if id == u32::MAX {
        0
    } else {
        (id + 1) as u32
    }
}

/// Whether some stored input belongs to `player_id`.
pub open spec fn holds_input(inputs: Seq<ClientInput>, player_id: u32) -> bool {
    exists|i: int| 0 <= i < inputs.len() && inputs[i].player_id == player_id
}

/// Where the stored input of `player_id` stands.
pub open spec fn input_position(inputs: Seq<ClientInput>, player_id: u32) -> int {
    choose|i: int| 0 <= i < inputs.len() && inputs[i].player_id == player_id
}

/// The stored inputs after `input` became the latest of its player: it takes
/// the place of the player's earlier input, or joins at the end.
pub open spec fn with_latest(inputs: Seq<ClientInput>, input: ClientInput) -> Seq<ClientInput> {
    if holds_input(inputs, input.player_id) {
        inputs.update(input_position(inputs, input.player_id), input)
    } else {
        inputs.push(input)
    }
}

/// The stored inputs without that of `player_id`.
pub open spec fn without_player(inputs: Seq<ClientInput>, player_id: u32) -> Seq<ClientInput> {
    if holds_input(inputs, player_id) {
        inputs.remove(input_position(inputs, player_id))
    } else {
        inputs
    }
}

/// Whether every colour is one that new ships get.
pub open spec fn all_spawnable(colors: Seq<Color>) -> bool {
    forall|i: int| 0 <= i < colors.len() ==> (#[trigger] colors[i]).spawnable()
}

/// For each stored input, the player and the controls to apply to the
/// player's ship: those of the input, held to the unit interval.
pub open spec fn controls_of(inputs: Seq<ClientInput>) -> Seq<(u32, Input)> {
    Seq::new(
        inputs.len(),
        |i: int|
            (
                inputs[i].player_id,
                (Input { thrust: inputs[i].thrust, rotate: inputs[i].rotate }).clamped(),
            ),
    )
}

/// The shared session state as contracts see it.
pub struct SnapshotView {
    pub game: GameView,
    /// The latest input of each player that sent one, oldest player first.
    pub player_inputs: Seq<ClientInput>,
    pub connected_players: Set<u32>,
    /// When each player's last accepted input arrived, in nanoseconds.
    pub last_input_time: Map<u32, u64>,
    pub next_player_id: u32,
    /// The ids of the ships that left since the last broadcast, in the order
    /// in which they left.
    pub removed_ships: Seq<u32>,
}

impl SnapshotView {
    /// No two stored inputs belong to one player.
    pub open spec fn one_input_each(self) -> bool {
        forall|i: int, j: int|
            0 <= i < j < self.player_inputs.len() ==> self.player_inputs[i].player_id
                != self.player_inputs[j].player_id
    }

    pub open spec fn wf(self) -> bool {
        self.game.wf() && self.one_input_each()
    }

    /// Whether an input of `player_id` that arrives at `now` is accepted: it
    /// is the player's first, or at least the minimum interval has passed
    /// since the last one that was accepted.
    pub open spec fn admits(self, player_id: u32, now: u64) -> bool {
        !self.last_input_time.contains_key(player_id) || elapsed_nanos(
            self.last_input_time[player_id],
            now,
        ) >= MIN_INPUT_INTERVAL_NANOS
    }

    /// The state after an input arrived at `now` on the connection of
    /// `player_id`. Whatever id the input claims, it is stored under the
    /// connection's id.
    pub open spec fn after_input(self, player_id: u32, input: ClientInput, now: u64) -> SnapshotView {
        if self.admits(player_id, now) {
            SnapshotView {
                last_input_time: self.last_input_time.insert(player_id, now),
                player_inputs: with_latest(
                    self.player_inputs,
                    ClientInput { player_id, thrust: input.thrust, rotate: input.rotate },
                ),
                ..self
            }
        } else {
            self
        }
    }

    /// The state after the connection of `player_id` ended. If the player
    /// had a ship, its id joins those to report as removed.
    pub open spec fn after_disconnect(self, player_id: u32) -> SnapshotView {
        SnapshotView {
            game: self.game.after_remove(player_id),
            player_inputs: without_player(self.player_inputs, player_id),
            connected_players: self.connected_players.remove(player_id),
            last_input_time: self.last_input_time.remove(player_id),
            next_player_id: self.next_player_id,
            removed_ships: if self.game.has_ship(player_id) {
                self.removed_ships.push(player_id)
            } else {
                self.removed_ships
            },
        }
    }

    /// The state after every stored input was taken to the world, the one
    /// at `i` with the colour at `i` for a ship that has to be created.
    pub open spec fn after_apply_inputs(self, spawn_colors: Seq<Color>) -> SnapshotView {
        SnapshotView {
            game: self.game.after_inputs(
                self.player_inputs,
                spawn_colors,
                self.player_inputs.len(),
            ),
            ..self
        }
    }

    /// The state after a tick ended and its message was made: the world
    /// advanced once, and nothing is left to report as removed. The stored
    /// inputs stay.
    pub open spec fn after_advance(self, overlapping: Seq<u32>) -> SnapshotView {
        SnapshotView {
            game: self.game.after_tick(overlapping),
            removed_ships: Seq::empty(),
            ..self
        }
    }

    /// Whether `message` is the one to broadcast for this state, with
    /// `removed` as the ships to report as removed: the full snapshot where
    /// it is due, and else the incremental message, which names every ship
    /// and reports the removed ones.
    pub open spec fn broadcasts(self, message: ServerMessage, removed: Seq<u32>) -> bool {
        match message {
            ServerMessage::GameState(state) => {
                &&& self.game.is_full_state_tick()
                &&& state.ships@ == self.game.ships
                &&& state.asteroids@ == self.game.asteroids
                &&& state.tick == self.game.tick
            },
            ServerMessage::DeltaState(delta) => {
                &&& !self.game.is_full_state_tick()
                &&& delta.tick == self.game.tick
                &&& !delta.is_full_state
                &&& delta.changed_ships@ == self.game.ship_updates()
                &&& delta.removed_ship_ids@ == removed
            },
            ServerMessage::Welcome { .. } => false,
        }
    }
}

/// Everything that connections and the tick loop share, to be kept behind
/// one lock: the world, the latest input of each player, who is connected,
/// when each player's last input was accepted, and the next id to hand out.
///
/// The stored inputs stand in a vector, one per player, in the order in
/// which the players first sent one: a tick takes them in that order.
pub struct GameSnapshot {
    game: Game,
    player_inputs: Vec<ClientInput>,
    connected_players: HashSet<u32>,
    last_input_time: HashMap<u32, u64>,
    next_player_id: u32,
    removed_ships: Vec<u32>,
}

impl View for GameSnapshot {
    type V = SnapshotView;

    closed spec fn view(&self) -> SnapshotView {
        SnapshotView {
            game: self.game@,
            player_inputs: self.player_inputs@,
            connected_players: self.connected_players@,
            last_input_time: self.last_input_time@,
            next_player_id: self.next_player_id,
            removed_ships: self.removed_ships@,
        }
    }
}

impl GameSnapshot {
    /// The state at process start: nobody connected, nothing stored.
    pub fn new(game: Game) -> (snapshot: GameSnapshot)
        requires
            game@.wf(),
        ensures
            snapshot@.wf(),
            snapshot@ == (SnapshotView {
                game: game@,
                player_inputs: Seq::empty(),
                connected_players: Set::empty(),
                last_input_time: Map::empty(),
                next_player_id: FIRST_PLAYER_ID,
                removed_ships: Seq::empty(),
            }),
    {
        GameSnapshot {
            game,
            player_inputs: Vec::new(),
            connected_players: HashSet::new(),
            last_input_time: HashMap::new(),
            next_player_id: FIRST_PLAYER_ID,
            removed_ships: Vec::new(),
        }
    }

    /// Hands out the id of a new connection.
    pub fn assign_player_id(&mut self) -> (assigned_id: u32)
        ensures
            assigned_id == old(self)@.next_player_id,
            final(self)@ == (SnapshotView {
                next_player_id: id_after(old(self)@.next_player_id),
                ..old(self)@
            }),
    {
        let assigned_id = self.next_player_id;
        self.next_player_id = if assigned_id == u32::MAX {
            0
        } else {
            assigned_id + 1
        };
        assigned_id
    }

    /// Notes that the player was greeted and is connected.
    pub fn register_player(&mut self, player_id: u32)
        ensures
            final(self)@ == (SnapshotView {
                connected_players: old(self)@.connected_players.insert(player_id),
                ..old(self)@
            }),
    {
        self.connected_players.insert(player_id);
    }

    /// Where the stored input of `player_id` stands, if there is one.
    fn find_input(&self, player_id: u32) -> (r: Option<usize>)
        requires
            self@.one_input_each(),
        ensures
            r is Some <==> holds_input(self@.player_inputs, player_id),
            r is Some ==> r->0 == input_position(self@.player_inputs, player_id) && r->0
                < self@.player_inputs.len() && self@.player_inputs[r->0 as int].player_id
                == player_id,
    {
        let mut i: usize = 0;
        while i < self.player_inputs.len()
            invariant
                i <= self.player_inputs.len(),
                self@.one_input_each(),
                forall|j: int| 0 <= j < i ==> self.player_inputs@[j].player_id != player_id,
            decreases self.player_inputs.len() - i,
        {
            if self.player_inputs[i].player_id == player_id {
                return Some(i);
            }
            i += 1;
        }
        None
    }

    /// Takes an input that arrived at `now_nanos` on the connection of
    /// `player_id`. Returns whether it was accepted; one that comes too soon
    /// after the player's last accepted input is dropped and changes nothing.
    pub fn accept_input(&mut self, player_id: u32, input: ClientInput, now_nanos: u64) -> (accepted:
        bool)
        requires
            old(self)@.wf(),
        ensures
            final(self)@.wf(),
            accepted == old(self)@.admits(player_id, now_nanos),
            final(self)@ == old(self)@.after_input(player_id, input, now_nanos),
    {
        let too_soon = match self.last_input_time.get(&player_id) {
            Some(last) => {
                let elapsed: u64 = if now_nanos >= *last {
                    now_nanos - *last
                } else {
                    0
                };
                elapsed < MIN_INPUT_INTERVAL_NANOS
            },
            None => false,
        };
        if too_soon {
            return false;
        }
        let stored = ClientInput { player_id, thrust: input.thrust, rotate: input.rotate };
        self.last_input_time.insert(player_id, now_nanos);
        assert(self@.player_inputs == old(self)@.player_inputs);
        match self.find_input(player_id) {
            Some(i) => {
                self.player_inputs[i] = stored;
            },
            None => {
                self.player_inputs.push(stored);
            },
        }
        true
    }

    /// Forgets a player whose connection ended: the player is no longer
    /// connected, has no ship, no stored input and no rate-limit record.
    pub fn disconnect(&mut self, player_id: u32)
        requires
            old(self)@.wf(),
        ensures
            final(self)@.wf(),
            final(self)@ == old(self)@.after_disconnect(player_id),
            !final(self)@.game.has_ship(player_id),
            !holds_input(final(self)@.player_inputs, player_id),
    {
        self.connected_players.remove(&player_id);
        if self.game.has_ship(player_id) {
            self.removed_ships.push(player_id);
        }
        self.game.remove_player(player_id);
        self.last_input_time.remove(&player_id);
        assert(self@.player_inputs == old(self)@.player_inputs);
        match self.find_input(player_id) {
            Some(i) => {
                self.player_inputs.remove(i);
            },
            None => {},
        }
    }

    /// Starts a tick: takes every stored input to the world, once and in the
    /// order in which the players first sent one, before the world advances.
    /// `spawn_colors` gives one colour per stored input, used where the
    /// player has no ship yet. Returns, per stored input, the player and the
    /// controls that the integrator has to apply to the player's ship. Where
    /// the colours are not one per input, or one of them is not a colour
    /// that new ships get, nothing happens and nothing is returned.
    pub fn apply_inputs(&mut self, spawn_colors: &Vec<Color>) -> (controls: Option<
        Vec<(u32, Input)>,
    >)
        requires
            old(self)@.wf(),
        ensures
            final(self)@.wf(),
            controls is Some <==> (spawn_colors@.len() == old(self)@.player_inputs.len()
                && all_spawnable(spawn_colors@)),
            controls is Some ==> final(self)@ == old(self)@.after_apply_inputs(spawn_colors@)
                && controls->0@ == controls_of(old(self)@.player_inputs),
            controls is None ==> final(self)@ == old(self)@,
    {
        if spawn_colors.len() != self.player_inputs.len() {
            return None;
        }
        let ghost before = self@;
        let mut k: usize = 0;
        while k < spawn_colors.len()
            invariant
                k <= spawn_colors.len(),
                self@ == before,
                before.wf(),
                forall|j: int| 0 <= j < k ==> (#[trigger] spawn_colors@[j]).spawnable(),
            decreases spawn_colors.len() - k,
        {
            if !spawn_colors[k].is_spawn_color() {
                return None;
            }
            k += 1;
        }
        let mut controls: Vec<(u32, Input)> = Vec::new();
        let mut i: usize = 0;
        while i < self.player_inputs.len()
            invariant
                i <= self.player_inputs.len(),
                before.wf(),
                all_spawnable(spawn_colors@),
                spawn_colors@.len() == before.player_inputs.len(),
                self.player_inputs@ == before.player_inputs,
                self.connected_players@ == before.connected_players,
                self.last_input_time@ == before.last_input_time,
                self.next_player_id == before.next_player_id,
                self.removed_ships@ == before.removed_ships,
                self.game@.wf(),
                self.game@ == before.game.after_inputs(
                    before.player_inputs,
                    spawn_colors@,
                    i as nat,
                ),
                controls@.len() == i,
                forall|j: int| 0 <= j < i ==> controls@[j] == controls_of(before.player_inputs)[j],
            decreases self.player_inputs.len() - i,
        {
            let input = self.player_inputs[i];
            let applied = self.game.apply_input(input, spawn_colors[i]);
            controls.push((input.player_id, applied));
            i += 1;
        }
        assert(controls@ =~= controls_of(before.player_inputs));
        assert(self@.player_inputs == before.player_inputs);
        Some(controls)
    }

    /// Ends a tick: advances the world once, with `overlapping` naming the
    /// ships that overlap an asteroid, and returns the message to broadcast
    /// for the new tick. An incremental message reports the ships that left
    /// since the last broadcast. The stored inputs stay: a player who sends
    /// nothing keeps the controls last sent.
    pub fn advance(&mut self, overlapping: &Vec<u32>) -> (message: ServerMessage)
        requires
            old(self)@.wf(),
        ensures
            final(self)@.wf(),
            final(self)@ == old(self)@.after_advance(overlapping@),
            final(self)@.broadcasts(message, old(self)@.removed_ships),
    {
        self.game.tick(overlapping);
        let message = if self.game.is_full_state_tick() {
            ServerMessage::GameState(self.game.to_network_state())
        } else {
            let mut delta = self.game.to_delta_state();
            let mut i: usize = 0;
            while i < self.removed_ships.len()
                invariant
                    i <= self.removed_ships.len(),
                    delta.tick == self.game@.tick,
                    delta.is_full_state == self.game@.is_full_state_tick(),
                    delta.changed_ships@ == self.game@.ship_updates(),
                    delta.removed_ship_ids@ == self.removed_ships@.take(i as int),
                decreases self.removed_ships.len() - i,
            {
                delta.add_removed_ship(self.removed_ships[i]);
                assert(self.removed_ships@.take(i + 1) =~= self.removed_ships@.take(i as int).push(
                    self.removed_ships@[i as int],
                ));
                i += 1;
            }
            assert(self.removed_ships@.take(i as int) =~= self.removed_ships@);
            ServerMessage::DeltaState(delta)
        };
        self.removed_ships = Vec::new();
        assert(self@.player_inputs == old(self)@.player_inputs);
        message
    }

    /// The ids of the ships that left since the last broadcast.
    pub fn removed_ships(&self) -> (r: &Vec<u32>)
        ensures
            r@ == self@.removed_ships,
    {
        &self.removed_ships
    }

    /// The inputs to apply on the next tick: the latest of each player.
    pub fn pending_inputs(&self) -> (inputs: Vec<ClientInput>)
        ensures
            inputs@ == self@.player_inputs,
    {
        let mut inputs: Vec<ClientInput> = Vec::new();
        let mut i: usize = 0;
        while i < self.player_inputs.len()
            invariant
                i <= self.player_inputs.len(),
                inputs@ == self.player_inputs@.take(i as int),
            decreases self.player_inputs.len() - i,
        {
            inputs.push(self.player_inputs[i]);
            assert(self.player_inputs@.take(i + 1) =~= self.player_inputs@.take(i as int).push(
                self.player_inputs@[i as int],
            ));
            i += 1;
        }
        assert(self.player_inputs@.take(i as int) =~= self.player_inputs@);
        inputs
    }

    /// The latest input of `player_id`, if one is stored.
    pub fn stored_input(&self, player_id: u32) -> (r: Option<ClientInput>)
        requires
            self@.wf(),
        ensures
            r is Some <==> holds_input(self@.player_inputs, player_id),
            r is Some ==> r->0 == self@.player_inputs[input_position(
                self@.player_inputs,
                player_id,
            )] && r->0.player_id == player_id,
    {
        match self.find_input(player_id) {
            Some(i) => Some(self.player_inputs[i]),
            None => None,
        }
    }

    pub fn is_connected(&self, player_id: u32) -> (r: bool)
        ensures
            r == self@.connected_players.contains(player_id),
    {
        self.connected_players.contains(&player_id)
    }

    /// When the last accepted input of `player_id` arrived.
    pub fn last_input_time(&self, player_id: u32) -> (r: Option<u64>)
        ensures
            r is Some <==> self@.last_input_time.contains_key(player_id),
            r is Some ==> r->0 == self@.last_input_time[player_id],
    {
        match self.last_input_time.get(&player_id) {
            Some(at) => Some(*at),
            None => None,
        }
    }

    /// The world, to read.
    pub fn game(&self) -> (game: &Game)
        ensures
            game@ == self@.game,
    {
        &self.game
    }

    /// The world, to change.
    pub fn game_mut(&mut self) -> (game: &mut Game)
        ensures
            game@ == old(self)@.game,
            final(self)@ == (SnapshotView { game: final(game)@, ..old(self)@ }),
    {
        &mut self.game
    }
}

/// Ids are handed out in growing order: the id after another is larger by
/// one, up to the end of the range.
pub proof fn lemma_ids_grow(id: u32)
    ensures
        id < u32::MAX ==> id_after(id) == id + 1,
        id_after(id) != id,
{
}

/// The first input of a player is accepted. After that, an input of the same
/// player is accepted exactly when at least the minimum interval has passed
/// since the last accepted one.
pub proof fn lemma_rate_limit(
    state: SnapshotView,
    player_id: u32,
    first: ClientInput,
    at: u64,
    later: u64,
)
    requires
        state.admits(player_id, at),
    ensures
        !state.last_input_time.contains_key(player_id) ==> state.admits(player_id, later),
        state.after_input(player_id, first, at).admits(player_id, later) <==> elapsed_nanos(
            at,
            later,
        ) >= MIN_INPUT_INTERVAL_NANOS,
        at <= later && later - at < MIN_INPUT_INTERVAL_NANOS ==> state.after_input(
            player_id,
            first,
            at,
        ).after_input(player_id, first, later) == state.after_input(player_id, first, at),
{
}

/// An accepted input becomes the one stored for the connection's player,
/// under the connection's id whatever id the input claimed, and takes the
/// place of the input stored before: there is never more than one per
/// player. The inputs of other players stay as they were.
pub proof fn lemma_latest_input_wins(
    state: SnapshotView,
    player_id: u32,
    input: ClientInput,
    now: u64,
)
    requires
        state.wf(),
        state.admits(player_id, now),
    ensures
        state.after_input(player_id, input, now).wf(),
        holds_input(state.after_input(player_id, input, now).player_inputs, player_id),
        state.after_input(player_id, input, now).player_inputs[input_position(
            state.after_input(player_id, input, now).player_inputs,
            player_id,
        )] == (ClientInput { player_id, thrust: input.thrust, rotate: input.rotate }),
        state.after_input(player_id, input, now).player_inputs.len() == if holds_input(
            state.player_inputs,
            player_id,
        ) {
            state.player_inputs.len()
        } else {
            state.player_inputs.len() + 1
        },
        forall|k: int|
            0 <= k < state.player_inputs.len() && state.player_inputs[k].player_id != player_id
                ==> #[trigger] state.after_input(player_id, input, now).player_inputs[k]
                == state.player_inputs[k],
        state.after_input(player_id, input, now).game == state.game,
        state.after_input(player_id, input, now).connected_players == state.connected_players,
{
    let after = state.after_input(player_id, input, now);
    let at = if holds_input(state.player_inputs, player_id) {
        input_position(state.player_inputs, player_id)
    } else {
        state.player_inputs.len() as int
    };
    assert(after.player_inputs[at].player_id == player_id);
    let found = input_position(after.player_inputs, player_id);
    assert(found == at);
}

/// A rejected input changes nothing.
pub proof fn lemma_rejected_input_is_dropped(
    state: SnapshotView,
    player_id: u32,
    input: ClientInput,
    now: u64,
)
    requires
        !state.admits(player_id, now),
    ensures
        state.after_input(player_id, input, now) == state,
{
}

/// After a connection ended nothing of its player is left: the player is not
/// connected, has no ship, no stored input and no rate-limit record. An id
/// that was handed out is not handed out again by that.
pub proof fn lemma_disconnect_forgets(state: SnapshotView, player_id: u32)
    requires
        state.wf(),
    ensures
        state.after_disconnect(player_id).wf(),
        !state.after_disconnect(player_id).connected_players.contains(player_id),
        !state.after_disconnect(player_id).game.has_ship(player_id),
        !holds_input(state.after_disconnect(player_id).player_inputs, player_id),
        !state.after_disconnect(player_id).last_input_time.contains_key(player_id),
        state.after_disconnect(player_id).next_player_id == state.next_player_id,
        state.after_disconnect(player_id).game.tick == state.game.tick,
        state.game.has_ship(player_id) ==> state.after_disconnect(player_id).removed_ships.last()
            == player_id,
{
    lemma_remove_forgets(state.game, player_id);
    let after = state.after_disconnect(player_id);
    if holds_input(state.player_inputs, player_id) {
        let at = input_position(state.player_inputs, player_id);
        assert forall|k: int| 0 <= k < after.player_inputs.len() implies after.player_inputs[k]
            == state.player_inputs[if k < at {
            k
        } else {
            k + 1
        }] by {}
    }
}

/// A tick leaves the session as it was, but for the world and the list of
/// removed ships: the stored inputs, the connected players, the rate-limit
/// records and the next id stay, the world advances exactly once, and the
/// removed ships are reported by the tick's message or covered by its full
/// snapshot, and then forgotten.
pub proof fn lemma_advance_keeps_session(
    state: SnapshotView,
    overlapping: Seq<u32>,
    message: ServerMessage,
)
    requires
        state.wf(),
        state.after_advance(overlapping).broadcasts(message, state.removed_ships),
    ensures
        state.after_advance(overlapping).wf(),
        state.after_advance(overlapping).player_inputs == state.player_inputs,
        state.after_advance(overlapping).connected_players == state.connected_players,
        state.after_advance(overlapping).last_input_time == state.last_input_time,
        state.after_advance(overlapping).next_player_id == state.next_player_id,
        state.after_advance(overlapping).game.tick == state.game.next_tick(),
        state.after_advance(overlapping).removed_ships.len() == 0,
        message is GameState <==> state.game.next_tick() % state.game.full_state_interval == 0,
        message is DeltaState <==> state.game.next_tick() % state.game.full_state_interval != 0,
        message is DeltaState ==> message->DeltaState_0.removed_ship_ids@ == state.removed_ships,
{
    crate::world::lemma_tick_keeps_ships(state.game, overlapping);
}

/// Within one period the stored inputs are taken before the world advances,
/// and a player whose first input is among them is seen at once: the message
/// of the tick that follows names the player's ship and carries its colour.
/// The inputs themselves stay stored.
pub proof fn lemma_first_input_sends_color(
    state: SnapshotView,
    spawn_colors: Seq<Color>,
    overlapping: Seq<u32>,
    i: int,
)
    requires
        state.wf(),
        spawn_colors.len() == state.player_inputs.len(),
        all_spawnable(spawn_colors),
        0 <= i < state.player_inputs.len(),
        !state.game.has_ship(state.player_inputs[i].player_id),
    ensures
        ({
            let id = state.player_inputs[i].player_id;
            let applied = state.after_apply_inputs(spawn_colors);
            let ended = applied.after_advance(overlapping);
            let at = applied.game.position_of(id);
            &&& applied.player_inputs == state.player_inputs
            &&& ended.player_inputs == state.player_inputs
            &&& applied.game.has_ship(id)
            &&& 0 <= at < ended.game.ships.len()
            &&& ended.game.ship_updates()[at].id == id
            &&& ended.game.ship_updates()[at].color == Some(applied.game.ships[at].color)
        }),
{
    let id = state.player_inputs[i].player_id;
    lemma_inputs_give_ships(
        state.game,
        state.player_inputs,
        spawn_colors,
        state.player_inputs.len(),
    );
    let applied = state.after_apply_inputs(spawn_colors);
    let at = applied.game.position_of(id);
    assert(applied.game.ships[at].id == id);
    crate::world::lemma_tick_keeps_ships(applied.game, overlapping);
    crate::world::lemma_color_after_tick(applied.game, overlapping, at);
}

} // verus!
