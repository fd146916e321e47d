use vstd::prelude::*;
use crate::network::{ClientInput, ServerMessage};
use crate::session::{GameSnapshot, SnapshotView};

verus! {

/// Where a connection stands in its life.
#[derive(Clone, Copy, Debug, PartialEq, Eq, Structural)]
pub enum SessionPhase {
    /// The id is assigned; the greeting is on its way.
    Greeting,
    /// The player is greeted and registered.
    Active,
    /// The connection is over.
    Ended,
}

/// What can happen on a connection.
#[derive(Clone, Copy, Debug, PartialEq, Eq)]
pub enum SessionEvent {
    /// The greeting was sent.
    Greeted,
    /// The greeting could not be sent.
    GreetingFailed,
    /// A frame arrived that holds an input; `now_nanos` is when.
    Input { input: ClientInput, now_nanos: u64 },
    /// A frame arrived that holds no input: it cannot be read as one.
    Unreadable,
    /// The peer closed the connection, or receiving failed.
    Closed,
    /// A broadcast was passed on to the peer.
    Forwarded,
    /// A broadcast could not be passed on.
    ForwardFailed,
}

/// What the shared state has to undergo after an event.
#[derive(Clone, Copy, Debug, PartialEq, Eq)]
pub enum SessionAction {
    /// Note the player as connected.
    Register,
    /// Offer the input to the rate limit and, if it passes, store it.
    StoreInput { input: ClientInput, now_nanos: u64 },
    /// Forget the player.
    Cleanup,
    /// Leave everything as it is.
    Nothing,
}

/// The phase after an event. A connection becomes active once greeted; it
/// ends when the greeting fails, when the peer goes, or when a broadcast
/// cannot be passed on. A frame that cannot be read ends nothing, and
/// nothing revives a connection that ended.
pub open spec fn phase_after(phase: SessionPhase, event: SessionEvent) -> SessionPhase {
    match (phase, event) {
        (SessionPhase::Greeting, SessionEvent::Greeted) => SessionPhase::Active,
        (SessionPhase::Greeting, SessionEvent::GreetingFailed) => SessionPhase::Ended,
        (SessionPhase::Active, SessionEvent::Closed) => SessionPhase::Ended,
        (SessionPhase::Active, SessionEvent::ForwardFailed) => SessionPhase::Ended,
        _ => phase,
    }
}

/// What is due after an event. A player is registered when greeted and
/// forgotten when an active connection ends; an input counts only on an
/// active connection; everything else asks for nothing.
pub open spec fn action_on(phase: SessionPhase, event: SessionEvent) -> SessionAction {
    match (phase, event) {
        (SessionPhase::Greeting, SessionEvent::Greeted) => SessionAction::Register,
        (SessionPhase::Active, SessionEvent::Input { input, now_nanos }) => SessionAction::StoreInput {
            input,
            now_nanos,
        },
        (SessionPhase::Active, SessionEvent::Closed) => SessionAction::Cleanup,
        (SessionPhase::Active, SessionEvent::ForwardFailed) => SessionAction::Cleanup,
        _ => SessionAction::Nothing,
    }
}

/// The shared state after an action on behalf of `player_id`.
pub open spec fn state_after(state: SnapshotView, player_id: u32, action: SessionAction) -> SnapshotView {
    match action {
        SessionAction::Register => SnapshotView {
            connected_players: state.connected_players.insert(player_id),
            ..state
        },
        SessionAction::StoreInput { input, now_nanos } => state.after_input(
            player_id,
            input,
            now_nanos,
        ),
        SessionAction::Cleanup => state.after_disconnect(player_id),
        SessionAction::Nothing => state,
    }
}

/// One connection: the id that the server assigned to it, and its phase.
#[derive(Clone, Copy, Debug, PartialEq, Eq, Structural)]
pub struct Session {
    pub player_id: u32,
    pub phase: SessionPhase,
}

impl Session {
    /// Opens a connection: takes the next id from the shared state and
    /// returns the connection with the greeting to send first.
    pub fn open(shared: &mut GameSnapshot) -> (opened: (Session, ServerMessage))
        ensures
            opened.0 == (Session {
                player_id: old(shared)@.next_player_id,
                phase: SessionPhase::Greeting,
            }),
            opened.1 == (ServerMessage::Welcome { assigned_id: old(shared)@.next_player_id }),
            final(shared)@ == (SnapshotView {
                next_player_id: crate::session::id_after(old(shared)@.next_player_id),
                ..old(shared)@
            }),
    {
        let player_id = shared.assign_player_id();
        (
            Session { player_id, phase: SessionPhase::Greeting },
            ServerMessage::Welcome { assigned_id: player_id },
        )
    }

    /// Takes one event and says what the shared state has to undergo.
    pub fn on_event(&mut self, event: SessionEvent) -> (action: SessionAction)
        ensures
            final(self).player_id == old(self).player_id,
            final(self).phase == phase_after(old(self).phase, event),
            action == action_on(old(self).phase, event),
    {
        match self.phase {
            SessionPhase::Greeting => match event {
                SessionEvent::Greeted => {
                    self.phase = SessionPhase::Active;
                    SessionAction::Register
                },
                SessionEvent::GreetingFailed => {
                    self.phase = SessionPhase::Ended;
                    SessionAction::Nothing
                },
                _ => SessionAction::Nothing,
            },
            SessionPhase::Active => match event {
                SessionEvent::Input { input, now_nanos } => SessionAction::StoreInput {
                    input,
                    now_nanos,
                },
                SessionEvent::Closed => {
                    self.phase = SessionPhase::Ended;
                    SessionAction::Cleanup
                },
                SessionEvent::ForwardFailed => {
                    self.phase = SessionPhase::Ended;
                    SessionAction::Cleanup
                },
                _ => SessionAction::Nothing,
            },
            SessionPhase::Ended => SessionAction::Nothing,
        }
    }

    /// Whether the connection is still to be served.
    pub fn is_open(&self) -> (r: bool)
        ensures
            r == (self.phase != SessionPhase::Ended),
    {
        match self.phase {
            SessionPhase::Ended => false,
            _ => true,
        }
    }
}

impl GameSnapshot {
    /// Carries out an action on behalf of the connection of `player_id`.
    /// Returns whether it changed anything that the tick loop reads: for an
    /// input, whether it was accepted.
    pub fn perform(&mut self, player_id: u32, action: SessionAction) -> (accepted: bool)
        requires
            old(self)@.wf(),
        ensures
            final(self)@.wf(),
            final(self)@ == state_after(old(self)@, player_id, action),
            accepted == match action {
                SessionAction::StoreInput { input, now_nanos } => old(self)@.admits(
                    player_id,
                    now_nanos,
                ),
                SessionAction::Nothing => false,
                _ => true,
            },
    {
        match action {
            SessionAction::Register => {
                self.register_player(player_id);
                true
            },
            SessionAction::StoreInput { input, now_nanos } => self.accept_input(
                player_id,
                input,
                now_nanos,
            ),
            SessionAction::Cleanup => {
                self.disconnect(player_id);
                true
            },
            SessionAction::Nothing => false,
        }
    }
}

/// A frame that cannot be read, and a broadcast that was passed on, change
/// neither the connection nor the shared state.
pub proof fn lemma_bad_frames_are_harmless(phase: SessionPhase, state: SnapshotView, player_id: u32)
    ensures
        phase_after(phase, SessionEvent::Unreadable) == phase,
        phase_after(phase, SessionEvent::Forwarded) == phase,
        state_after(state, player_id, action_on(phase, SessionEvent::Unreadable)) == state,
        state_after(state, player_id, action_on(phase, SessionEvent::Forwarded)) == state,
{
}

/// An input never ends a connection, whether it is accepted or dropped, and
/// it reaches the shared state only on an active connection.
pub proof fn lemma_inputs_keep_the_connection(
    phase: SessionPhase,
    input: ClientInput,
    now_nanos: u64,
)
    ensures
        phase_after(phase, SessionEvent::Input { input, now_nanos }) == phase,
        action_on(phase, SessionEvent::Input { input, now_nanos }) is StoreInput <==> phase
            == SessionPhase::Active,
{
}

/// A player is forgotten exactly when an active connection ends, and
/// registered exactly when the greeting went out. A connection that ended
/// stays ended and asks for nothing more, so no player is forgotten twice.
pub proof fn lemma_cleanup_exactly_once(phase: SessionPhase, event: SessionEvent)
    ensures
        action_on(phase, event) == SessionAction::Cleanup <==> (phase == SessionPhase::Active
            && phase_after(phase, event) == SessionPhase::Ended),
        action_on(phase, event) == SessionAction::Register <==> (phase == SessionPhase::Greeting
            && phase_after(phase, event) == SessionPhase::Active),
        phase == SessionPhase::Ended ==> phase_after(phase, event) == SessionPhase::Ended
            && action_on(phase, event) == SessionAction::Nothing,
        phase == SessionPhase::Greeting && phase_after(phase, event) == SessionPhase::Ended
            ==> action_on(phase, event) == SessionAction::Nothing,
{
}

} // verus!
