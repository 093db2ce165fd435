//! Per-connection state machines of players and displays.
//!
//! A session consumes one event at a time, in arrival order, and answers
//! each with one action for the connection loop to carry out. The only
//! state it keeps is the phase it last observed.

use vstd::prelude::*;
use crate::game::{GameState, NameId};
use crate::messages::NGMessage;

verus! {

/// What the connection loop does next.
#[derive(Debug, PartialEq, Eq)]
pub enum Action {
    /// Send this message to the client.
    Send(NGMessage),
    /// Read the names and guess bits from the store and send them as `Names`.
    SendNames,
    /// Add the name to the store, then send `NameSubmitted` with the name and its new id.
    Submit(String),
    /// Remove the id from the store, then send `NameUnsubmitted` with it.
    Unsubmit(NameId),
    /// Enter the playing phase.
    StartPlaying,
    /// Start a new submitting phase.
    StartSubmitting,
    /// Set a guess bit.
    Guess(usize),
    /// Clear a guess bit.
    Unguess(usize),
    /// Close the session.
    End(EndReason),
}

/// Why a session ends.
#[derive(Clone, Copy, Debug, PartialEq, Eq, Structural)]
pub enum EndReason {
    /// The client closed the connection.
    Closed,
    /// Receiving failed: a transport error, a frame that is not binary, or
    /// one that does not decode.
    ReceiveFailed,
    /// The client sent a message that its role may not send in this phase.
    ProtocolViolation,
}

/// An event of a player connection.
#[derive(Debug)]
pub enum PlayerEvent {
    Received(NGMessage),
    Closed,
    ReceiveFailed,
    StateChanged(GameState),
    Guessed(usize),
    Unguessed(usize),
}

/// An event of a display connection.
#[derive(Debug)]
pub enum DisplayEvent {
    Received(NGMessage),
    Closed,
    ReceiveFailed,
    StateChanged(GameState),
    NameCount(usize),
    Guessed(usize),
    Unguessed(usize),
}

/// What a client is sent for a phase: the epoch while submitting, the
/// names and guesses while playing.
pub open spec fn snapshot_of(state: GameState) -> Action {
    match state {
        GameState::Submitting(e) => Action::Send(NGMessage::StateSubmitting(e)),
        GameState::Playing => Action::SendNames,
    }
}

/// The snapshot to send for a phase.
pub fn snapshot(state: GameState) -> (r: Action)
    ensures
        r == snapshot_of(state),
{
    match state {
        GameState::Submitting(e) => Action::Send(NGMessage::StateSubmitting(e)),
        GameState::Playing => Action::SendNames,
    }
}

/// How a player session answers an event, and the phase it observes after it.
pub open spec fn player_step(state: GameState, event: PlayerEvent) -> (GameState, Action) {
    match event {
        PlayerEvent::Received(m) => match m {
            NGMessage::SubmitName(name) => if state is Submitting {
                (state, Action::Submit(name))
            } else {
                (state, Action::End(EndReason::ProtocolViolation))
            },
            NGMessage::UnsubmitName(id) => if state is Submitting {
                (state, Action::Unsubmit(id))
            } else {
                (state, Action::End(EndReason::ProtocolViolation))
            },
            _ => (state, Action::End(EndReason::ProtocolViolation)),
        },
        PlayerEvent::Closed => (state, Action::End(EndReason::Closed)),
        PlayerEvent::ReceiveFailed => (state, Action::End(EndReason::ReceiveFailed)),
        PlayerEvent::StateChanged(s) => (s, snapshot_of(s)),
        PlayerEvent::Guessed(i) => (state, Action::Send(NGMessage::NameGuessed(i))),
        PlayerEvent::Unguessed(i) => (state, Action::Send(NGMessage::NameUnguessed(i))),
    }
}

/// How a display session answers an event, and the phase it observes after it.
pub open spec fn display_step(state: GameState, event: DisplayEvent) -> (GameState, Action) {
    match event {
        DisplayEvent::Received(m) => match m {
            NGMessage::RequestPlayingState => (state, Action::StartPlaying),
            NGMessage::GuessName(i) => (state, Action::Guess(i)),
            NGMessage::UnguessName(i) => (state, Action::Unguess(i)),
            NGMessage::RequestSubmittingState => (state, Action::StartSubmitting),
            _ => (state, Action::End(EndReason::ProtocolViolation)),
        },
        DisplayEvent::Closed => (state, Action::End(EndReason::Closed)),
        DisplayEvent::ReceiveFailed => (state, Action::End(EndReason::ReceiveFailed)),
        DisplayEvent::StateChanged(s) => (s, snapshot_of(s)),
        DisplayEvent::NameCount(n) => (state, Action::Send(NGMessage::NumNames(n))),
        DisplayEvent::Guessed(i) => (state, Action::Send(NGMessage::NameGuessed(i))),
        DisplayEvent::Unguessed(i) => (state, Action::Send(NGMessage::NameUnguessed(i))),
    }
}

/// The server side of one player connection. A player follows its own
/// submissions, the phase changes, and every guess and unguess, which it
/// relays to its client as displays do.
pub struct PlayerSession {
    state: GameState,
}

impl PlayerSession {
    pub closed spec fn observed(&self) -> GameState {
        self.state
    }

    /// A session for a player that connects while the store is in `state`,
    /// with the snapshot to send first.
    pub fn connect(state: GameState) -> (r: (PlayerSession, Action))
        ensures
            r.0.observed() == state,
            r.1 == snapshot_of(state),
    {
        (PlayerSession { state }, snapshot(state))
    }

    /// The phase this session last observed.
    pub fn state(&self) -> (r: GameState)
        ensures
            r == self.observed(),
    {
        self.state
    }

    /// Answers one event. Names are submitted and withdrawn only while
    /// submitting; any other message from a player ends the session. Guess
    /// notifications are relayed to the client as they come.
    pub fn handle(&mut self, event: PlayerEvent) -> (r: Action)
        ensures
            (final(self).observed(), r) == player_step(old(self).observed(), event),
    {
        match event {
            PlayerEvent::Received(m) => match m {
                NGMessage::SubmitName(name) => if self.state.is_submitting() {
                    Action::Submit(name)
                } else {
                    Action::End(EndReason::ProtocolViolation)
                },
                NGMessage::UnsubmitName(id) => if self.state.is_submitting() {
                    Action::Unsubmit(id)
                } else {
                    Action::End(EndReason::ProtocolViolation)
                },
                _ => Action::End(EndReason::ProtocolViolation),
            },
            PlayerEvent::Closed => Action::End(EndReason::Closed),
            PlayerEvent::ReceiveFailed => Action::End(EndReason::ReceiveFailed),
            PlayerEvent::StateChanged(s) => {
                self.state = s;
                snapshot(s)
            },
            PlayerEvent::Guessed(i) => Action::Send(NGMessage::NameGuessed(i)),
            PlayerEvent::Unguessed(i) => Action::Send(NGMessage::NameUnguessed(i)),
        }
    }
}

/// The server side of one display connection.
pub struct DisplaySession {
    state: GameState,
}

impl DisplaySession {
    pub closed spec fn observed(&self) -> GameState {
        self.state
    }

    /// A session for a display that connects while the store is in `state`,
    /// with the snapshot to send first.
    pub fn connect(state: GameState) -> (r: (DisplaySession, Action))
        ensures
            r.0.observed() == state,
            r.1 == snapshot_of(state),
    {
        (DisplaySession { state }, snapshot(state))
    }

    /// The phase this session last observed.
    pub fn state(&self) -> (r: GameState)
        ensures
            r == self.observed(),
    {
        self.state
    }

    /// Answers one event. Phase requests and guesses go to the store; store
    /// notifications are relayed to the client as they come; any other
    /// message from a display ends the session.
    pub fn handle(&mut self, event: DisplayEvent) -> (r: Action)
        ensures
            (final(self).observed(), r) == display_step(old(self).observed(), event),
    {
        match event {
            DisplayEvent::Received(m) => match m {
                NGMessage::RequestPlayingState => Action::StartPlaying,
                NGMessage::GuessName(i) => Action::Guess(i),
                NGMessage::UnguessName(i) => Action::Unguess(i),
                NGMessage::RequestSubmittingState => Action::StartSubmitting,
                _ => Action::End(EndReason::ProtocolViolation),
            },
            DisplayEvent::Closed => Action::End(EndReason::Closed),
            DisplayEvent::ReceiveFailed => Action::End(EndReason::ReceiveFailed),
            DisplayEvent::StateChanged(s) => {
                self.state = s;
                snapshot(s)
            },
            DisplayEvent::NameCount(n) => Action::Send(NGMessage::NumNames(n)),
            DisplayEvent::Guessed(i) => Action::Send(NGMessage::NameGuessed(i)),
            DisplayEvent::Unguessed(i) => Action::Send(NGMessage::NameUnguessed(i)),
        }
    }
}

} // verus!
