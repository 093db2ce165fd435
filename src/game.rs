//! The game's phase and the values that identify rounds and name entries.

use vstd::prelude::*;

verus! {

/// Counter that grows each time a new submitting phase begins.
#[derive(Clone, Copy, Debug, PartialEq, Eq, Hash, Structural)]
pub struct Epoch(pub u32);

/// Identifier of one submitted name; the 128 bits of a UUID.
#[derive(Clone, Copy, Debug, PartialEq, Eq, Hash, Structural)]
pub struct NameId(pub u128);

/// The phase of the current round.
#[derive(Clone, Copy, Debug, PartialEq, Eq, Hash, Structural)]
pub enum GameState {
    Submitting(Epoch),
    Playing,
}

/// The stored phase text was neither of the two known phases.
#[derive(Clone, Copy, Debug, PartialEq, Eq, Hash, Structural)]
pub struct UnknownPhase;

/// How the submitting phase is written in the shared store.
pub const SUBMITTING: &'static str = "submitting";

/// How the playing phase is written in the shared store.
pub const PLAYING: &'static str = "playing";

/// The state that a cold read of the store's phase and epoch stands for:
/// no phase recorded means submitting, and a missing epoch counts as 0.
pub open spec fn stored_state(phase: Option<Seq<char>>, epoch: Option<u32>) -> Result<
    GameState,
    UnknownPhase,
> {
    let e = Epoch(
        match epoch {
            Some(n) => n,
            None => 0,
        },
    );
    match phase {
        None => Ok(GameState::Submitting(e)),
        Some(p) => if p == SUBMITTING@ {
            Ok(GameState::Submitting(e))
        } else if p == PLAYING@ {
            Ok(GameState::Playing)
        } else {
            Err(UnknownPhase)
        },
    }
}

impl GameState {
    /// Whether names may be submitted in this phase.
    pub fn is_submitting(&self) -> (r: bool)
        ensures
            r == (*self is Submitting),
    {
        match self {
            GameState::Submitting(_) => true,
            GameState::Playing => false,
        }
    }

    /// Reads the state back from the store's phase text and epoch counter.
    pub fn from_stored(phase: Option<String>, epoch: Option<u32>) -> (r: Result<
        GameState,
        UnknownPhase,
    >)
        ensures
            r == stored_state(
                match phase {
                    Some(p) => Some(p@),
                    None => None,
                },
                epoch,
            ),
    {
        let e = Epoch(
            match epoch {
                Some(n) => n,
                None => 0,
            },
        );
        match phase {
            None => Ok(GameState::Submitting(e)),
            Some(p) => {
                let submitting = SUBMITTING.to_owned();
                let playing = PLAYING.to_owned();
                if p == submitting {
                    Ok(GameState::Submitting(e))
                } else if p == playing {
                    Ok(GameState::Playing)
                } else {
                    Err(UnknownPhase)
                }
            },
        }
    }
}

} // verus!
