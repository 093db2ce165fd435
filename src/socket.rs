//! What one inbound frame of a client connection means for a session.

use vstd::prelude::*;
use crate::messages::{frame_meaning, DecodeError, MessageView, NGMessage};

verus! {

/// One inbound event of a client connection, as the transport reports it.
#[derive(Debug)]
pub enum Inbound {
    /// The peer closed the connection, or the stream ended.
    Closed,
    /// A binary frame.
    Binary(Vec<u8>),
    /// A text, ping or pong frame.
    NotBinary,
    /// The transport reported an error.
    Failed,
}

/// Why receiving from a client failed.
#[derive(Clone, Copy, Debug, PartialEq, Eq, Structural)]
pub enum ReceiveError {
    NotBinary,
    Transport,
    Decode(DecodeError),
}

/// What an inbound event yields: a message, the end of the connection
/// (`Ok(None)`), or an error.
pub open spec fn inbound_meaning(frame: Inbound) -> Result<Option<MessageView>, ReceiveError> {
    match frame {
        Inbound::Closed => Ok(None),
        Inbound::Binary(b) => match frame_meaning(b@) {
            Ok(m) => Ok(Some(m)),
            Err(e) => Err(ReceiveError::Decode(e)),
        },
        Inbound::NotBinary => Err(ReceiveError::NotBinary),
        Inbound::Failed => Err(ReceiveError::Transport),
    }
}

/// Reads one inbound event: only binary frames carry messages.
pub fn read_inbound(frame: Inbound) -> (r: Result<Option<NGMessage>, ReceiveError>)
    ensures
        match r {
            Ok(Some(m)) => inbound_meaning(frame) == Ok::<Option<MessageView>, ReceiveError>(
                Some(m@),
            ),
            Ok(None) => inbound_meaning(frame) == Ok::<Option<MessageView>, ReceiveError>(None),
            Err(e) => inbound_meaning(frame) == Err::<Option<MessageView>, ReceiveError>(e),
        },
{
    match frame {
        Inbound::Closed => Ok(None),
        Inbound::Binary(b) => match NGMessage::parse(b.as_slice()) {
            Ok(m) => Ok(Some(m)),
            Err(e) => Err(ReceiveError::Decode(e)),
        },
        Inbound::NotBinary => Err(ReceiveError::NotBinary),
        Inbound::Failed => Err(ReceiveError::Transport),
    }
}

} // verus!
