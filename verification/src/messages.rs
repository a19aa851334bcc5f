//! The typed commands and responses carried in frame payloads.
//!
//! On the wire each command is a field-tagged JSON object; the unverified
//! shell converts between those bytes and these plain types.

use vstd::prelude::*;

verus! {

/// A command decoded from one frame payload.
#[allow(non_camel_case_types)]
pub enum Message {
    FIND_MOVE(FindMoveMessage),
    SESSION_ENDED(SessionEndedMessage),
    STOP(StopMessage),
}

/// Ask for a move suggestion in the game `session_id`, whose moves so far
/// are the text log `pgn`.
pub struct FindMoveMessage {
    pub pgn: String,
    pub request_id: usize,
    pub session_id: usize,
}

/// The game `session_id` is over; its engine can be discarded.
pub struct SessionEndedMessage {
    pub session_id: usize,
}

/// Interrupt the search currently running for `session_id`.
pub struct StopMessage {
    pub session_id: usize,
}

/// One move suggestion sent back to the client.
///
/// `depth` is the search depth the suggestion came from; the sentinel
/// [`BOOK_DEPTH`] marks an instant book answer with no search behind it.
pub struct FindMoveResponse {
    pub mv: String,
    pub request_id: usize,
    pub session_id: usize,
    pub depth: usize,
}

/// Sentinel depth for responses answered from the opening book.
pub const BOOK_DEPTH: usize = 255;

} // verus!
