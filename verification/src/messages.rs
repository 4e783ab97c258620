//! Messages and the requests on them, as far as the rules read them.

use crate::id::EntityId;
use vstd::prelude::*;

pub mod handlers;

verus! {

/// What the message handlers read of a stored message.
#[derive(Clone, Debug, PartialEq, Eq)]
pub struct Message {
    pub id: EntityId,
    /// The user who wrote the message.
    pub sender_id: EntityId,
    /// The channel that holds the message.
    pub channel_id: EntityId,
    /// Whether the message is shown folded.
    pub folded: bool,
    /// The users who may read the message, where it is a whisper.
    pub whisper_to_users: Option<Vec<EntityId>>,
}

/// A request to move a message next to a neighbour. Each side of `range` is the
/// position of a neighbour, or absent: the first is the lower anchor, the second the
/// upper one.
#[derive(Clone, Copy, Debug, PartialEq, Eq)]
pub struct MoveMessageBetween {
    pub message_id: EntityId,
    /// The channel in which the message gets its new place.
    pub channel_id: EntityId,
    pub range: (Option<i32>, Option<i32>),
}

} // verus!
