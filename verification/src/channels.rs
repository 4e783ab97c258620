//! Channels and their members, as far as the rules on messages read them.

use crate::id::EntityId;
use vstd::prelude::*;

verus! {

/// What the message handlers read of a channel.
#[derive(Clone, Copy, Debug, PartialEq, Eq)]
pub struct Channel {
    pub id: EntityId,
    /// The space that the channel belongs to.
    pub space_id: EntityId,
    /// Whether anybody may read the channel without being a member.
    pub is_public: bool,
    /// Whether the channel is a free-form document, in which every member may
    /// rearrange and edit every message.
    pub is_document: bool,
}

/// What the message handlers read of a user's membership in a channel.
#[derive(Clone, Copy, Debug, PartialEq, Eq)]
pub struct ChannelMember {
    pub user_id: EntityId,
    pub channel_id: EntityId,
    /// Whether the member is the channel's master.
    pub is_master: bool,
}

} // verus!
