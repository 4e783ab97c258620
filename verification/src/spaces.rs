//! Members of spaces, as far as the rules on messages read them.

use crate::id::EntityId;
use vstd::prelude::*;

verus! {

/// What the message handlers read of a user's membership in a space.
#[derive(Clone, Copy, Debug, PartialEq, Eq)]
pub struct SpaceMember {
    pub user_id: EntityId,
    pub space_id: EntityId,
    /// Whether the member administers the space.
    pub is_admin: bool,
}

} // verus!
