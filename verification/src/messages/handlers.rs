//! The rules by which requests on messages are granted or turned down. Each rule takes
//! what was read from the durable store and says what is to be done; it reads and
//! writes nothing itself.

use crate::channels::{Channel, ChannelMember};
use crate::error::{outcome_view, AppError, AppErrorView};
use crate::id::EntityId;
use crate::messages::{Message, MoveMessageBetween};
use crate::spaces::SpaceMember;
use vstd::prelude::*;

verus! {

/// How many messages a listing returns where the request names no limit.
pub const DEFAULT_LIMIT: i32 = 128;

/// Whether `user_id` may move a message of `sender_id`: in a document channel
/// everybody may, elsewhere the channel's master and the author.
pub open spec fn may_move(
    user_id: EntityId,
    sender_id: EntityId,
    is_document: bool,
    is_master: bool,
) -> bool {
    is_document || is_master || sender_id@ == user_id@
}

/// What the durable store is asked to do with a message that moves.
#[derive(Clone, Copy, Debug, PartialEq, Eq)]
pub enum Dispatch {
    /// Put the message at the bottom, anchored above the position `anchor`.
    MoveBottom { channel_id: EntityId, message_id: EntityId, anchor: i32 },
    /// Put the message at the top, anchored below the position `anchor`.
    MoveAbove { channel_id: EntityId, message_id: EntityId, anchor: i32 },
}

/// What a move request comes to: a caller without the right to move the message is
/// turned down first, then a request without any anchor; the lower anchor, where
/// present, decides before the upper one.
pub open spec fn dispatch_of(permitted: bool, request: MoveMessageBetween) -> Result<
    Dispatch,
    AppErrorView,
> {
    if !permitted {
        Err(AppErrorView::NoPermission("Only the master can move other's messages."@))
    } else {
        dispatch_by_anchor(request)
    }
}

/// Where a move request sends the message, by its anchors alone.
pub open spec fn dispatch_by_anchor(request: MoveMessageBetween) -> Result<
    Dispatch,
    AppErrorView,
> {
    match request.range {
        (None, None) => Err(AppErrorView::BadRequest("a and b cannot both be null"@)),
        (Some(a), _) => Ok(
            Dispatch::MoveBottom {
                channel_id: request.channel_id,
                message_id: request.message_id,
                anchor: a,
            },
        ),
        (None, Some(b)) => Ok(
            Dispatch::MoveAbove {
                channel_id: request.channel_id,
                message_id: request.message_id,
                anchor: b,
            },
        ),
    }
}

/// Decides a request of `user_id` to move `message`, which lies in `channel`, where
/// `channel_member` is the caller's membership in that channel.
///
/// The caller's right is checked first: without it the request is turned down as a
/// permission failure, whatever its anchors are. A request without any anchor is a bad
/// request. Otherwise the lower anchor, where present, sends the message to the bottom,
/// and the upper anchor alone sends it to the top.
pub fn move_between(
    user_id: &EntityId,
    message: &Message,
    channel: &Channel,
    channel_member: &ChannelMember,
    request: &MoveMessageBetween,
) -> (outcome: Result<Dispatch, AppError>)
    ensures
        outcome_view(outcome) == dispatch_of(
            may_move(*user_id, message.sender_id, channel.is_document, channel_member.is_master),
            *request,
        ),
{
    if !channel.is_document && !channel_member.is_master && !message.sender_id.same(user_id) {
        return Err(AppError::no_permission("Only the master can move other's messages."));
    }
    match request.range {
        (None, None) => Err(AppError::bad_request("a and b cannot both be null")),
        (Some(a), _) => Ok(
            Dispatch::MoveBottom {
                channel_id: request.channel_id,
                message_id: request.message_id,
                anchor: a,
            },
        ),
        (None, Some(b)) => Ok(
            Dispatch::MoveAbove {
                channel_id: request.channel_id,
                message_id: request.message_id,
                anchor: b,
            },
        ),
    }
}

/// What is broadcast after a move.
#[derive(Clone, Debug, PartialEq, Eq)]
pub struct MoveNotice {
    /// The space whose members hear of the move.
    pub space_id: EntityId,
    /// The message at its new place.
    pub message: Message,
    /// Whether the content of the message must be blanked before the notice goes out.
    pub hide: bool,
}

/// Settles a move once the durable store has answered: `placed` is the message at its
/// new place, or `None` where it vanished in the meantime. A message that vanished is
/// reported as not found. A whisper is marked to go out without its content.
pub fn moved(channel: &Channel, placed: Option<Message>) -> (outcome: Result<
    MoveNotice,
    AppError,
>)
    ensures
        outcome_view(outcome) == match placed {
            None => Err(AppErrorView::NotFound),
            Some(message) => Ok(
                MoveNotice {
                    space_id: channel.space_id,
                    message,
                    hide: message.whisper_to_users is Some,
                },
            ),
        },
{
    match placed {
        None => Err(AppError::NotFound),
        Some(message) => {
            let hide = message.whisper_to_users.is_some();
            Ok(MoveNotice { space_id: channel.space_id, message, hide })
        },
    }
}

/// Whether `user_id` may edit `message`, which lies in `channel`: in a document channel
/// everybody may, elsewhere only the author.
pub fn edit(user_id: &EntityId, message: &Message, channel: &Channel) -> (outcome: Result<
    (),
    AppError,
>)
    ensures
        outcome_view(outcome) == if channel.is_document || message.sender_id@ == user_id@ {
            Ok(())
        } else {
            Err(AppErrorView::NoPermission("user id dismatch"@))
        },
{
    if !channel.is_document && !message.sender_id.same(user_id) {
        return Err(AppError::no_permission("user id dismatch"));
    }
    Ok(())
}

/// Whether `user_id` may delete `message`, where `space_member` is the caller's
/// membership in the space of the message: an administrator of the space and the
/// author may.
pub fn delete(user_id: &EntityId, message: &Message, space_member: &SpaceMember) -> (outcome:
    Result<(), AppError>)
    ensures
        outcome_view(outcome) == if space_member.is_admin || message.sender_id@ == user_id@ {
            Ok(())
        } else {
            Err(AppErrorView::NoPermission("user id mismatch"@))
        },
{
    if !space_member.is_admin && !message.sender_id.same(user_id) {
        return Err(AppError::no_permission("user id mismatch"));
    }
    Ok(())
}

/// Decides a request of `user_id` to fold or unfold `message`: whoever may move the
/// message may, and the message then gets the opposite of its present state, which is
/// returned.
pub fn toggle_fold(
    user_id: &EntityId,
    message: &Message,
    channel: &Channel,
    channel_member: &ChannelMember,
) -> (outcome: Result<bool, AppError>)
    ensures
        outcome_view(outcome) == if may_move(
            *user_id,
            message.sender_id,
            channel.is_document,
            channel_member.is_master,
        ) {
            Ok(!message.folded)
        } else {
            Err(AppErrorView::NoPermission("user id dismatch"@))
        },
{
    if !channel.is_document && !message.sender_id.same(user_id) && !channel_member.is_master {
        return Err(AppError::no_permission("user id dismatch"));
    }
    Ok(!message.folded)
}

/// How the messages of a channel are listed.
#[derive(Clone, Copy, Debug, PartialEq, Eq, Structural)]
pub struct Listing {
    /// Whether the caller has to be a member of the channel.
    pub members_only: bool,
    /// How many messages are returned at most.
    pub limit: i32,
}

/// Decides how the messages of `channel` are listed for a request with the given
/// limit: a channel that is not public is listed for its members only, and a request
/// without a limit gets [`DEFAULT_LIMIT`] messages.
pub fn by_channel(channel: &Channel, limit: Option<i32>) -> (listing: Listing)
    ensures
        listing.members_only == !channel.is_public,
        listing.limit == match limit {
            Some(n) => n,
            None => DEFAULT_LIMIT,
        },
{
    let limit = match limit {
        Some(n) => n,
        None => DEFAULT_LIMIT,
    };
    Listing { members_only: !channel.is_public, limit }
}

/// The method of a request, as far as the routes tell methods apart.
#[derive(Clone, Copy, Debug, PartialEq, Eq, Structural)]
pub enum Method {
    Get,
    Post,
    Put,
    Patch,
    /// Any other method.
    Other,
}

/// The handlers that a request can be routed to.
#[derive(Clone, Copy, Debug, PartialEq, Eq, Structural)]
pub enum Route {
    Query,
    ByChannel,
    Send,
    Edit,
    MoveBetween,
    ToggleFold,
    Delete,
}

/// The route table.
pub open spec fn route_of(path: Seq<char>, method: Method) -> Option<Route> {
    if path == "/query"@ && method == Method::Get {
        Some(Route::Query)
    } else if path == "/by_channel"@ && method == Method::Get {
        Some(Route::ByChannel)
    } else if path == "/send"@ && method == Method::Post {
        Some(Route::Send)
    } else if path == "/edit"@ && (method == Method::Post || method == Method::Put || method
        == Method::Patch) {
        Some(Route::Edit)
    } else if path == "/move_between"@ && method == Method::Post {
        Some(Route::MoveBetween)
    } else if path == "/toggle_fold"@ && method == Method::Post {
        Some(Route::ToggleFold)
    } else if path == "/delete"@ && method == Method::Post {
        Some(Route::Delete)
    } else {
        None
    }
}

/// Finds the handler for a request by its path and method, or `None` where no handler
/// takes it.
pub fn router(path: &str, method: Method) -> (route: Option<Route>)
    ensures
        route == route_of(path@, method),
{
    let path = String::from_str(path);
    match method {
        Method::Get => {
            if path == String::from_str("/query") {
                Some(Route::Query)
            } else if path == String::from_str("/by_channel") {
                Some(Route::ByChannel)
            } else {
                None
            }
        },
        Method::Post => {
            if path == String::from_str("/send") {
                Some(Route::Send)
            } else if path == String::from_str("/edit") {
                Some(Route::Edit)
            } else if path == String::from_str("/move_between") {
                Some(Route::MoveBetween)
            } else if path == String::from_str("/toggle_fold") {
                Some(Route::ToggleFold)
            } else if path == String::from_str("/delete") {
                Some(Route::Delete)
            } else {
                None
            }
        },
        Method::Put | Method::Patch => {
            if path == String::from_str("/edit") {
                Some(Route::Edit)
            } else {
                None
            }
        },
        Method::Other => None,
    }
}

} // verus!
