use message_order::channels::{Channel, ChannelMember};
use message_order::error::AppError;
use message_order::id::EntityId;
use message_order::messages::handlers::{
    by_channel, delete, edit, move_between, moved, router, toggle_fold, Dispatch, Listing, Method,
    MoveNotice, Route, DEFAULT_LIMIT,
};
use message_order::messages::{Message, MoveMessageBetween};
use message_order::spaces::SpaceMember;

fn id(byte: u8) -> EntityId {
    EntityId::from_bytes([byte; 16])
}

fn author() -> EntityId {
    id(0xa1)
}

fn stranger() -> EntityId {
    id(0xb2)
}

fn message() -> Message {
    Message {
        id: id(0x01),
        sender_id: author(),
        channel_id: id(0xc0),
        folded: false,
        whisper_to_users: None,
    }
}

fn channel(is_document: bool) -> Channel {
    Channel { id: id(0xc0), space_id: id(0x50), is_public: true, is_document }
}

fn member(user_id: EntityId, is_master: bool) -> ChannelMember {
    ChannelMember { user_id, channel_id: id(0xc0), is_master }
}

fn request(range: (Option<i32>, Option<i32>)) -> MoveMessageBetween {
    MoveMessageBetween { message_id: id(0x01), channel_id: id(0xc0), range }
}

fn no_permission(text: &str) -> AppError {
    AppError::NoPermission(text.to_string())
}

#[test]
fn move_without_anchors_is_a_bad_request() {
    let outcome = move_between(
        &author(),
        &message(),
        &channel(false),
        &member(author(), false),
        &request((None, None)),
    );
    assert_eq!(outcome, Err(AppError::BadRequest("a and b cannot both be null".to_string())));
}

#[test]
fn move_with_the_lower_anchor_goes_to_the_bottom() {
    let outcome = move_between(
        &author(),
        &message(),
        &channel(false),
        &member(author(), false),
        &request((Some(12), None)),
    );
    assert_eq!(
        outcome,
        Ok(Dispatch::MoveBottom { channel_id: id(0xc0), message_id: id(0x01), anchor: 12 })
    );
}

#[test]
fn move_with_the_upper_anchor_goes_to_the_top() {
    let outcome = move_between(
        &author(),
        &message(),
        &channel(false),
        &member(author(), false),
        &request((None, Some(34))),
    );
    assert_eq!(
        outcome,
        Ok(Dispatch::MoveAbove { channel_id: id(0xc0), message_id: id(0x01), anchor: 34 })
    );
}

#[test]
fn move_with_both_anchors_goes_by_the_lower_one() {
    let outcome = move_between(
        &author(),
        &message(),
        &channel(false),
        &member(author(), false),
        &request((Some(12), Some(34))),
    );
    assert_eq!(
        outcome,
        Ok(Dispatch::MoveBottom { channel_id: id(0xc0), message_id: id(0x01), anchor: 12 })
    );
}

#[test]
fn move_goes_to_the_channel_that_the_request_names() {
    let mut wanted = request((Some(5), None));
    wanted.channel_id = id(0xc9);
    wanted.message_id = id(0x02);
    let outcome =
        move_between(&author(), &message(), &channel(false), &member(author(), false), &wanted);
    assert_eq!(
        outcome,
        Ok(Dispatch::MoveBottom { channel_id: id(0xc9), message_id: id(0x02), anchor: 5 })
    );
}

#[test]
fn stranger_may_not_move_in_an_ordinary_channel() {
    let outcome = move_between(
        &stranger(),
        &message(),
        &channel(false),
        &member(stranger(), false),
        &request((Some(12), None)),
    );
    assert_eq!(outcome, Err(no_permission("Only the master can move other's messages.")));
}

#[test]
fn stranger_may_move_in_a_document_channel() {
    let outcome = move_between(
        &stranger(),
        &message(),
        &channel(true),
        &member(stranger(), false),
        &request((Some(12), None)),
    );
    assert_eq!(
        outcome,
        Ok(Dispatch::MoveBottom { channel_id: id(0xc0), message_id: id(0x01), anchor: 12 })
    );
}

#[test]
fn master_may_move_the_messages_of_others() {
    let outcome = move_between(
        &stranger(),
        &message(),
        &channel(false),
        &member(stranger(), true),
        &request((None, Some(3))),
    );
    assert_eq!(
        outcome,
        Ok(Dispatch::MoveAbove { channel_id: id(0xc0), message_id: id(0x01), anchor: 3 })
    );
}

#[test]
fn permission_is_checked_before_the_anchors() {
    let outcome = move_between(
        &stranger(),
        &message(),
        &channel(false),
        &member(stranger(), false),
        &request((None, None)),
    );
    assert_eq!(outcome, Err(no_permission("Only the master can move other's messages.")));
}

#[test]
fn moved_message_that_vanished_is_not_found() {
    assert_eq!(moved(&channel(false), None), Err(AppError::NotFound));
}

#[test]
fn moved_whisper_goes_out_hidden() {
    let mut whisper = message();
    whisper.whisper_to_users = Some(vec![stranger()]);
    let notice = moved(&channel(false), Some(whisper.clone()));
    assert_eq!(notice, Ok(MoveNotice { space_id: id(0x50), message: whisper, hide: true }));
}

#[test]
fn moved_whisper_to_nobody_goes_out_hidden() {
    let mut whisper = message();
    whisper.whisper_to_users = Some(Vec::new());
    let notice = moved(&channel(false), Some(whisper.clone())).unwrap();
    assert!(notice.hide);
}

#[test]
fn moved_open_message_goes_out_as_it_is() {
    let notice = moved(&channel(false), Some(message()));
    assert_eq!(notice, Ok(MoveNotice { space_id: id(0x50), message: message(), hide: false }));
}

#[test]
fn edit_is_for_the_author() {
    assert_eq!(edit(&author(), &message(), &channel(false)), Ok(()));
    assert_eq!(
        edit(&stranger(), &message(), &channel(false)),
        Err(no_permission("user id dismatch"))
    );
}

#[test]
fn edit_is_for_everybody_in_a_document_channel() {
    assert_eq!(edit(&stranger(), &message(), &channel(true)), Ok(()));
}

#[test]
fn delete_is_for_the_author_and_the_administrator() {
    let plain = SpaceMember { user_id: stranger(), space_id: id(0x50), is_admin: false };
    let admin = SpaceMember { user_id: stranger(), space_id: id(0x50), is_admin: true };
    let own = SpaceMember { user_id: author(), space_id: id(0x50), is_admin: false };
    assert_eq!(delete(&author(), &message(), &own), Ok(()));
    assert_eq!(delete(&stranger(), &message(), &admin), Ok(()));
    assert_eq!(delete(&stranger(), &message(), &plain), Err(no_permission("user id mismatch")));
}

#[test]
fn toggle_fold_turns_the_state_over() {
    let mut folded = message();
    folded.folded = true;
    assert_eq!(
        toggle_fold(&author(), &message(), &channel(false), &member(author(), false)),
        Ok(true)
    );
    assert_eq!(
        toggle_fold(&author(), &folded, &channel(false), &member(author(), false)),
        Ok(false)
    );
}

#[test]
fn toggle_fold_is_for_whoever_may_move() {
    assert_eq!(
        toggle_fold(&stranger(), &message(), &channel(false), &member(stranger(), false)),
        Err(no_permission("user id dismatch"))
    );
    assert_eq!(
        toggle_fold(&stranger(), &message(), &channel(false), &member(stranger(), true)),
        Ok(true)
    );
    assert_eq!(
        toggle_fold(&stranger(), &message(), &channel(true), &member(stranger(), false)),
        Ok(true)
    );
}

#[test]
fn listing_without_a_limit_gets_the_default() {
    assert_eq!(DEFAULT_LIMIT, 128);
    assert_eq!(by_channel(&channel(false), None), Listing { members_only: false, limit: 128 });
    assert_eq!(by_channel(&channel(false), Some(7)), Listing { members_only: false, limit: 7 });
}

#[test]
fn listing_of_a_closed_channel_is_for_members() {
    let mut closed = channel(false);
    closed.is_public = false;
    assert_eq!(by_channel(&closed, Some(10)), Listing { members_only: true, limit: 10 });
}

#[test]
fn router_knows_every_route() {
    assert_eq!(router("/query", Method::Get), Some(Route::Query));
    assert_eq!(router("/by_channel", Method::Get), Some(Route::ByChannel));
    assert_eq!(router("/send", Method::Post), Some(Route::Send));
    assert_eq!(router("/edit", Method::Post), Some(Route::Edit));
    assert_eq!(router("/edit", Method::Put), Some(Route::Edit));
    assert_eq!(router("/edit", Method::Patch), Some(Route::Edit));
    assert_eq!(router("/move_between", Method::Post), Some(Route::MoveBetween));
    assert_eq!(router("/toggle_fold", Method::Post), Some(Route::ToggleFold));
    assert_eq!(router("/delete", Method::Post), Some(Route::Delete));
}

#[test]
fn router_misses_everything_else() {
    assert_eq!(router("/query", Method::Post), None);
    assert_eq!(router("/send", Method::Get), None);
    assert_eq!(router("/move_between", Method::Put), None);
    assert_eq!(router("/delete", Method::Other), None);
    assert_eq!(router("/unknown", Method::Get), None);
    assert_eq!(router("", Method::Post), None);
    assert_eq!(router("/edit/", Method::Post), None);
}
