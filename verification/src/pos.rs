//! The position engine: a watermark per channel, from which fresh positions are taken,
//! and positions that are held for drafts for a limited time.
//!
//! Each operation is a small state machine (see [`operation::Operation`]). The
//! functions of this module start one; the contract of each says what the operation
//! comes to when it is run to its end with nobody else at work.

use crate::cache::{Command, CommandView, Reply};
use crate::error::CacheError;
use crate::id::{hyphenated_text, lemma_hyphenated_text_is_injective, EntityId};
use crate::pos::operation::{Event, Operation, Progress, Request, RequestView};
use crate::pos::world::{
    allocated, lemma_alloc_new_pos_alone, lemma_ensure_pos_largest_alone, lemma_finished_alone,
    lemma_pos_alone, lemma_reset_channel_pos_alone, previewed, raised, released, reset, run,
    World,
};
use vstd::prelude::*;

pub mod aggregate;
pub mod interleaving;
pub mod operation;
pub mod sequence;
pub mod world;

verus! {

/// The key of a channel's watermark: the highest position known to be taken in it.
pub open spec fn max_pos_key(channel_id: Seq<u8>) -> Seq<char> {
    "channel:"@ + hyphenated_text(channel_id) + ":max_pos"@
}

/// The key of the position that is held for a draft in a channel.
pub open spec fn pos_key(channel_id: Seq<u8>, message_id: Seq<u8>) -> Seq<char> {
    "channel:"@ + hyphenated_text(channel_id) + ":preview:"@ + hyphenated_text(message_id)
        + ":pos"@
}

/// The key of a watermark is never the key of a position that is held for a draft.
pub proof fn lemma_keys_differ(channel_id: Seq<u8>, other_channel_id: Seq<u8>, message_id: Seq<u8>)
    ensures
        max_pos_key(channel_id) != pos_key(other_channel_id, message_id),
{
    reveal_strlit("channel:");
    reveal_strlit(":max_pos");
    reveal_strlit(":preview:");
    reveal_strlit(":pos");
    assert(max_pos_key(channel_id).len() == 52);
    assert(pos_key(other_channel_id, message_id).len() == 93);
}

/// Two channels never share a watermark key.
pub proof fn lemma_channels_have_their_own_watermark(channel_id: EntityId, other: EntityId)
    requires
        channel_id@ != other@,
    ensures
        max_pos_key(channel_id@) != max_pos_key(other@),
{
    reveal_strlit("channel:");
    reveal_strlit(":max_pos");
    if max_pos_key(channel_id@) == max_pos_key(other@) {
        assert(max_pos_key(channel_id@).subrange(8, 44) =~= hyphenated_text(channel_id@));
        assert(max_pos_key(other@).subrange(8, 44) =~= hyphenated_text(other@));
        lemma_hyphenated_text_is_injective(channel_id@, other@);
    }
}

/// Two drafts never share a key, neither in one channel nor across channels.
pub proof fn lemma_drafts_have_their_own_key(
    channel_id: EntityId,
    message_id: EntityId,
    other_channel_id: EntityId,
    other_message_id: EntityId,
)
    requires
        channel_id@ != other_channel_id@ || message_id@ != other_message_id@,
    ensures
        pos_key(channel_id@, message_id@) != pos_key(other_channel_id@, other_message_id@),
{
    reveal_strlit("channel:");
    reveal_strlit(":preview:");
    reveal_strlit(":pos");
    let key = pos_key(channel_id@, message_id@);
    let other_key = pos_key(other_channel_id@, other_message_id@);
    if key == other_key {
        assert(key.subrange(8, 44) =~= hyphenated_text(channel_id@));
        assert(other_key.subrange(8, 44) =~= hyphenated_text(other_channel_id@));
        assert(key.subrange(53, 89) =~= hyphenated_text(message_id@));
        assert(other_key.subrange(53, 89) =~= hyphenated_text(other_message_id@));
        lemma_hyphenated_text_is_injective(channel_id@, other_channel_id@);
        lemma_hyphenated_text_is_injective(message_id@, other_message_id@);
    }
}

/// Builds the key of a channel's watermark.
pub fn create_max_pos_key(channel_id: &EntityId) -> (key: String)
    ensures
        key@ == max_pos_key(channel_id@),
{
    let mut key = String::from_str("channel:");
    let id = channel_id.to_text();
    key.append(id.as_str());
    key.append(":max_pos");
    key
}

/// Builds the key of the position that is held for the draft `message_id` in a channel.
pub fn create_pos_key(channel_id: EntityId, message_id: EntityId) -> (key: String)
    ensures
        key@ == pos_key(channel_id@, message_id@),
{
    let mut key = String::from_str("channel:");
    let channel = channel_id.to_text();
    key.append(channel.as_str());
    key.append(":preview:");
    let message = message_id.to_text();
    key.append(message.as_str());
    key.append(":pos");
    key
}

/// How far a call of [`ensure_pos_largest`] has come.
#[derive(Clone, Copy, Debug, PartialEq, Eq, Structural)]
pub enum RaiseStage {
    /// It reads the watermark.
    Reading,
    /// It writes the new watermark.
    Writing,
}

/// A call of [`ensure_pos_largest`] under way.
#[derive(Clone, Copy, Debug, PartialEq, Eq)]
pub struct EnsurePosLargest {
    pub channel_id: EntityId,
    pub pos: i32,
    pub stage: RaiseStage,
}

/// Raises the watermark of a channel to `pos`, unless it stands that high already.
/// A channel without a watermark counts as one with the watermark 1.
///
/// It is for a caller who knows from the durable store that a position as high as
/// `pos` is taken. The watermark is read and then written: two requests, not one step.
/// Where another caller writes in between, the later write stands.
#[verifier::allow_in_spec]
pub fn ensure_pos_largest(channel_id: EntityId, pos: i32) -> (operation: EnsurePosLargest)
    ensures
        forall|world: World| #[trigger] run(operation, world) == raised(world, channel_id, pos),
    returns
        (EnsurePosLargest { channel_id, pos, stage: RaiseStage::Reading }),
{
    proof {
        assert forall|world: World| #[trigger]
            run(EnsurePosLargest { channel_id, pos, stage: RaiseStage::Reading }, world)
                == raised(world, channel_id, pos) by {
            lemma_ensure_pos_largest_alone(world, channel_id, pos);
        }
    }
    EnsurePosLargest { channel_id, pos, stage: RaiseStage::Reading }
}

impl Operation for EnsurePosLargest {
    type Output = ();

    open spec fn pending(&self) -> RequestView {
        match self.stage {
            RaiseStage::Reading => RequestView::Cache(
                CommandView::Get { key: max_pos_key(self.channel_id@) },
            ),
            RaiseStage::Writing => RequestView::Cache(
                CommandView::Put { key: max_pos_key(self.channel_id@), value: self.pos },
            ),
        }
    }

    open spec fn after(self, event: Event) -> Progress<Self, ()> {
        match (self.stage, event) {
            (_, Event::Cache(Err(error))) => Progress::Done(Err(error)),
            (RaiseStage::Reading, Event::Cache(Ok(Reply::Value(current)))) => {
                let watermark = match current {
                    Some(watermark) => watermark,
                    None => 1,
                };
                if self.pos > watermark {
                    Progress::Next(EnsurePosLargest { stage: RaiseStage::Writing, ..self })
                } else {
                    Progress::Done(Ok(()))
                }
            },
            (RaiseStage::Writing, Event::Cache(Ok(_))) => Progress::Done(Ok(())),
            _ => Progress::Done(Err(CacheError::Decode)),
        }
    }

    open spec fn requests_left(&self) -> nat {
        match self.stage {
            RaiseStage::Reading => 2,
            RaiseStage::Writing => 1,
        }
    }

    proof fn lemma_requests_run_out(self, event: Event) {
    }

    fn request(&self) -> (request: Request) {
        let key = create_max_pos_key(&self.channel_id);
        match self.stage {
            RaiseStage::Reading => Request::Cache(Command::Get { key }),
            RaiseStage::Writing => Request::Cache(Command::Put { key, value: self.pos }),
        }
    }

    fn resume(self, event: Event) -> (progress: Progress<Self, ()>) {
        match event {
            Event::Cache(Err(error)) => Progress::Done(Err(error)),
            Event::Cache(Ok(reply)) => match self.stage {
                RaiseStage::Reading => match reply {
                    Reply::Value(current) => {
                        let watermark = match current {
                            Some(watermark) => watermark,
                            None => 1,
                        };
                        if self.pos > watermark {
                            Progress::Next(
                                EnsurePosLargest {
                                    channel_id: self.channel_id,
                                    pos: self.pos,
                                    stage: RaiseStage::Writing,
                                },
                            )
                        } else {
                            Progress::Done(Ok(()))
                        }
                    },
                    _ => Progress::Done(Err(CacheError::Decode)),
                },
                RaiseStage::Writing => Progress::Done(Ok(())),
            },
            Event::Aggregate(_) => Progress::Done(Err(CacheError::Decode)),
        }
    }
}

/// How far a call of [`alloc_new_pos`] has come.
#[derive(Clone, Copy, Debug, PartialEq, Eq, Structural)]
pub enum AllocStage {
    /// It asks the cache whether the channel has a watermark.
    Probing,
    /// The channel has none: it asks the durable store for the aggregate.
    Seeding,
    /// It installs the seed as the watermark, unless another caller was first.
    Installing { seed: i32 },
    /// It takes the next position.
    Incrementing,
}

/// A call of [`alloc_new_pos`] under way.
#[derive(Clone, Copy, Debug, PartialEq, Eq)]
pub struct AllocNewPos {
    pub channel_id: EntityId,
    pub stage: AllocStage,
}

/// Takes a fresh position in a channel: one above the watermark, which becomes the new
/// watermark in the same step. Where the cache knows no watermark, the seed that
/// follows from the durable aggregate is installed first, unless another caller has
/// installed one in the meantime.
///
/// A position that was taken is never given out again, also where the caller that
/// took it gives up before it has used it.
#[verifier::allow_in_spec]
pub fn alloc_new_pos(channel_id: EntityId) -> (operation: AllocNewPos)
    ensures
        forall|world: World|
            world.aggregate.wf() ==> #[trigger] run(operation, world) == allocated(
                world,
                channel_id,
            ),
    returns
        (AllocNewPos { channel_id, stage: AllocStage::Probing }),
{
    proof {
        assert forall|world: World| world.aggregate.wf() implies #[trigger] run(
            AllocNewPos { channel_id, stage: AllocStage::Probing },
            world,
        ) == allocated(world, channel_id) by {
            lemma_alloc_new_pos_alone(world, channel_id);
        }
    }
    AllocNewPos { channel_id, stage: AllocStage::Probing }
}

impl Operation for AllocNewPos {
    type Output = i32;

    open spec fn pending(&self) -> RequestView {
        match self.stage {
            AllocStage::Probing => RequestView::Cache(
                CommandView::Get { key: max_pos_key(self.channel_id@) },
            ),
            AllocStage::Seeding => RequestView::Aggregate { channel_id: self.channel_id },
            AllocStage::Installing { seed } => RequestView::Cache(
                CommandView::PutIfAbsent { key: max_pos_key(self.channel_id@), value: seed },
            ),
            AllocStage::Incrementing => RequestView::Cache(
                CommandView::Increment { key: max_pos_key(self.channel_id@) },
            ),
        }
    }

    open spec fn after(self, event: Event) -> Progress<Self, i32> {
        match (self.stage, event) {
            (_, Event::Cache(Err(error))) => Progress::Done(Err(error)),
            (AllocStage::Probing, Event::Cache(Ok(Reply::Value(Some(_))))) => Progress::Next(
                AllocNewPos { stage: AllocStage::Incrementing, ..self },
            ),
            (AllocStage::Probing, Event::Cache(Ok(Reply::Value(None)))) => Progress::Next(
                AllocNewPos { stage: AllocStage::Seeding, ..self },
            ),
            (AllocStage::Seeding, Event::Aggregate(aggregate)) => Progress::Next(
                AllocNewPos {
                    stage: AllocStage::Installing { seed: aggregate.seed() as i32 },
                    ..self
                },
            ),
            (AllocStage::Installing { seed }, Event::Cache(Ok(_))) => Progress::Next(
                AllocNewPos { stage: AllocStage::Incrementing, ..self },
            ),
            (AllocStage::Incrementing, Event::Cache(Ok(Reply::Counter(pos)))) => Progress::Done(
                Ok(pos),
            ),
            _ => Progress::Done(Err(CacheError::Decode)),
        }
    }

    open spec fn requests_left(&self) -> nat {
        match self.stage {
            AllocStage::Probing => 4,
            AllocStage::Seeding => 3,
            AllocStage::Installing { seed } => 2,
            AllocStage::Incrementing => 1,
        }
    }

    proof fn lemma_requests_run_out(self, event: Event) {
    }

    fn request(&self) -> (request: Request) {
        match self.stage {
            AllocStage::Probing => Request::Cache(
                Command::Get { key: create_max_pos_key(&self.channel_id) },
            ),
            AllocStage::Seeding => Request::Aggregate { channel_id: self.channel_id },
            AllocStage::Installing { seed } => Request::Cache(
                Command::PutIfAbsent { key: create_max_pos_key(&self.channel_id), value: seed },
            ),
            AllocStage::Incrementing => Request::Cache(
                Command::Increment { key: create_max_pos_key(&self.channel_id) },
            ),
        }
    }

    fn resume(self, event: Event) -> (progress: Progress<Self, i32>) {
        let channel_id = self.channel_id;
        match event {
            Event::Cache(Err(error)) => Progress::Done(Err(error)),
            Event::Cache(Ok(reply)) => match self.stage {
                AllocStage::Probing => match reply {
                    Reply::Value(Some(_)) => Progress::Next(
                        AllocNewPos { channel_id, stage: AllocStage::Incrementing },
                    ),
                    Reply::Value(None) => Progress::Next(
                        AllocNewPos { channel_id, stage: AllocStage::Seeding },
                    ),
                    _ => Progress::Done(Err(CacheError::Decode)),
                },
                AllocStage::Seeding => Progress::Done(Err(CacheError::Decode)),
                AllocStage::Installing { seed } => Progress::Next(
                    AllocNewPos { channel_id, stage: AllocStage::Incrementing },
                ),
                AllocStage::Incrementing => match reply {
                    Reply::Counter(pos) => Progress::Done(Ok(pos)),
                    _ => Progress::Done(Err(CacheError::Decode)),
                },
            },
            Event::Aggregate(aggregate) => match self.stage {
                AllocStage::Seeding => Progress::Next(
                    AllocNewPos {
                        channel_id,
                        stage: AllocStage::Installing { seed: aggregate.initial_pos() },
                    },
                ),
                _ => Progress::Done(Err(CacheError::Decode)),
            },
        }
    }
}

/// How far a call of [`pos`] has come.
#[derive(Clone, Copy, Debug, PartialEq, Eq, Structural)]
pub enum PosStage {
    /// It asks the cache for the position that is held for the draft.
    Looking,
    /// None is held: it takes a fresh position.
    Allocating(AllocStage),
    /// It puts the fresh position aside for the draft.
    Keeping { pos: i32 },
}

/// A call of [`pos`] under way.
#[derive(Clone, Copy, Debug, PartialEq, Eq)]
pub struct Pos {
    pub channel_id: EntityId,
    pub message_id: EntityId,
    pub keep_seconds: u64,
    pub stage: PosStage,
}

/// Gives the position that is held for the draft `message_id` in a channel. Where none
/// is held, a fresh one is taken as [`alloc_new_pos`] does, and held for
/// `keep_seconds`. A failure on the way ends the call without a position, also where
/// the fresh position is taken by then: the cache holds nothing for zero seconds.
#[verifier::allow_in_spec]
pub fn pos(channel_id: EntityId, message_id: EntityId, keep_seconds: u64) -> (operation: Pos)
    ensures
        forall|world: World|
            world.aggregate.wf() ==> #[trigger] run(operation, world) == previewed(
                world,
                channel_id,
                message_id,
                keep_seconds,
            ),
    returns
        (Pos { channel_id, message_id, keep_seconds, stage: PosStage::Looking }),
{
    proof {
        assert forall|world: World| world.aggregate.wf() implies #[trigger] run(
            Pos { channel_id, message_id, keep_seconds, stage: PosStage::Looking },
            world,
        ) == previewed(world, channel_id, message_id, keep_seconds) by {
            lemma_pos_alone(world, channel_id, message_id, keep_seconds);
        }
    }
    Pos { channel_id, message_id, keep_seconds, stage: PosStage::Looking }
}

impl Operation for Pos {
    type Output = i32;

    open spec fn pending(&self) -> RequestView {
        match self.stage {
            PosStage::Looking => RequestView::Cache(
                CommandView::Get { key: pos_key(self.channel_id@, self.message_id@) },
            ),
            PosStage::Allocating(stage) => (AllocNewPos {
                channel_id: self.channel_id,
                stage,
            }).pending(),
            PosStage::Keeping { pos } => RequestView::Cache(
                CommandView::PutWithExpiration {
                    key: pos_key(self.channel_id@, self.message_id@),
                    value: pos,
                    seconds: self.keep_seconds,
                },
            ),
        }
    }

    open spec fn after(self, event: Event) -> Progress<Self, i32> {
        match self.stage {
            PosStage::Looking => match event {
                Event::Cache(Err(error)) => Progress::Done(Err(error)),
                Event::Cache(Ok(Reply::Value(Some(pos)))) => Progress::Done(Ok(pos)),
                Event::Cache(Ok(Reply::Value(None))) => Progress::Next(
                    Pos { stage: PosStage::Allocating(AllocStage::Probing), ..self },
                ),
                _ => Progress::Done(Err(CacheError::Decode)),
            },
            PosStage::Allocating(stage) => match (AllocNewPos {
                channel_id: self.channel_id,
                stage,
            }).after(event) {
                Progress::Next(allocation) => Progress::Next(
                    Pos { stage: PosStage::Allocating(allocation.stage), ..self },
                ),
                Progress::Done(Ok(pos)) => Progress::Next(
                    Pos { stage: PosStage::Keeping { pos }, ..self },
                ),
                Progress::Done(Err(error)) => Progress::Done(Err(error)),
            },
            PosStage::Keeping { pos } => match event {
                Event::Cache(Err(error)) => Progress::Done(Err(error)),
                Event::Cache(Ok(_)) => Progress::Done(Ok(pos)),
                Event::Aggregate(_) => Progress::Done(Err(CacheError::Decode)),
            },
        }
    }

    open spec fn requests_left(&self) -> nat {
        match self.stage {
            PosStage::Looking => 6,
            PosStage::Allocating(stage) => (AllocNewPos {
                channel_id: self.channel_id,
                stage,
            }).requests_left() + 1,
            PosStage::Keeping { pos } => 1,
        }
    }

    proof fn lemma_requests_run_out(self, event: Event) {
    }

    fn request(&self) -> (request: Request) {
        match self.stage {
            PosStage::Looking => Request::Cache(
                Command::Get { key: create_pos_key(self.channel_id, self.message_id) },
            ),
            PosStage::Allocating(stage) => {
                let allocation = AllocNewPos { channel_id: self.channel_id, stage };
                allocation.request()
            },
            PosStage::Keeping { pos } => Request::Cache(
                Command::PutWithExpiration {
                    key: create_pos_key(self.channel_id, self.message_id),
                    value: pos,
                    seconds: self.keep_seconds,
                },
            ),
        }
    }

    fn resume(self, event: Event) -> (progress: Progress<Self, i32>) {
        let Pos { channel_id, message_id, keep_seconds, stage } = self;
        match stage {
            PosStage::Looking => match event {
                Event::Cache(Err(error)) => Progress::Done(Err(error)),
                Event::Cache(Ok(Reply::Value(Some(pos)))) => Progress::Done(Ok(pos)),
                Event::Cache(Ok(Reply::Value(None))) => Progress::Next(
                    Pos {
                        channel_id,
                        message_id,
                        keep_seconds,
                        stage: PosStage::Allocating(AllocStage::Probing),
                    },
                ),
                _ => Progress::Done(Err(CacheError::Decode)),
            },
            PosStage::Allocating(stage) => {
                let allocation = AllocNewPos { channel_id, stage };
                match allocation.resume(event) {
                    Progress::Next(allocation) => Progress::Next(
                        Pos {
                            channel_id,
                            message_id,
                            keep_seconds,
                            stage: PosStage::Allocating(allocation.stage),
                        },
                    ),
                    Progress::Done(Ok(pos)) => Progress::Next(
                        Pos {
                            channel_id,
                            message_id,
                            keep_seconds,
                            stage: PosStage::Keeping { pos },
                        },
                    ),
                    Progress::Done(Err(error)) => Progress::Done(Err(error)),
                }
            },
            PosStage::Keeping { pos } => match event {
                Event::Cache(Err(error)) => Progress::Done(Err(error)),
                Event::Cache(Ok(_)) => Progress::Done(Ok(pos)),
                Event::Aggregate(_) => Progress::Done(Err(CacheError::Decode)),
            },
        }
    }
}

/// A call of [`reset_channel_pos`] under way.
#[derive(Clone, Copy, Debug, PartialEq, Eq)]
pub struct ResetChannelPos {
    pub channel_id: EntityId,
}

/// Drops the watermark of a channel, so that the next call of [`alloc_new_pos`] starts
/// from the durable aggregate again.
#[verifier::allow_in_spec]
pub fn reset_channel_pos(channel_id: &EntityId) -> (operation: ResetChannelPos)
    ensures
        forall|world: World| #[trigger] run(operation, world) == reset(world, *channel_id),
    returns
        (ResetChannelPos { channel_id: *channel_id }),
{
    proof {
        assert forall|world: World| #[trigger]
            run(ResetChannelPos { channel_id: *channel_id }, world) == reset(
                world,
                *channel_id,
            ) by {
            lemma_reset_channel_pos_alone(world, *channel_id);
        }
    }
    ResetChannelPos { channel_id: *channel_id }
}

impl Operation for ResetChannelPos {
    type Output = ();

    open spec fn pending(&self) -> RequestView {
        RequestView::Cache(CommandView::Remove { key: max_pos_key(self.channel_id@) })
    }

    open spec fn after(self, event: Event) -> Progress<Self, ()> {
        match event {
            Event::Cache(Err(error)) => Progress::Done(Err(error)),
            Event::Cache(Ok(_)) => Progress::Done(Ok(())),
            Event::Aggregate(_) => Progress::Done(Err(CacheError::Decode)),
        }
    }

    open spec fn requests_left(&self) -> nat {
        1
    }

    proof fn lemma_requests_run_out(self, event: Event) {
    }

    fn request(&self) -> (request: Request) {
        Request::Cache(Command::Remove { key: create_max_pos_key(&self.channel_id) })
    }

    fn resume(self, event: Event) -> (progress: Progress<Self, ()>) {
        match event {
            Event::Cache(Err(error)) => Progress::Done(Err(error)),
            Event::Cache(Ok(_)) => Progress::Done(Ok(())),
            Event::Aggregate(_) => Progress::Done(Err(CacheError::Decode)),
        }
    }
}

/// A call of [`finished`] under way.
#[derive(Clone, Copy, Debug, PartialEq, Eq)]
pub struct Finished {
    pub channel_id: EntityId,
    pub message_id: EntityId,
}

/// Drops the position that is held for the draft `message_id` in a channel, once the
/// draft has become a message or was given up. It returns how many positions were
/// dropped: 1, or 0 where none was held.
#[verifier::allow_in_spec]
pub fn finished(channel_id: EntityId, message_id: EntityId) -> (operation: Finished)
    ensures
        forall|world: World| #[trigger]
            run(operation, world) == released(world, channel_id, message_id),
    returns
        (Finished { channel_id, message_id }),
{
    proof {
        assert forall|world: World| #[trigger]
            run(Finished { channel_id, message_id }, world) == released(
                world,
                channel_id,
                message_id,
            ) by {
            lemma_finished_alone(world, channel_id, message_id);
        }
    }
    Finished { channel_id, message_id }
}

impl Operation for Finished {
    type Output = i32;

    open spec fn pending(&self) -> RequestView {
        RequestView::Cache(
            CommandView::Remove { key: pos_key(self.channel_id@, self.message_id@) },
        )
    }

    open spec fn after(self, event: Event) -> Progress<Self, i32> {
        match event {
            Event::Cache(Err(error)) => Progress::Done(Err(error)),
            Event::Cache(Ok(Reply::Removed(count))) => Progress::Done(Ok(count)),
            _ => Progress::Done(Err(CacheError::Decode)),
        }
    }

    open spec fn requests_left(&self) -> nat {
        1
    }

    proof fn lemma_requests_run_out(self, event: Event) {
    }

    fn request(&self) -> (request: Request) {
        Request::Cache(
            Command::Remove { key: create_pos_key(self.channel_id, self.message_id) },
        )
    }

    fn resume(self, event: Event) -> (progress: Progress<Self, i32>) {
        match event {
            Event::Cache(Err(error)) => Progress::Done(Err(error)),
            Event::Cache(Ok(Reply::Removed(count))) => Progress::Done(Ok(count)),
            _ => Progress::Done(Err(CacheError::Decode)),
        }
    }
}

} // verus!
