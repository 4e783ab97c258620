//! What each operation comes to when it runs alone: its requests are carried out one
//! after the other, on a cache that nobody else touches meanwhile.

use crate::cache::{is_position, Store};
use crate::error::CacheError;
use crate::id::EntityId;
use crate::pos::aggregate::DurableAggregate;
use crate::pos::operation::{Event, Operation, Progress, RequestView};
use crate::pos::{
    max_pos_key, pos_key, AllocNewPos, AllocStage, EnsurePosLargest, Finished, Pos, PosStage,
    RaiseStage, ResetChannelPos,
};
use vstd::prelude::*;

verus! {

/// What an operation meets outside: the cache, the time in seconds, and the aggregate
/// that the durable store reports of the channel at hand.
#[verifier::ext_equal]
pub ghost struct World {
    pub store: Store,
    pub now: int,
    pub aggregate: DurableAggregate,
}

impl World {
    /// The same world with another content of the cache.
    pub open spec fn with_store(self, store: Store) -> World {
        World { store, ..self }
    }

    /// The same world after `seconds` have passed.
    pub open spec fn later(self, seconds: int) -> World {
        World { now: self.now + seconds, ..self }
    }

    /// Carries out `request`: the world after it, and what comes back.
    pub open spec fn serve(self, request: RequestView) -> (World, Event) {
        match request {
            RequestView::Cache(command) => (
                self.with_store(self.store.after(command, self.now)),
                Event::Cache(self.store.answer(command, self.now)),
            ),
            RequestView::Aggregate { channel_id } => (self, Event::Aggregate(self.aggregate)),
        }
    }
}

/// Runs `operation` in `world` with nobody else at work: each of its requests is
/// carried out and the answer handed back, until the operation has ended. It gives the
/// world after the last request, and the outcome.
pub open spec fn run<O: Operation>(operation: O, world: World) -> (
    World,
    Result<O::Output, CacheError>,
)
    decreases operation.requests_left(),
    via run_ends::<O>
{
    let (next, event) = world.serve(operation.pending());
    match operation.after(event) {
        Progress::Next(operation) => run(operation, next),
        Progress::Done(outcome) => (next, outcome),
    }
}

#[via_fn]
proof fn run_ends<O: Operation>(operation: O, world: World) {
    operation.lemma_requests_run_out(world.serve(operation.pending()).1);
}

/// The outcome of an operation that gives out the number `position`: a number that is
/// no position cannot be read from the cache.
pub open spec fn taken(position: int) -> Result<i32, CacheError> {
    if is_position(position) {
        Ok(position as i32)
    } else {
        Err(CacheError::Decode)
    }
}

/// What raising the watermark of a channel to `pos` comes to as a whole: the watermark
/// becomes `pos` where it was lower, a channel without a watermark counting as one at
/// 1, and stays as it is otherwise.
pub open spec fn raised(world: World, channel_id: EntityId, pos: i32) -> (
    World,
    Result<(), CacheError>,
) {
    let key = max_pos_key(channel_id@);
    match world.store.read(key, world.now) {
        Some(watermark) => if !is_position(watermark) {
            (world, Err(CacheError::Decode))
        } else if pos > watermark {
            (world.with_store(world.store.write(key, pos as int, None)), Ok(()))
        } else {
            (world, Ok(()))
        },
        None => if pos > 1 {
            (world.with_store(world.store.write(key, pos as int, None)), Ok(()))
        } else {
            (world, Ok(()))
        },
    }
}

/// What taking a fresh position in a channel comes to as a whole: the watermark, or
/// the seed where the cache holds no watermark, goes up by one, and the new watermark
/// is the position returned. A watermark of the cache keeps its time to live, if it
/// has one; a seeded one has none.
pub open spec fn allocated(world: World, channel_id: EntityId) -> (
    World,
    Result<i32, CacheError>,
) {
    let key = max_pos_key(channel_id@);
    match world.store.read(key, world.now) {
        Some(watermark) => if !is_position(watermark) {
            (world, Err(CacheError::Decode))
        } else {
            (
                world.with_store(
                    world.store.write(key, watermark + 1, world.store.entries[key].deadline),
                ),
                taken(watermark + 1),
            )
        },
        None => (
            world.with_store(world.store.write(key, world.aggregate.seed() + 1, None)),
            taken(world.aggregate.seed() + 1),
        ),
    }
}

/// What asking for the position of a draft comes to as a whole: the position that is
/// held for the draft is returned and nothing changes, or else a fresh position is
/// taken, held for `keep_seconds`, and returned. A position cannot be held for zero
/// seconds: the fresh position is then taken and lost.
pub open spec fn previewed(
    world: World,
    channel_id: EntityId,
    message_id: EntityId,
    keep_seconds: u64,
) -> (World, Result<i32, CacheError>) {
    let key = pos_key(channel_id@, message_id@);
    match world.store.read(key, world.now) {
        Some(held) => (world, taken(held)),
        None => {
            let (world, outcome) = allocated(world, channel_id);
            match outcome {
                Ok(fresh) => if keep_seconds == 0 {
                    (world, Err(CacheError::Transport))
                } else {
                    (
                        world.with_store(
                            world.store.write(key, fresh as int, Some(world.now + keep_seconds)),
                        ),
                        Ok(fresh),
                    )
                },
                Err(error) => (world, Err(error)),
            }
        },
    }
}

/// What resetting a channel comes to as a whole: the cache holds no watermark for it.
pub open spec fn reset(world: World, channel_id: EntityId) -> (World, Result<(), CacheError>) {
    (world.with_store(world.store.without(max_pos_key(channel_id@))), Ok(()))
}

/// What finishing a draft comes to as a whole: no position is held for it. The
/// outcome is 1 where one was held, and 0 where none was.
pub open spec fn released(world: World, channel_id: EntityId, message_id: EntityId) -> (
    World,
    Result<i32, CacheError>,
) {
    let key = pos_key(channel_id@, message_id@);
    (
        world.with_store(world.store.without(key)),
        Ok(
            if world.store.live(key, world.now) {
                1i32
            } else {
                0i32
            },
        ),
    )
}

/// Run alone from its start, [`EnsurePosLargest`] comes to [`raised`].
pub proof fn lemma_ensure_pos_largest_alone(world: World, channel_id: EntityId, pos: i32)
    ensures
        run(EnsurePosLargest { channel_id, pos, stage: RaiseStage::Reading }, world) == raised(
            world,
            channel_id,
            pos,
        ),
{
    reveal_with_fuel(run, 3);
}

/// Run alone from its start, [`AllocNewPos`] comes to [`allocated`].
pub proof fn lemma_alloc_new_pos_alone(world: World, channel_id: EntityId)
    requires
        world.aggregate.wf(),
    ensures
        run(AllocNewPos { channel_id, stage: AllocStage::Probing }, world) == allocated(
            world,
            channel_id,
        ),
{
    reveal_with_fuel(run, 5);
    world.aggregate.lemma_wf();
    let key = max_pos_key(channel_id@);
    let seed = world.aggregate.seed();
    if world.store.read(key, world.now) is None {
        assert(world.store.write(key, seed, None).write(key, seed + 1, None).entries
            =~= world.store.write(key, seed + 1, None).entries);
    }
}

/// Run alone from its start, [`Pos`] comes to [`previewed`].
pub proof fn lemma_pos_alone(
    world: World,
    channel_id: EntityId,
    message_id: EntityId,
    keep_seconds: u64,
)
    requires
        world.aggregate.wf(),
    ensures
        run(Pos { channel_id, message_id, keep_seconds, stage: PosStage::Looking }, world)
            == previewed(world, channel_id, message_id, keep_seconds),
{
    reveal_with_fuel(run, 7);
    world.aggregate.lemma_wf();
    let key = max_pos_key(channel_id@);
    let seed = world.aggregate.seed();
    if world.store.read(key, world.now) is None {
        assert(world.store.write(key, seed, None).write(key, seed + 1, None).entries
            =~= world.store.write(key, seed + 1, None).entries);
    }
}

/// Run alone, [`ResetChannelPos`] comes to [`reset`].
pub proof fn lemma_reset_channel_pos_alone(world: World, channel_id: EntityId)
    ensures
        run(ResetChannelPos { channel_id }, world) == reset(world, channel_id),
{
    reveal_with_fuel(run, 2);
}

/// Run alone, [`Finished`] comes to [`released`].
pub proof fn lemma_finished_alone(world: World, channel_id: EntityId, message_id: EntityId)
    ensures
        run(Finished { channel_id, message_id }, world) == released(
            world,
            channel_id,
            message_id,
        ),
{
    reveal_with_fuel(run, 2);
}

} // verus!
