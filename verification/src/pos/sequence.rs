//! What holds of calls that are made one after the other.

use crate::cache::{is_position, Store};
use crate::error::CacheError;
use crate::id::EntityId;
use crate::pos::world::{
    lemma_alloc_new_pos_alone, lemma_ensure_pos_largest_alone, lemma_finished_alone,
    lemma_pos_alone, lemma_reset_channel_pos_alone, run, taken, World,
};
use crate::pos::{
    alloc_new_pos, ensure_pos_largest, finished, lemma_channels_have_their_own_watermark,
    lemma_keys_differ, max_pos_key, pos, pos_key, reset_channel_pos, EnsurePosLargest,
    RaiseStage,
};
use vstd::prelude::*;

verus! {

/// Whether the key of a channel's watermark is free of a time to live: the cache holds
/// nothing under it, or a watermark that only a reset takes away. The engine never puts
/// a watermark under a time to live, so this holds as long as nobody else does.
pub open spec fn watermark_stays(store: Store, channel_id: EntityId) -> bool {
    let key = max_pos_key(channel_id@);
    store.entries.dom().contains(key) ==> store.entries[key].deadline is None
}

/// Two calls of [`alloc_new_pos`] in a row return two positions in a row.
pub proof fn lemma_alloc_twice(world: World, channel_id: EntityId)
    requires
        world.aggregate.wf(),
        run(alloc_new_pos(channel_id), world).1 is Ok,
    ensures
        ({
            let (first_world, first) = run(alloc_new_pos(channel_id), world);
            let second = run(alloc_new_pos(channel_id), first_world).1;
            &&& first matches Ok(before)
            &&& second == taken(before + 1)
        }),
{
    lemma_alloc_new_pos_alone(world, channel_id);
    let first_world = run(alloc_new_pos(channel_id), world).0;
    lemma_alloc_new_pos_alone(first_world, channel_id);
}

/// A second call of [`pos`] for the same draft, made while the position is still held,
/// returns the position that the first call returned, and changes nothing.
pub proof fn lemma_pos_is_idempotent(
    world: World,
    channel_id: EntityId,
    message_id: EntityId,
    keep_seconds: u64,
    elapsed: int,
)
    requires
        world.aggregate.wf(),
        elapsed >= 0,
        run(pos(channel_id, message_id, keep_seconds), world).1 is Ok,
        run(pos(channel_id, message_id, keep_seconds), world).0.store.live(
            pos_key(channel_id@, message_id@),
            world.now + elapsed,
        ),
    ensures
        ({
            let (first_world, first) = run(pos(channel_id, message_id, keep_seconds), world);
            run(pos(channel_id, message_id, keep_seconds), first_world.later(elapsed)) == (
                first_world.later(elapsed),
                first,
            )
        }),
{
    lemma_pos_alone(world, channel_id, message_id, keep_seconds);
    let first_world = run(pos(channel_id, message_id, keep_seconds), world).0;
    lemma_pos_alone(first_world.later(elapsed), channel_id, message_id, keep_seconds);
    lemma_keys_differ(channel_id@, channel_id@, message_id@);
}

/// A position that [`pos`] took for a draft is held for `keep_seconds` and no longer:
/// once that time has passed, the next call for the draft takes the position after it,
/// which is strictly greater. The first call is one that found no position held, and
/// the watermark is one that does not run out in the meantime.
pub proof fn lemma_pos_after_expiry(
    world: World,
    channel_id: EntityId,
    message_id: EntityId,
    keep_seconds: u64,
    elapsed: int,
)
    requires
        world.aggregate.wf(),
        watermark_stays(world.store, channel_id),
        !world.store.live(pos_key(channel_id@, message_id@), world.now),
        elapsed >= keep_seconds,
        run(pos(channel_id, message_id, keep_seconds), world).1 is Ok,
    ensures
        ({
            let (first_world, first) = run(pos(channel_id, message_id, keep_seconds), world);
            let second = run(
                pos(channel_id, message_id, keep_seconds),
                first_world.later(elapsed),
            ).1;
            &&& first matches Ok(before)
            &&& second == taken(before + 1)
            &&& second matches Ok(after) ==> after > before
        }),
{
    lemma_pos_alone(world, channel_id, message_id, keep_seconds);
    let first_world = run(pos(channel_id, message_id, keep_seconds), world).0;
    lemma_pos_alone(first_world.later(elapsed), channel_id, message_id, keep_seconds);
    lemma_keys_differ(channel_id@, channel_id@, message_id@);
}

/// A call of [`ensure_pos_largest`] never lowers a watermark: where the cache held the
/// watermark `before`, it holds the greater of `before` and `pos` after the call.
pub proof fn lemma_ensure_pos_largest_never_lowers(world: World, channel_id: EntityId, pos: i32)
    requires
        world.store.read(max_pos_key(channel_id@), world.now) matches Some(before)
            && is_position(before),
    ensures
        ({
            let (after_world, outcome) = run(ensure_pos_largest(channel_id, pos), world);
            let before = world.store.read(max_pos_key(channel_id@), world.now)->Some_0;
            &&& outcome == Ok::<(), CacheError>(())
            &&& after_world.store.read(max_pos_key(channel_id@), world.now) == Some(
                if pos > before {
                    pos as int
                } else {
                    before
                },
            )
        }),
{
    lemma_ensure_pos_largest_alone(world, channel_id, pos);
}

/// Once [`ensure_pos_largest`] has raised the watermark of a channel to `high`, a call
/// with a lower position changes nothing: the watermark stays at `high`.
pub proof fn lemma_watermark_stays_raised(
    world: World,
    channel_id: EntityId,
    high: i32,
    low: i32,
)
    requires
        low < high,
        match world.store.read(max_pos_key(channel_id@), world.now) {
            Some(before) => is_position(before) && before < high,
            None => 1 < high,
        },
    ensures
        ({
            let (first_world, first) = run(ensure_pos_largest(channel_id, high), world);
            let (second_world, second) = run(ensure_pos_largest(channel_id, low), first_world);
            &&& first == Ok::<(), CacheError>(())
            &&& second == Ok::<(), CacheError>(())
            &&& second_world == first_world
            &&& second_world.store.read(max_pos_key(channel_id@), world.now) == Some(high as int)
        }),
{
    lemma_ensure_pos_largest_alone(world, channel_id, high);
    let first_world = run(ensure_pos_largest(channel_id, high), world).0;
    lemma_ensure_pos_largest_alone(first_world, channel_id, low);
}

/// The write of [`ensure_pos_largest`] does not look at the cache again: once the call
/// has read a watermark below `pos`, it puts `pos` in its place, whatever other callers
/// have written in the meantime. The last writer wins.
pub proof fn lemma_last_write_stands(world: World, channel_id: EntityId, pos: i32)
    ensures
        run(EnsurePosLargest { channel_id, pos, stage: RaiseStage::Writing }, world) == (
            world.with_store(world.store.write(max_pos_key(channel_id@), pos as int, None)),
            Ok::<(), CacheError>(()),
        ),
{
    reveal_with_fuel(run, 2);
}

/// After [`reset_channel_pos`], the next call of [`alloc_new_pos`] starts from the
/// durable aggregate, whatever the watermark was before: it returns one above the seed.
pub proof fn lemma_alloc_after_reset(world: World, channel_id: EntityId)
    requires
        world.aggregate.wf(),
    ensures
        ({
            let (reset_world, reset) = run(reset_channel_pos(&channel_id), world);
            let (after_world, outcome) = run(alloc_new_pos(channel_id), reset_world);
            &&& reset == Ok::<(), CacheError>(())
            &&& outcome == taken(world.aggregate.seed() + 1)
            &&& after_world.store.read(max_pos_key(channel_id@), world.now) == Some(
                world.aggregate.seed() + 1,
            )
        }),
{
    lemma_reset_channel_pos_alone(world, channel_id);
    let reset_world = run(reset_channel_pos(&channel_id), world).0;
    lemma_alloc_new_pos_alone(reset_world, channel_id);
}

/// A second call of [`finished`] for the same draft finds nothing to drop and changes
/// nothing.
pub proof fn lemma_finished_is_idempotent(
    world: World,
    channel_id: EntityId,
    message_id: EntityId,
)
    ensures
        ({
            let first_world = run(finished(channel_id, message_id), world).0;
            run(finished(channel_id, message_id), first_world) == (
                first_world,
                Ok::<i32, CacheError>(0),
            )
        }),
{
    lemma_finished_alone(world, channel_id, message_id);
    let first_world = run(finished(channel_id, message_id), world).0;
    lemma_finished_alone(first_world, channel_id, message_id);
    let key = pos_key(channel_id@, message_id@);
    assert(first_world.store.without(key).entries =~= first_world.store.entries);
}

/// Channels do not touch one another: whatever is done for one channel, be it taking
/// a position, raising or resetting the watermark, or holding a position for a draft,
/// leaves the watermark of every other channel as it was.
pub proof fn lemma_channels_are_independent(
    world: World,
    channel_id: EntityId,
    other: EntityId,
    message_id: EntityId,
    keep_seconds: u64,
    position: i32,
)
    requires
        world.aggregate.wf(),
        channel_id@ != other@,
    ensures
        ({
            let key = max_pos_key(other@);
            let before = world.store.read(key, world.now);
            &&& run(alloc_new_pos(channel_id), world).0.store.read(key, world.now) == before
            &&& run(ensure_pos_largest(channel_id, position), world).0.store.read(key, world.now)
                == before
            &&& run(reset_channel_pos(&channel_id), world).0.store.read(key, world.now)
                == before
            &&& run(pos(channel_id, message_id, keep_seconds), world).0.store.read(key, world.now)
                == before
            &&& run(finished(channel_id, message_id), world).0.store.read(key, world.now)
                == before
        }),
{
    lemma_channels_have_their_own_watermark(channel_id, other);
    lemma_keys_differ(other@, channel_id@, message_id@);
    lemma_alloc_new_pos_alone(world, channel_id);
    lemma_ensure_pos_largest_alone(world, channel_id, position);
    lemma_reset_channel_pos_alone(world, channel_id);
    lemma_pos_alone(world, channel_id, message_id, keep_seconds);
    lemma_finished_alone(world, channel_id, message_id);
}

} // verus!
