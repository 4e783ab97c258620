//! What holds of calls whose requests fall into one another.

use crate::cache::{CommandView, Store};
use crate::id::EntityId;
use crate::pos::aggregate::DurableAggregate;
use crate::pos::operation::{Operation, Progress};
use crate::pos::sequence::watermark_stays;
use crate::pos::world::World;
use crate::pos::{alloc_new_pos, max_pos_key, AllocNewPos};
use vstd::prelude::*;

verus! {

/// One turn of a schedule: what the cache carries out next, and at what time.
pub ghost enum Turn {
    /// The request that `caller` waits for is carried out and answered. Where it is a
    /// request to the durable store, `aggregate` is what the store reports.
    Call { caller: int, now: int, aggregate: DurableAggregate },
    /// The cache carries out a command for somebody else: for another channel, or for
    /// a draft.
    Elsewhere { command: CommandView, now: int },
}

impl Turn {
    /// Whether a race for `channel_id` admits the turn: what the durable store reports
    /// is a record that it can report, and a command from elsewhere is not about the
    /// watermark of the channel.
    pub open spec fn admitted(self, channel_id: EntityId) -> bool {
        match self {
            Turn::Call { caller, now, aggregate } => aggregate.wf(),
            Turn::Elsewhere { command, now } => command.key() != max_pos_key(channel_id@),
        }
    }
}

/// Several calls of [`alloc_new_pos`] for one channel under way at once, on one cache
/// that others use as well. The cache carries out one request at a time, in any order.
pub ghost struct Race {
    /// The content of the cache.
    pub store: Store,
    /// Where each caller's call stands.
    pub calls: Seq<Progress<AllocNewPos, i32>>,
    /// The callers whose calls have ended, in the order in which they ended.
    pub ended: Seq<int>,
}

/// Whether the second of two positions is the greater one, where both were given
/// out.
pub open spec fn rising(first: Option<i32>, second: Option<i32>) -> bool {
    match (first, second) {
        (Some(lower), Some(higher)) => lower < higher,
        _ => true,
    }
}

impl Race {
    /// `callers` calls for `channel_id` of which none has made a request yet.
    pub open spec fn start(store: Store, channel_id: EntityId, callers: nat) -> Race {
        Race {
            store,
            calls: Seq::new(callers, |caller: int| Progress::Next(alloc_new_pos(channel_id))),
            ended: Seq::empty(),
        }
    }

    /// The race after the request that `caller` waits for has been carried out and
    /// answered. A turn of a caller whose call has ended changes nothing.
    pub open spec fn call(self, caller: int, now: int, aggregate: DurableAggregate) -> Race {
        if 0 <= caller < self.calls.len() {
            match self.calls[caller] {
                Progress::Next(operation) => {
                    let world = World { store: self.store, now, aggregate };
                    let (next, event) = world.serve(operation.pending());
                    let progress = operation.after(event);
                    Race {
                        store: next.store,
                        calls: self.calls.update(caller, progress),
                        ended: if progress is Done {
                            self.ended.push(caller)
                        } else {
                            self.ended
                        },
                    }
                },
                Progress::Done(_) => self,
            }
        } else {
            self
        }
    }

    /// The race after `turn`.
    pub open spec fn step(self, turn: Turn) -> Race {
        match turn {
            Turn::Call { caller, now, aggregate } => self.call(caller, now, aggregate),
            Turn::Elsewhere { command, now } => Race {
                store: self.store.after(command, now),
                ..self
            },
        }
    }

    /// The race after the turns of `schedule`, first to last.
    pub open spec fn play(self, schedule: Seq<Turn>) -> Race
        decreases schedule.len(),
    {
        if schedule.len() == 0 {
            self
        } else {
            self.play(schedule.drop_last()).step(schedule.last())
        }
    }

    /// The position that `caller` was given, if its call has ended with one.
    pub open spec fn position(self, caller: int) -> Option<i32> {
        if 0 <= caller < self.calls.len() {
            match self.calls[caller] {
                Progress::Done(Ok(position)) => Some(position),
                _ => None,
            }
        } else {
            None
        }
    }

    /// What holds of one caller throughout a race for `channel_id`: a call that is
    /// about to take a position finds a watermark, and a position that was given out
    /// is not above the watermark.
    pub open spec fn call_fits(self, channel_id: EntityId, caller: int) -> bool {
        let key = max_pos_key(channel_id@);
        match self.calls[caller] {
            Progress::Next(operation) => {
                &&& operation.channel_id == channel_id
                &&& operation.stage is Incrementing ==> self.store.entries.dom().contains(key)
            },
            Progress::Done(Ok(position)) => {
                &&& self.store.entries.dom().contains(key)
                &&& position <= self.store.entries[key].value
            },
            Progress::Done(Err(_)) => true,
        }
    }

    /// What holds of two places in the order of ending: they name two callers, and the
    /// one who ended later was given the greater position.
    pub open spec fn places_rise(self, first: int, second: int) -> bool {
        &&& self.ended[first] != self.ended[second]
        &&& rising(self.position(self.ended[first]), self.position(self.ended[second]))
    }

    /// What holds throughout a race for `channel_id`.
    pub open spec fn sound(self, channel_id: EntityId) -> bool {
        &&& watermark_stays(self.store, channel_id)
        &&& forall|caller: int|
            0 <= caller < self.calls.len() ==> #[trigger] self.call_fits(channel_id, caller)
        &&& forall|place: int|
            0 <= place < self.ended.len() ==> 0 <= #[trigger] self.ended[place]
                < self.calls.len() && self.calls[self.ended[place]] is Done
        &&& forall|caller: int|
            0 <= caller < self.calls.len() && #[trigger] self.calls[caller] is Done
                ==> self.ended.contains(caller)
        &&& forall|first: int, second: int|
            0 <= first < second < self.ended.len() ==> #[trigger] self.places_rise(first, second)
    }
}

/// A turn of a caller keeps a race sound.
proof fn lemma_call_is_sound(
    race: Race,
    channel_id: EntityId,
    caller: int,
    now: int,
    aggregate: DurableAggregate,
)
    requires
        race.sound(channel_id),
        aggregate.wf(),
    ensures
        race.call(caller, now, aggregate).sound(channel_id),
{
    let after = race.call(caller, now, aggregate);
    if 0 <= caller < race.calls.len() && race.calls[caller] is Next {
        let operation = race.calls[caller]->Next_0;
        assert(race.call_fits(channel_id, caller));
        aggregate.lemma_wf();
        let world = World { store: race.store, now, aggregate };
        let progress = operation.after(world.serve(operation.pending()).1);
        assert(after.calls[caller] == progress);
        assert(watermark_stays(after.store, channel_id));
        assert forall|other: int|
            0 <= other < after.calls.len() implies #[trigger] after.call_fits(
            channel_id,
            other,
        ) by {
            assert(race.call_fits(channel_id, other));
        }
        assert forall|place: int| 0 <= place < after.ended.len() implies 0
            <= #[trigger] after.ended[place] < after.calls.len()
            && after.calls[after.ended[place]] is Done by {
            if place < race.ended.len() {
                assert(after.ended[place] == race.ended[place]);
            }
        }
        assert forall|other: int|
            0 <= other < after.calls.len() && #[trigger] after.calls[other] is Done
            implies after.ended.contains(other) by {
            if other == caller {
                assert(after.ended[race.ended.len() as int] == other);
            } else {
                assert(race.calls[other] is Done);
                let place = choose|place: int|
                    0 <= place < race.ended.len() && race.ended[place] == other;
                assert(after.ended[place] == other);
            }
        }
        assert forall|first: int, second: int|
            0 <= first < second < after.ended.len() implies #[trigger] after.places_rise(
            first,
            second,
        ) by {
            if second < race.ended.len() {
                assert(race.places_rise(first, second));
                assert(after.ended[first] == race.ended[first]);
                assert(after.ended[second] == race.ended[second]);
            } else {
                assert(after.ended[second] == caller);
                assert(after.ended[first] == race.ended[first]);
                assert(race.calls[race.ended[first]] is Done);
                assert(race.call_fits(channel_id, race.ended[first]));
            }
        }
    }
}

/// A command from elsewhere keeps a race sound.
proof fn lemma_elsewhere_is_sound(race: Race, channel_id: EntityId, command: CommandView, now: int)
    requires
        race.sound(channel_id),
        command.key() != max_pos_key(channel_id@),
    ensures
        race.step(Turn::Elsewhere { command, now }).sound(channel_id),
{
    let after = race.step(Turn::Elsewhere { command, now });
    let key = max_pos_key(channel_id@);
    assert(after.store.entries.dom().contains(key) == race.store.entries.dom().contains(key));
    assert(after.store.entries.dom().contains(key) ==> after.store.entries[key]
        == race.store.entries[key]);
    assert forall|caller: int| 0 <= caller < after.calls.len() implies #[trigger] after.call_fits(
        channel_id,
        caller,
    ) by {
        assert(race.call_fits(channel_id, caller));
    }
    assert forall|first: int, second: int|
        0 <= first < second < after.ended.len() implies #[trigger] after.places_rise(
        first,
        second,
    ) by {
        assert(race.places_rise(first, second));
    }
}

/// Every schedule keeps a race sound.
proof fn lemma_play_is_sound(race: Race, channel_id: EntityId, schedule: Seq<Turn>)
    requires
        race.sound(channel_id),
        forall|turn: int|
            0 <= turn < schedule.len() ==> (#[trigger] schedule[turn]).admitted(channel_id),
    ensures
        race.play(schedule).sound(channel_id),
    decreases schedule.len(),
{
    if schedule.len() > 0 {
        lemma_play_is_sound(race, channel_id, schedule.drop_last());
        let before = race.play(schedule.drop_last());
        assert(schedule.last().admitted(channel_id));
        match schedule.last() {
            Turn::Call { caller, now, aggregate } => {
                lemma_call_is_sound(before, channel_id, caller, now, aggregate);
            },
            Turn::Elsewhere { command, now } => {
                lemma_elsewhere_is_sound(before, channel_id, command, now);
            },
        }
    }
}

/// However the requests of any number of calls of [`alloc_new_pos`] for one channel
/// fall into one another, and whatever the cache does for others in between, a call
/// that ends after another is given a greater position. The channel starts cold, or
/// with a watermark that has no time to live, and nobody else writes its watermark.
pub proof fn lemma_later_call_gets_greater_position(
    store: Store,
    channel_id: EntityId,
    callers: nat,
    schedule: Seq<Turn>,
    first: int,
    second: int,
)
    requires
        watermark_stays(store, channel_id),
        forall|turn: int|
            0 <= turn < schedule.len() ==> (#[trigger] schedule[turn]).admitted(channel_id),
        0 <= first < second < Race::start(store, channel_id, callers).play(schedule).ended.len(),
    ensures
        ({
            let end = Race::start(store, channel_id, callers).play(schedule);
            rising(end.position(end.ended[first]), end.position(end.ended[second]))
        }),
{
    let race = Race::start(store, channel_id, callers);
    assert(race.sound(channel_id));
    lemma_play_is_sound(race, channel_id, schedule);
    assert(race.play(schedule).places_rise(first, second));
}

/// However the requests of any number of calls of [`alloc_new_pos`] for one channel
/// fall into one another, and whatever the cache does for others in between, no two
/// callers are given the same position.
pub proof fn lemma_concurrent_positions_differ(
    store: Store,
    channel_id: EntityId,
    callers: nat,
    schedule: Seq<Turn>,
    one: int,
    other: int,
)
    requires
        watermark_stays(store, channel_id),
        forall|turn: int|
            0 <= turn < schedule.len() ==> (#[trigger] schedule[turn]).admitted(channel_id),
        one != other,
        Race::start(store, channel_id, callers).play(schedule).position(one) is Some,
        Race::start(store, channel_id, callers).play(schedule).position(other) is Some,
    ensures
        Race::start(store, channel_id, callers).play(schedule).position(one) != Race::start(
            store,
            channel_id,
            callers,
        ).play(schedule).position(other),
{
    let race = Race::start(store, channel_id, callers);
    assert(race.sound(channel_id));
    lemma_play_is_sound(race, channel_id, schedule);
    let end = race.play(schedule);
    assert(end.calls[one] is Done);
    assert(end.calls[other] is Done);
    let place = choose|place: int| 0 <= place < end.ended.len() && end.ended[place] == one;
    let other_place = choose|place: int| 0 <= place < end.ended.len() && end.ended[place] == other;
    if place < other_place {
        assert(end.places_rise(place, other_place));
    } else {
        assert(end.places_rise(other_place, place));
    }
}

} // verus!
