use message_order::cache::{Command, Reply};
use message_order::error::CacheError;
use message_order::id::EntityId;
use message_order::pos::aggregate::DurableAggregate;
use message_order::pos::operation::{Event, Operation, Progress, Request};
use message_order::pos::{
    alloc_new_pos, create_max_pos_key, create_pos_key, ensure_pos_largest, finished, pos,
    reset_channel_pos, AllocNewPos, AllocStage, PosStage, RaiseStage,
};
use std::collections::HashMap;

/// A cache in memory that keeps numbers as a key-value store does: a key may have a
/// time to live, and a counter that does not exist counts from zero.
struct Memory {
    now: u64,
    entries: HashMap<String, (i64, Option<u64>)>,
    log: Vec<Command>,
}

impl Memory {
    fn new() -> Memory {
        Memory { now: 1_000, entries: HashMap::new(), log: Vec::new() }
    }

    fn read(&self, key: &str) -> Option<i64> {
        match self.entries.get(key) {
            Some((_, Some(deadline))) if *deadline <= self.now => None,
            Some((value, _)) => Some(*value),
            None => None,
        }
    }

    fn execute(&mut self, command: &Command) -> Result<Reply, CacheError> {
        self.log.push(command.clone());
        match command {
            Command::Get { key } => match self.read(key) {
                None => Ok(Reply::Value(None)),
                Some(value) => match i32::try_from(value) {
                    Ok(value) => Ok(Reply::Value(Some(value))),
                    Err(_) => Err(CacheError::Decode),
                },
            },
            Command::Put { key, value } => {
                self.entries.insert(key.clone(), (*value as i64, None));
                Ok(Reply::Stored)
            }
            Command::PutIfAbsent { key, value } => {
                if self.read(key).is_some() {
                    Ok(Reply::Installed(false))
                } else {
                    self.entries.insert(key.clone(), (*value as i64, None));
                    Ok(Reply::Installed(true))
                }
            }
            Command::PutWithExpiration { key, value, seconds } => {
                if *seconds == 0 {
                    return Err(CacheError::Transport);
                }
                self.entries.insert(key.clone(), (*value as i64, Some(self.now + seconds)));
                Ok(Reply::Stored)
            }
            Command::Increment { key } => {
                let (value, deadline) = match self.read(key) {
                    Some(value) => (value + 1, self.entries[key].1),
                    None => (1, None),
                };
                self.entries.insert(key.clone(), (value, deadline));
                match i32::try_from(value) {
                    Ok(value) => Ok(Reply::Counter(value)),
                    Err(_) => Err(CacheError::Decode),
                }
            }
            Command::Remove { key } => {
                let held = self.read(key).is_some();
                self.entries.remove(key);
                Ok(Reply::Removed(if held { 1 } else { 0 }))
            }
        }
    }
}

fn serve(cache: &mut Memory, aggregate: (i64, u64), request: Request) -> Event {
    match request {
        Request::Cache(command) => Event::Cache(cache.execute(&command)),
        Request::Aggregate { .. } => {
            Event::Aggregate(DurableAggregate::new(aggregate.0, aggregate.1).unwrap())
        }
    }
}

fn drive<O: Operation>(
    operation: O,
    cache: &mut Memory,
    aggregate: (i64, u64),
) -> Result<O::Output, CacheError> {
    let mut operation = operation;
    loop {
        let event = serve(cache, aggregate, operation.request());
        match operation.resume(event) {
            Progress::Next(next) => operation = next,
            Progress::Done(outcome) => return outcome,
        }
    }
}

fn channel() -> EntityId {
    EntityId::from_bytes([0x11; 16])
}

fn other_channel() -> EntityId {
    EntityId::from_bytes([0x22; 16])
}

fn draft() -> EntityId {
    EntityId::from_bytes([0xd0; 16])
}

#[test]
fn cold_start_seeds_from_the_aggregate() {
    let mut cache = Memory::new();
    assert_eq!(drive(alloc_new_pos(channel()), &mut cache, (10, 2)), Ok(7));
    assert_eq!(drive(alloc_new_pos(channel()), &mut cache, (10, 2)), Ok(8));
    assert_eq!(cache.read(&create_max_pos_key(&channel())), Some(8));
}

#[test]
fn cold_start_asks_cache_store_cache_cache() {
    let mut cache = Memory::new();
    let key = create_max_pos_key(&channel());
    let operation = alloc_new_pos(channel());
    assert_eq!(operation.request(), Request::Cache(Command::Get { key: key.clone() }));
    let operation = match operation.resume(Event::Cache(Ok(Reply::Value(None)))) {
        Progress::Next(next) => next,
        Progress::Done(_) => panic!("ended early"),
    };
    assert_eq!(operation.request(), Request::Aggregate { channel_id: channel() });
    let aggregate = DurableAggregate::new(10, 2).unwrap();
    let operation = match operation.resume(Event::Aggregate(aggregate)) {
        Progress::Next(next) => next,
        Progress::Done(_) => panic!("ended early"),
    };
    assert_eq!(operation.stage, AllocStage::Installing { seed: 6 });
    assert_eq!(
        operation.request(),
        Request::Cache(Command::PutIfAbsent { key: key.clone(), value: 6 })
    );
    let operation = match operation.resume(Event::Cache(Ok(Reply::Installed(true)))) {
        Progress::Next(next) => next,
        Progress::Done(_) => panic!("ended early"),
    };
    assert_eq!(operation.request(), Request::Cache(Command::Increment { key: key.clone() }));
    assert_eq!(operation.resume(Event::Cache(Ok(Reply::Counter(7)))), Progress::Done(Ok(7)));
    assert!(cache.log.is_empty());
}

#[test]
fn warm_channel_is_not_seeded_again() {
    let mut cache = Memory::new();
    assert_eq!(drive(alloc_new_pos(channel()), &mut cache, (10, 2)), Ok(7));
    cache.log.clear();
    assert_eq!(drive(alloc_new_pos(channel()), &mut cache, (1000, 1)), Ok(8));
    let key = create_max_pos_key(&channel());
    assert_eq!(
        cache.log,
        vec![Command::Get { key: key.clone() }, Command::Increment { key: key.clone() }]
    );
}

#[test]
fn empty_channel_starts_at_two() {
    let mut cache = Memory::new();
    assert_eq!(drive(alloc_new_pos(channel()), &mut cache, (0, 0)), Ok(2));
    assert_eq!(drive(alloc_new_pos(channel()), &mut cache, (0, 0)), Ok(3));
}

#[test]
fn lost_race_for_the_seed_goes_on_from_the_winner() {
    let mut cache = Memory::new();
    let key = create_max_pos_key(&channel());
    let slow = alloc_new_pos(channel());
    let slow = match slow.resume(Event::Cache(cache.execute(&Command::Get { key: key.clone() })))
    {
        Progress::Next(next) => next,
        Progress::Done(_) => panic!("ended early"),
    };
    assert_eq!(slow.stage, AllocStage::Seeding);
    assert_eq!(drive(alloc_new_pos(channel()), &mut cache, (10, 2)), Ok(7));
    assert_eq!(drive(slow, &mut cache, (100, 1)), Ok(8));
    assert_eq!(cache.read(&key), Some(8));
}

#[test]
fn interleaved_calls_get_distinct_rising_positions() {
    let mut cache = Memory::new();
    let mut calls: Vec<Option<AllocNewPos>> =
        (0..5).map(|_| Some(alloc_new_pos(channel()))).collect();
    let mut given: Vec<i32> = Vec::new();
    let mut turn = 0usize;
    while calls.iter().any(|call| call.is_some()) {
        let caller = (turn * 3) % 5;
        turn += 1;
        if let Some(operation) = calls[caller].take() {
            let event = serve(&mut cache, (10 + caller as i64, 2), operation.request());
            match operation.resume(event) {
                Progress::Next(next) => calls[caller] = Some(next),
                Progress::Done(outcome) => given.push(outcome.unwrap()),
            }
        }
    }
    assert_eq!(given.len(), 5);
    for pair in given.windows(2) {
        assert!(pair[0] < pair[1]);
    }
    assert_eq!(given, vec![7, 8, 9, 10, 11]);
}

#[test]
fn any_schedule_gives_distinct_rising_positions() {
    let mut state: u64 = 0x9e37_79b9_7f4a_7c15;
    for callers in 1..9usize {
        for _ in 0..50 {
            let mut cache = Memory::new();
            let mut calls: Vec<Option<AllocNewPos>> =
                (0..callers).map(|_| Some(alloc_new_pos(channel()))).collect();
            let mut given: Vec<i32> = Vec::new();
            while calls.iter().any(|call| call.is_some()) {
                state = state.wrapping_mul(6364136223846793005).wrapping_add(1442695040888963407);
                let caller = (state >> 33) as usize % callers;
                cache.now += (state >> 60) & 1;
                if let Some(operation) = calls[caller].take() {
                    let aggregate = (10 * (caller as i64 + 1), 2);
                    let event = serve(&mut cache, aggregate, operation.request());
                    match operation.resume(event) {
                        Progress::Next(next) => calls[caller] = Some(next),
                        Progress::Done(outcome) => given.push(outcome.unwrap()),
                    }
                }
            }
            assert_eq!(given.len(), callers);
            for pair in given.windows(2) {
                assert!(pair[0] < pair[1]);
            }
        }
    }
}

#[test]
fn abandoned_call_does_not_disturb_the_others() {
    let mut cache = Memory::new();
    let key = create_max_pos_key(&channel());
    let abandoned = alloc_new_pos(channel());
    let event = serve(&mut cache, (10, 2), abandoned.request());
    let abandoned = match abandoned.resume(event) {
        Progress::Next(next) => next,
        Progress::Done(_) => panic!("ended early"),
    };
    let event = serve(&mut cache, (10, 2), abandoned.request());
    let abandoned = match abandoned.resume(event) {
        Progress::Next(next) => next,
        Progress::Done(_) => panic!("ended early"),
    };
    let event = serve(&mut cache, (10, 2), abandoned.request());
    assert_eq!(event, Event::Cache(Ok(Reply::Installed(true))));
    drop(abandoned);
    assert_eq!(cache.read(&key), Some(6));
    assert_eq!(drive(alloc_new_pos(channel()), &mut cache, (50, 1)), Ok(7));
    assert_eq!(drive(alloc_new_pos(channel()), &mut cache, (50, 1)), Ok(8));
}

#[test]
fn channels_do_not_share_a_watermark() {
    let mut cache = Memory::new();
    assert_eq!(drive(alloc_new_pos(channel()), &mut cache, (10, 2)), Ok(7));
    assert_eq!(drive(alloc_new_pos(other_channel()), &mut cache, (40, 2)), Ok(22));
    assert_eq!(drive(alloc_new_pos(channel()), &mut cache, (10, 2)), Ok(8));
}

#[test]
fn preview_is_read_again_not_taken_again() {
    let mut cache = Memory::new();
    let first = drive(pos(channel(), draft(), 30), &mut cache, (10, 2));
    let second = drive(pos(channel(), draft(), 30), &mut cache, (10, 2));
    assert_eq!(first, Ok(7));
    assert_eq!(second, Ok(7));
    assert_eq!(cache.read(&create_max_pos_key(&channel())), Some(7));
}

#[test]
fn preview_is_held_until_its_time_is_up() {
    let mut cache = Memory::new();
    assert_eq!(drive(pos(channel(), draft(), 30), &mut cache, (10, 2)), Ok(7));
    cache.now += 29;
    assert_eq!(drive(pos(channel(), draft(), 30), &mut cache, (10, 2)), Ok(7));
}

#[test]
fn preview_after_expiry_is_strictly_greater() {
    let mut cache = Memory::new();
    let before = drive(pos(channel(), draft(), 30), &mut cache, (10, 2)).unwrap();
    cache.now += 30;
    let after = drive(pos(channel(), draft(), 30), &mut cache, (10, 2)).unwrap();
    assert_eq!(before, 7);
    assert_eq!(after, 8);
    assert!(after > before);
}

#[test]
fn preview_of_another_draft_takes_the_next_position() {
    let mut cache = Memory::new();
    let other_draft = EntityId::from_bytes([0xd1; 16]);
    assert_eq!(drive(pos(channel(), draft(), 30), &mut cache, (10, 2)), Ok(7));
    assert_eq!(drive(pos(channel(), other_draft, 30), &mut cache, (10, 2)), Ok(8));
    assert_eq!(drive(pos(channel(), draft(), 30), &mut cache, (10, 2)), Ok(7));
}

#[test]
fn preview_is_stored_with_its_time_to_live() {
    let mut cache = Memory::new();
    assert_eq!(drive(pos(channel(), draft(), 45), &mut cache, (10, 2)), Ok(7));
    assert_eq!(
        cache.log.last(),
        Some(&Command::PutWithExpiration {
            key: create_pos_key(channel(), draft()),
            value: 7,
            seconds: 45
        })
    );
}

#[test]
fn preview_that_cannot_be_held_fails_but_uses_up_the_position() {
    let mut cache = Memory::new();
    assert_eq!(
        drive(pos(channel(), draft(), 0), &mut cache, (10, 2)),
        Err(CacheError::Transport)
    );
    assert_eq!(drive(alloc_new_pos(channel()), &mut cache, (10, 2)), Ok(8));
}

#[test]
fn finished_drops_the_preview() {
    let mut cache = Memory::new();
    assert_eq!(drive(pos(channel(), draft(), 30), &mut cache, (10, 2)), Ok(7));
    assert_eq!(drive(finished(channel(), draft()), &mut cache, (10, 2)), Ok(1));
    assert_eq!(cache.read(&create_pos_key(channel(), draft())), None);
    assert_eq!(drive(pos(channel(), draft(), 30), &mut cache, (10, 2)), Ok(8));
}

#[test]
fn finished_twice_is_harmless() {
    let mut cache = Memory::new();
    assert_eq!(drive(pos(channel(), draft(), 30), &mut cache, (10, 2)), Ok(7));
    assert_eq!(drive(finished(channel(), draft()), &mut cache, (10, 2)), Ok(1));
    assert_eq!(drive(finished(channel(), draft()), &mut cache, (10, 2)), Ok(0));
}

#[test]
fn watermark_is_raised() {
    let mut cache = Memory::new();
    assert_eq!(drive(ensure_pos_largest(channel(), 40), &mut cache, (10, 2)), Ok(()));
    assert_eq!(cache.read(&create_max_pos_key(&channel())), Some(40));
    assert_eq!(drive(alloc_new_pos(channel()), &mut cache, (10, 2)), Ok(41));
}

#[test]
fn watermark_is_not_lowered() {
    let mut cache = Memory::new();
    assert_eq!(drive(ensure_pos_largest(channel(), 40), &mut cache, (10, 2)), Ok(()));
    assert_eq!(drive(ensure_pos_largest(channel(), 12), &mut cache, (10, 2)), Ok(()));
    assert_eq!(cache.read(&create_max_pos_key(&channel())), Some(40));
}

#[test]
fn watermark_at_the_same_height_is_not_written() {
    let mut cache = Memory::new();
    assert_eq!(drive(ensure_pos_largest(channel(), 40), &mut cache, (10, 2)), Ok(()));
    cache.log.clear();
    assert_eq!(drive(ensure_pos_largest(channel(), 40), &mut cache, (10, 2)), Ok(()));
    assert_eq!(cache.log, vec![Command::Get { key: create_max_pos_key(&channel()) }]);
}

#[test]
fn absent_watermark_counts_as_one() {
    let mut cache = Memory::new();
    assert_eq!(drive(ensure_pos_largest(channel(), 1), &mut cache, (10, 2)), Ok(()));
    assert_eq!(cache.read(&create_max_pos_key(&channel())), None);
    assert_eq!(drive(ensure_pos_largest(channel(), -3), &mut cache, (10, 2)), Ok(()));
    assert_eq!(cache.read(&create_max_pos_key(&channel())), None);
    assert_eq!(drive(ensure_pos_largest(channel(), 2), &mut cache, (10, 2)), Ok(()));
    assert_eq!(cache.read(&create_max_pos_key(&channel())), Some(2));
}

#[test]
fn reset_makes_the_next_allocation_start_from_the_aggregate() {
    let mut cache = Memory::new();
    assert_eq!(drive(ensure_pos_largest(channel(), 500), &mut cache, (10, 2)), Ok(()));
    assert_eq!(drive(alloc_new_pos(channel()), &mut cache, (10, 2)), Ok(501));
    assert_eq!(drive(reset_channel_pos(&channel()), &mut cache, (10, 2)), Ok(()));
    assert_eq!(cache.read(&create_max_pos_key(&channel())), None);
    assert_eq!(drive(alloc_new_pos(channel()), &mut cache, (10, 2)), Ok(7));
}

#[test]
fn reset_of_an_unknown_channel_succeeds() {
    let mut cache = Memory::new();
    assert_eq!(drive(reset_channel_pos(&channel()), &mut cache, (10, 2)), Ok(()));
    assert_eq!(
        cache.log,
        vec![Command::Remove { key: create_max_pos_key(&channel()) }]
    );
}

#[test]
fn failure_of_the_cache_ends_every_operation() {
    let failed = Event::Cache(Err(CacheError::Transport));
    assert_eq!(alloc_new_pos(channel()).resume(failed), Progress::Done(Err(CacheError::Transport)));
    assert_eq!(
        pos(channel(), draft(), 30).resume(failed),
        Progress::Done(Err(CacheError::Transport))
    );
    assert_eq!(
        ensure_pos_largest(channel(), 3).resume(failed),
        Progress::Done(Err(CacheError::Transport))
    );
    assert_eq!(
        reset_channel_pos(&channel()).resume(failed),
        Progress::Done(Err(CacheError::Transport))
    );
    assert_eq!(
        finished(channel(), draft()).resume(failed),
        Progress::Done(Err(CacheError::Transport))
    );
}

#[test]
fn failure_at_a_later_request_ends_the_allocation() {
    for stage in [AllocStage::Installing { seed: 6 }, AllocStage::Incrementing] {
        let operation = AllocNewPos { channel_id: channel(), stage };
        assert_eq!(
            operation.resume(Event::Cache(Err(CacheError::Decode))),
            Progress::Done(Err(CacheError::Decode))
        );
    }
}

#[test]
fn failure_while_allocating_ends_the_preview_without_a_position() {
    let operation = pos(channel(), draft(), 30);
    let operation = match operation.resume(Event::Cache(Ok(Reply::Value(None)))) {
        Progress::Next(next) => next,
        Progress::Done(_) => panic!("ended early"),
    };
    assert_eq!(operation.stage, PosStage::Allocating(AllocStage::Probing));
    assert_eq!(
        operation.resume(Event::Cache(Err(CacheError::Transport))),
        Progress::Done(Err(CacheError::Transport))
    );
}

#[test]
fn failure_while_writing_the_watermark_is_reported() {
    let operation = ensure_pos_largest(channel(), 9);
    let operation = match operation.resume(Event::Cache(Ok(Reply::Value(Some(3))))) {
        Progress::Next(next) => next,
        Progress::Done(_) => panic!("ended early"),
    };
    assert_eq!(operation.stage, RaiseStage::Writing);
    assert_eq!(
        operation.request(),
        Request::Cache(Command::Put { key: create_max_pos_key(&channel()), value: 9 })
    );
    assert_eq!(
        operation.resume(Event::Cache(Err(CacheError::Transport))),
        Progress::Done(Err(CacheError::Transport))
    );
}

#[test]
fn answer_of_the_wrong_kind_is_a_decode_failure() {
    assert_eq!(
        alloc_new_pos(channel()).resume(Event::Cache(Ok(Reply::Stored))),
        Progress::Done(Err(CacheError::Decode))
    );
    assert_eq!(
        alloc_new_pos(channel()).resume(Event::Aggregate(DurableAggregate::new(10, 2).unwrap())),
        Progress::Done(Err(CacheError::Decode))
    );
    assert_eq!(
        finished(channel(), draft()).resume(Event::Cache(Ok(Reply::Stored))),
        Progress::Done(Err(CacheError::Decode))
    );
    assert_eq!(
        ensure_pos_largest(channel(), 3).resume(Event::Cache(Ok(Reply::Counter(1)))),
        Progress::Done(Err(CacheError::Decode))
    );
    assert_eq!(
        pos(channel(), draft(), 30).resume(Event::Cache(Ok(Reply::Removed(1)))),
        Progress::Done(Err(CacheError::Decode))
    );
}

#[test]
fn watermark_that_is_no_position_is_a_decode_failure() {
    let mut cache = Memory::new();
    cache.entries.insert(create_max_pos_key(&channel()), (i32::MAX as i64 + 5, None));
    assert_eq!(drive(alloc_new_pos(channel()), &mut cache, (10, 2)), Err(CacheError::Decode));
    assert_eq!(
        drive(ensure_pos_largest(channel(), 3), &mut cache, (10, 2)),
        Err(CacheError::Decode)
    );
}

#[test]
fn position_above_the_greatest_is_a_decode_failure() {
    let mut cache = Memory::new();
    assert_eq!(drive(ensure_pos_largest(channel(), i32::MAX), &mut cache, (10, 2)), Ok(()));
    assert_eq!(drive(alloc_new_pos(channel()), &mut cache, (10, 2)), Err(CacheError::Decode));
    assert_eq!(cache.read(&create_max_pos_key(&channel())), Some(i32::MAX as i64 + 1));
}
