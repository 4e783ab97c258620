//! The cache: how its keys are built, which commands it is asked to carry out, and
//! what it does with them.

use crate::error::CacheError;
use crate::id::{hyphenated, EntityId};
use vstd::prelude::*;

verus! {

/// The byte that stands between the parts of a key.
pub const SEPARATOR: u8 = 58;

/// The address of the cache where the configuration names none.
pub const DEFAULT_URL: &'static str = "redis://127.0.0.1/";

/// The key under which a field of an entity is cached: the name of the entity's kind, the text
/// of its identifier and the field's name, with a colon between them.
pub open spec fn key_of(entity: Seq<u8>, id: Seq<u8>, field_name: Seq<u8>) -> Seq<u8> {
    entity + seq![SEPARATOR] + hyphenated(id) + seq![SEPARATOR] + field_name
}

/// Builds the key under which a field of an entity is cached.
pub fn make_key(entity: &[u8], id: &EntityId, field_name: &[u8]) -> (key: Vec<u8>)
    ensures
        key@ == key_of(entity@, id@, field_name@),
{
    let mut buffer: Vec<u8> = Vec::new();
    buffer.extend_from_slice(entity);
    buffer.push(SEPARATOR);
    let text = id.encode_lower();
    buffer.extend_from_slice(text.as_slice());
    buffer.push(SEPARATOR);
    buffer.extend_from_slice(field_name);
    assert(buffer@ =~= key_of(entity@, id@, field_name@));
    buffer
}

/// The address at which the cache is reached: the configured one, or [`DEFAULT_URL`]
/// where the configuration names none.
pub fn cache_url(configured: Option<String>) -> (url: String)
    ensures
        url@ == match configured {
            Some(address) => address@,
            None => DEFAULT_URL@,
        },
{
    match configured {
        Some(address) => address,
        None => String::from_str(DEFAULT_URL),
    }
}

/// One request to the cache. Keys are text; the values are positions.
#[derive(Clone, Debug, PartialEq, Eq)]
pub enum Command {
    /// Read the value under `key`.
    Get { key: String },
    /// Put `value` under `key`, without expiry, whatever was there.
    Put { key: String, value: i32 },
    /// Put `value` under `key`, without expiry, unless the key holds a value.
    PutIfAbsent { key: String, value: i32 },
    /// Put `value` under `key`, whatever was there, to be dropped `seconds` from now.
    PutWithExpiration { key: String, value: i32, seconds: u64 },
    /// Add one to the number under `key`, in one step, and read the result.
    Increment { key: String },
    /// Drop `key`.
    Remove { key: String },
}

/// A [`Command`] with its key as a sequence of characters.
pub ghost enum CommandView {
    Get { key: Seq<char> },
    Put { key: Seq<char>, value: i32 },
    PutIfAbsent { key: Seq<char>, value: i32 },
    PutWithExpiration { key: Seq<char>, value: i32, seconds: u64 },
    Increment { key: Seq<char> },
    Remove { key: Seq<char> },
}

impl CommandView {
    /// The key that the command is about.
    pub open spec fn key(self) -> Seq<char> {
        match self {
            CommandView::Get { key } => key,
            CommandView::Put { key, value } => key,
            CommandView::PutIfAbsent { key, value } => key,
            CommandView::PutWithExpiration { key, value, seconds } => key,
            CommandView::Increment { key } => key,
            CommandView::Remove { key } => key,
        }
    }
}

impl View for Command {
    type V = CommandView;

    open spec fn view(&self) -> CommandView {
        match self {
            Command::Get { key } => CommandView::Get { key: key@ },
            Command::Put { key, value } => CommandView::Put { key: key@, value: *value },
            Command::PutIfAbsent { key, value } => CommandView::PutIfAbsent {
                key: key@,
                value: *value,
            },
            Command::PutWithExpiration { key, value, seconds } => CommandView::PutWithExpiration {
                key: key@,
                value: *value,
                seconds: *seconds,
            },
            Command::Increment { key } => CommandView::Increment { key: key@ },
            Command::Remove { key } => CommandView::Remove { key: key@ },
        }
    }
}

/// What the cache answers to a [`Command`] that it carried out.
#[derive(Clone, Copy, Debug, PartialEq, Eq, Structural)]
pub enum Reply {
    /// To `Get`: the value under the key, or `None` where the key holds none.
    Value(Option<i32>),
    /// To `Put` and `PutWithExpiration`.
    Stored,
    /// To `PutIfAbsent`: whether the value was put.
    Installed(bool),
    /// To `Increment`: the number after the step.
    Counter(i32),
    /// To `Remove`: how many keys were dropped.
    Removed(i32),
}

/// What a key of the cache holds: a number, and the time from which on the cache
/// treats the key as absent, if there is one.
pub ghost struct Entry {
    pub value: int,
    pub deadline: Option<int>,
}

/// Whether a number can be read from the cache as a position.
pub open spec fn is_position(value: int) -> bool {
    i32::MIN <= value <= i32::MAX
}

/// The content of the cache, as far as positions are kept in it. Time is counted in
/// seconds.
#[verifier::ext_equal]
pub ghost struct Store {
    pub entries: Map<Seq<char>, Entry>,
}

impl Store {
    /// The cache that holds nothing.
    pub open spec fn empty() -> Store {
        Store { entries: Map::empty() }
    }

    /// Whether `key` holds a value at the time `now`.
    pub open spec fn live(self, key: Seq<char>, now: int) -> bool {
        self.entries.dom().contains(key) && match self.entries[key].deadline {
            Some(deadline) => now < deadline,
            None => true,
        }
    }

    /// The number under `key` at the time `now`.
    pub open spec fn read(self, key: Seq<char>, now: int) -> Option<int> {
        if self.live(key, now) {
            Some(self.entries[key].value)
        } else {
            None
        }
    }

    /// The cache with `value` under `key`, to be dropped at `deadline`.
    pub open spec fn write(self, key: Seq<char>, value: int, deadline: Option<int>) -> Store {
        Store { entries: self.entries.insert(key, Entry { value, deadline }) }
    }

    /// The cache without `key`.
    pub open spec fn without(self, key: Seq<char>) -> Store {
        Store { entries: self.entries.remove(key) }
    }

    /// The cache after it has carried out `command` at the time `now`.
    pub open spec fn after(self, command: CommandView, now: int) -> Store {
        match command {
            CommandView::Get { key } => self,
            CommandView::Put { key, value } => self.write(key, value as int, None),
            CommandView::PutIfAbsent { key, value } => if self.live(key, now) {
                self
            } else {
                self.write(key, value as int, None)
            },
            CommandView::PutWithExpiration { key, value, seconds } => if seconds == 0 {
                self
            } else {
                self.write(key, value as int, Some(now + seconds))
            },
            CommandView::Increment { key } => match self.read(key, now) {
                Some(number) => self.write(key, number + 1, self.entries[key].deadline),
                None => self.write(key, 1, None),
            },
            CommandView::Remove { key } => self.without(key),
        }
    }

    /// What the cache answers to `command` at the time `now`, where nothing goes wrong
    /// on the way. A number that is no position cannot be read as one, and a value
    /// cannot be kept for zero seconds.
    pub open spec fn answer(self, command: CommandView, now: int) -> Result<Reply, CacheError> {
        match command {
            CommandView::Get { key } => match self.read(key, now) {
                None => Ok(Reply::Value(None)),
                Some(number) => if is_position(number) {
                    Ok(Reply::Value(Some(number as i32)))
                } else {
                    Err(CacheError::Decode)
                },
            },
            CommandView::Put { key, value } => Ok(Reply::Stored),
            CommandView::PutIfAbsent { key, value } => Ok(Reply::Installed(!self.live(key, now))),
            CommandView::PutWithExpiration { key, value, seconds } => if seconds == 0 {
                Err(CacheError::Transport)
            } else {
                Ok(Reply::Stored)
            },
            CommandView::Increment { key } => {
                let number = match self.read(key, now) {
                    Some(number) => number + 1,
                    None => 1,
                };
                if is_position(number) {
                    Ok(Reply::Counter(number as i32))
                } else {
                    Err(CacheError::Decode)
                }
            },
            CommandView::Remove { key } => Ok(
                Reply::Removed(
                    if self.live(key, now) {
                        1
                    } else {
                        0
                    },
                ),
            ),
        }
    }
}

} // verus!
