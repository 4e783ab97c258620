//! Ordering keys for the messages of a channel.
//!
//! Every message of a channel has a position, and the messages are shown in the order
//! of their positions. New positions come from a watermark per channel that lives in
//! a cache: taking a position is adding one to the watermark, which the cache does in
//! one step, so that no two callers are given the same position. Where the cache has
//! no watermark for a channel, one is seeded from what the durable store reports of
//! the channel's messages.
//!
//! Nothing in this crate talks to the cache or to the durable store. An operation of
//! the engine is a value that names the one request it waits for, and goes on when it
//! is handed the answer ([`pos::operation::Operation`]). Whoever holds the connections
//! carries out the requests.
//!
//! - [`id`]: identifiers and their text.
//! - [`cache`]: keys, the commands that the cache is asked to carry out, and what the
//!   cache does with them.
//! - [`pos`]: the engine. Taking positions, holding one for a draft, raising and
//!   resetting the watermark. [`pos::world`] says what each operation comes to when it
//!   runs alone, [`pos::sequence`] what follows for calls in a row, and
//!   [`pos::interleaving`] what holds when the requests of many callers fall into one
//!   another.
//! - [`messages::handlers`]: the rules by which requests on messages are granted,
//!   among them the request to move a message next to a neighbour.

pub mod cache;
pub mod channels;
pub mod error;
pub mod id;
pub mod messages;
pub mod pos;
pub mod spaces;
