//! What an operation asks for, what it is handed back, and how it goes on.

use crate::cache::{Command, CommandView, Reply};
use crate::error::CacheError;
use crate::id::EntityId;
use crate::pos::aggregate::DurableAggregate;
use vstd::prelude::*;

verus! {

/// What an operation needs from outside before it can go on.
#[derive(Clone, Debug, PartialEq, Eq)]
pub enum Request {
    /// The cache is to carry out a command.
    Cache(Command),
    /// The durable store is to report the aggregate of a channel.
    Aggregate { channel_id: EntityId },
}

/// A [`Request`] with its key as a sequence of characters.
pub ghost enum RequestView {
    Cache(CommandView),
    Aggregate { channel_id: EntityId },
}

impl View for Request {
    type V = RequestView;

    open spec fn view(&self) -> RequestView {
        match self {
            Request::Cache(command) => RequestView::Cache(command@),
            Request::Aggregate { channel_id } => RequestView::Aggregate { channel_id: *channel_id },
        }
    }
}

/// What came back for a [`Request`].
#[derive(Clone, Copy, Debug, PartialEq, Eq)]
pub enum Event {
    /// The cache answered, or the command failed.
    Cache(Result<Reply, CacheError>),
    /// The durable store reported a channel's aggregate.
    Aggregate(DurableAggregate),
}

/// Where an operation stands after an event.
#[derive(Debug, PartialEq, Eq)]
pub enum Progress<S, T> {
    /// The operation goes on in state `S`, and waits for the answer to its request.
    Next(S),
    /// The operation has ended.
    Done(Result<T, CacheError>),
}

/// An operation of the engine, as a value that neither reads nor writes anything
/// itself: it names the request that it waits for, and goes on when it is handed what
/// came back. The caller carries out each request and hands back the event, until the
/// operation is done.
pub trait Operation: Sized {
    /// What the operation returns.
    type Output;

    /// The request that the operation waits for.
    spec fn pending(&self) -> RequestView;

    /// Where the operation stands once `event` has come back for its request. A
    /// failure of the cache ends the operation with that failure, and so an allocation
    /// under way is given up without a position. An answer of a kind that the request
    /// cannot have ends it as a value that cannot be decoded.
    spec fn after(self, event: Event) -> Progress<Self, Self::Output>;

    /// How many requests the operation makes from here on, at most.
    spec fn requests_left(&self) -> nat;

    /// Every answer brings the operation closer to its end, whatever the answer is.
    proof fn lemma_requests_run_out(self, event: Event)
        ensures
            self.requests_left() > 0,
            self.after(event) matches Progress::Next(next) ==> next.requests_left()
                < self.requests_left(),
    ;

    /// The request that the operation waits for.
    fn request(&self) -> (request: Request)
        ensures
            request@ == self.pending(),
    ;

    /// Goes on with what came back for the request.
    fn resume(self, event: Event) -> (progress: Progress<Self, Self::Output>)
        ensures
            progress == self.after(event),
            event matches Event::Cache(Err(error)) ==> progress == Progress::<
                Self,
                Self::Output,
            >::Done(Err(error)),
    ;
}

} // verus!
