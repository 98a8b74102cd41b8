use vstd::prelude::*;

verus! {

/// Framework-level failure, independent of any actor or message type.
#[derive(Clone, Copy, Debug, PartialEq, Eq, Structural)]
pub enum ActorError {
    /// No actor is registered under the requested id.
    NotFound,
    /// An actor is already registered under the id given to `spawn`.
    AlreadyExists,
    /// The target has stopped or is stopping and takes no more messages.
    MailboxClosed,
    /// A handler failed in a way that ended its actor.
    HandlerFault,
}

} // verus!
