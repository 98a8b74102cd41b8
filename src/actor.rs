use vstd::prelude::*;
use crate::errors::ActorError;

verus! {

/// Control handle given to each handler invocation; the dispatch loop reads
/// it once the handler has returned.
pub struct Context {
    stop: bool,
}

impl Context {
    pub closed spec fn stop_requested(&self) -> bool {
        self.stop
    }

    /// A handle with no termination requested.
    pub fn new() -> (r: Context)
        ensures
            !r.stop_requested(),
    {
        Context { stop: false }
    }

    /// Asks the dispatch loop to end the actor once the current message is done.
    pub fn shutdown(&mut self)
        ensures
            final(self).stop_requested(),
    {
        self.stop = true;
    }

    /// Whether termination was requested.
    pub fn is_shutdown(&self) -> (r: bool)
        ensures
            r == self.stop_requested(),
    {
        self.stop
    }
}

/// A type whose values can run as actors; its view is the state that handlers
/// are specified over.
pub trait Actor: Sized + View {}

/// How an actor of type `Self` handles a message of type `M`.
///
/// `next`, `outcome` and `stops` describe one invocation on a state view: the
/// state it leaves, what it returns, and whether it asks for the actor's
/// termination.
pub trait Handler<M>: Actor {
    type Accept;
    type Rejection;

    spec fn next(state: <Self as View>::V, msg: M) -> <Self as View>::V;

    spec fn outcome(state: <Self as View>::V, msg: M) -> Result<Self::Accept, Self::Rejection>;

    spec fn stops(state: <Self as View>::V, msg: M) -> bool;

    fn handle(&mut self, msg: M, ctx: &mut Context) -> (r: Result<Self::Accept, Self::Rejection>)
        ensures
            final(self)@ == <Self as Handler<M>>::next(old(self)@, msg),
            r == <Self as Handler<M>>::outcome(old(self)@, msg),
            final(ctx).stop_requested() == (old(ctx).stop_requested() || <Self as Handler<M>>::stops(old(self)@, msg)),
    ;
}

/// Universal stop message: every actor accepts it and ends after handling it.
#[derive(PartialEq, Eq, Structural)]
pub struct Terminate;

impl<A: Actor> Handler<Terminate> for A {
    type Accept = ();
    type Rejection = ActorError;

    open spec fn next(state: <A as View>::V, msg: Terminate) -> <A as View>::V {
        state
    }

    open spec fn outcome(state: <A as View>::V, msg: Terminate) -> Result<(), ActorError> {
        Ok(())
    }

    open spec fn stops(state: <A as View>::V, msg: Terminate) -> bool {
        true
    }

    fn handle(&mut self, msg: Terminate, ctx: &mut Context) -> (r: Result<(), ActorError>) {
        ctx.shutdown();
        Ok(())
    }
}

} // verus!
