use vstd::prelude::*;
use crate::actor::Handler;
use crate::cell::Reply;
use crate::errors::ActorError;
use crate::mailbox::Letter;
use crate::system::{ActorRef, ActorSystem, acknowledged, answer};

verus! {

/// `r` is `o` with both tiers folded into the domain error: a delivery failure
/// becomes the rejection that `From<ActorError>` makes of it.
pub open spec fn flattens<T, R: From<ActorError>>(o: Result<Result<T, R>, ActorError>, r: Result<T, R>) -> bool {
    match o {
        Ok(inner) => r == inner,
        Err(e) => r matches Err(x) && call_ensures(R::from, (e,), x),
    }
}

/// Folds a delivery failure into the domain error channel.
pub fn flatten<T, R: From<ActorError>>(o: Result<Result<T, R>, ActorError>) -> (r: Result<T, R>)
    ensures
        flattens(o, r),
{
    match o {
        Ok(inner) => inner,
        Err(e) => Err(R::from(e)),
    }
}

/// Calls that keep the two tiers apart: the outer `Result` says whether the
/// message was delivered and handled, the inner one what the handler decided.
pub trait RegularBehavior<A: Handler<M>, M>: Sized {
    spec fn ready(&self) -> bool;

    /// What `ask(target, msg)` returns from this state.
    spec fn asked(&self, target: ActorRef, msg: M) -> Reply<A, M>;

    /// Whether `after` is this state once `msg` went through `target`.
    spec fn delivered(&self, target: ActorRef, msg: M, after: &Self) -> bool;

    fn ask(&mut self, target: ActorRef, msg: M) -> (r: Reply<A, M>)
        requires
            old(self).ready(),
        ensures
            final(self).ready(),
            r == old(self).asked(target, msg),
            old(self).delivered(target, msg, final(self)),
    ;

    fn tell(&mut self, target: ActorRef, msg: M) -> (r: Result<Result<(), <A as Handler<M>>::Rejection>, ActorError>)
        requires
            old(self).ready(),
        ensures
            final(self).ready(),
            r == acknowledged(old(self).asked(target, msg)),
            old(self).delivered(target, msg, final(self)),
    ;
}

/// Calls that fold delivery failures into the domain error, for rejection
/// types that can absorb an `ActorError`.
pub trait ErrorFlattenBehavior<A: Handler<M>, M>: RegularBehavior<A, M> where
    <A as Handler<M>>::Rejection: From<ActorError>,
 {
    fn ask_flat(&mut self, target: ActorRef, msg: M) -> (r: Result<<A as Handler<M>>::Accept, <A as Handler<M>>::Rejection>)
        requires
            old(self).ready(),
        ensures
            final(self).ready(),
            flattens(old(self).asked(target, msg), r),
            old(self).delivered(target, msg, final(self)),
    ;

    fn tell_flat(&mut self, target: ActorRef, msg: M) -> (r: Result<(), <A as Handler<M>>::Rejection>)
        requires
            old(self).ready(),
        ensures
            final(self).ready(),
            flattens(acknowledged(old(self).asked(target, msg)), r),
            old(self).delivered(target, msg, final(self)),
    ;
}

impl<A: Handler<M>, M> RegularBehavior<A, M> for ActorSystem<A, M> {
    open spec fn ready(&self) -> bool {
        self.wf()
    }

    open spec fn asked(&self, target: ActorRef, msg: M) -> Reply<A, M> {
        answer(self.cells(), target, Letter::Deliver(msg)).0
    }

    open spec fn delivered(&self, target: ActorRef, msg: M, after: &Self) -> bool {
        after.cells() == answer(self.cells(), target, Letter::Deliver(msg)).1
    }

    fn ask(&mut self, target: ActorRef, msg: M) -> (r: Reply<A, M>) {
        ActorSystem::ask(self, target, msg)
    }

    fn tell(&mut self, target: ActorRef, msg: M) -> (r: Result<Result<(), <A as Handler<M>>::Rejection>, ActorError>) {
        ActorSystem::tell(self, target, msg)
    }
}

impl<A: Handler<M>, M> ErrorFlattenBehavior<A, M> for ActorSystem<A, M> where
    <A as Handler<M>>::Rejection: From<ActorError>,
 {
    fn ask_flat(&mut self, target: ActorRef, msg: M) -> (r: Result<<A as Handler<M>>::Accept, <A as Handler<M>>::Rejection>) {
        flatten(ActorSystem::ask(self, target, msg))
    }

    fn tell_flat(&mut self, target: ActorRef, msg: M) -> (r: Result<(), <A as Handler<M>>::Rejection>) {
        flatten(ActorSystem::tell(self, target, msg))
    }
}

} // verus!
