use vstd::prelude::*;

verus! {

/// What an envelope carries: a message for the actor's handler, or the
/// universal stop request.
pub enum Letter<M> {
    Deliver(M),
    Halt,
}

/// One queued letter with the ticket of its reply slot.
pub struct Envelope<M> {
    pub ticket: usize,
    pub letter: Letter<M>,
}

/// First-in first-out queue of envelopes bound to one actor.
pub struct Mailbox<M> {
    items: Vec<Envelope<M>>,
}

impl<M> View for Mailbox<M> {
    type V = Seq<Envelope<M>>;

    closed spec fn view(&self) -> Seq<Envelope<M>> {
        self.items@
    }
}

impl<M> Mailbox<M> {
    pub fn new() -> (r: Mailbox<M>)
        ensures
            r@ == Seq::<Envelope<M>>::empty(),
    {
        Mailbox { items: Vec::new() }
    }

    pub fn len(&self) -> (r: usize)
        ensures
            r == self@.len(),
    {
        self.items.len()
    }

    /// Appends `e` behind every envelope already queued.
    pub fn push(&mut self, e: Envelope<M>)
        ensures
            final(self)@ == old(self)@.push(e),
    {
        self.items.push(e);
    }

    /// Takes the oldest envelope, if any.
    pub fn pop(&mut self) -> (r: Option<Envelope<M>>)
        ensures
            old(self)@.len() == 0 ==> r is None && final(self)@ == old(self)@,
            old(self)@.len() > 0 ==> r == Some(old(self)@[0]) && final(self)@ == old(self)@.drop_first(),
    {
        if self.items.len() == 0 {
            None
        } else {
            let e = self.items.remove(0);
            proof {
                assert(self.items@ =~= old(self)@.drop_first());
            }
            Some(e)
        }
    }

    /// Drops every queued envelope.
    pub fn clear(&mut self)
        ensures
            final(self)@ == Seq::<Envelope<M>>::empty(),
    {
        self.items.clear();
        proof {
            assert(self.items@ =~= Seq::<Envelope<M>>::empty());
        }
    }
}

} // verus!
