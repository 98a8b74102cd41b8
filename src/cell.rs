use vstd::prelude::*;
use crate::actor::{Actor, Context, Handler, Terminate};
use crate::errors::ActorError;
use crate::mailbox::{Envelope, Letter, Mailbox};

verus! {

/// Where an actor stands in its life.
#[derive(Clone, Copy, Debug, PartialEq, Eq, Structural)]
pub enum Lifecycle {
    Running,
    ShuttingDown,
    Terminated,
}

/// The two-tier outcome of one delivered message.
pub type Reply<A, M> = Result<
    Result<<A as Handler<M>>::Accept, <A as Handler<M>>::Rejection>,
    ActorError,
>;

/// Abstract state of one actor: its state value, its queue, its reply slots
/// (indexed by ticket), its lifecycle and the ticket of the letter that ended it.
pub ghost struct CellModel<A: Handler<M>, M> {
    pub id: u64,
    pub state: <A as View>::V,
    pub queue: Seq<Envelope<M>>,
    pub replies: Seq<Option<Reply<A, M>>>,
    pub status: Lifecycle,
    pub halted_by: Option<usize>,
}

/// A fresh running actor with an empty mailbox.
pub open spec fn fresh<A: Handler<M>, M>(id: u64, state: <A as View>::V) -> CellModel<A, M> {
    CellModel {
        id,
        state,
        queue: Seq::empty(),
        replies: Seq::empty(),
        status: Lifecycle::Running,
        halted_by: None,
    }
}

/// `c` after a letter was queued with the next free ticket.
pub open spec fn posted<A: Handler<M>, M>(c: CellModel<A, M>, letter: Letter<M>) -> CellModel<A, M> {
    CellModel {
        queue: c.queue.push(Envelope { ticket: c.replies.len() as usize, letter }),
        replies: c.replies.push(None),
        ..c
    }
}

/// One turn of the dispatch loop: handle the oldest letter.
pub open spec fn step<A: Handler<M>, M>(c: CellModel<A, M>) -> CellModel<A, M> {
    if c.queue.len() == 0 || c.status == Lifecycle::Terminated {
        c
    } else {
        let e = c.queue[0];
        match e.letter {
            Letter::Deliver(m) => {
                let halt = <A as Handler<M>>::stops(c.state, m);
                CellModel {
                    state: <A as Handler<M>>::next(c.state, m),
                    queue: if halt { Seq::empty() } else { c.queue.drop_first() },
                    replies: c.replies.update(e.ticket as int, Some(Ok(<A as Handler<M>>::outcome(c.state, m)))),
                    status: if halt { Lifecycle::Terminated } else { c.status },
                    halted_by: if halt { Some(e.ticket) } else { c.halted_by },
                    ..c
                }
            },
            Letter::Halt => CellModel {
                queue: Seq::empty(),
                status: Lifecycle::Terminated,
                halted_by: Some(e.ticket),
                ..c
            },
        }
    }
}

/// Runs the dispatch loop until the queue is empty or the actor has ended.
pub open spec fn drain<A: Handler<M>, M>(c: CellModel<A, M>) -> CellModel<A, M>
    decreases c.queue.len(),
{
    if c.queue.len() == 0 || c.status == Lifecycle::Terminated {
        c
    } else {
        drain(step(c))
    }
}

/// What the caller holding ticket `t` receives: the filled slot, or a
/// delivery failure where the actor ended before reaching the letter.
pub open spec fn reply_of<A: Handler<M>, M>(c: CellModel<A, M>, t: usize) -> Reply<A, M> {
    if t < c.replies.len() && c.replies[t as int] is Some {
        c.replies[t as int]->Some_0
    } else {
        Err(ActorError::MailboxClosed)
    }
}

/// `c` after the reply under ticket `t` was handed out.
pub open spec fn taken<A: Handler<M>, M>(c: CellModel<A, M>, t: usize) -> CellModel<A, M> {
    if t < c.replies.len() {
        CellModel { replies: c.replies.update(t as int, None), ..c }
    } else {
        c
    }
}

/// Internal consistency of one actor's record.
pub open spec fn cell_wf<A: Handler<M>, M>(c: CellModel<A, M>) -> bool {
    &&& c.replies.len() <= usize::MAX
    &&& forall|i: int| 0 <= i < c.queue.len() ==> #[trigger] c.queue[i].ticket < c.replies.len()
    &&& c.status == Lifecycle::Terminated ==> c.queue.len() == 0
}

/// The dispatch loop keeps the id, and never brings an actor back to `Running`.
pub proof fn lemma_drain_keeps_identity<A: Handler<M>, M>(c: CellModel<A, M>)
    ensures
        drain(c).id == c.id,
        drain(c).status == Lifecycle::Running ==> c.status == Lifecycle::Running,
    decreases c.queue.len(),
{
    if c.queue.len() == 0 || c.status == Lifecycle::Terminated {
    } else {
        lemma_drain_keeps_identity(step(c));
    }
}

/// One actor: its state, owned by the dispatch loop, and its mailbox.
pub struct ActorCell<A: Handler<M>, M> {
    id: u64,
    state: A,
    mailbox: Mailbox<M>,
    replies: Vec<Option<Reply<A, M>>>,
    status: Lifecycle,
    halted_by: Option<usize>,
}

impl<A: Handler<M>, M> ActorCell<A, M> {
    pub closed spec fn model(&self) -> CellModel<A, M> {
        CellModel {
            id: self.id,
            state: self.state@,
            queue: self.mailbox@,
            replies: self.replies@,
            status: self.status,
            halted_by: self.halted_by,
        }
    }

    pub fn new(id: u64, state: A) -> (r: ActorCell<A, M>)
        ensures
            r.model() == fresh::<A, M>(id, state@),
            cell_wf(r.model()),
    {
        let r = ActorCell {
            id,
            state,
            mailbox: Mailbox::new(),
            replies: Vec::new(),
            status: Lifecycle::Running,
            halted_by: None,
        };
        proof {
            assert(r.model().queue =~= Seq::<Envelope<M>>::empty());
            assert(r.model().replies =~= Seq::<Option<Reply<A, M>>>::empty());
        }
        r
    }

    pub fn id(&self) -> (r: u64)
        ensures
            r == self.model().id,
    {
        self.id
    }

    pub fn status(&self) -> (r: Lifecycle)
        ensures
            r == self.model().status,
    {
        self.status
    }

    pub fn halted_by(&self) -> (r: Option<usize>)
        ensures
            r == self.model().halted_by,
    {
        self.halted_by
    }

    pub fn set_status(&mut self, s: Lifecycle)
        requires
            s != Lifecycle::Terminated,
        ensures
            final(self).model() == (CellModel { status: s, ..old(self).model() }),
    {
        self.status = s;
    }

    /// Queues `letter` and returns its ticket.
    pub fn post(&mut self, letter: Letter<M>) -> (t: usize)
        requires
            cell_wf(old(self).model()),
            old(self).model().status != Lifecycle::Terminated,
            old(self).model().replies.len() < usize::MAX,
        ensures
            t == old(self).model().replies.len(),
            final(self).model() == posted(old(self).model(), letter),
            cell_wf(final(self).model()),
    {
        let t = self.replies.len();
        self.mailbox.push(Envelope { ticket: t, letter });
        self.replies.push(None);
        t
    }

    pub fn can_post(&self) -> (r: bool)
        ensures
            r == (self.model().replies.len() < usize::MAX),
    {
        self.replies.len() < usize::MAX
    }

    /// One turn of the dispatch loop.
    pub fn step(&mut self)
        requires
            cell_wf(old(self).model()),
        ensures
            final(self).model() == step(old(self).model()),
            cell_wf(final(self).model()),
    {
        if self.status == Lifecycle::Terminated {
            return;
        }
        let ghost c0 = self.model();
        match self.mailbox.pop() {
            None => {},
            Some(e) => {
                assert(e == c0.queue[0]);
                let mut ctx = Context::new();
                match e.letter {
                    Letter::Deliver(m) => {
                        let out = <A as Handler<M>>::handle(&mut self.state, m, &mut ctx);
                        self.replies.set(e.ticket, Some(Ok(out)));
                        if ctx.is_shutdown() {
                            self.mailbox.clear();
                            self.status = Lifecycle::Terminated;
                            self.halted_by = Some(e.ticket);
                        }
                    },
                    Letter::Halt => {
                        let _ = <A as Handler<Terminate>>::handle(&mut self.state, Terminate, &mut ctx);
                        self.mailbox.clear();
                        self.status = Lifecycle::Terminated;
                        self.halted_by = Some(e.ticket);
                    },
                }
                proof {
                    assert(self.model().replies =~= step(c0).replies);
                    assert(self.model().queue =~= step(c0).queue);
                }
            },
        }
    }

    /// Runs the dispatch loop until the queue is empty or the actor has ended.
    pub fn run(&mut self)
        requires
            cell_wf(old(self).model()),
        ensures
            final(self).model() == drain(old(self).model()),
            cell_wf(final(self).model()),
    {
        while self.mailbox.len() > 0 && self.status != Lifecycle::Terminated
            invariant
                cell_wf(self.model()),
                drain(self.model()) == drain(old(self).model()),
            decreases self.model().queue.len(),
        {
            self.step();
        }
    }

    /// Hands out the reply under ticket `t`, emptying its slot.
    pub fn take(&mut self, t: usize) -> (r: Reply<A, M>)
        requires
            cell_wf(old(self).model()),
        ensures
            r == reply_of(old(self).model(), t),
            final(self).model() == taken(old(self).model(), t),
            cell_wf(final(self).model()),
    {
        if t < self.replies.len() {
            let mut slot = None;
            std::mem::swap(&mut slot, &mut self.replies[t]);
            proof {
                assert(self.model().replies =~= taken(old(self).model(), t).replies);
            }
            match slot {
                Some(o) => o,
                None => Err(ActorError::MailboxClosed),
            }
        } else {
            Err(ActorError::MailboxClosed)
        }
    }
}

} // verus!
