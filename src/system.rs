use vstd::prelude::*;
use crate::actor::Handler;
use crate::cell::{
    ActorCell, CellModel, Lifecycle, Reply, cell_wf, drain, fresh, lemma_drain_keeps_identity, posted,
    reply_of, step, taken,
};
use crate::errors::ActorError;
use crate::mailbox::{Envelope, Letter};

verus! {

/// Handle to one actor: the id it was registered under and its record's slot.
/// A handle stays valid after its actor ended; calls through it then fail.
#[derive(Clone, Copy, Debug, PartialEq, Eq, Structural)]
pub struct ActorRef {
    pub id: u64,
    pub slot: usize,
}

/// Registry of actors of type `A` taking messages of type `M`.
///
/// Every actor ever started keeps its record; at most one record per id is
/// `Running`, and only running records can be found by id.
pub struct ActorSystem<A: Handler<M>, M> {
    cells: Vec<ActorCell<A, M>>,
}

/// Whether `id` names a running actor in `cells`.
pub open spec fn registered<A: Handler<M>, M>(cells: Seq<CellModel<A, M>>, id: u64) -> bool {
    exists|i: int| 0 <= i < cells.len() && #[trigger] cells[i].id == id && cells[i].status == Lifecycle::Running
}

/// Slot `i` is the running record of `id`.
pub open spec fn holds<A: Handler<M>, M>(cells: Seq<CellModel<A, M>>, id: u64, i: int) -> bool {
    0 <= i < cells.len() && cells[i].id == id && cells[i].status == Lifecycle::Running
}

/// Whether handle `r` points at a record of its own id.
pub open spec fn resolves<A: Handler<M>, M>(cells: Seq<CellModel<A, M>>, r: ActorRef) -> bool {
    r.slot < cells.len() && cells[r.slot as int].id == r.id
}

/// Every record is consistent, and no two records of one id are running.
pub open spec fn system_wf<A: Handler<M>, M>(cells: Seq<CellModel<A, M>>) -> bool {
    &&& forall|i: int| 0 <= i < cells.len() ==> cell_wf(#[trigger] cells[i])
    &&& forall|i: int, j: int|
        holds(cells, #[trigger] cells[i].id, i) && holds(cells, #[trigger] cells[j].id, j) && cells[i].id == cells[j].id
            ==> i == j
}

/// The outcome of a delivery through handle `r`, and the records after it: a
/// letter is queued only on a running actor, and its answer is read once the
/// dispatch loop has run.
pub open spec fn answer<A: Handler<M>, M>(cells: Seq<CellModel<A, M>>, r: ActorRef, letter: Letter<M>) -> (Reply<A, M>, Seq<CellModel<A, M>>) {
    if !resolves(cells, r) {
        (Err(ActorError::NotFound), cells)
    } else {
        let c = cells[r.slot as int];
        if c.status != Lifecycle::Running || c.replies.len() >= usize::MAX {
            (Err(ActorError::MailboxClosed), cells)
        } else {
            let t = c.replies.len() as usize;
            let d = drain(posted(c, letter));
            (reply_of(d, t), cells.update(r.slot as int, taken(d, t)))
        }
    }
}

/// The running record of a registered `id`.
pub open spec fn slot_of<A: Handler<M>, M>(cells: Seq<CellModel<A, M>>, id: u64) -> int {
    choose|i: int| holds(cells, id, i)
}

/// A record on its way out: it is no longer found by id, and a stop letter
/// is queued behind everything already in its mailbox.
pub open spec fn stopping<A: Handler<M>, M>(c: CellModel<A, M>) -> CellModel<A, M> {
    let s = CellModel { status: Lifecycle::ShuttingDown, ..c };
    if c.replies.len() < usize::MAX {
        posted(s, Letter::Halt)
    } else {
        s
    }
}

/// The outcome of a stop request sent through `r`: it succeeds when its own
/// stop letter is the one that ended the actor.
pub open spec fn halt_answer<A: Handler<M>, M>(cells: Seq<CellModel<A, M>>, r: ActorRef) -> Result<Result<(), ActorError>, ActorError> {
    if !resolves(cells, r) {
        Err(ActorError::NotFound)
    } else {
        let c = cells[r.slot as int];
        if c.status != Lifecycle::Running || c.replies.len() >= usize::MAX {
            Err(ActorError::MailboxClosed)
        } else if drain(posted(c, Letter::Halt)).halted_by == Some(c.replies.len() as usize) {
            Ok(Ok(()))
        } else {
            Err(ActorError::MailboxClosed)
        }
    }
}

/// The record after a stop request sent through `r`.
pub open spec fn halt_effect<A: Handler<M>, M>(cells: Seq<CellModel<A, M>>, r: ActorRef) -> Seq<CellModel<A, M>> {
    if !resolves(cells, r) {
        cells
    } else {
        let c = cells[r.slot as int];
        if c.status != Lifecycle::Running || c.replies.len() >= usize::MAX {
            cells
        } else {
            cells.update(r.slot as int, drain(posted(c, Letter::Halt)))
        }
    }
}

/// Replacing one record by a well-formed one with the same id that is running
/// only if the old one was keeps the registry consistent.
proof fn lemma_update_keeps_wf<A: Handler<M>, M>(cells: Seq<CellModel<A, M>>, i: int, c: CellModel<A, M>)
    requires
        system_wf(cells),
        0 <= i < cells.len(),
        cell_wf(c),
        c.id == cells[i].id,
        c.status == Lifecycle::Running ==> cells[i].status == Lifecycle::Running,
    ensures
        system_wf(cells.update(i, c)),
{
    let n = cells.update(i, c);
    assert forall|a: int, b: int|
        holds(n, #[trigger] n[a].id, a) && holds(n, #[trigger] n[b].id, b) && n[a].id == n[b].id implies a == b by {
        assert(holds(cells, cells[a].id, a));
        assert(holds(cells, cells[b].id, b));
    }
}

/// An idle running record handles one new message in one turn: the dispatch
/// loop then stops with an empty queue.
pub proof fn lemma_idle_turn<A: Handler<M>, M>(c: CellModel<A, M>, m: M)
    requires
        c.status == Lifecycle::Running,
        c.queue.len() == 0,
        c.replies.len() < usize::MAX,
    ensures
        drain(posted(c, Letter::Deliver(m))) == step(posted(c, Letter::Deliver(m))),
        step(posted(c, Letter::Deliver(m))).queue.len() == 0,
{
    let p = posted(c, Letter::Deliver(m));
    assert(p.queue.len() == 1);
    assert(step(p).queue.len() == 0);
    assert(drain(step(p)) == step(p));
}

/// The record behind `r` is running with nothing queued.
pub open spec fn idle<A: Handler<M>, M>(cells: Seq<CellModel<A, M>>, r: ActorRef) -> bool {
    &&& resolves(cells, r)
    &&& cells[r.slot as int].status == Lifecycle::Running
    &&& cells[r.slot as int].queue.len() == 0
    &&& cells[r.slot as int].replies.len() < usize::MAX
}

/// After a successful `spawn` the id is taken by the new record, so a second
/// `spawn` with that id is refused with `AlreadyExists` and leaves the first
/// actor as it is.
pub proof fn lemma_spawn_takes_id<A: Handler<M>, M>(cells: Seq<CellModel<A, M>>, id: u64, state: <A as View>::V)
    requires
        system_wf(cells),
        !registered(cells, id),
    ensures
        system_wf(cells.push(fresh::<A, M>(id, state))),
        registered(cells.push(fresh::<A, M>(id, state)), id),
        holds(cells.push(fresh::<A, M>(id, state)), id, cells.len() as int),
{
    let n = cells.push(fresh::<A, M>(id, state));
    assert(n[cells.len() as int].id == id);
    assert forall|i: int| 0 <= i < n.len() implies cell_wf(#[trigger] n[i]) by {
        if i < cells.len() {
            assert(n[i] == cells[i]);
        } else {
            assert(n[i].queue =~= Seq::<Envelope<M>>::empty());
        }
    }
    assert forall|a: int, b: int|
        holds(n, #[trigger] n[a].id, a) && holds(n, #[trigger] n[b].id, b) && n[a].id == n[b].id implies a == b by {
        if a < cells.len() {
            assert(holds(cells, cells[a].id, a));
        }
        if b < cells.len() {
            assert(holds(cells, cells[b].id, b));
        }
    }
}

/// Every lookup of a registered id reaches the same record: handles that
/// `find_or` returns for one id, whether it created the actor or found it,
/// all address one actor.
pub proof fn lemma_one_record_per_id<A: Handler<M>, M>(cells: Seq<CellModel<A, M>>, id: u64, i: int, j: int)
    requires
        system_wf(cells),
        holds(cells, id, i),
        holds(cells, id, j),
    ensures
        i == j,
{
    assert(holds(cells, cells[i].id, i));
    assert(holds(cells, cells[j].id, j));
}

/// After `shutdown(id)` the id is free again: `spawn` and `find_or` treat it
/// as never registered.
pub proof fn lemma_shutdown_frees_id<A: Handler<M>, M>(cells: Seq<CellModel<A, M>>, id: u64)
    requires
        system_wf(cells),
        registered(cells, id),
    ensures
        !registered(cells.update(slot_of(cells, id), stopping(cells[slot_of(cells, id)])), id),
{
    let i = slot_of(cells, id);
    let w = choose|k: int| 0 <= k < cells.len() && #[trigger] cells[k].id == id && cells[k].status == Lifecycle::Running;
    assert(holds(cells, id, w));
    assert(holds(cells, id, i));
    let n = cells.update(i, stopping(cells[i]));
    if registered(n, id) {
        let k = choose|k: int| 0 <= k < n.len() && #[trigger] n[k].id == id && n[k].status == Lifecycle::Running;
        assert(holds(cells, cells[k].id, k));
        assert(holds(cells, cells[i].id, i));
    }
}

/// One turn of the dispatch loop keeps a record consistent.
proof fn lemma_step_wf<A: Handler<M>, M>(c: CellModel<A, M>)
    requires
        cell_wf(c),
    ensures
        cell_wf(step(c)),
        step(c).replies.len() == c.replies.len(),
{
    if c.queue.len() > 0 && c.status != Lifecycle::Terminated {
        let n = step(c);
        assert forall|i: int| 0 <= i < n.queue.len() implies #[trigger] n.queue[i].ticket < n.replies.len() by {
            assert(n.queue[i] == c.queue[i + 1]);
        }
    }
}

/// `shutdown` drops nothing: every letter queued before it gets exactly the
/// reply it would have had without the shutdown, the actor reaches the same
/// state, and it then ends.
pub proof fn lemma_shutdown_drains<A: Handler<M>, M>(c: CellModel<A, M>)
    requires
        cell_wf(c),
        c.status != Lifecycle::Terminated,
        c.replies.len() < usize::MAX,
    ensures
        drain(stopping(c)).replies == drain(c).replies.push(None),
        drain(stopping(c)).state == drain(c).state,
        drain(stopping(c)).status == Lifecycle::Terminated,
    decreases c.queue.len(),
{
    let s = stopping(c);
    let halt = Envelope { ticket: c.replies.len() as usize, letter: Letter::<M>::Halt };
    assert(s.queue == c.queue.push(halt));
    if c.queue.len() == 0 {
        assert(s.queue.len() == 1);
        assert(step(s).queue.len() == 0);
        assert(drain(step(s)) == step(s));
    } else {
        let e = c.queue[0];
        assert(s.queue[0] == e);
        let n = step(c);
        lemma_step_wf(c);
        match e.letter {
            Letter::Deliver(m) => {
                if <A as Handler<M>>::stops(c.state, m) {
                    assert(drain(step(s)) == step(s));
                    assert(drain(n) == n);
                    assert(step(s).replies =~= n.replies.push(None));
                } else {
                    assert(step(s).queue =~= n.queue.push(halt));
                    assert(step(s).replies =~= n.replies.push(None));
                    assert(step(s) == stopping(n));
                    lemma_shutdown_drains(n);
                }
            },
            Letter::Halt => {
                assert(drain(step(s)) == step(s));
                assert(drain(n) == n);
            },
        }
    }
}

/// Once a record has ended, every further call through its handle fails with
/// `MailboxClosed` and changes nothing.
pub proof fn lemma_ended_refuses<A: Handler<M>, M>(cells: Seq<CellModel<A, M>>, r: ActorRef, letter: Letter<M>)
    requires
        resolves(cells, r),
        cells[r.slot as int].status == Lifecycle::Terminated,
    ensures
        answer(cells, r, letter) == (Err::<Result<<A as Handler<M>>::Accept, <A as Handler<M>>::Rejection>, ActorError>(
            ActorError::MailboxClosed), cells),
        halt_answer(cells, r) == Err::<Result<(), ActorError>, ActorError>(ActorError::MailboxClosed),
        halt_effect(cells, r) == cells,
{
}

/// A message whose handler asks for termination succeeds, and leaves its
/// actor ended, so that every later call through the same handle fails (see
/// `lemma_ended_refuses`).
pub proof fn lemma_self_stop<A: Handler<M>, M>(cells: Seq<CellModel<A, M>>, r: ActorRef, m: M)
    requires
        system_wf(cells),
        resolves(cells, r),
        cells[r.slot as int].status == Lifecycle::Running,
        cells[r.slot as int].queue.len() == 0,
        cells[r.slot as int].replies.len() < usize::MAX,
        <A as Handler<M>>::stops(cells[r.slot as int].state, m),
    ensures
        answer(cells, r, Letter::Deliver(m)).0 == Ok::<Result<<A as Handler<M>>::Accept, <A as Handler<M>>::Rejection>, ActorError>(
            <A as Handler<M>>::outcome(cells[r.slot as int].state, m)),
        resolves(answer(cells, r, Letter::Deliver(m)).1, r),
        answer(cells, r, Letter::Deliver(m)).1[r.slot as int].status == Lifecycle::Terminated,
{
    let c = cells[r.slot as int];
    let p = posted(c, Letter::Deliver(m));
    assert(drain(step(p)) == step(p));
    assert(drain(p) == step(p));
}

/// The universal stop message ends an actor exactly as a handler that asks
/// for termination does: the call succeeds and the actor is left ended, with
/// nothing queued.
pub proof fn lemma_terminate_like_self_stop<A: Handler<M>, M>(cells: Seq<CellModel<A, M>>, r: ActorRef, m: M)
    requires
        system_wf(cells),
        resolves(cells, r),
        cells[r.slot as int].status == Lifecycle::Running,
        cells[r.slot as int].queue.len() == 0,
        cells[r.slot as int].replies.len() < usize::MAX,
        <A as Handler<M>>::stops(cells[r.slot as int].state, m),
    ensures
        halt_answer(cells, r) == Ok::<Result<(), ActorError>, ActorError>(Ok(())),
        answer(cells, r, Letter::Deliver(m)).0 is Ok,
        halt_effect(cells, r)[r.slot as int].status == answer(cells, r, Letter::Deliver(m)).1[r.slot as int].status,
        halt_effect(cells, r)[r.slot as int].queue == answer(cells, r, Letter::Deliver(m)).1[r.slot as int].queue,
        halt_effect(cells, r)[r.slot as int].halted_by == answer(cells, r, Letter::Deliver(m)).1[r.slot as int].halted_by,
{
    let c = cells[r.slot as int];
    let h = posted(c, Letter::Halt);
    assert(drain(step(h)) == step(h));
    assert(drain(h) == step(h));
    lemma_self_stop(cells, r, m);
    let p = posted(c, Letter::Deliver(m));
    assert(drain(step(p)) == step(p));
    assert(drain(p) == step(p));
    let t = c.replies.len() as usize;
    assert(answer(cells, r, Letter::Deliver(m)).1[r.slot as int] == taken(step(p), t));
    assert(halt_effect(cells, r)[r.slot as int] == step(h));
}

/// `tell` classifies every outcome as `ask` does: the same delivery failure,
/// the same rejection, and success exactly when `ask` succeeds.
pub proof fn lemma_tell_mirrors_ask<T, R>(o: Result<Result<T, R>, ActorError>)
    ensures
        acknowledged(o) is Err <==> o is Err,
        o matches Err(e) ==> acknowledged(o) == Err::<Result<(), R>, ActorError>(e),
        acknowledged(o) == Ok::<Result<(), R>, ActorError>(Ok(())) <==> o matches Ok(Ok(_)),
        o matches Ok(Err(x)) ==> acknowledged(o) == Ok::<Result<(), R>, ActorError>(Err(x)),
{
}

/// The acknowledgement form of an outcome: the accepted payload is dropped,
/// every failure is kept as it is.
pub open spec fn acknowledged<T, R>(o: Result<Result<T, R>, ActorError>) -> Result<Result<(), R>, ActorError> {
    match o {
        Ok(Ok(_)) => Ok(Ok(())),
        Ok(Err(e)) => Ok(Err(e)),
        Err(e) => Err(e),
    }
}

impl<A: Handler<M>, M> ActorSystem<A, M> {
    pub closed spec fn cells(&self) -> Seq<CellModel<A, M>> {
        self.cells@.map_values(|c: ActorCell<A, M>| c.model())
    }

    pub open spec fn wf(&self) -> bool {
        system_wf(self.cells())
    }

    pub open spec fn is_registered(&self, id: u64) -> bool {
        registered(self.cells(), id)
    }

    pub fn new() -> (r: ActorSystem<A, M>)
        ensures
            r.wf(),
            r.cells() == Seq::<CellModel<A, M>>::empty(),
    {
        let r = ActorSystem { cells: Vec::new() };
        proof {
            assert(r.cells() =~= Seq::<CellModel<A, M>>::empty());
        }
        r
    }

    /// Slot of the running record of `id`, if any.
    fn lookup(&self, id: u64) -> (r: Option<usize>)
        requires
            self.wf(),
        ensures
            r is None <==> !self.is_registered(id),
            r matches Some(i) ==> holds(self.cells(), id, i as int),
    {
        let mut i: usize = 0;
        while i < self.cells.len()
            invariant
                i <= self.cells@.len(),
                forall|k: int| 0 <= k < i ==> !#[trigger] holds(self.cells(), id, k),
            decreases self.cells@.len() - i,
        {
            assert(self.cells()[i as int] == self.cells@[i as int].model());
            if self.cells[i].id() == id && self.cells[i].status() == Lifecycle::Running {
                assert(holds(self.cells(), id, i as int));
                assert(self.cells()[i as int].id == id);
                return Some(i);
            }
            i = i + 1;
        }
        proof {
            if self.is_registered(id) {
                let k = choose|k: int| 0 <= k < self.cells().len() && #[trigger] self.cells()[k].id == id
                    && self.cells()[k].status == Lifecycle::Running;
                assert(holds(self.cells(), id, k));
            }
        }
        None
    }

    fn start(&mut self, id: u64, actor: A) -> (r: ActorRef)
        requires
            old(self).wf(),
            !old(self).is_registered(id),
        ensures
            final(self).wf(),
            final(self).cells() == old(self).cells().push(fresh::<A, M>(id, actor@)),
            r.id == id,
            r.slot == old(self).cells().len(),
    {
        let slot = self.cells.len();
        let c = ActorCell::new(id, actor);
        self.cells.push(c);
        proof {
            assert(self.cells() =~= old(self).cells().push(fresh::<A, M>(id, actor@)));
        }
        ActorRef { id, slot }
    }

    /// Registers a new actor under `id`; an id that is taken is refused.
    pub fn spawn(&mut self, id: u64, actor: A) -> (r: Result<ActorRef, ActorError>)
        requires
            old(self).wf(),
        ensures
            final(self).wf(),
            old(self).is_registered(id) ==> r == Err::<ActorRef, ActorError>(ActorError::AlreadyExists)
                && final(self).cells() == old(self).cells(),
            !old(self).is_registered(id) ==> (r matches Ok(a) && a.id == id && a.slot == old(self).cells().len()
                && holds(final(self).cells(), id, a.slot as int))
                && final(self).cells() == old(self).cells().push(fresh::<A, M>(id, actor@)),
            final(self).is_registered(id),
    {
        match self.lookup(id) {
            Some(_) => Err(ActorError::AlreadyExists),
            None => {
                proof {
                    lemma_spawn_takes_id::<A, M>(self.cells(), id, actor@);
                }
                Ok(self.start(id, actor))
            },
        }
    }

    /// Returns the running actor of `id`, or builds one with `factory` and
    /// registers it. The factory runs only in the second case.
    pub fn find_or<F: FnOnce(u64) -> A>(&mut self, id: u64, factory: F) -> (r: ActorRef)
        requires
            old(self).wf(),
            factory.requires((id,)),
        ensures
            final(self).wf(),
            r.id == id,
            holds(final(self).cells(), id, r.slot as int),
            final(self).is_registered(id),
            old(self).is_registered(id) ==> final(self).cells() == old(self).cells()
                && holds(old(self).cells(), id, r.slot as int),
            !old(self).is_registered(id) ==> r.slot == old(self).cells().len()
                && final(self).cells().len() == old(self).cells().len() + 1
                && final(self).cells().drop_last() == old(self).cells()
                && (exists|a: A| factory.ensures((id,), a) && final(self).cells().last() == fresh::<A, M>(id, a@)),
    {
        match self.lookup(id) {
            Some(slot) => ActorRef { id, slot },
            None => {
                let actor = factory(id);
                let r = self.start(id, actor);
                proof {
                    assert(self.cells().last() == fresh::<A, M>(id, actor@));
                    assert(self.cells().drop_last() =~= old(self).cells());
                }
                r
            },
        }
    }

    /// Stops the actor registered under `id`: it can no longer be found by id,
    /// and it ends once the letters already queued have been handled.
    pub fn shutdown(&mut self, id: u64) -> (r: Result<(), ActorError>)
        requires
            old(self).wf(),
        ensures
            final(self).wf(),
            !old(self).is_registered(id) ==> r == Err::<(), ActorError>(ActorError::NotFound)
                && final(self).cells() == old(self).cells(),
            old(self).is_registered(id) ==> r == Ok::<(), ActorError>(())
                && final(self).cells() == old(self).cells().update(
                    slot_of(old(self).cells(), id),
                    stopping(old(self).cells()[slot_of(old(self).cells(), id)]),
                ),
    {
        match self.lookup(id) {
            None => Err(ActorError::NotFound),
            Some(i) => {
                let ghost cells0 = self.cells();
                proof {
                    assert(holds(cells0, id, slot_of(cells0, id)));
                    assert(holds(cells0, cells0[i as int].id, i as int));
                    assert(holds(cells0, cells0[slot_of(cells0, id)].id, slot_of(cells0, id)));
                    assert(cells0[i as int] == self.cells@[i as int].model());
                }
                self.cells[i].set_status(Lifecycle::ShuttingDown);
                if self.cells[i].can_post() {
                    let _ = self.cells[i].post(Letter::Halt);
                }
                proof {
                    assert(self.cells() =~= cells0.update(i as int, stopping(cells0[i as int])));
                    lemma_update_keeps_wf(cells0, i as int, stopping(cells0[i as int]));
                }
                Ok(())
            },
        }
    }

    /// Queues `letter` for the actor behind `r` and returns its ticket.
    fn deliver(&mut self, r: ActorRef, letter: Letter<M>) -> (res: Result<usize, ActorError>)
        requires
            old(self).wf(),
        ensures
            final(self).wf(),
            !resolves(old(self).cells(), r) ==> res == Err::<usize, ActorError>(ActorError::NotFound)
                && final(self).cells() == old(self).cells(),
            resolves(old(self).cells(), r) && (old(self).cells()[r.slot as int].status != Lifecycle::Running
                || old(self).cells()[r.slot as int].replies.len() >= usize::MAX)
                ==> res == Err::<usize, ActorError>(ActorError::MailboxClosed)
                && final(self).cells() == old(self).cells(),
            resolves(old(self).cells(), r) && old(self).cells()[r.slot as int].status == Lifecycle::Running
                && old(self).cells()[r.slot as int].replies.len() < usize::MAX
                ==> (res matches Ok(t) && t == old(self).cells()[r.slot as int].replies.len())
                && final(self).cells() == old(self).cells().update(
                    r.slot as int,
                    posted(old(self).cells()[r.slot as int], letter),
                ),
    {
        if r.slot >= self.cells.len() {
            return Err(ActorError::NotFound);
        }
        let ghost cells0 = self.cells();
        assert(cells0[r.slot as int] == self.cells@[r.slot as int].model());
        if self.cells[r.slot].id() != r.id {
            return Err(ActorError::NotFound);
        }
        if self.cells[r.slot].status() != Lifecycle::Running || !self.cells[r.slot].can_post() {
            return Err(ActorError::MailboxClosed);
        }
        let t = self.cells[r.slot].post(letter);
        proof {
            assert(self.cells() =~= cells0.update(r.slot as int, posted(cells0[r.slot as int], letter)));
            lemma_update_keeps_wf(cells0, r.slot as int, posted(cells0[r.slot as int], letter));
        }
        Ok(t)
    }

    /// Runs the dispatch loop of the record behind `r` until its queue is empty
    /// or it has ended.
    pub fn run(&mut self, r: ActorRef)
        requires
            old(self).wf(),
        ensures
            final(self).wf(),
            !resolves(old(self).cells(), r) ==> final(self).cells() == old(self).cells(),
            resolves(old(self).cells(), r) ==> final(self).cells() == old(self).cells().update(
                r.slot as int,
                drain(old(self).cells()[r.slot as int]),
            ),
    {
        if r.slot >= self.cells.len() {
            return;
        }
        let ghost cells0 = self.cells();
        assert(cells0[r.slot as int] == self.cells@[r.slot as int].model());
        if self.cells[r.slot].id() != r.id {
            return;
        }
        self.cells[r.slot].run();
        proof {
            assert(self.cells() =~= cells0.update(r.slot as int, drain(cells0[r.slot as int])));
            lemma_drain_keeps_identity(cells0[r.slot as int]);
            lemma_update_keeps_wf(cells0, r.slot as int, drain(cells0[r.slot as int]));
        }
    }

    /// Queues `msg` for the actor behind `r` without waiting for it; the
    /// returned ticket is redeemed with `collect`.
    pub fn post(&mut self, r: ActorRef, msg: M) -> (res: Result<usize, ActorError>)
        requires
            old(self).wf(),
        ensures
            final(self).wf(),
            !resolves(old(self).cells(), r) ==> res == Err::<usize, ActorError>(ActorError::NotFound)
                && final(self).cells() == old(self).cells(),
            resolves(old(self).cells(), r) && (old(self).cells()[r.slot as int].status != Lifecycle::Running
                || old(self).cells()[r.slot as int].replies.len() >= usize::MAX)
                ==> res == Err::<usize, ActorError>(ActorError::MailboxClosed)
                && final(self).cells() == old(self).cells(),
            resolves(old(self).cells(), r) && old(self).cells()[r.slot as int].status == Lifecycle::Running
                && old(self).cells()[r.slot as int].replies.len() < usize::MAX
                ==> (res matches Ok(t) && t == old(self).cells()[r.slot as int].replies.len())
                && final(self).cells() == old(self).cells().update(
                    r.slot as int,
                    posted(old(self).cells()[r.slot as int], Letter::Deliver(msg)),
                ),
    {
        self.deliver(r, Letter::Deliver(msg))
    }

    /// Waits for the reply under ticket `t`: the dispatch loop runs first, so
    /// every letter queued before it has been handled.
    pub fn collect(&mut self, r: ActorRef, t: usize) -> (res: Reply<A, M>)
        requires
            old(self).wf(),
        ensures
            final(self).wf(),
            !resolves(old(self).cells(), r) ==> res == Err::<
                Result<<A as Handler<M>>::Accept, <A as Handler<M>>::Rejection>,
                ActorError,
            >(ActorError::NotFound) && final(self).cells() == old(self).cells(),
            resolves(old(self).cells(), r) ==> res == reply_of(drain(old(self).cells()[r.slot as int]), t)
                && final(self).cells() == old(self).cells().update(
                    r.slot as int,
                    taken(drain(old(self).cells()[r.slot as int]), t),
                ),
    {
        if r.slot >= self.cells.len() {
            return Err(ActorError::NotFound);
        }
        let ghost cells0 = self.cells();
        assert(cells0[r.slot as int] == self.cells@[r.slot as int].model());
        if self.cells[r.slot].id() != r.id {
            return Err(ActorError::NotFound);
        }
        self.cells[r.slot].run();
        let res = self.cells[r.slot].take(t);
        proof {
            let d = drain(cells0[r.slot as int]);
            assert(self.cells() =~= cells0.update(r.slot as int, taken(d, t)));
            lemma_drain_keeps_identity(cells0[r.slot as int]);
            lemma_update_keeps_wf(cells0, r.slot as int, taken(d, t));
        }
        res
    }

    /// Request/response call: delivers `msg`, waits until it was handled, and
    /// returns the handler's result, or the delivery failure.
    pub fn ask(&mut self, r: ActorRef, msg: M) -> (res: Reply<A, M>)
        requires
            old(self).wf(),
        ensures
            final(self).wf(),
            res == answer(old(self).cells(), r, Letter::Deliver(msg)).0,
            final(self).cells() == answer(old(self).cells(), r, Letter::Deliver(msg)).1,
            idle(old(self).cells(), r) ==> res == Ok::<
                Result<<A as Handler<M>>::Accept, <A as Handler<M>>::Rejection>,
                ActorError,
            >(<A as Handler<M>>::outcome(old(self).cells()[r.slot as int].state, msg))
                && resolves(final(self).cells(), r)
                && final(self).cells()[r.slot as int].state == <A as Handler<M>>::next(old(self).cells()[r.slot as int].state, msg)
                && final(self).cells()[r.slot as int].queue.len() == 0
                && final(self).cells()[r.slot as int].replies.len() == old(self).cells()[r.slot as int].replies.len() + 1
                && (final(self).cells()[r.slot as int].status == Lifecycle::Terminated
                    <==> <A as Handler<M>>::stops(old(self).cells()[r.slot as int].state, msg))
                && (final(self).cells()[r.slot as int].status != Lifecycle::Terminated
                    ==> final(self).cells()[r.slot as int].status == Lifecycle::Running),
    {
        let ghost cells0 = self.cells();
        proof {
            if idle(cells0, r) {
                lemma_idle_turn(cells0[r.slot as int], msg);
            }
        }
        match self.deliver(r, Letter::Deliver(msg)) {
            Err(e) => Err(e),
            Ok(t) => {
                let res = self.collect(r, t);
                proof {
                    let c = cells0[r.slot as int];
                    let d = drain(posted(c, Letter::Deliver(msg)));
                    assert(cells0.update(r.slot as int, posted(c, Letter::Deliver(msg))).update(r.slot as int, taken(d, t))
                        =~= cells0.update(r.slot as int, taken(d, t)));
                }
                res
            },
        }
    }

    /// Request/acknowledgement call: as `ask`, but the accepted payload is
    /// dropped; rejections and delivery failures come back as they are.
    pub fn tell(&mut self, r: ActorRef, msg: M) -> (res: Result<Result<(), <A as Handler<M>>::Rejection>, ActorError>)
        requires
            old(self).wf(),
        ensures
            final(self).wf(),
            res == acknowledged(answer(old(self).cells(), r, Letter::Deliver(msg)).0),
            final(self).cells() == answer(old(self).cells(), r, Letter::Deliver(msg)).1,
            idle(old(self).cells(), r) ==> res == acknowledged(Ok::<
                Result<<A as Handler<M>>::Accept, <A as Handler<M>>::Rejection>,
                ActorError,
            >(<A as Handler<M>>::outcome(old(self).cells()[r.slot as int].state, msg)))
                && resolves(final(self).cells(), r)
                && final(self).cells()[r.slot as int].state == <A as Handler<M>>::next(old(self).cells()[r.slot as int].state, msg)
                && final(self).cells()[r.slot as int].queue.len() == 0
                && final(self).cells()[r.slot as int].replies.len() == old(self).cells()[r.slot as int].replies.len() + 1
                && (final(self).cells()[r.slot as int].status == Lifecycle::Terminated
                    <==> <A as Handler<M>>::stops(old(self).cells()[r.slot as int].state, msg))
                && (final(self).cells()[r.slot as int].status != Lifecycle::Terminated
                    ==> final(self).cells()[r.slot as int].status == Lifecycle::Running),
    {
        match self.ask(r, msg) {
            Ok(Ok(_)) => Ok(Ok(())),
            Ok(Err(e)) => Ok(Err(e)),
            Err(e) => Err(e),
        }
    }

    /// Sends the universal stop message through `r` and waits for it.
    pub fn terminate(&mut self, r: ActorRef) -> (res: Result<Result<(), ActorError>, ActorError>)
        requires
            old(self).wf(),
        ensures
            final(self).wf(),
            res == halt_answer(old(self).cells(), r),
            final(self).cells() == halt_effect(old(self).cells(), r),
            idle(old(self).cells(), r) ==> res == Ok::<Result<(), ActorError>, ActorError>(Ok(()))
                && resolves(final(self).cells(), r)
                && final(self).cells()[r.slot as int].status == Lifecycle::Terminated
                && final(self).cells()[r.slot as int].state == old(self).cells()[r.slot as int].state,
    {
        let ghost cells0 = self.cells();
        proof {
            if idle(cells0, r) {
                let h = posted(cells0[r.slot as int], Letter::Halt);
                assert(drain(step(h)) == step(h));
            }
        }
        match self.deliver(r, Letter::Halt) {
            Err(e) => Err(e),
            Ok(t) => {
                self.run(r);
                proof {
                    let c = cells0[r.slot as int];
                    assert(cells0.update(r.slot as int, posted(c, Letter::Halt)).update(r.slot as int, drain(posted(c, Letter::Halt)))
                        =~= cells0.update(r.slot as int, drain(posted(c, Letter::Halt))));
                    lemma_drain_keeps_identity(posted(c, Letter::Halt));
                }
                match self.halted_by(r) {
                    Some(h) => {
                        if h == t {
                            Ok(Ok(()))
                        } else {
                            Err(ActorError::MailboxClosed)
                        }
                    },
                    None => Err(ActorError::MailboxClosed),
                }
            },
        }
    }

    /// Ticket of the letter that ended the actor behind `r`, if it has ended.
    pub fn halted_by(&self, r: ActorRef) -> (res: Option<usize>)
        requires
            self.wf(),
        ensures
            !resolves(self.cells(), r) ==> res is None,
            resolves(self.cells(), r) ==> res == self.cells()[r.slot as int].halted_by,
    {
        if r.slot >= self.cells.len() {
            return None;
        }
        assert(self.cells()[r.slot as int] == self.cells@[r.slot as int].model());
        if self.cells[r.slot].id() != r.id {
            return None;
        }
        self.cells[r.slot].halted_by()
    }
}

} // verus!
