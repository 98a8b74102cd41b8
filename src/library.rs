use vstd::prelude::*;
use std::collections::HashSet;
use crate::actor::{Actor, Context, Handler};
use crate::errors::ActorError;

verus! {

broadcast use vstd::std_specs::hash::group_hash_axioms;

/// A lendable book: its id, its title and the people who have it on loan.
pub struct Book {
    id: u64,
    title: String,
    rental: HashSet<u64>,
}

pub ghost struct BookView {
    pub id: u64,
    pub title: Seq<char>,
    pub rental: Set<u64>,
}

impl View for Book {
    type V = BookView;

    closed spec fn view(&self) -> BookView {
        BookView { id: self.id, title: self.title@, rental: self.rental@ }
    }
}

impl Actor for Book {}

impl Book {
    /// A book that nobody has on loan.
    pub fn new(id: u64, title: String) -> (r: Book)
        ensures
            r@ == (BookView { id, title: title@, rental: Set::empty() }),
    {
        Book { id, title, rental: HashSet::new() }
    }
}

/// Commands a book accepts.
#[derive(Clone, Copy, Debug, PartialEq, Eq, Structural)]
pub enum BookCommand {
    /// Person `id` borrows the book.
    Rental { id: u64 },
    /// Person `id` brings the book back.
    Return { id: u64 },
    /// The book is withdrawn; its actor ends after this command.
    Archive,
}

/// What a book reports after accepting a command.
#[derive(Clone, Copy, Debug, PartialEq, Eq, Structural)]
pub enum BookEvent {
    Rental { id: u64 },
    Returned { id: u64 },
    Archived,
}

/// Why a book refused a command, or why the command never reached it.
#[derive(Clone, Copy, Debug, PartialEq, Eq, Structural)]
pub enum LoanError {
    /// Person `id` already has the book on loan.
    AlreadyExist { id: u64 },
    /// Person `id` does not have the book on loan.
    NotFound { id: u64 },
    /// The command could not be delivered.
    Undelivered { cause: ActorError },
}

impl From<ActorError> for LoanError {
    fn from(e: ActorError) -> (r: LoanError) {
        LoanError::Undelivered { cause: e }
    }
}

impl vstd::std_specs::convert::FromSpecImpl<ActorError> for LoanError {
    open spec fn obeys_from_spec() -> bool {
        true
    }

    open spec fn from_spec(e: ActorError) -> LoanError {
        LoanError::Undelivered { cause: e }
    }
}

impl Handler<BookCommand> for Book {
    type Accept = BookEvent;
    type Rejection = LoanError;

    open spec fn next(state: BookView, msg: BookCommand) -> BookView {
        match msg {
            BookCommand::Rental { id } => BookView { rental: state.rental.insert(id), ..state },
            BookCommand::Return { id } => BookView { rental: state.rental.remove(id), ..state },
            BookCommand::Archive => state,
        }
    }

    open spec fn outcome(state: BookView, msg: BookCommand) -> Result<BookEvent, LoanError> {
        match msg {
            BookCommand::Rental { id } => if state.rental.contains(id) {
                Err(LoanError::AlreadyExist { id })
            } else {
                Ok(BookEvent::Rental { id })
            },
            BookCommand::Return { id } => if state.rental.contains(id) {
                Ok(BookEvent::Returned { id })
            } else {
                Err(LoanError::NotFound { id })
            },
            BookCommand::Archive => Ok(BookEvent::Archived),
        }
    }

    open spec fn stops(state: BookView, msg: BookCommand) -> bool {
        msg == BookCommand::Archive
    }

    fn handle(&mut self, msg: BookCommand, ctx: &mut Context) -> (r: Result<BookEvent, LoanError>) {
        match msg {
            BookCommand::Rental { id } => {
                if !self.rental.insert(id) {
                    return Err(LoanError::AlreadyExist { id });
                }
                Ok(BookEvent::Rental { id })
            },
            BookCommand::Return { id } => {
                if !self.rental.remove(&id) {
                    return Err(LoanError::NotFound { id });
                }
                Ok(BookEvent::Returned { id })
            },
            BookCommand::Archive => {
                ctx.shutdown();
                Ok(BookEvent::Archived)
            },
        }
    }
}

} // verus!
