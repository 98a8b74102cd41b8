use std::cell::Cell;

use diazene::actor::Context;
use diazene::behavior::{ErrorFlattenBehavior, RegularBehavior, flatten};
use diazene::errors::ActorError;
use diazene::library::{Book, BookCommand, BookEvent, LoanError};
use diazene::mailbox::{Envelope, Letter, Mailbox};
use diazene::system::{ActorRef, ActorSystem};

fn book(id: u64) -> Book {
    Book::new(id, "Charlie and the Chocolate Factory".to_string())
}

#[test]
fn spawn_twice_refused() {
    let mut sys: ActorSystem<Book, BookCommand> = ActorSystem::new();
    let first = sys.spawn(7, book(7)).unwrap();
    assert_eq!(sys.ask(first, BookCommand::Rental { id: 1 }), Ok(Ok(BookEvent::Rental { id: 1 })));
    assert_eq!(sys.spawn(7, book(7)).unwrap_err(), ActorError::AlreadyExists);
    // the first actor keeps its state
    assert_eq!(sys.ask(first, BookCommand::Rental { id: 1 }), Ok(Err(LoanError::AlreadyExist { id: 1 })));
}

#[test]
fn spawn_distinct_ids() {
    let mut sys: ActorSystem<Book, BookCommand> = ActorSystem::new();
    let a = sys.spawn(1, book(1)).unwrap();
    let b = sys.spawn(2, book(2)).unwrap();
    assert_ne!(a, b);
    assert_eq!(sys.ask(a, BookCommand::Rental { id: 5 }), Ok(Ok(BookEvent::Rental { id: 5 })));
    assert_eq!(sys.ask(b, BookCommand::Rental { id: 5 }), Ok(Ok(BookEvent::Rental { id: 5 })));
}

#[test]
fn find_or_runs_factory_once() {
    let mut sys: ActorSystem<Book, BookCommand> = ActorSystem::new();
    let calls = Cell::new(0u32);
    let mut refs: Vec<ActorRef> = Vec::new();
    for _ in 0..5 {
        let r = sys.find_or(42, |id| {
            calls.set(calls.get() + 1);
            Book::new(id, "The Book of Rust".to_string())
        });
        refs.push(r);
    }
    assert_eq!(calls.get(), 1);
    for r in &refs {
        assert_eq!(*r, refs[0]);
    }
    // a change made through one handle is seen through another
    assert_eq!(sys.ask(refs[0], BookCommand::Rental { id: 3 }), Ok(Ok(BookEvent::Rental { id: 3 })));
    assert_eq!(sys.ask(refs[4], BookCommand::Rental { id: 3 }), Ok(Err(LoanError::AlreadyExist { id: 3 })));
}

#[test]
fn find_or_finds_spawned() {
    let mut sys: ActorSystem<Book, BookCommand> = ActorSystem::new();
    let spawned = sys.spawn(9, book(9)).unwrap();
    let found = sys.find_or(9, |_id| -> Book { unreachable!() });
    assert_eq!(spawned, found);
    assert_eq!(sys.tell(found, BookCommand::Archive), Ok(Ok(())));
}

#[test]
fn rental_return_sequence() {
    let mut sys: ActorSystem<Book, BookCommand> = ActorSystem::new();
    let r = sys.spawn(1, book(1)).unwrap();
    assert_eq!(sys.ask(r, BookCommand::Rental { id: 10 }), Ok(Ok(BookEvent::Rental { id: 10 })));
    assert_eq!(sys.ask(r, BookCommand::Rental { id: 10 }), Ok(Err(LoanError::AlreadyExist { id: 10 })));
    assert_eq!(sys.ask(r, BookCommand::Return { id: 10 }), Ok(Ok(BookEvent::Returned { id: 10 })));
    assert_eq!(sys.ask(r, BookCommand::Return { id: 11 }), Ok(Err(LoanError::NotFound { id: 11 })));
}

#[test]
fn repeated_loans_then_failures() {
    let mut sys: ActorSystem<Book, BookCommand> = ActorSystem::new();
    let r = sys.spawn(1, book(1)).unwrap();
    for p in 0..5u64 {
        assert_eq!(sys.ask(r, BookCommand::Rental { id: p }), Ok(Ok(BookEvent::Rental { id: p })));
        assert_eq!(sys.ask(r, BookCommand::Return { id: p }), Ok(Ok(BookEvent::Returned { id: p })));
    }
    let holder = 100u64;
    for k in 0..3u64 {
        assert_eq!(sys.ask(r, BookCommand::Return { id: 200 + k }), Ok(Err(LoanError::NotFound { id: 200 + k })));
        let expected = if k == 0 {
            Ok(Ok(BookEvent::Rental { id: holder }))
        } else {
            Ok(Err(LoanError::AlreadyExist { id: holder }))
        };
        assert_eq!(sys.ask(r, BookCommand::Rental { id: holder }), expected);
    }
    assert_eq!(sys.shutdown(1), Ok(()));
}

#[test]
fn tell_classifies_like_ask() {
    let mut sys: ActorSystem<Book, BookCommand> = ActorSystem::new();
    let r = sys.spawn(1, book(1)).unwrap();
    assert_eq!(sys.tell(r, BookCommand::Rental { id: 10 }), Ok(Ok(())));
    assert_eq!(sys.tell(r, BookCommand::Rental { id: 10 }), Ok(Err(LoanError::AlreadyExist { id: 10 })));
    assert_eq!(sys.tell(r, BookCommand::Return { id: 10 }), Ok(Ok(())));
    assert_eq!(sys.tell(r, BookCommand::Return { id: 11 }), Ok(Err(LoanError::NotFound { id: 11 })));
    assert_eq!(sys.tell(r, BookCommand::Archive), Ok(Ok(())));
    assert_eq!(sys.tell(r, BookCommand::Return { id: 11 }), Err(ActorError::MailboxClosed));
}

#[test]
fn archive_ends_actor() {
    let mut sys: ActorSystem<Book, BookCommand> = ActorSystem::new();
    let r = sys.spawn(1, book(1)).unwrap();
    assert_eq!(sys.ask(r, BookCommand::Archive), Ok(Ok(BookEvent::Archived)));
    assert_eq!(sys.ask(r, BookCommand::Rental { id: 1 }), Err(ActorError::MailboxClosed));
    assert_eq!(sys.tell(r, BookCommand::Rental { id: 1 }), Err(ActorError::MailboxClosed));
    assert_eq!(sys.terminate(r), Err(ActorError::MailboxClosed));
    // the ended actor no longer holds its id
    assert_eq!(sys.shutdown(1), Err(ActorError::NotFound));
    assert!(sys.spawn(1, book(1)).is_ok());
}

#[test]
fn shutdown_frees_id_and_drains() {
    let mut sys: ActorSystem<Book, BookCommand> = ActorSystem::new();
    let r = sys.spawn(4, book(4)).unwrap();
    let t1 = sys.post(r, BookCommand::Rental { id: 1 }).unwrap();
    let t2 = sys.post(r, BookCommand::Rental { id: 1 }).unwrap();
    assert_eq!(sys.shutdown(4), Ok(()));
    // no new calls once shutdown was asked
    assert_eq!(sys.post(r, BookCommand::Rental { id: 2 }), Err(ActorError::MailboxClosed));
    // letters queued before are handled in order
    assert_eq!(sys.collect(r, t1), Ok(Ok(BookEvent::Rental { id: 1 })));
    assert_eq!(sys.collect(r, t2), Ok(Err(LoanError::AlreadyExist { id: 1 })));
    assert_eq!(sys.ask(r, BookCommand::Return { id: 1 }), Err(ActorError::MailboxClosed));
    // the id can be used again
    let fresh = sys.find_or(4, |id| book(id));
    assert_ne!(fresh, r);
    assert_eq!(sys.ask(fresh, BookCommand::Return { id: 1 }), Ok(Err(LoanError::NotFound { id: 1 })));
    assert_eq!(sys.spawn(4, book(4)).unwrap_err(), ActorError::AlreadyExists);
}

#[test]
fn shutdown_unknown_id() {
    let mut sys: ActorSystem<Book, BookCommand> = ActorSystem::new();
    assert_eq!(sys.shutdown(77), Err(ActorError::NotFound));
}

#[test]
fn letters_behind_self_stop_are_closed() {
    let mut sys: ActorSystem<Book, BookCommand> = ActorSystem::new();
    let r = sys.spawn(1, book(1)).unwrap();
    let t1 = sys.post(r, BookCommand::Archive).unwrap();
    let t2 = sys.post(r, BookCommand::Rental { id: 1 }).unwrap();
    assert_eq!(sys.collect(r, t2), Err(ActorError::MailboxClosed));
    assert_eq!(sys.collect(r, t1), Ok(Ok(BookEvent::Archived)));
    // a reply is handed out once
    assert_eq!(sys.collect(r, t1), Err(ActorError::MailboxClosed));
}

#[test]
fn terminate_ends_like_archive() {
    let mut sys: ActorSystem<Book, BookCommand> = ActorSystem::new();
    let r = sys.spawn(1, book(1)).unwrap();
    assert_eq!(sys.ask(r, BookCommand::Rental { id: 1 }), Ok(Ok(BookEvent::Rental { id: 1 })));
    assert_eq!(sys.terminate(r), Ok(Ok(())));
    assert_eq!(sys.ask(r, BookCommand::Return { id: 1 }), Err(ActorError::MailboxClosed));
    assert_eq!(sys.terminate(r), Err(ActorError::MailboxClosed));
    assert!(sys.spawn(1, book(1)).is_ok());
}

#[test]
fn stale_handle_not_found() {
    let mut sys: ActorSystem<Book, BookCommand> = ActorSystem::new();
    let r = ActorRef { id: 3, slot: 0 };
    assert_eq!(sys.ask(r, BookCommand::Archive), Err(ActorError::NotFound));
    sys.spawn(5, book(5)).unwrap();
    assert_eq!(sys.ask(r, BookCommand::Archive), Err(ActorError::NotFound));
    assert_eq!(sys.collect(r, 0), Err(ActorError::NotFound));
    assert_eq!(sys.terminate(r), Err(ActorError::NotFound));
}

#[test]
fn flattened_calls() {
    let mut sys: ActorSystem<Book, BookCommand> = ActorSystem::new();
    let r = sys.spawn(1, book(1)).unwrap();
    assert_eq!(sys.ask_flat(r, BookCommand::Rental { id: 2 }), Ok(BookEvent::Rental { id: 2 }));
    assert_eq!(sys.ask_flat(r, BookCommand::Rental { id: 2 }), Err(LoanError::AlreadyExist { id: 2 }));
    assert_eq!(sys.tell_flat(r, BookCommand::Return { id: 2 }), Ok(()));
    assert_eq!(sys.tell_flat(r, BookCommand::Return { id: 2 }), Err(LoanError::NotFound { id: 2 }));
    assert_eq!(sys.tell_flat(r, BookCommand::Archive), Ok(()));
    assert_eq!(
        sys.ask_flat(r, BookCommand::Archive),
        Err(LoanError::Undelivered { cause: ActorError::MailboxClosed })
    );
}

#[test]
fn nested_trait_calls() {
    let mut sys: ActorSystem<Book, BookCommand> = ActorSystem::new();
    let r = sys.spawn(1, book(1)).unwrap();
    assert_eq!(
        RegularBehavior::ask(&mut sys, r, BookCommand::Rental { id: 6 }),
        Ok(Ok(BookEvent::Rental { id: 6 }))
    );
    assert_eq!(RegularBehavior::tell(&mut sys, r, BookCommand::Rental { id: 6 }), Ok(Err(LoanError::AlreadyExist { id: 6 })));
}

#[test]
fn flatten_maps_delivery_failure() {
    let o: Result<Result<u8, LoanError>, ActorError> = Err(ActorError::NotFound);
    assert_eq!(flatten(o), Err(LoanError::Undelivered { cause: ActorError::NotFound }));
    let o: Result<Result<u8, LoanError>, ActorError> = Ok(Ok(3));
    assert_eq!(flatten(o), Ok(3));
    let o: Result<Result<u8, LoanError>, ActorError> = Ok(Err(LoanError::NotFound { id: 1 }));
    assert_eq!(flatten(o), Err(LoanError::NotFound { id: 1 }));
}

#[test]
fn end_to_end_loan() {
    let mut sys: ActorSystem<Book, BookCommand> = ActorSystem::new();
    let b1 = sys.spawn(1, book(1)).unwrap();
    assert_eq!(sys.ask(b1, BookCommand::Rental { id: 1 }), Ok(Ok(BookEvent::Rental { id: 1 })));
    assert_eq!(sys.ask(b1, BookCommand::Rental { id: 1 }), Ok(Err(LoanError::AlreadyExist { id: 1 })));
    assert_eq!(sys.ask(b1, BookCommand::Return { id: 1 }), Ok(Ok(BookEvent::Returned { id: 1 })));
    assert_eq!(sys.ask(b1, BookCommand::Archive), Ok(Ok(BookEvent::Archived)));
    assert_eq!(sys.ask(b1, BookCommand::Rental { id: 2 }), Err(ActorError::MailboxClosed));
}

#[test]
fn context_flag() {
    let mut ctx = Context::new();
    assert!(!ctx.is_shutdown());
    ctx.shutdown();
    assert!(ctx.is_shutdown());
}

#[test]
fn mailbox_fifo() {
    let mut mb: Mailbox<u8> = Mailbox::new();
    assert!(mb.pop().is_none());
    mb.push(Envelope { ticket: 0, letter: Letter::Deliver(1) });
    mb.push(Envelope { ticket: 1, letter: Letter::Halt });
    assert_eq!(mb.len(), 2);
    let first = mb.pop().unwrap();
    assert_eq!(first.ticket, 0);
    assert!(matches!(first.letter, Letter::Deliver(1)));
    let second = mb.pop().unwrap();
    assert!(matches!(second.letter, Letter::Halt));
    assert_eq!(mb.len(), 0);
}
