//! The in-memory repository: the two listings, each behind a reader/writer
//! lock of its own, shared by every handle to the store.
//!
//! Every operation takes one lock once, reads or changes the listing under
//! it, and lets the lock go when it returns. Between two operations another
//! handle may change the listings, so an operation's contract speaks of that
//! one call: what it returns is exactly what the listing's own operation
//! gives on the listing that it found under the lock.

use vstd::prelude::*;
use std::sync::Arc;
use parking_lot::{RawRwLock, RwLock, RwLockReadGuard, RwLockWriteGuard};
use crate::handle_errors::CustomError;
use crate::tables::answers::{distinct_answer_ids, AnswerTable};
use crate::tables::questions::{distinct_ids, law_window_is_a_page, QuestionTable};
use crate::types::answer::Answer;
use crate::types::pagination::Pagination;
use crate::types::question::{Question, QuestionID};

verus! {

/// `parking_lot::RawRwLock`, the lock word inside a `parking_lot::RwLock`.
/// Nothing is claimed of it.
#[verifier::external_type_specification]
#[verifier::external_body]
pub struct ExRawRwLock(RawRwLock);

/// `lock_api::RwLock`, of which `parking_lot::RwLock<T>` is the instance
/// with `parking_lot::RawRwLock`. Nothing is claimed of it: what it guards
/// is reached through the two kinds of access below.
#[verifier::external_type_specification]
#[verifier::external_body]
#[verifier::reject_recursive_types(R)]
#[verifier::reject_recursive_types(T)]
pub struct ExRwLock<R, T: ?Sized>(parking_lot::lock_api::RwLock<R, T>);

/// Shared access to what a lock guards. It holds the
/// `lock_api::RwLockReadGuard` that `RwLock::read` returns, a type that is
/// declared with a bound by a trait of `lock_api` and so cannot be declared
/// here; the lock is let go when this value is dropped.
#[verifier::external_body]
#[verifier::reject_recursive_types(T)]
struct ReadAccess<'a, T> {
    guard: RwLockReadGuard<'a, T>,
}

/// Exclusive access to what a lock guards. It holds the
/// `lock_api::RwLockWriteGuard` that `RwLock::write` returns, a type that is
/// declared with a bound by a trait of `lock_api` and so cannot be declared
/// here; the lock is let go when this value is dropped.
#[verifier::external_body]
#[verifier::reject_recursive_types(T)]
struct WriteAccess<'a, T> {
    guard: RwLockWriteGuard<'a, T>,
}

/// `RwLock::new`: an unlocked lock that guards `value`.
#[verifier::external_body]
fn guarded<T>(value: T) -> RwLock<T> {
    RwLock::new(value)
}

/// `RwLock::read`: waits until no writer holds the lock, then returns
/// shared access. Nothing is claimed of what is found under the lock. A
/// thread that already holds access to the same lock may wait for ever, so
/// no function of this module asks for access while it holds one.
#[verifier::external_body]
fn read<'a, T>(lock: &'a RwLock<T>) -> ReadAccess<'a, T> {
    ReadAccess { guard: lock.read() }
}

/// `RwLock::write`: waits until no reader and no other writer holds the
/// lock, then returns exclusive access. Nothing is claimed of what is found
/// under the lock. A thread that already holds access to the same lock
/// waits for ever, so no function of this module asks for access while it
/// holds one.
#[verifier::external_body]
fn write<'a, T>(lock: &'a RwLock<T>) -> WriteAccess<'a, T> {
    WriteAccess { guard: lock.write() }
}

/// The read guard's `Deref::deref`: the value under the lock. Nothing is
/// claimed of it beyond its type.
#[verifier::external_body]
fn shared<'a, 'b, T>(access: &'b ReadAccess<'a, T>) -> &'b T {
    &*access.guard
}

/// The write guard's `DerefMut::deref_mut`: the value under the lock, to
/// be changed in place. Nothing is claimed of it beyond its type.
#[verifier::external_body]
fn exclusive<'a, 'b, T>(access: &'b mut WriteAccess<'a, T>) -> &'b mut T {
    &mut *access.guard
}

/// A handle to the store. Clones of a handle share the same listings.
pub struct Store {
    questions: Arc<RwLock<QuestionTable>>,
    answers: Arc<RwLock<AnswerTable>>,
}

impl Clone for Store {
    /// A second handle to the same store.
    fn clone(&self) -> Store {
        Store { questions: self.questions.clone(), answers: self.answers.clone() }
    }
}

impl Store {
    /// A store that holds the questions of `seed`, stored one by one, and
    /// no answers.
    pub fn new(seed: Vec<Question>) -> Store {
        Store {
            questions: Arc::new(guarded(QuestionTable::from_questions(seed))),
            answers: Arc::new(guarded(AnswerTable::new())),
        }
    }

    /// The questions that are left when the first `offset` are skipped and
    /// then at most `limit` are taken; without a limit, all that follow.
    /// Nothing is refused: where the listing ends early, so does what is
    /// returned.
    pub fn get_all_questions(&self, offset: usize, limit: Option<usize>) -> (list: Vec<Question>)
        ensures
            distinct_ids(list.deep_view()),
            limit matches Some(count) ==> list.len() <= count,
    {
        let access = read(&self.questions);
        let table = shared(&access);
        let list = table.window(offset, limit);
        proof {
            if let Some(count) = limit {
                law_window_is_a_page(table@, offset as int, count as int);
            }
        }
        list
    }

    /// The questions from position `range.start` up to position
    /// `range.end`. A range that is out of order is refused whatever the
    /// store holds, and the empty range at the head is served whatever it
    /// holds; a range that reaches beyond the listing as it is found is
    /// refused, never cut short.
    pub fn get_questions_between(&self, range: Pagination) -> (got: Result<
        Vec<Question>,
        CustomError,
    >)
        ensures
            range.start > range.end ==> got is Err,
            range.start == 0 && range.end == 0 ==> got is Ok,
            match got {
                Ok(list) => distinct_ids(list.deep_view()) && range.start <= range.end
                    && list.len() == range.end - range.start,
                Err(error) => error == CustomError::OutOfBound,
            },
    {
        let access = read(&self.questions);
        let table = shared(&access);
        table.slice(range.start, range.end)
    }

    /// The question with the identifier `id`, as it is found.
    pub fn get_a_question(&self, id: &QuestionID) -> (got: Result<Question, CustomError>)
        ensures
            match got {
                Ok(question) => question@.id == id@,
                Err(error) => error == CustomError::QuestionNotFound,
            },
    {
        let access = read(&self.questions);
        let table = shared(&access);
        table.get(id)
    }

    /// Stores `question` under its identifier, in the place of the question
    /// that had it or else at the end, and returns it as it is stored.
    pub fn add_question(&self, question: Question) -> (kept: Question)
        ensures
            kept@ == question@,
    {
        let copy = question.clone();
        let mut access = write(&self.questions);
        let table = exclusive(&mut access);
        table.insert(question);
        copy
    }

    /// Replaces the title, the content and the tags of the question with
    /// the identifier `id` by those of `question`, and returns the question
    /// as it is then stored. Where no such question is found nothing is
    /// changed.
    pub fn update_question(&self, question: Question, id: &QuestionID) -> (got: Result<
        Question,
        CustomError,
    >)
        ensures
            match got {
                Ok(kept) => kept@.id == id@ && kept@.title == question@.title && kept@.content
                    == question@.content && kept@.tags == question@.tags,
                Err(error) => error == CustomError::QuestionNotFound,
            },
    {
        let mut access = write(&self.questions);
        let table = exclusive(&mut access);
        table.update(id, question)
    }

    /// Takes out the question with the identifier `id`. Its answers stay.
    pub fn delete_question(&self, id: &QuestionID) -> (got: Result<(), CustomError>)
        ensures
            got matches Err(error) ==> error == CustomError::QuestionNotFound,
    {
        let mut access = write(&self.questions);
        let table = exclusive(&mut access);
        table.remove(id)
    }

    /// Stores `answer` under its identifier. The question that it names is
    /// not looked up: an answer to a question that the store does not hold
    /// is stored all the same.
    pub fn add_answer(&self, answer: Answer) {
        let mut access = write(&self.answers);
        let table = exclusive(&mut access);
        table.insert(answer);
    }

    /// Every answer, in the order in which they were first stored.
    pub fn answers(&self) -> (list: Vec<Answer>)
        ensures
            distinct_answer_ids(list.deep_view()),
    {
        let access = read(&self.answers);
        let table = shared(&access);
        table.all()
    }
}

} // verus!
