//! The handlers for questions.

use vstd::prelude::*;
use vstd::hash_map::StringHashMap;
use vstd::string::StringExecFns;
use crate::handle_errors::CustomError;
use crate::reply::{text_reply, Reply, CREATED, OK};
use crate::stores::Store;
use crate::tables::questions::distinct_ids;
use crate::types::pagination::{
    extract_pagination, extract_window, names_range, pagination_of, window_request_of,
    Pagination,
};
use crate::types::question::{Question, QuestionID};

verus! {

/// The text that confirms that the question `id` was deleted.
pub open spec fn deleted_text(id: Seq<char>) -> Seq<char> {
    "Question "@ + id + " deleted"@
}

/// Lists the questions. A request without parameters gets the whole
/// listing. A request that names `start` or `end` must name both, and gets
/// that part of the listing, or is refused where the listing does not reach
/// that far. Any other request must name `offset` and `limit`, and gets what
/// is left of the listing when `offset` questions are skipped and at most
/// `limit` are taken, which never fails.
pub fn get_questions(params: StringHashMap<String>, store: Store) -> (got: Result<
    Reply,
    CustomError,
>)
    ensures
        params@.is_empty() ==> got is Ok,
        pagination_of(params@) == Ok::<Pagination, CustomError>(Pagination { start: 0, end: 0 })
            ==> got is Ok,
        !params@.is_empty() && names_range(params@) ==> match pagination_of(params@) {
            Err(error) => got == Err::<Reply, CustomError>(error),
            Ok(range) => (range.start > range.end ==> got is Err) && (range.start == 0
                && range.end == 0 ==> got is Ok) && (got matches Err(error) ==> error
                == CustomError::OutOfBound) && (got matches Ok(reply)
                ==> reply@.body->Questions_0.len() == range.end - range.start),
        },
        !params@.is_empty() && !names_range(params@) ==> match window_request_of(params@) {
            Err(error) => got == Err::<Reply, CustomError>(error),
            Ok(window) => got is Ok && got->Ok_0@.body->Questions_0.len() <= window.limit,
        },
        got matches Ok(reply) ==> reply.status == OK && reply@.body is Questions && distinct_ids(
            reply@.body->Questions_0,
        ),
{
    if params.is_empty() {
        return Ok(Reply::questions(OK, store.get_all_questions(0, None)));
    }
    if params.contains_key("start") || params.contains_key("end") {
        let range = match extract_pagination(params) {
            Ok(range) => range,
            Err(error) => {
                return Err(error);
            },
        };
        match store.get_questions_between(range) {
            Ok(list) => Ok(Reply::questions(OK, list)),
            Err(error) => Err(error),
        }
    } else {
        let window = match extract_window(params) {
            Ok(window) => window,
            Err(error) => {
                return Err(error);
            },
        };
        Ok(Reply::questions(OK, store.get_all_questions(window.offset, Some(window.limit))))
    }
}

/// Returns the question that is stored under `id`. No question is stored
/// under the empty token.
pub fn get_one_question(id: String, store: Store) -> (got: Result<Reply, CustomError>)
    ensures
        id@.len() == 0 ==> got is Err,
        match got {
            Ok(reply) => reply.status == OK && reply@.body is Question
                && reply@.body->Question_0.id == id@,
            Err(error) => error == CustomError::QuestionNotFound,
        },
{
    match QuestionID::from_str(id.as_str()) {
        Ok(key) => match store.get_a_question(&key) {
            Ok(question) => Ok(Reply::question(OK, question)),
            Err(error) => Err(error),
        },
        Err(_) => Err(CustomError::QuestionNotFound),
    }
}

/// Stores a question and confirms it. A question that is already stored
/// under the same identifier is replaced, so this never fails.
pub fn add_question(store: Store, question: Question) -> (got: Result<Reply, CustomError>)
    ensures
        got is Ok,
        got->Ok_0@ == text_reply(CREATED, "Question successfully added"@),
{
    let _ = store.add_question(question);
    Ok(Reply::text(CREATED, "Question successfully added".to_string()))
}

/// Replaces the title, the content and the tags of the question that is
/// stored under `id` by those of `question`, and returns the question as
/// it is then stored. The identifier that `question` carries is not used.
pub fn update_question(id: String, store: Store, question: Question) -> (got: Result<
    Reply,
    CustomError,
>)
    ensures
        id@.len() == 0 ==> got is Err,
        match got {
            Ok(reply) => reply.status == OK && reply@.body is Question && ({
                let kept = reply@.body->Question_0;
                kept.id == id@ && kept.title == question@.title && kept.content
                    == question@.content && kept.tags == question@.tags
            }),
            Err(error) => error == CustomError::QuestionNotFound,
        },
{
    match QuestionID::from_str(id.as_str()) {
        Ok(key) => match store.update_question(question, &key) {
            Ok(kept) => Ok(Reply::question(OK, kept)),
            Err(error) => Err(error),
        },
        Err(_) => Err(CustomError::QuestionNotFound),
    }
}

/// Deletes the question that is stored under `id` and confirms it.
pub fn delete_question(id: String, store: Store) -> (got: Result<Reply, CustomError>)
    ensures
        id@.len() == 0 ==> got is Err,
        match got {
            Ok(reply) => reply@ == text_reply(OK, deleted_text(id@)),
            Err(error) => error == CustomError::QuestionNotFound,
        },
{
    match QuestionID::from_str(id.as_str()) {
        Ok(key) => match store.delete_question(&key) {
            Ok(_) => {
                let text = "Question ".to_string().concat(id.as_str()).concat(" deleted");
                Ok(Reply::text(OK, text))
            },
            Err(error) => Err(error),
        },
        Err(_) => Err(CustomError::QuestionNotFound),
    }
}

} // verus!
