//! The handler for answers.

use vstd::prelude::*;
use crate::handle_errors::CustomError;
use crate::reply::{text_reply, Reply, CREATED};
use crate::stores::Store;
use crate::types::answer::Answer;

verus! {

/// Stores an answer and confirms it. The question that the answer names is
/// not looked up, so this never fails.
pub fn add_answer(store: Store, answer: Answer) -> (got: Result<Reply, CustomError>)
    ensures
        got is Ok,
        got->Ok_0@ == text_reply(CREATED, "Answer added"@),
{
    store.add_answer(answer);
    Ok(Reply::text(CREATED, "Answer added".to_string()))
}

} // verus!
