//! Answers to questions.

use vstd::prelude::*;
use crate::types::question::QuestionID;

verus! {

/// An answer as contracts see it.
pub struct AnswerView {
    pub id: Seq<char>,
    pub content: Seq<char>,
    pub question_id: Seq<char>,
}

/// An answer to a question. Nothing checks that the question it names
/// exists, or still exists.
#[derive(Debug)]
pub struct Answer {
    /// The identifier under which the answer is stored.
    pub id: String,
    /// The text of the answer.
    pub content: String,
    /// The identifier of the question that is answered.
    pub question_id: QuestionID,
}

impl View for Answer {
    type V = AnswerView;

    open spec fn view(&self) -> AnswerView {
        AnswerView { id: self.id@, content: self.content@, question_id: self.question_id@ }
    }
}

impl DeepView for Answer {
    type V = AnswerView;

    open spec fn deep_view(&self) -> AnswerView {
        self@
    }
}

impl PartialEq for Answer {
    fn eq(&self, other: &Answer) -> (same: bool) {
        self.id == other.id && self.content == other.content && self.question_id
            == other.question_id
    }
}

impl vstd::std_specs::cmp::PartialEqSpecImpl for Answer {
    open spec fn obeys_eq_spec() -> bool {
        true
    }

    open spec fn eq_spec(&self, other: &Answer) -> bool {
        self@ == other@
    }
}

impl Clone for Answer {
    fn clone(&self) -> (twin: Answer)
        ensures
            twin@ == self@,
    {
        Answer {
            id: self.id.clone(),
            content: self.content.clone(),
            question_id: self.question_id.clone(),
        }
    }
}

} // verus!
