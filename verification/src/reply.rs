//! What a handler hands back for the transport to send.

use vstd::prelude::*;
use crate::types::question::{Question, QuestionView};

verus! {

/// The status of a request that was carried out.
pub const OK: u16 = 200;

/// The status of a request that created a record.
pub const CREATED: u16 = 201;

/// The status of a request from an origin that is not allowed.
pub const FORBIDDEN: u16 = 403;

/// The status of a request that no route matches.
pub const NOT_FOUND: u16 = 404;

/// The status of every request that the catalogue itself refuses.
pub const UNPROCESSABLE_ENTITY: u16 = 422;

/// The payload of a reply, before it is put on the wire.
#[derive(Debug)]
pub enum Body {
    /// Plain text.
    Text(String),
    /// One question, to be sent as a JSON object.
    Question(Question),
    /// A listing, to be sent as a JSON array.
    Questions(Vec<Question>),
}

/// A payload as contracts see it.
pub enum BodyView {
    Text(Seq<char>),
    Question(QuestionView),
    Questions(Seq<QuestionView>),
}

impl View for Body {
    type V = BodyView;

    open spec fn view(&self) -> BodyView {
        match self {
            Body::Text(text) => BodyView::Text(text@),
            Body::Question(question) => BodyView::Question(question@),
            Body::Questions(list) => BodyView::Questions(list.deep_view()),
        }
    }
}

/// A status code with a payload.
#[derive(Debug)]
pub struct Reply {
    /// The HTTP status code.
    pub status: u16,
    /// The payload.
    pub body: Body,
}

/// A reply as contracts see it.
pub struct ReplyView {
    pub status: u16,
    pub body: BodyView,
}

impl View for Reply {
    type V = ReplyView;

    open spec fn view(&self) -> ReplyView {
        ReplyView { status: self.status, body: self.body@ }
    }
}

/// The reply that carries `text` under `status`.
pub open spec fn text_reply(status: u16, text: Seq<char>) -> ReplyView {
    ReplyView { status, body: BodyView::Text(text) }
}

/// The reply that carries one question under `status`.
pub open spec fn question_reply(status: u16, question: QuestionView) -> ReplyView {
    ReplyView { status, body: BodyView::Question(question) }
}

/// The reply that carries a listing under `status`.
pub open spec fn listing_reply(status: u16, list: Seq<QuestionView>) -> ReplyView {
    ReplyView { status, body: BodyView::Questions(list) }
}

impl Reply {
    /// A reply of plain text.
    pub fn text(status: u16, text: String) -> (reply: Reply)
        ensures
            reply@ == text_reply(status, text@),
    {
        Reply { status, body: Body::Text(text) }
    }

    /// A reply that carries one question.
    pub fn question(status: u16, question: Question) -> (reply: Reply)
        ensures
            reply@ == question_reply(status, question@),
    {
        Reply { status, body: Body::Question(question) }
    }

    /// A reply that carries a listing.
    pub fn questions(status: u16, list: Vec<Question>) -> (reply: Reply)
        ensures
            reply@ == listing_reply(status, list.deep_view()),
    {
        Reply { status, body: Body::Questions(list) }
    }
}

} // verus!
