//! Questions and their identifiers.

use vstd::prelude::*;

verus! {

/// Why an identifier could not be built.
#[derive(Debug, Clone, Copy, PartialEq, Eq, Structural)]
pub enum IdError {
    /// The token was empty.
    NoIdProvided,
}

impl IdError {
    /// The text shown for this error.
    pub open spec fn message(self) -> Seq<char> {
        "No id provided"@
    }

    /// Renders the error as text.
    pub fn to_string(&self) -> (text: String)
        ensures
            text@ == self.message(),
    {
        "No id provided".to_string()
    }
}

/// The identifier of a question: a non-empty token chosen by the client.
#[derive(Debug)]
pub struct QuestionID(String);

impl View for QuestionID {
    type V = Seq<char>;

    closed spec fn view(&self) -> Seq<char> {
        self.0@
    }
}

impl DeepView for QuestionID {
    type V = Seq<char>;

    open spec fn deep_view(&self) -> Seq<char> {
        self@
    }
}

impl QuestionID {
    #[verifier::type_invariant]
    spec fn never_empty(self) -> bool {
        self.0@.len() > 0
    }

    /// Builds an identifier from a token; the empty token is refused.
    pub fn from_str(id: &str) -> (made: Result<QuestionID, IdError>)
        ensures
            id@.len() > 0 ==> made is Ok && made->Ok_0@ == id@,
            id@.len() == 0 ==> made == Err::<QuestionID, IdError>(IdError::NoIdProvided),
    {
        if id.is_empty() {
            Err(IdError::NoIdProvided)
        } else {
            Ok(QuestionID(id.to_string()))
        }
    }

    /// The token itself.
    pub fn as_str(&self) -> (token: &str)
        ensures
            token@ == self@,
            token@.len() > 0,
    {
        proof {
            use_type_invariant(self);
        }
        self.0.as_str()
    }
}

impl Clone for QuestionID {
    fn clone(&self) -> (twin: QuestionID)
        ensures
            twin@ == self@,
    {
        proof {
            use_type_invariant(self);
        }
        QuestionID(self.0.clone())
    }
}

impl PartialEq for QuestionID {
    fn eq(&self, other: &QuestionID) -> (same: bool) {
        self.0 == other.0
    }
}

impl vstd::std_specs::cmp::PartialEqSpecImpl for QuestionID {
    open spec fn obeys_eq_spec() -> bool {
        true
    }

    open spec fn eq_spec(&self, other: &QuestionID) -> bool {
        self@ == other@
    }
}

impl Eq for QuestionID {}

/// A question as contracts see it.
pub struct QuestionView {
    pub id: Seq<char>,
    pub title: Seq<char>,
    pub content: Seq<char>,
    pub tags: Option<Seq<Seq<char>>>,
}

/// A question that was asked.
#[derive(Debug)]
pub struct Question {
    /// The identifier under which the question is stored.
    pub id: QuestionID,
    /// The title of the question.
    pub title: String,
    /// The body of the question.
    pub content: String,
    /// Labels for filtering; `None` is not the same as an empty list.
    pub tags: Option<Vec<String>>,
}

impl View for Question {
    type V = QuestionView;

    open spec fn view(&self) -> QuestionView {
        QuestionView {
            id: self.id@,
            title: self.title@,
            content: self.content@,
            tags: self.tags.deep_view(),
        }
    }
}

impl DeepView for Question {
    type V = QuestionView;

    open spec fn deep_view(&self) -> QuestionView {
        self@
    }
}

/// Copies a list of labels.
pub fn copy_tags(tags: &Option<Vec<String>>) -> (copy: Option<Vec<String>>)
    ensures
        copy.deep_view() == tags.deep_view(),
{
    match tags {
        None => None,
        Some(list) => {
            let mut out: Vec<String> = Vec::new();
            let mut i: usize = 0;
            while i < list.len()
                invariant
                    i <= list.len(),
                    out.len() == i,
                    forall|k: int| 0 <= k < i ==> out[k]@ == list[k]@,
                decreases list.len() - i,
            {
                out.push(list[i].clone());
                i += 1;
            }
            assert(out.deep_view() =~= list.deep_view());
            Some(out)
        },
    }
}

/// Whether two lists of labels hold the same labels in the same order.
pub fn same_tags(left: &Option<Vec<String>>, right: &Option<Vec<String>>) -> (same: bool)
    ensures
        same == (left.deep_view() == right.deep_view()),
{
    match (left, right) {
        (None, None) => true,
        (Some(a), Some(b)) => {
            if a.len() != b.len() {
                assert(a.deep_view().len() != b.deep_view().len());
                return false;
            }
            let mut i: usize = 0;
            while i < a.len()
                invariant
                    i <= a.len(),
                    a.len() == b.len(),
                    left.deep_view() == Some(a.deep_view()),
                    right.deep_view() == Some(b.deep_view()),
                    forall|k: int| 0 <= k < i ==> a[k]@ == b[k]@,
                decreases a.len() - i,
            {
                if !(a[i] == b[i]) {
                    assert(a.deep_view()[i as int] == a[i as int]@);
                    assert(b.deep_view()[i as int] == b[i as int]@);
                    return false;
                }
                i += 1;
            }
            assert(a.deep_view() =~= b.deep_view());
            true
        },
        _ => false,
    }
}

impl PartialEq for Question {
    fn eq(&self, other: &Question) -> (same: bool) {
        self.id == other.id && self.title == other.title && self.content == other.content
            && same_tags(&self.tags, &other.tags)
    }
}

impl vstd::std_specs::cmp::PartialEqSpecImpl for Question {
    open spec fn obeys_eq_spec() -> bool {
        true
    }

    open spec fn eq_spec(&self, other: &Question) -> bool {
        self@ == other@
    }
}

impl Clone for Question {
    fn clone(&self) -> (twin: Question)
        ensures
            twin@ == self@,
    {
        Question {
            id: self.id.clone(),
            title: self.title.clone(),
            content: self.content.clone(),
            tags: copy_tags(&self.tags),
        }
    }
}

/// What a client sends to create a question: every field but the identifier.
#[derive(Debug)]
pub struct NewQuestion {
    /// The title of the question.
    pub title: String,
    /// The body of the question.
    pub content: String,
    /// Labels for filtering.
    pub tags: Option<Vec<String>>,
}

impl Clone for NewQuestion {
    fn clone(&self) -> (twin: NewQuestion)
        ensures
            twin.title@ == self.title@,
            twin.content@ == self.content@,
            twin.tags.deep_view() == self.tags.deep_view(),
    {
        NewQuestion {
            title: self.title.clone(),
            content: self.content.clone(),
            tags: copy_tags(&self.tags),
        }
    }
}

impl NewQuestion {
    /// The question that this payload becomes under the identifier `id`.
    pub fn with_id(self, id: QuestionID) -> (question: Question)
        ensures
            question@ == (QuestionView {
                id: id@,
                title: self.title@,
                content: self.content@,
                tags: self.tags.deep_view(),
            }),
    {
        Question { id, title: self.title, content: self.content, tags: self.tags }
    }
}

} // verus!
