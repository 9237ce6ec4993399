//! The listing of answers: an ordered collection in which no identifier
//! occurs twice.

use vstd::prelude::*;
use crate::types::answer::{Answer, AnswerView};

verus! {

/// Whether an answer with the identifier `id` is in the listing.
pub open spec fn holds_answer(list: Seq<AnswerView>, id: Seq<char>) -> bool {
    exists|i: int| 0 <= i < list.len() && (#[trigger] list[i]).id == id
}

/// A position of the answer with the identifier `id`, if the listing holds
/// one.
pub open spec fn answer_position(list: Seq<AnswerView>, id: Seq<char>) -> int {
    choose|i: int| 0 <= i < list.len() && (#[trigger] list[i]).id == id
}

/// Whether no identifier occurs twice in the listing.
pub open spec fn distinct_answer_ids(list: Seq<AnswerView>) -> bool {
    forall|i: int, j: int|
        0 <= i < j < list.len() ==> (#[trigger] list[i]).id != (#[trigger] list[j]).id
}

/// The listing after `answer` was stored: in the place of the answer that
/// had its identifier, or else at the end.
pub open spec fn answer_stored(list: Seq<AnswerView>, answer: AnswerView) -> Seq<AnswerView> {
    if holds_answer(list, answer.id) {
        list.update(answer_position(list, answer.id), answer)
    } else {
        list.push(answer)
    }
}

/// Storing an answer keeps the identifiers distinct.
pub proof fn lemma_answer_stored_keeps_distinct(list: Seq<AnswerView>, answer: AnswerView)
    requires
        distinct_answer_ids(list),
    ensures
        distinct_answer_ids(answer_stored(list, answer)),
{
    let after = answer_stored(list, answer);
    if holds_answer(list, answer.id) {
        assert forall|i: int, j: int| 0 <= i < j < after.len() implies (#[trigger] after[i]).id != (
        #[trigger] after[j]).id by {
            assert(after[i].id == list[i].id);
            assert(after[j].id == list[j].id);
        }
    } else {
        assert forall|i: int, j: int| 0 <= i < j < after.len() implies (#[trigger] after[i]).id != (
        #[trigger] after[j]).id by {
            if j < list.len() {
                assert(after[i] == list[i] && after[j] == list[j]);
            } else {
                assert(after[i] == list[i]);
            }
        }
    }
}

/// An answer that was stored stands in the listing, as it was stored, and
/// the listing has grown by at most that one answer.
pub proof fn law_answer_stored_is_held(list: Seq<AnswerView>, answer: AnswerView)
    requires
        distinct_answer_ids(list),
    ensures
        holds_answer(answer_stored(list, answer), answer.id),
        answer_stored(list, answer)[answer_position(answer_stored(list, answer), answer.id)]
            == answer,
        list.len() <= answer_stored(list, answer).len() <= list.len() + 1,
{
    let after = answer_stored(list, answer);
    lemma_answer_stored_keeps_distinct(list, answer);
    let p = if holds_answer(list, answer.id) {
        answer_position(list, answer.id)
    } else {
        list.len() as int
    };
    assert(after[p] == answer);
    let q = answer_position(after, answer.id);
    if q < p {
        assert(after[q].id != after[p].id);
    } else if p < q {
        assert(after[p].id != after[q].id);
    }
}

/// An answer under an identifier that the listing does not hold is put at
/// the end: every answer that was there stays where it was, and the listing
/// grows by that one.
pub proof fn law_new_answer_is_appended(list: Seq<AnswerView>, answer: AnswerView)
    requires
        !holds_answer(list, answer.id),
    ensures
        answer_stored(list, answer) == list.push(answer),
        answer_stored(list, answer).len() == list.len() + 1,
        forall|i: int| 0 <= i < list.len() ==> (#[trigger] answer_stored(list, answer)[i]) == list[i],
{
}

/// The answers of the catalogue, in the order in which they were first
/// stored.
pub struct AnswerTable {
    entries: Vec<Answer>,
}

impl View for AnswerTable {
    type V = Seq<AnswerView>;

    closed spec fn view(&self) -> Seq<AnswerView> {
        self.entries.deep_view()
    }
}

impl AnswerTable {
    #[verifier::type_invariant]
    spec fn well_formed(self) -> bool {
        distinct_answer_ids(self.entries.deep_view())
    }

    /// An empty listing.
    pub fn new() -> (table: AnswerTable)
        ensures
            table@ == Seq::<AnswerView>::empty(),
    {
        let entries: Vec<Answer> = Vec::new();
        assert(entries.deep_view() =~= Seq::<AnswerView>::empty());
        AnswerTable { entries }
    }

    /// Every answer, in the order of the listing.
    pub fn all(&self) -> (list: Vec<Answer>)
        ensures
            list.deep_view() == self@,
            distinct_answer_ids(list.deep_view()),
    {
        proof {
            use_type_invariant(self);
        }
        let mut list: Vec<Answer> = Vec::new();
        let mut i: usize = 0;
        while i < self.entries.len()
            invariant
                i <= self.entries.len(),
                list.len() == i,
                forall|k: int| 0 <= k < i ==> (#[trigger] list[k])@ == self@[k],
            decreases self.entries.len() - i,
        {
            list.push(self.entries[i].clone());
            i += 1;
        }
        assert(list.deep_view() =~= self@);
        list
    }

    /// Stores `answer`: in the place of the answer that has its identifier,
    /// or else at the end. The question that it names is not looked up.
    pub fn insert(&mut self, answer: Answer)
        ensures
            final(self)@ == answer_stored(old(self)@, answer@),
    {
        proof {
            use_type_invariant(&*self);
        }
        let ghost before = self@;
        let mut at: Option<usize> = None;
        let mut i: usize = 0;
        while i < self.entries.len() && at.is_none()
            invariant
                i <= self.entries.len(),
                before == self@,
                distinct_answer_ids(before),
                at is None ==> forall|k: int| 0 <= k < i ==> (#[trigger] before[k]).id != answer.id@,
                at matches Some(p) ==> p < before.len() && before[p as int].id == answer.id@,
            decreases self.entries.len() - i + (if at is None { 1int } else { 0int }),
        {
            if self.entries[i].id == answer.id {
                at = Some(i);
            } else {
                i += 1;
            }
        }
        let mut entries: Vec<Answer> = Vec::new();
        proof {
            lemma_answer_stored_keeps_distinct(before, answer@);
            assert(entries.deep_view() =~= Seq::<AnswerView>::empty());
        }
        std::mem::swap(&mut entries, &mut self.entries);
        match at {
            Some(p) => {
                proof {
                    let q = answer_position(before, answer.id@);
                    if q < p {
                        assert(before[q].id != before[p as int].id);
                    } else if p < q {
                        assert(before[p as int].id != before[q].id);
                    }
                }
                entries[p] = answer;
                assert(entries.deep_view() =~= before.update(p as int, answer@));
            },
            None => {
                entries.push(answer);
                assert(entries.deep_view() =~= before.push(answer@));
            },
        }
        self.entries = entries;
    }
}

} // verus!
