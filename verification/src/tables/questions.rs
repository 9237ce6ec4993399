//! The listing of questions: an ordered collection in which no identifier
//! occurs twice and what came first stays first.

use vstd::prelude::*;
use crate::handle_errors::CustomError;
use crate::types::question::{Question, QuestionID, QuestionView};

verus! {

/// Whether a question with the identifier `id` is in the listing.
pub open spec fn holds(list: Seq<QuestionView>, id: Seq<char>) -> bool {
    exists|i: int| 0 <= i < list.len() && (#[trigger] list[i]).id == id
}

/// A position of the question with the identifier `id`, if the listing
/// holds one.
pub open spec fn position(list: Seq<QuestionView>, id: Seq<char>) -> int {
    choose|i: int| 0 <= i < list.len() && (#[trigger] list[i]).id == id
}

/// Whether no identifier occurs twice in the listing.
pub open spec fn distinct_ids(list: Seq<QuestionView>) -> bool {
    forall|i: int, j: int|
        0 <= i < j < list.len() ==> (#[trigger] list[i]).id != (#[trigger] list[j]).id
}

/// The question with the identifier `id`, if the listing holds one.
pub open spec fn found(list: Seq<QuestionView>, id: Seq<char>) -> Option<QuestionView> {
    if holds(list, id) {
        Some(list[position(list, id)])
    } else {
        None
    }
}

/// The listing after `question` was stored: in the place of the question
/// that had its identifier, or else at the end.
pub open spec fn stored(list: Seq<QuestionView>, question: QuestionView) -> Seq<QuestionView> {
    if holds(list, question.id) {
        list.update(position(list, question.id), question)
    } else {
        list.push(question)
    }
}

/// A stored question after an update: it keeps its identifier and takes
/// every other field from the replacement.
pub open spec fn revised(before: QuestionView, replacement: QuestionView) -> QuestionView {
    QuestionView {
        id: before.id,
        title: replacement.title,
        content: replacement.content,
        tags: replacement.tags,
    }
}

/// The listing after the question with the identifier `id` was updated.
/// A listing that holds no such question stays as it is.
pub open spec fn updated(
    list: Seq<QuestionView>,
    id: Seq<char>,
    replacement: QuestionView,
) -> Seq<QuestionView> {
    if holds(list, id) {
        list.update(position(list, id), revised(list[position(list, id)], replacement))
    } else {
        list
    }
}

/// The listing after the question with the identifier `id` was taken out.
/// A listing that holds no such question stays as it is.
pub open spec fn removed(list: Seq<QuestionView>, id: Seq<char>) -> Seq<QuestionView> {
    if holds(list, id) {
        list.remove(position(list, id))
    } else {
        list
    }
}

/// The part of the listing from `start` up to `end`, where the listing
/// reaches that far.
pub open spec fn page(list: Seq<QuestionView>, start: int, end: int) -> Option<Seq<QuestionView>> {
    if 0 <= start <= end <= list.len() {
        Some(list.subrange(start, end))
    } else {
        None
    }
}

/// The part of the listing that is left when the first `offset` questions
/// are skipped and then at most `limit` are taken; without a limit, all
/// that follow. Where the listing ends early, so does the part.
pub open spec fn window(list: Seq<QuestionView>, offset: int, limit: Option<int>) -> Seq<
    QuestionView,
> {
    let from = if offset < list.len() {
        offset
    } else {
        list.len() as int
    };
    let until = match limit {
        Some(count) if from + count < list.len() => from + count,
        _ => list.len() as int,
    };
    list.subrange(from, until)
}

/// The listing that comes of storing the questions of `seed` one by one.
pub open spec fn seeded(seed: Seq<QuestionView>) -> Seq<QuestionView>
    decreases seed.len(),
{
    if seed.len() == 0 {
        Seq::empty()
    } else {
        stored(seeded(seed.drop_last()), seed.last())
    }
}

/// In a listing without repeated identifiers, the place where an identifier
/// is seen is the place that `position` names.
pub proof fn lemma_position_is_unique(list: Seq<QuestionView>, id: Seq<char>, at: int)
    requires
        distinct_ids(list),
        0 <= at < list.len(),
        list[at].id == id,
    ensures
        holds(list, id),
        position(list, id) == at,
{
    assert(holds(list, id));
    let p = position(list, id);
    if p < at {
        assert(list[p].id != list[at].id);
    } else if at < p {
        assert(list[at].id != list[p].id);
    }
}

/// Storing a question keeps the identifiers distinct.
pub proof fn lemma_stored_keeps_distinct(list: Seq<QuestionView>, question: QuestionView)
    requires
        distinct_ids(list),
    ensures
        distinct_ids(stored(list, question)),
{
    let after = stored(list, question);
    if holds(list, question.id) {
        let p = position(list, question.id);
        assert forall|i: int, j: int| 0 <= i < j < after.len() implies (#[trigger] after[i]).id != (
        #[trigger] after[j]).id by {
            assert(after[i].id == list[i].id);
            assert(after[j].id == list[j].id);
        }
    } else {
        assert forall|i: int, j: int| 0 <= i < j < after.len() implies (#[trigger] after[i]).id != (
        #[trigger] after[j]).id by {
            if j < list.len() {
                assert(after[i] == list[i] && after[j] == list[j]);
            } else {
                assert(after[i] == list[i]);
            }
        }
    }
}

/// Updating a question keeps the identifiers distinct.
pub proof fn lemma_updated_keeps_distinct(
    list: Seq<QuestionView>,
    id: Seq<char>,
    replacement: QuestionView,
)
    requires
        distinct_ids(list),
    ensures
        distinct_ids(updated(list, id, replacement)),
{
    let after = updated(list, id, replacement);
    if holds(list, id) {
        assert forall|i: int, j: int| 0 <= i < j < after.len() implies (#[trigger] after[i]).id != (
        #[trigger] after[j]).id by {
            assert(after[i].id == list[i].id);
            assert(after[j].id == list[j].id);
        }
    }
}

/// Taking a question out keeps the identifiers distinct.
pub proof fn lemma_removed_keeps_distinct(list: Seq<QuestionView>, id: Seq<char>)
    requires
        distinct_ids(list),
    ensures
        distinct_ids(removed(list, id)),
{
    let after = removed(list, id);
    if holds(list, id) {
        let p = position(list, id);
        assert forall|i: int, j: int| 0 <= i < j < after.len() implies (#[trigger] after[i]).id != (
        #[trigger] after[j]).id by {
            let a = if i < p { i } else { i + 1 };
            let b = if j < p { j } else { j + 1 };
            assert(after[i] == list[a]);
            assert(after[j] == list[b]);
        }
    }
}

/// A page of a listing without repeated identifiers repeats none either.
pub proof fn lemma_page_keeps_distinct(list: Seq<QuestionView>, start: int, end: int)
    requires
        distinct_ids(list),
        0 <= start <= end <= list.len(),
    ensures
        distinct_ids(list.subrange(start, end)),
{
    let part = list.subrange(start, end);
    assert forall|i: int, j: int| 0 <= i < j < part.len() implies (#[trigger] part[i]).id != (
    #[trigger] part[j]).id by {
        assert(part[i] == list[start + i]);
        assert(part[j] == list[start + j]);
    }
}

/// A listing made by storing questions one by one repeats no identifier.
pub proof fn law_seeded_is_distinct(seed: Seq<QuestionView>)
    ensures
        distinct_ids(seeded(seed)),
    decreases seed.len(),
{
    if seed.len() > 0 {
        law_seeded_is_distinct(seed.drop_last());
        lemma_stored_keeps_distinct(seeded(seed.drop_last()), seed.last());
    }
}

/// A seed that repeats no identifier is stored as it is given: every
/// question, in the order of the seed.
pub proof fn law_distinct_seed_is_kept(seed: Seq<QuestionView>)
    requires
        distinct_ids(seed),
    ensures
        seeded(seed) == seed,
    decreases seed.len(),
{
    if seed.len() == 0 {
        assert(seed =~= Seq::<QuestionView>::empty());
    } else {
        let head = seed.drop_last();
        let last = seed.last();
        assert forall|i: int, j: int| 0 <= i < j < head.len() implies (#[trigger] head[i]).id != (
        #[trigger] head[j]).id by {
            assert(head[i] == seed[i] && head[j] == seed[j]);
        }
        law_distinct_seed_is_kept(head);
        if holds(head, last.id) {
            let p = position(head, last.id);
            assert(head[p] == seed[p]);
            assert(seed[p].id != seed[seed.len() - 1].id);
        }
        assert(head.push(last) =~= seed);
    }
}

/// A question that was stored is found under its identifier, as it was
/// stored.
pub proof fn law_stored_is_found(list: Seq<QuestionView>, question: QuestionView)
    requires
        distinct_ids(list),
    ensures
        found(stored(list, question), question.id) == Some(question),
{
    let after = stored(list, question);
    lemma_stored_keeps_distinct(list, question);
    if holds(list, question.id) {
        let p = position(list, question.id);
        assert(after[p] == question);
        lemma_position_is_unique(after, question.id, p);
    } else {
        let p = list.len() as int;
        assert(after[p] == question);
        lemma_position_is_unique(after, question.id, p);
    }
}

/// A question that was taken out is no longer found.
pub proof fn law_removed_is_not_found(list: Seq<QuestionView>, id: Seq<char>)
    requires
        distinct_ids(list),
    ensures
        found(removed(list, id), id) is None,
{
    let after = removed(list, id);
    if holds(list, id) {
        let p = position(list, id);
        if holds(after, id) {
            let q = position(after, id);
            let b = if q < p { q } else { q + 1 };
            assert(after[q] == list[b]);
            if b < p {
                assert(list[b].id != list[p].id);
            } else {
                assert(list[p].id != list[b].id);
            }
        }
    }
}

/// Taking a question out leaves every other question to be found as before.
pub proof fn law_removed_keeps_others(list: Seq<QuestionView>, id: Seq<char>, other: Seq<char>)
    requires
        distinct_ids(list),
        other != id,
    ensures
        found(removed(list, id), other) == found(list, other),
{
    let after = removed(list, id);
    lemma_removed_keeps_distinct(list, id);
    if holds(list, id) {
        let p = position(list, id);
        if holds(list, other) {
            let o = position(list, other);
            let a = if o < p { o } else { o - 1 };
            assert(after[a] == list[o]);
            lemma_position_is_unique(after, other, a);
        } else if holds(after, other) {
            let q = position(after, other);
            let b = if q < p { q } else { q + 1 };
            assert(after[q] == list[b]);
            assert(list[b].id == other);
        }
    }
}

/// An update of a question that the listing does not hold changes nothing.
pub proof fn law_update_of_missing_changes_nothing(
    list: Seq<QuestionView>,
    id: Seq<char>,
    replacement: QuestionView,
)
    requires
        !holds(list, id),
    ensures
        updated(list, id, replacement) == list,
{
}

/// After an update the question is found under its old identifier, with the
/// fields of the replacement.
pub proof fn law_updated_is_found(list: Seq<QuestionView>, id: Seq<char>, replacement: QuestionView)
    requires
        distinct_ids(list),
        holds(list, id),
    ensures
        found(updated(list, id, replacement), id) == Some(
            revised(list[position(list, id)], replacement),
        ),
        updated(list, id, replacement).len() == list.len(),
{
    let after = updated(list, id, replacement);
    let p = position(list, id);
    lemma_updated_keeps_distinct(list, id, replacement);
    assert(after[p].id == id);
    lemma_position_is_unique(after, id, p);
}

/// A page that the listing reaches holds `end - start` questions, each the
/// one that stands at its place in the listing.
pub proof fn law_page_is_the_slice(list: Seq<QuestionView>, start: int, end: int)
    requires
        0 <= start <= end <= list.len(),
    ensures
        page(list, start, end) is Some,
        page(list, start, end)->Some_0.len() == end - start,
        forall|k: int|
            0 <= k < end - start ==> (#[trigger] page(list, start, end)->Some_0[k]) == list[start
                + k],
{
}

/// Skipping nothing and taking without a limit gives the whole listing.
pub proof fn law_window_without_bounds(list: Seq<QuestionView>)
    ensures
        window(list, 0, None) == list,
{
    assert(list.subrange(0, list.len() as int) =~= list);
}

/// A window is never longer than its limit, and it is the page from the
/// offset on wherever the listing reaches as far as offset and limit ask.
pub proof fn law_window_is_a_page(list: Seq<QuestionView>, offset: int, limit: int)
    requires
        0 <= offset,
        0 <= limit,
    ensures
        window(list, offset, Some(limit)).len() <= limit,
        offset + limit <= list.len() ==> page(list, offset, offset + limit) == Some(
            window(list, offset, Some(limit)),
        ),
{
}

/// No page reaches beyond the end of the listing.
pub proof fn law_page_beyond_the_end(list: Seq<QuestionView>, start: int, end: int)
    requires
        end > list.len(),
    ensures
        page(list, start, end) is None,
{
}

/// The questions of the catalogue, in the order in which they were first
/// stored.
pub struct QuestionTable {
    entries: Vec<Question>,
}

impl View for QuestionTable {
    type V = Seq<QuestionView>;

    closed spec fn view(&self) -> Seq<QuestionView> {
        self.entries.deep_view()
    }
}

impl QuestionTable {
    #[verifier::type_invariant]
    spec fn well_formed(self) -> bool {
        distinct_ids(self.entries.deep_view())
    }

    /// An empty listing.
    pub fn new() -> (table: QuestionTable)
        ensures
            table@ == Seq::<QuestionView>::empty(),
    {
        let entries: Vec<Question> = Vec::new();
        assert(entries.deep_view() =~= Seq::<QuestionView>::empty());
        QuestionTable { entries }
    }

    /// The listing that comes of storing the questions of `seed` one by one:
    /// of two questions with one identifier the later is kept, in the place
    /// of the earlier.
    pub fn from_questions(seed: Vec<Question>) -> (table: QuestionTable)
        ensures
            table@ == seeded(seed.deep_view()),
    {
        let mut table = QuestionTable::new();
        let mut i: usize = 0;
        assert(seed.deep_view().take(0) =~= Seq::<QuestionView>::empty());
        while i < seed.len()
            invariant
                i <= seed.len(),
                table@ == seeded(seed.deep_view().take(i as int)),
            decreases seed.len() - i,
        {
            let question = seed[i].clone();
            proof {
                let head = seed.deep_view().take(i as int + 1);
                assert(head.drop_last() =~= seed.deep_view().take(i as int));
                assert(head.last() == seed[i as int]@);
            }
            table.insert(question);
            i += 1;
        }
        assert(seed.deep_view().take(seed.len() as int) =~= seed.deep_view());
        table
    }

    /// The number of questions in the listing.
    pub fn len(&self) -> (n: usize)
        ensures
            n == self@.len(),
    {
        self.entries.len()
    }

    /// Where the question with the identifier `id` stands.
    fn find(&self, id: &QuestionID) -> (at: Option<usize>)
        ensures
            distinct_ids(self@),
            match at {
                Some(i) => i < self@.len() && self@[i as int].id == id@ && holds(self@, id@)
                    && position(self@, id@) == i,
                None => !holds(self@, id@),
            },
    {
        proof {
            use_type_invariant(self);
        }
        let mut i: usize = 0;
        while i < self.entries.len()
            invariant
                i <= self.entries.len(),
                distinct_ids(self@),
                forall|k: int| 0 <= k < i ==> (#[trigger] self@[k]).id != id@,
            decreases self.entries.len() - i,
        {
            if self.entries[i].id == *id {
                proof {
                    lemma_position_is_unique(self@, id@, i as int);
                }
                return Some(i);
            }
            i += 1;
        }
        None
    }

    /// The question with the identifier `id`.
    pub fn get(&self, id: &QuestionID) -> (got: Result<Question, CustomError>)
        ensures
            match got {
                Ok(question) => found(self@, id@) == Some(question@),
                Err(error) => found(self@, id@) is None && error == CustomError::QuestionNotFound,
            },
    {
        match self.find(id) {
            Some(i) => Ok(self.entries[i].clone()),
            None => Err(CustomError::QuestionNotFound),
        }
    }

    /// Every question, in the order of the listing.
    pub fn all(&self) -> (list: Vec<Question>)
        ensures
            list.deep_view() == self@,
            distinct_ids(list.deep_view()),
    {
        proof {
            law_window_without_bounds(self@);
        }
        self.window(0, None)
    }

    /// The questions that are left when the first `offset` are skipped and
    /// then at most `limit` are taken. Nothing is refused: where the listing
    /// ends early, so does what is returned.
    pub fn window(&self, offset: usize, limit: Option<usize>) -> (list: Vec<Question>)
        ensures
            list.deep_view() == window(
                self@,
                offset as int,
                match limit {
                    Some(count) => Some(count as int),
                    None => None,
                },
            ),
            distinct_ids(list.deep_view()),
    {
        let n = self.entries.len();
        let from = if offset < n {
            offset
        } else {
            n
        };
        let until = match limit {
            Some(count) => if count < n - from {
                from + count
            } else {
                n
            },
            None => n,
        };
        self.copies(from, until)
    }

    /// The questions from position `start` up to position `end`. A range
    /// that the listing does not reach is refused, never cut short.
    pub fn slice(&self, start: usize, end: usize) -> (got: Result<Vec<Question>, CustomError>)
        ensures
            match got {
                Ok(list) => page(self@, start as int, end as int) == Some(list.deep_view())
                    && list.len() == end - start && distinct_ids(list.deep_view()),
                Err(error) => page(self@, start as int, end as int) is None && error
                    == CustomError::OutOfBound,
            },
    {
        assert(self@.len() == self.entries.len());
        if start > end || end > self.entries.len() {
            return Err(CustomError::OutOfBound);
        }
        let list = self.copies(start, end);
        assert(list.deep_view().len() == list.len());
        Ok(list)
    }

    /// Copies of the questions from position `start` up to position `end`.
    fn copies(&self, start: usize, end: usize) -> (list: Vec<Question>)
        requires
            start <= end <= self@.len(),
        ensures
            list.deep_view() == self@.subrange(start as int, end as int),
            distinct_ids(list.deep_view()),
    {
        proof {
            use_type_invariant(self);
        }
        let mut list: Vec<Question> = Vec::new();
        let mut i: usize = start;
        while i < end
            invariant
                start <= i <= end <= self.entries.len(),
                list.len() == i - start,
                forall|k: int| 0 <= k < i - start ==> (#[trigger] list[k])@ == self@[start + k],
            decreases end - i,
        {
            list.push(self.entries[i].clone());
            i += 1;
        }
        assert(list.deep_view() =~= self@.subrange(start as int, end as int));
        proof {
            lemma_page_keeps_distinct(self@, start as int, end as int);
        }
        list
    }

    /// Stores `question`: in the place of the question that has its
    /// identifier, or else at the end.
    pub fn insert(&mut self, question: Question)
        ensures
            final(self)@ == stored(old(self)@, question@),
    {
        let at = self.find(&question.id);
        let ghost before = self@;
        let mut entries: Vec<Question> = Vec::new();
        proof {
            lemma_stored_keeps_distinct(before, question@);
            assert(entries.deep_view() =~= Seq::<QuestionView>::empty());
        }
        std::mem::swap(&mut entries, &mut self.entries);
        match at {
            Some(i) => {
                entries[i] = question;
                assert(entries.deep_view() =~= before.update(i as int, question@));
            },
            None => {
                entries.push(question);
                assert(entries.deep_view() =~= before.push(question@));
            },
        }
        self.entries = entries;
    }

    /// Replaces the title, the content and the tags of the question with
    /// the identifier `id` by those of `replacement`, and returns the
    /// question as it is then stored. The identifier stays.
    pub fn update(&mut self, id: &QuestionID, replacement: Question) -> (got: Result<
        Question,
        CustomError,
    >)
        ensures
            final(self)@ == updated(old(self)@, id@, replacement@),
            match got {
                Ok(question) => holds(old(self)@, id@) && question@ == revised(
                    old(self)@[position(old(self)@, id@)],
                    replacement@,
                ),
                Err(error) => !holds(old(self)@, id@) && error == CustomError::QuestionNotFound,
            },
    {
        let at = self.find(id);
        let ghost before = self@;
        match at {
            Some(i) => {
                let Question { id: _, title, content, tags } = replacement;
                let question = Question { id: id.clone(), title, content, tags };
                let copy = question.clone();
                let mut entries: Vec<Question> = Vec::new();
                proof {
                    lemma_updated_keeps_distinct(before, id@, replacement@);
                    assert(entries.deep_view() =~= Seq::<QuestionView>::empty());
                }
                std::mem::swap(&mut entries, &mut self.entries);
                entries[i] = question;
                assert(entries.deep_view() =~= before.update(
                    i as int,
                    revised(before[i as int], replacement@),
                ));
                self.entries = entries;
                Ok(copy)
            },
            None => Err(CustomError::QuestionNotFound),
        }
    }

    /// Takes out the question with the identifier `id`. The others keep
    /// their order.
    pub fn remove(&mut self, id: &QuestionID) -> (got: Result<(), CustomError>)
        ensures
            final(self)@ == removed(old(self)@, id@),
            match got {
                Ok(_) => holds(old(self)@, id@),
                Err(error) => !holds(old(self)@, id@) && error == CustomError::QuestionNotFound,
            },
    {
        let at = self.find(id);
        let ghost before = self@;
        match at {
            Some(i) => {
                let mut entries: Vec<Question> = Vec::new();
                proof {
                    lemma_removed_keeps_distinct(before, id@);
                    assert(entries.deep_view() =~= Seq::<QuestionView>::empty());
                }
                std::mem::swap(&mut entries, &mut self.entries);
                let _ = entries.remove(i);
                assert(entries.deep_view() =~= before.remove(i as int));
                self.entries = entries;
                Ok(())
            },
            None => Err(CustomError::QuestionNotFound),
        }
    }
}

} // verus!
