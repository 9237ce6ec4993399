use qa_catalogue::handle_errors::CustomError;
use qa_catalogue::tables::questions::QuestionTable;
use qa_catalogue::types::question::{
    copy_tags, same_tags, IdError, NewQuestion, Question, QuestionID,
};

fn id(token: &str) -> QuestionID {
    QuestionID::from_str(token).unwrap()
}

fn question(token: &str, title: &str) -> Question {
    Question {
        id: id(token),
        title: title.to_string(),
        content: format!("content of {}", title),
        tags: Some(vec!["faq".to_string()]),
    }
}

fn tokens(list: &[Question]) -> Vec<String> {
    list.iter().map(|q| q.id.as_str().to_string()).collect()
}

#[test]
fn an_identifier_keeps_its_token() {
    assert_eq!(id("1").as_str(), "1");
    assert_eq!(id("question-7").as_str(), "question-7");
    assert_eq!(id(" ").as_str(), " ");
}

#[test]
fn an_identifier_is_never_empty() {
    assert_eq!(QuestionID::from_str(""), Err(IdError::NoIdProvided));
    assert_eq!(IdError::NoIdProvided.to_string(), "No id provided");
}

#[test]
fn identifiers_compare_by_token() {
    assert_eq!(id("1"), id("1"));
    assert_ne!(id("1"), id("01"));
    assert_eq!(id("1").clone(), id("1"));
}

#[test]
fn a_copy_of_a_question_equals_it() {
    let first = question("1", "T");
    let twin = first.clone();
    assert_eq!(twin, first);
    assert_eq!(twin.id.as_str(), "1");
    assert_eq!(twin.title, "T");
    assert_eq!(twin.content, "content of T");
    assert_eq!(twin.tags, Some(vec!["faq".to_string()]));
}

#[test]
fn questions_differ_where_a_field_differs() {
    let first = question("1", "T");
    let mut other = first.clone();
    other.title = "U".to_string();
    assert_ne!(first, other);
    let mut other = first.clone();
    other.content = "else".to_string();
    assert_ne!(first, other);
    let mut other = first.clone();
    other.id = id("2");
    assert_ne!(first, other);
    let mut other = first.clone();
    other.tags = None;
    assert_ne!(first, other);
}

#[test]
fn no_tags_is_not_an_empty_list_of_tags() {
    assert!(!same_tags(&None, &Some(vec![])));
    assert!(same_tags(&None, &None));
    assert!(same_tags(&Some(vec![]), &Some(vec![])));
    assert_eq!(copy_tags(&None), None);
    assert_eq!(copy_tags(&Some(vec![])), Some(vec![]));
}

#[test]
fn tags_compare_in_order() {
    let ab = Some(vec!["a".to_string(), "b".to_string()]);
    let ba = Some(vec!["b".to_string(), "a".to_string()]);
    let a = Some(vec!["a".to_string()]);
    assert!(same_tags(&ab, &ab.clone()));
    assert!(!same_tags(&ab, &ba));
    assert!(!same_tags(&ab, &a));
    assert_eq!(copy_tags(&ab), ab);
}

#[test]
fn a_payload_becomes_a_question_under_an_identifier() {
    let payload = NewQuestion {
        title: "T".to_string(),
        content: "C".to_string(),
        tags: None,
    };
    let twin = payload.clone();
    assert_eq!(twin.title, "T");
    let made = payload.with_id(id("9"));
    assert_eq!(
        made,
        Question { id: id("9"), title: "T".to_string(), content: "C".to_string(), tags: None }
    );
}

#[test]
fn a_new_table_is_empty() {
    let table = QuestionTable::new();
    assert_eq!(table.len(), 0);
    assert!(table.all().is_empty());
    assert_eq!(table.slice(0, 0), Ok(vec![]));
    assert_eq!(table.get(&id("1")), Err(CustomError::QuestionNotFound));
}

#[test]
fn a_stored_question_is_found_as_it_was_stored() {
    let mut table = QuestionTable::new();
    table.insert(question("1", "first"));
    table.insert(question("2", "second"));
    assert_eq!(table.get(&id("1")), Ok(question("1", "first")));
    assert_eq!(table.get(&id("2")), Ok(question("2", "second")));
    assert_eq!(table.get(&id("3")), Err(CustomError::QuestionNotFound));
    assert_eq!(table.len(), 2);
}

#[test]
fn the_listing_keeps_the_order_of_arrival() {
    let mut table = QuestionTable::new();
    for token in ["b", "a", "d", "c"] {
        table.insert(question(token, token));
    }
    assert_eq!(tokens(&table.all()), ["b", "a", "d", "c"]);
}

#[test]
fn storing_under_a_known_identifier_replaces_in_place() {
    let mut table = QuestionTable::new();
    table.insert(question("1", "first"));
    table.insert(question("2", "second"));
    table.insert(question("1", "again"));
    assert_eq!(table.len(), 2);
    assert_eq!(table.all(), vec![question("1", "again"), question("2", "second")]);
}

#[test]
fn a_table_from_a_seed_keeps_the_later_of_two() {
    let table = QuestionTable::from_questions(vec![
        question("1", "first"),
        question("2", "second"),
        question("1", "again"),
        question("3", "third"),
    ]);
    assert_eq!(
        table.all(),
        vec![question("1", "again"), question("2", "second"), question("3", "third")]
    );
    assert_eq!(QuestionTable::from_questions(vec![]).len(), 0);
}

#[test]
fn a_seed_without_repeats_is_kept_as_given() {
    let seed = vec![question("c", "third"), question("a", "first"), question("b", "second")];
    let table = QuestionTable::from_questions(seed.clone());
    assert_eq!(table.all(), seed);
    assert_eq!(table.len(), 3);
}

#[test]
fn a_slice_is_exactly_the_part_asked_for() {
    let mut table = QuestionTable::new();
    for token in ["a", "b", "c", "d", "e"] {
        table.insert(question(token, token));
    }
    assert_eq!(tokens(&table.slice(0, 5).unwrap()), ["a", "b", "c", "d", "e"]);
    assert_eq!(tokens(&table.slice(1, 3).unwrap()), ["b", "c"]);
    assert_eq!(tokens(&table.slice(4, 5).unwrap()), ["e"]);
    assert_eq!(table.slice(2, 2), Ok(vec![]));
    assert_eq!(table.slice(5, 5), Ok(vec![]));
    for start in 0..=5 {
        for end in start..=5 {
            assert_eq!(table.slice(start, end).unwrap().len(), end - start);
        }
    }
}

#[test]
fn a_window_is_cut_short_where_the_listing_ends() {
    let mut table = QuestionTable::new();
    for token in ["a", "b", "c", "d", "e"] {
        table.insert(question(token, token));
    }
    assert_eq!(tokens(&table.window(0, None)), ["a", "b", "c", "d", "e"]);
    assert_eq!(tokens(&table.window(2, None)), ["c", "d", "e"]);
    assert_eq!(tokens(&table.window(1, Some(2))), ["b", "c"]);
    assert_eq!(tokens(&table.window(3, Some(2))), ["d", "e"]);
    assert_eq!(tokens(&table.window(3, Some(3))), ["d", "e"]);
    assert_eq!(tokens(&table.window(4, Some(usize::MAX))), ["e"]);
    assert!(table.window(5, Some(1)).is_empty());
    assert!(table.window(usize::MAX, None).is_empty());
    assert!(table.window(0, Some(0)).is_empty());
    for offset in 0..5 {
        for limit in 0..(5 - offset) {
            assert_eq!(
                Ok(table.window(offset, Some(limit))),
                table.slice(offset, offset + limit)
            );
        }
    }
}

#[test]
fn a_slice_beyond_the_listing_is_refused() {
    let mut table = QuestionTable::new();
    table.insert(question("a", "a"));
    table.insert(question("b", "b"));
    assert_eq!(table.slice(0, 3), Err(CustomError::OutOfBound));
    assert_eq!(table.slice(0, 5), Err(CustomError::OutOfBound));
    assert_eq!(table.slice(2, 3), Err(CustomError::OutOfBound));
    assert_eq!(table.slice(7, 9), Err(CustomError::OutOfBound));
    assert_eq!(table.slice(0, usize::MAX), Err(CustomError::OutOfBound));
}

#[test]
fn a_slice_out_of_order_is_refused() {
    let mut table = QuestionTable::new();
    table.insert(question("a", "a"));
    table.insert(question("b", "b"));
    assert_eq!(table.slice(2, 1), Err(CustomError::OutOfBound));
    assert_eq!(table.slice(1, 0), Err(CustomError::OutOfBound));
}

#[test]
fn an_update_keeps_the_identifier_and_takes_the_rest() {
    let mut table = QuestionTable::new();
    table.insert(question("1", "first"));
    table.insert(question("2", "second"));
    let replacement = Question {
        id: id("other"),
        title: "new title".to_string(),
        content: "new content".to_string(),
        tags: None,
    };
    let expected = Question {
        id: id("1"),
        title: "new title".to_string(),
        content: "new content".to_string(),
        tags: None,
    };
    assert_eq!(table.update(&id("1"), replacement), Ok(expected.clone()));
    assert_eq!(table.all(), vec![expected, question("2", "second")]);
    assert_eq!(table.get(&id("other")), Err(CustomError::QuestionNotFound));
}

#[test]
fn an_update_of_a_missing_question_changes_nothing() {
    let mut table = QuestionTable::new();
    table.insert(question("1", "first"));
    table.insert(question("2", "second"));
    let before = table.all();
    assert_eq!(
        table.update(&id("3"), question("3", "third")),
        Err(CustomError::QuestionNotFound)
    );
    assert_eq!(table.all(), before);
}

#[test]
fn a_removed_question_is_no_longer_found() {
    let mut table = QuestionTable::new();
    for token in ["a", "b", "c"] {
        table.insert(question(token, token));
    }
    assert_eq!(table.remove(&id("b")), Ok(()));
    assert_eq!(table.get(&id("b")), Err(CustomError::QuestionNotFound));
    assert_eq!(tokens(&table.all()), ["a", "c"]);
    assert_eq!(table.get(&id("a")), Ok(question("a", "a")));
    assert_eq!(table.get(&id("c")), Ok(question("c", "c")));
    assert_eq!(table.remove(&id("b")), Err(CustomError::QuestionNotFound));
    assert_eq!(table.len(), 2);
}

#[test]
fn removing_from_an_empty_table_fails() {
    let mut table = QuestionTable::new();
    assert_eq!(table.remove(&id("99")), Err(CustomError::QuestionNotFound));
    assert_eq!(table.len(), 0);
}
