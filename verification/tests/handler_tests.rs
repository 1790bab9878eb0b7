use rust_web_dev::errors::CustomError;
use rust_web_dev::routes::answer::get_question_answers;
use rust_web_dev::routes::question::{apply_content_checks, get_questions};
use rust_web_dev::store::Store;
use rust_web_dev::types::account::AccountId;
use rust_web_dev::types::answer::NewAnswer;
use rust_web_dev::types::question::{NewQuestion, QuestionId};

fn params(entries: &[(&str, &str)]) -> Vec<(String, String)> {
    entries.iter().map(|(k, v)| (k.to_string(), v.to_string())).collect()
}

fn seeded() -> Store {
    let mut store = Store::new();
    for title in ["one", "two", "three"] {
        store
            .add_question(
                NewQuestion {
                    title: title.to_string(),
                    content: "body".to_string(),
                    tags: None,
                },
                AccountId(1),
            )
            .unwrap();
    }
    let qid = store.questions[0].id.0;
    store
        .add_answer(
            NewAnswer {
                content: "reply".to_string(),
                question_id: QuestionId(qid),
            },
            AccountId(1),
        )
        .unwrap();
    store
}

#[test]
fn listing_without_parameters_returns_everything() {
    let store = seeded();
    let all = get_questions(&params(&[]), &store).unwrap();
    assert_eq!(all.len(), 3);
    assert_eq!(all[0].title, "one");
    assert_eq!(all[2].title, "three");
}

#[test]
fn listing_with_parameters_applies_them() {
    let store = seeded();
    let page = get_questions(&params(&[("limit", "1"), ("offset", "1")]), &store).unwrap();
    assert_eq!(page.len(), 1);
    assert_eq!(page[0].title, "two");
}

#[test]
fn listing_with_partial_parameters_is_rejected() {
    let store = seeded();
    let err = get_questions(&params(&[("limit", "1")]), &store).unwrap_err();
    assert!(matches!(err, CustomError::MissingParameters));
}

#[test]
fn answer_listing_needs_a_question_id() {
    let store = seeded();
    let err =
        get_question_answers(&params(&[("limit", "1"), ("offset", "0")]), &store).unwrap_err();
    assert!(matches!(err, CustomError::MissingParameters));
}

#[test]
fn answer_listing_filters_by_question() {
    let store = seeded();
    let qid = store.questions[0].id.0.to_string();
    let found = get_question_answers(
        &params(&[("question_id", qid.as_str()), ("limit", "10"), ("offset", "0")]),
        &store,
    )
    .unwrap();
    assert_eq!(found.len(), 1);
    assert_eq!(found[0].content, "reply");

    let none = get_question_answers(
        &params(&[("question_id", "999"), ("limit", "10"), ("offset", "0")]),
        &store,
    )
    .unwrap();
    assert!(none.is_empty());
}

#[test]
fn answer_listing_accepts_a_negative_question_id() {
    let store = seeded();
    let none = get_question_answers(
        &params(&[("question_id", "-1"), ("limit", "10"), ("offset", "0")]),
        &store,
    )
    .unwrap();
    assert!(none.is_empty());
}

#[test]
fn answer_listing_without_parameters_is_empty() {
    let store = seeded();
    let none = get_question_answers(&params(&[]), &store).unwrap();
    assert!(none.is_empty());
}

#[test]
fn content_checks_gate_a_submission() {
    let ok = apply_content_checks(
        Some(vec!["x".to_string()]),
        Ok("clean title".to_string()),
        Ok("clean body".to_string()),
    )
    .unwrap();
    assert_eq!(ok.title, "clean title");
    assert_eq!(ok.content, "clean body");
    assert_eq!(ok.tags, Some(vec!["x".to_string()]));

    let failed = apply_content_checks(
        None,
        Err(CustomError::ReqwestAPIError("filter down".to_string())),
        Ok("clean body".to_string()),
    )
    .unwrap_err();
    assert!(matches!(failed, CustomError::ReqwestAPIError(_)));
}
