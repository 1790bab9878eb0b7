use rust_web_dev::errors::{CustomError, DbError, DUPLICATE_KEY, FOREIGN_KEY_VIOLATION};
use rust_web_dev::store::Store;
use rust_web_dev::types::account::{Account, AccountId, Session};
use rust_web_dev::types::answer::NewAnswer;
use rust_web_dev::types::question::{NewQuestion, QuestionId};
use rust_web_dev::routes;

fn session(account: i32) -> Session {
    Session {
        exp: 2_000_000_000,
        account_id: AccountId(account),
        nbf: 0,
    }
}

fn new_question(title: &str, content: &str, tags: Option<Vec<&str>>) -> NewQuestion {
    NewQuestion {
        title: title.to_string(),
        content: content.to_string(),
        tags: tags.map(|ts| ts.into_iter().map(|t| t.to_string()).collect()),
    }
}

fn seeded_store(owner: i32, titles: &[&str]) -> Store {
    let mut store = Store::new();
    for t in titles {
        store
            .add_question(new_question(t, "body", None), AccountId(owner))
            .unwrap();
    }
    store
}

#[test]
fn offset_beyond_length_yields_empty_not_error() {
    let store = seeded_store(1, &["a", "b", "c"]);
    let listed = store.get_questions(None, 3).unwrap();
    assert!(listed.is_empty());
    let listed = store.get_questions(Some(5), 100).unwrap();
    assert!(listed.is_empty());
    let empty = Store::new();
    assert!(empty.get_questions(Some(1), 0).unwrap().is_empty());
}

#[test]
fn listing_length_is_min_of_limit_and_remainder() {
    let store = seeded_store(1, &["a", "b", "c", "d", "e"]);
    assert_eq!(store.get_questions(Some(2), 1).unwrap().len(), 2);
    assert_eq!(store.get_questions(Some(10), 3).unwrap().len(), 2);
    assert_eq!(store.get_questions(Some(0), 0).unwrap().len(), 0);
    assert_eq!(store.get_questions(None, 2).unwrap().len(), 3);
    assert_eq!(store.get_questions(None, 0).unwrap().len(), 5);
}

#[test]
fn gate_says_false_for_missing_question() {
    let store = seeded_store(1, &["a"]);
    assert_eq!(store.is_question_owner(99, &AccountId(1)).unwrap(), false);
}

#[test]
fn gate_says_false_for_foreign_question() {
    let store = seeded_store(1, &["a"]);
    let qid = store.questions[0].id.0;
    assert_eq!(store.is_question_owner(qid, &AccountId(2)).unwrap(), false);
    assert_eq!(store.is_question_owner(qid, &AccountId(1)).unwrap(), true);
}

#[test]
fn non_owner_update_is_unauthorized_and_mutates_nothing() {
    let mut store = seeded_store(1, &["a"]);
    let qid = store.questions[0].id.0;
    let before_title = store.questions[0].title.clone();
    let attempt = rust_web_dev::types::question::Question {
        id: QuestionId(qid),
        title: "hijacked".to_string(),
        content: "hijacked".to_string(),
        tags: None,
        owner: AccountId(2),
    };
    let r = routes::question::update_question(qid, session(2), &mut store, attempt);
    assert!(matches!(r, Err(CustomError::Unauthorized)));
    assert_eq!(store.questions.len(), 1);
    assert_eq!(store.questions[0].title, before_title);
}

#[test]
fn non_owner_delete_is_unauthorized_and_mutates_nothing() {
    let mut store = seeded_store(1, &["a"]);
    let qid = store.questions[0].id.0;
    store
        .add_answer(
            NewAnswer {
                content: "an answer".to_string(),
                question_id: QuestionId(qid),
            },
            AccountId(1),
        )
        .unwrap();
    let r = routes::question::delete_question(qid, session(2), &mut store);
    assert!(matches!(r, Err(CustomError::Unauthorized)));
    assert_eq!(store.questions.len(), 1);
    assert_eq!(store.answers.len(), 1);
}

#[test]
fn deleting_a_question_removes_its_answers() {
    let mut store = seeded_store(1, &["kept", "doomed"]);
    let kept_id = store.questions[0].id.0;
    let doomed_id = store.questions[1].id.0;
    for text in ["first", "second"] {
        store
            .add_answer(
                NewAnswer {
                    content: text.to_string(),
                    question_id: QuestionId(doomed_id),
                },
                AccountId(1),
            )
            .unwrap();
    }
    store
        .add_answer(
            NewAnswer {
                content: "unrelated".to_string(),
                question_id: QuestionId(kept_id),
            },
            AccountId(1),
        )
        .unwrap();
    assert_eq!(store.delete_question(doomed_id, AccountId(1)).unwrap(), true);
    let listed = store.get_question_answers(None, 0, doomed_id).unwrap();
    assert!(listed.is_empty());
    let unrelated = store.get_question_answers(None, 0, kept_id).unwrap();
    assert_eq!(unrelated.len(), 1);
    assert_eq!(store.questions.len(), 1);
}

#[test]
fn duplicate_email_is_a_distinct_failure_kind() {
    let mut store = Store::new();
    let account = |email: &str| Account {
        id: None,
        email: email.to_string(),
        password: "hash".to_string(),
    };
    assert_eq!(store.add_account(account("a@x.com")).unwrap(), true);
    let duplicate = store.add_account(account("a@x.com")).unwrap_err();
    match &duplicate {
        CustomError::DatabaseQueryError(DbError::Database { code }) => {
            assert_eq!(*code, DUPLICATE_KEY)
        }
        other => panic!("expected the uniqueness violation, got {:?}", other),
    }
    let generic = CustomError::DatabaseQueryError(DbError::ConnectionClosed);
    match (&duplicate, &generic) {
        (
            CustomError::DatabaseQueryError(DbError::Database { .. }),
            CustomError::DatabaseQueryError(DbError::ConnectionClosed),
        ) => {}
        _ => panic!("the two failure kinds must stay distinguishable"),
    }
}

#[test]
fn create_then_list_round_trip() {
    let mut store = Store::new();
    let created = store
        .add_question(
            new_question("T", "C", Some(vec!["x"])),
            AccountId(4),
        )
        .unwrap();
    let listed = store.get_questions(Some(1), 0).unwrap();
    assert_eq!(listed.len(), 1);
    let got = &listed[0];
    assert_eq!(got.id, created.id);
    assert_eq!(got.title, "T");
    assert_eq!(got.content, "C");
    assert_eq!(got.tags, Some(vec!["x".to_string()]));
    assert_eq!(got.owner, AccountId(4));
}

#[test]
fn answer_to_missing_question_is_a_reference_violation() {
    let mut store = Store::new();
    let err = store
        .add_answer(
            NewAnswer {
                content: "orphan".to_string(),
                question_id: QuestionId(5),
            },
            AccountId(1),
        )
        .unwrap_err();
    match err {
        CustomError::DatabaseQueryError(DbError::Database { code }) => {
            assert_eq!(code, FOREIGN_KEY_VIOLATION)
        }
        other => panic!("expected a reference violation, got {:?}", other),
    }
}

#[test]
fn get_account_by_email() {
    let mut store = Store::new();
    store
        .add_account(Account {
            id: None,
            email: "a@x.com".to_string(),
            password: "hash".to_string(),
        })
        .unwrap();
    let found = store.get_account("a@x.com".to_string()).unwrap();
    assert_eq!(found.email, "a@x.com");
    assert_eq!(found.id, Some(AccountId(1)));
    let missing = store.get_account("b@x.com".to_string()).unwrap_err();
    assert!(matches!(
        missing,
        CustomError::DatabaseQueryError(DbError::RowNotFound)
    ));
}

#[test]
fn owner_update_persists_new_fields() {
    let mut store = seeded_store(7, &["before"]);
    let qid = store.questions[0].id.0;
    let updated = routes::question::update_question(
        qid,
        session(7),
        &mut store,
        rust_web_dev::types::question::Question {
            id: QuestionId(qid),
            title: "after".to_string(),
            content: "new body".to_string(),
            tags: Some(vec!["t".to_string()]),
            owner: AccountId(7),
        },
    )
    .unwrap();
    assert_eq!(updated.title, "after");
    assert_eq!(store.questions[0].title, "after");
    assert_eq!(store.questions[0].content, "new body");
    assert_eq!(store.questions[0].owner, AccountId(7));
    assert_eq!(store.questions[0].id, QuestionId(qid));
}

#[test]
fn scenario_two_accounts_and_a_cascade() {
    let mut store = Store::new();
    store
        .add_account(Account {
            id: None,
            email: "a@x.com".to_string(),
            password: "hash-a".to_string(),
        })
        .unwrap();
    store
        .add_account(Account {
            id: None,
            email: "b@x.com".to_string(),
            password: "hash-b".to_string(),
        })
        .unwrap();
    let a = store.get_account("a@x.com".to_string()).unwrap().id.unwrap();
    let b = store.get_account("b@x.com".to_string()).unwrap().id.unwrap();

    let created = routes::question::add_question(
        Session {
            exp: 2_000_000_000,
            account_id: a,
            nbf: 0,
        },
        &mut store,
        new_question("T", "C", Some(vec!["x"])),
    )
    .unwrap();
    let n = created.id.0;
    assert_eq!(created.title, "T");
    assert_eq!(created.content, "C");
    assert_eq!(created.tags, Some(vec!["x".to_string()]));
    assert_eq!(created.owner, a);

    for text in ["first answer", "second answer"] {
        routes::answer::add_answer(
            Session {
                exp: 2_000_000_000,
                account_id: a,
                nbf: 0,
            },
            &mut store,
            NewAnswer {
                content: text.to_string(),
                question_id: QuestionId(n),
            },
        )
        .unwrap();
    }

    let attempt = routes::question::update_question(
        n,
        Session {
            exp: 2_000_000_000,
            account_id: b,
            nbf: 0,
        },
        &mut store,
        rust_web_dev::types::question::Question {
            id: QuestionId(n),
            title: "stolen".to_string(),
            content: "stolen".to_string(),
            tags: None,
            owner: b,
        },
    );
    assert!(matches!(attempt, Err(CustomError::Unauthorized)));
    assert_eq!(store.questions[0].title, "T");

    let deleted = routes::question::delete_question(
        n,
        Session {
            exp: 2_000_000_000,
            account_id: a,
            nbf: 0,
        },
        &mut store,
    )
    .unwrap();
    assert!(deleted);
    assert!(store.questions.is_empty());
    assert!(store.answers.is_empty());
    let listed = store.get_question_answers(None, 0, n).unwrap();
    assert!(listed.is_empty());
}
