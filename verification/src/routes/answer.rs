use vstd::prelude::*;

use crate::errors::CustomError;
use crate::errors::DbError;
use crate::errors::ParseFailure;
use crate::errors::FOREIGN_KEY_VIOLATION;
use crate::store::a_views;
use crate::store::answers_for;
use crate::store::has_question_v;
use crate::store::Store;
use crate::types::account::Session;
use crate::types::answer::Answer;
use crate::types::answer::AnswerV;
use crate::types::answer::NewAnswer;
use crate::types::pagination::extract_pagination;
use crate::types::pagination::paginate;
use crate::types::pagination::pagination_error;
use crate::types::pagination::pagination_valid;
use crate::types::pagination::param_value;
use crate::types::pagination::parse_i32;
use crate::types::pagination::parse_i32_spec;
use crate::types::pagination::has_param;
use crate::types::pagination::spec_pagination;

verus! {

/// Handles an answer creation: persists the submission for the session's
/// account against an existing question and returns the stored entity. A
/// reference to a question that does not exist is rejected as a persistence
/// failure carrying the backend's reference-violation code.
pub fn add_answer(session: Session, store: &mut Store, new_answer: NewAnswer) -> (r: Result<
    Answer,
    CustomError,
>)
    requires
        old(store).wf(),
        has_question_v(old(store)@.questions, new_answer.question_id.0 as int) ==> old(
            store,
        )@.next_answer_id < i32::MAX as int,
    ensures
        final(store).wf(),
        ({
            let a = (AnswerV {
                id: old(store)@.next_answer_id,
                content: new_answer.content@,
                question_id: new_answer.question_id.0 as int,
                owner: session.account_id.0 as int,
            });
            if has_question_v(old(store)@.questions, new_answer.question_id.0 as int) {
                &&& r matches Ok(created) && created@ == a
                &&& final(store)@.answers == old(store)@.answers.push(a)
                &&& final(store)@.questions == old(store)@.questions
                &&& final(store)@.accounts == old(store)@.accounts
                &&& final(store)@.next_answer_id == old(store)@.next_answer_id + 1
                &&& final(store)@.next_question_id == old(store)@.next_question_id
                &&& final(store)@.next_account_id == old(store)@.next_account_id
            } else {
                &&& r matches Err(e) && e matches CustomError::DatabaseQueryError(db) && db == (
                DbError::Database { code: FOREIGN_KEY_VIOLATION })
                &&& *final(store) == *old(store)
            }
        }),
{
    let account_id = session.account_id;
    let answer = NewAnswer { content: new_answer.content, question_id: new_answer.question_id };
    store.add_answer(answer, account_id)
}

/// Handles an answer-listing request for one question. Absent query
/// parameters mean "the answers of question zero, unpaginated" (no question
/// carries that identifier, so the listing is empty); present ones must
/// carry the question identifier and a well-formed pagination. Any signed
/// identifier is accepted and handed to the store: a question without
/// answers and one that does not exist both yield an empty listing, never an
/// error.
pub fn get_question_answers(params: &Vec<(String, String)>, store: &Store) -> (r: Result<
    Vec<Answer>,
    CustomError,
>)
    ensures
        params@.len() == 0 ==> (r matches Ok(v) && a_views(v@) == paginate(
            answers_for(store@.answers, 0),
            None,
            0,
        )),
        params@.len() > 0 && !has_param(params@, "question_id"@) ==> (r matches Err(e)
            && e matches CustomError::MissingParameters),
        params@.len() > 0 && has_param(params@, "question_id"@) ==> ({
            let raw = param_value(params@, "question_id"@);
            match parse_i32_spec(raw) {
                Err(k) => r matches Err(e) && e matches CustomError::ParseError(f) && f.input@
                    == raw && f.kind == k,
                Ok(qid) => {
                    if pagination_valid(params@) {
                        r matches Ok(v) && a_views(v@) == paginate(
                            answers_for(store@.answers, qid as int),
                            spec_pagination(params@).limit,
                            spec_pagination(params@).offset,
                        )
                    } else {
                        r matches Err(e) && pagination_error(params@, e)
                    }
                },
            }
        }),
{
    if params.len() == 0 {
        return store.get_question_answers(None, 0, 0);
    }
    let key = "question_id".to_owned();
    let raw = match crate::types::pagination::find_param(params, &key) {
        Some(v) => v,
        None => {
            return Err(CustomError::MissingParameters);
        },
    };
    let question_id: i32 = match parse_i32(raw.as_str()) {
        Ok(x) => x,
        Err(k) => {
            return Err(CustomError::ParseError(ParseFailure { input: raw.clone(), kind: k }));
        },
    };
    let pagination = match extract_pagination(params) {
        Ok(p) => p,
        Err(e) => {
            return Err(e);
        },
    };
    store.get_question_answers(pagination.limit, pagination.offset, question_id)
}

} // verus!
