use vstd::prelude::*;

use crate::errors::CustomError;
use crate::store::owns_question_v;
use crate::store::q_views;
use crate::store::questions_without;
use crate::store::answers_not_for;
use crate::store::Store;
use crate::types::account::Session;
use crate::types::pagination::extract_pagination;
use crate::types::pagination::paginate;
use crate::types::pagination::pagination_error;
use crate::types::pagination::pagination_valid;
use crate::types::pagination::spec_pagination;
use crate::types::question::tags_view;
use crate::types::question::NewQuestion;
use crate::types::question::Question;
use crate::types::question::QuestionV;

verus! {

/// Handles a question-listing request. Absent query parameters mean
/// "everything, from the start"; present ones must carry a well-formed
/// pagination, which is then applied. An offset beyond the end yields an
/// empty listing, never an error.
pub fn get_questions(params: &Vec<(String, String)>, store: &Store) -> (r: Result<
    Vec<Question>,
    CustomError,
>)
    ensures
        params@.len() == 0 ==> (r matches Ok(v) && q_views(v@) == paginate(
            store@.questions,
            None,
            0,
        )),
        params@.len() > 0 && pagination_valid(params@) ==> (r matches Ok(v) && q_views(v@)
            == paginate(
            store@.questions,
            spec_pagination(params@).limit,
            spec_pagination(params@).offset,
        )),
        params@.len() > 0 && !pagination_valid(params@) ==> (r matches Err(e) && pagination_error(
            params@,
            e,
        )),
{
    if params.len() == 0 {
        store.get_questions(None, 0)
    } else {
        let pagination = match extract_pagination(params) {
            Ok(p) => p,
            Err(e) => {
                return Err(e);
            },
        };
        store.get_questions(pagination.limit, pagination.offset)
    }
}

/// Handles a question creation: persists the submission for the session's
/// account and returns the stored entity, with its assigned identifier.
pub fn add_question(session: Session, store: &mut Store, new_question: NewQuestion) -> (r: Result<
    Question,
    CustomError,
>)
    requires
        old(store).wf(),
        old(store)@.next_question_id < i32::MAX as int,
    ensures
        final(store).wf(),
        ({
            let q = (QuestionV {
                id: old(store)@.next_question_id,
                title: new_question.title@,
                content: new_question.content@,
                tags: tags_view(new_question.tags),
                owner: session.account_id.0 as int,
            });
            &&& r matches Ok(created) && created@ == q
            &&& final(store)@.questions == old(store)@.questions.push(q)
        }),
        final(store)@.answers == old(store)@.answers,
        final(store)@.accounts == old(store)@.accounts,
        final(store)@.next_question_id == old(store)@.next_question_id + 1,
        final(store)@.next_answer_id == old(store)@.next_answer_id,
        final(store)@.next_account_id == old(store)@.next_account_id,
{
    let account_id = session.account_id;
    let question = NewQuestion {
        title: new_question.title,
        content: new_question.content,
        tags: new_question.tags,
    };
    store.add_question(question, account_id)
}

/// Handles a question update. The ownership gate is consulted first: a
/// principal that does not own the question is turned away as unauthorized
/// and the store is left untouched; the owner's new fields are persisted
/// against the row matching both identifier and owner.
pub fn update_question(id: i32, session: Session, store: &mut Store, question: Question) -> (r:
    Result<Question, CustomError>)
    requires
        old(store).wf(),
    ensures
        final(store).wf(),
        !owns_question_v(old(store)@.questions, id as int, session.account_id.0 as int) ==> (
        r matches Err(e) && e matches CustomError::Unauthorized && *final(store) == *old(store)),
        owns_question_v(old(store)@.questions, id as int, session.account_id.0 as int) ==> ({
            let updated = (QuestionV {
                id: id as int,
                title: question.title@,
                content: question.content@,
                tags: tags_view(question.tags),
                owner: session.account_id.0 as int,
            });
            &&& r matches Ok(ret) && ret@ == updated
            &&& final(store)@.questions.len() == old(store)@.questions.len()
            &&& forall|k: int|
                0 <= k < old(store)@.questions.len() && (#[trigger] old(store)@.questions[k]).id
                    != id as int ==> final(store)@.questions[k] == old(store)@.questions[k]
            &&& forall|k: int|
                0 <= k < old(store)@.questions.len() && (#[trigger] old(store)@.questions[k]).id
                    == id as int ==> final(store)@.questions[k] == updated
            &&& final(store)@.answers == old(store)@.answers
            &&& final(store)@.accounts == old(store)@.accounts
            &&& final(store)@.next_question_id == old(store)@.next_question_id
            &&& final(store)@.next_answer_id == old(store)@.next_answer_id
            &&& final(store)@.next_account_id == old(store)@.next_account_id
        }),
{
    let account_id = session.account_id;
    let owner = match store.is_question_owner(id, &account_id) {
        Ok(b) => b,
        Err(e) => {
            return Err(e);
        },
    };
    if owner {
        store.update_question(question, id, account_id)
    } else {
        Err(CustomError::Unauthorized)
    }
}

/// Handles a question deletion. The ownership gate is consulted first: a
/// principal that does not own the question is turned away as unauthorized
/// and the store is left untouched; for the owner, the question's answers
/// are removed first and the question row after them.
pub fn delete_question(id: i32, session: Session, store: &mut Store) -> (r: Result<
    bool,
    CustomError,
>)
    requires
        old(store).wf(),
    ensures
        final(store).wf(),
        !owns_question_v(old(store)@.questions, id as int, session.account_id.0 as int) ==> (
        r matches Err(e) && e matches CustomError::Unauthorized && *final(store) == *old(store)),
        owns_question_v(old(store)@.questions, id as int, session.account_id.0 as int) ==> ({
            &&& r matches Ok(b) && b
            &&& final(store)@.answers == answers_not_for(old(store)@.answers, id as int)
            &&& final(store)@.questions == questions_without(
                old(store)@.questions,
                id as int,
                session.account_id.0 as int,
            )
            &&& final(store)@.accounts == old(store)@.accounts
            &&& final(store)@.next_question_id == old(store)@.next_question_id
            &&& final(store)@.next_answer_id == old(store)@.next_answer_id
            &&& final(store)@.next_account_id == old(store)@.next_account_id
        }),
{
    let account_id = session.account_id;
    let owner = match store.is_question_owner(id, &account_id) {
        Ok(b) => b,
        Err(e) => {
            return Err(e);
        },
    };
    if owner {
        store.delete_question(id, account_id)
    } else {
        Err(CustomError::Unauthorized)
    }
}

/// Applies the outcomes of the external content filter to a submission:
/// the first failed field check fails the submission, the `title` one
/// first; otherwise the filtered texts replace the submitted ones.
pub fn apply_content_checks(
    tags: Option<Vec<String>>,
    title_check: Result<String, CustomError>,
    content_check: Result<String, CustomError>,
) -> (r: Result<NewQuestion, CustomError>)
    ensures
        title_check is Err ==> (r is Err && r->Err_0 == title_check->Err_0),
        (title_check is Ok && content_check is Err) ==> (r is Err && r->Err_0
            == content_check->Err_0),
        (title_check is Ok && content_check is Ok) ==> (r is Ok && r->Ok_0.title
            == title_check->Ok_0 && r->Ok_0.content == content_check->Ok_0 && r->Ok_0.tags
            == tags),
{
    let title = match title_check {
        Ok(t) => t,
        Err(e) => {
            return Err(e);
        },
    };
    let content = match content_check {
        Ok(c) => c,
        Err(e) => {
            return Err(e);
        },
    };
    Ok(NewQuestion { title, content, tags })
}

} // verus!
