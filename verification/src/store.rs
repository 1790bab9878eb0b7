use vstd::prelude::*;

use crate::errors::CustomError;
use crate::errors::DbError;
use crate::errors::DUPLICATE_KEY;
use crate::errors::FOREIGN_KEY_VIOLATION;
use crate::types::account::Account;
use crate::types::account::AccountId;
use crate::types::account::AccountV;
use crate::types::answer::Answer;
use crate::types::answer::AnswerId;
use crate::types::answer::AnswerV;
use crate::types::answer::NewAnswer;
use crate::types::pagination::paginate;
use crate::types::question::Question;
use crate::types::question::QuestionId;
use crate::types::question::QuestionV;
use crate::types::question::NewQuestion;

verus! {

/// The images of a sequence of stored questions.
pub open spec fn q_views(s: Seq<Question>) -> Seq<QuestionV> {
    s.map_values(|q: Question| q@)
}

/// The images of a sequence of stored answers.
pub open spec fn a_views(s: Seq<Answer>) -> Seq<AnswerV> {
    s.map_values(|a: Answer| a@)
}

/// The images of a sequence of stored accounts.
pub open spec fn acc_views(s: Seq<Account>) -> Seq<AccountV> {
    s.map_values(|a: Account| a@)
}

/// Whether a question with the given identifier exists.
pub open spec fn has_question_v(questions: Seq<QuestionV>, qid: int) -> bool {
    exists|i: int| 0 <= i < questions.len() && questions[i].id == qid
}

/// Whether a question with the given identifier exists and belongs to the
/// given account.
pub open spec fn owns_question_v(questions: Seq<QuestionV>, qid: int, owner: int) -> bool {
    exists|i: int| 0 <= i < questions.len() && questions[i].id == qid && questions[i].owner
        == owner
}

/// Whether an account with the given email exists.
pub open spec fn has_email(accounts: Seq<AccountV>, email: Seq<char>) -> bool {
    exists|i: int| 0 <= i < accounts.len() && accounts[i].email == email
}

/// The store that owns all persistent state: questions, answers and
/// accounts, each kept in creation order, together with the next identifier
/// each entity kind will be assigned.
pub struct Store {
    pub questions: Vec<Question>,
    pub answers: Vec<Answer>,
    pub accounts: Vec<Account>,
    pub next_question_id: i32,
    pub next_answer_id: i32,
    pub next_account_id: i32,
}

/// Mathematical image of the [`Store`].
pub struct StoreV {
    pub questions: Seq<QuestionV>,
    pub answers: Seq<AnswerV>,
    pub accounts: Seq<AccountV>,
    pub next_question_id: int,
    pub next_answer_id: int,
    pub next_account_id: int,
}

impl View for Store {
    type V = StoreV;

    open spec fn view(&self) -> StoreV {
        StoreV {
            questions: q_views(self.questions@),
            answers: a_views(self.answers@),
            accounts: acc_views(self.accounts@),
            next_question_id: self.next_question_id as int,
            next_answer_id: self.next_answer_id as int,
            next_account_id: self.next_account_id as int,
        }
    }
}

impl Store {
    /// Well-formedness of the store: identifiers are positive, below their
    /// entity's next identifier and pairwise distinct; every stored account
    /// carries an identifier and a unique email; and every answer references
    /// a question that exists.
    pub open spec fn wf(&self) -> bool {
        let v = self@;
        &&& 1 <= v.next_question_id
        &&& 1 <= v.next_answer_id
        &&& 1 <= v.next_account_id
        &&& forall|i: int|
            0 <= i < v.questions.len() ==> 0 < (#[trigger] v.questions[i]).id
                < v.next_question_id
        &&& forall|i: int, j: int|
            0 <= i < j < v.questions.len() ==> v.questions[i].id != v.questions[j].id
        &&& forall|i: int|
            0 <= i < v.answers.len() ==> 0 < (#[trigger] v.answers[i]).id < v.next_answer_id
        &&& forall|i: int, j: int|
            0 <= i < j < v.answers.len() ==> v.answers[i].id != v.answers[j].id
        &&& forall|i: int|
            0 <= i < v.accounts.len() ==> ((#[trigger] v.accounts[i]).id matches Some(a) && 0 < a
                < v.next_account_id)
        &&& forall|i: int, j: int|
            0 <= i < j < v.accounts.len() ==> v.accounts[i].id != v.accounts[j].id
        &&& forall|i: int, j: int|
            0 <= i < j < v.accounts.len() ==> v.accounts[i].email != v.accounts[j].email
        &&& forall|i: int|
            0 <= i < v.answers.len() ==> has_question_v(
                v.questions,
                (#[trigger] v.answers[i]).question_id,
            )
    }

    /// A fresh store: no entities, identifiers starting at one.
    pub fn new() -> (s: Store)
        ensures
            s.wf(),
            s@.questions =~= Seq::<QuestionV>::empty(),
            s@.answers =~= Seq::<AnswerV>::empty(),
            s@.accounts =~= Seq::<AccountV>::empty(),
            s@.next_question_id == 1,
            s@.next_answer_id == 1,
            s@.next_account_id == 1,
    {
        Store {
            questions: Vec::new(),
            answers: Vec::new(),
            accounts: Vec::new(),
            next_question_id: 1,
            next_answer_id: 1,
            next_account_id: 1,
        }
    }

    /// Lists questions in creation order, skipping `offset` of them and
    /// returning at most `limit`. An offset beyond the end yields an empty
    /// listing, never an error.
    pub fn get_questions(&self, limit: Option<u32>, offset: u32) -> (r: Result<
        Vec<Question>,
        CustomError,
    >)
        ensures
            r matches Ok(v) && q_views(v@) == paginate(self@.questions, limit, offset),
    {
        Ok(paginate_questions(&self.questions, limit, offset))
    }

    /// The ownership gate: whether the question exists and belongs to the
    /// given account. A missing question and a question under another owner
    /// are both reported as `false`, so a caller cannot tell resource
    /// absence from foreign ownership.
    pub fn is_question_owner(&self, question_id: i32, account_id: &AccountId) -> (r: Result<
        bool,
        CustomError,
    >)
        ensures
            r matches Ok(b) && b == owns_question_v(
                self@.questions,
                question_id as int,
                account_id.0 as int,
            ),
    {
        let mut i: usize = 0;
        while i < self.questions.len()
            invariant
                i <= self.questions@.len(),
                forall|j: int|
                    0 <= j < i ==> !((#[trigger] self@.questions[j]).id == question_id as int
                        && self@.questions[j].owner == account_id.0 as int),
            decreases self.questions@.len() - i,
        {
            let q = &self.questions[i];
            if q.id.0 == question_id && q.owner.0 == account_id.0 {
                proof {
                    assert(self@.questions[i as int].id == question_id as int);
                    assert(self@.questions[i as int].owner == account_id.0 as int);
                }
                return Ok(true);
            }
            i = i + 1;
        }
        Ok(false)
    }

    /// Whether a question with the given identifier exists.
    fn contains_question(&self, question_id: i32) -> (r: bool)
        ensures
            r == has_question_v(self@.questions, question_id as int),
    {
        let mut i: usize = 0;
        while i < self.questions.len()
            invariant
                i <= self.questions@.len(),
                forall|j: int|
                    0 <= j < i ==> (#[trigger] self@.questions[j]).id != question_id as int,
            decreases self.questions@.len() - i,
        {
            let q = &self.questions[i];
            if q.id.0 == question_id {
                proof {
                    assert(self@.questions[i as int].id == question_id as int);
                }
                return true;
            }
            i = i + 1;
        }
        false
    }

    /// Persists a new question for the given owner and returns it, with its
    /// assigned identifier.
    pub fn add_question(&mut self, new_question: NewQuestion, account_id: AccountId) -> (r: Result<
        Question,
        CustomError,
    >)
        requires
            old(self).wf(),
            old(self)@.next_question_id < i32::MAX as int,
        ensures
            final(self).wf(),
            ({
                let q = (QuestionV {
                    id: old(self)@.next_question_id,
                    title: new_question.title@,
                    content: new_question.content@,
                    tags: crate::types::question::tags_view(new_question.tags),
                    owner: account_id.0 as int,
                });
                &&& r matches Ok(created) && created@ == q
                &&& final(self)@.questions == old(self)@.questions.push(q)
            }),
            final(self)@.answers == old(self)@.answers,
            final(self)@.accounts == old(self)@.accounts,
            final(self)@.next_question_id == old(self)@.next_question_id + 1,
            final(self)@.next_answer_id == old(self)@.next_answer_id,
            final(self)@.next_account_id == old(self)@.next_account_id,
    {
        let id = self.next_question_id;
        let question = Question {
            id: QuestionId(id),
            title: new_question.title,
            content: new_question.content,
            tags: new_question.tags,
            owner: account_id,
        };
        let created = question.clone();
        self.questions.push(question);
        self.next_question_id = id + 1;
        proof {
            assert(self@.questions =~= old(self)@.questions.push(created@));
            assert forall|k: int| 0 <= k < self@.answers.len() implies has_question_v(
                self@.questions,
                (#[trigger] self@.answers[k]).question_id,
            ) by {
                let qid = self@.answers[k].question_id;
                assert(old(self)@.answers[k].question_id == qid);
                assert(has_question_v(old(self)@.questions, qid));
                let w = choose|w: int|
                    0 <= w < old(self)@.questions.len() && old(self)@.questions[w].id == qid;
                assert(self@.questions[w].id == qid);
            }
        }
        Ok(created)
    }

    /// Persists new fields against the question matching both the identifier
    /// and the owner, and returns the updated entity. The write predicate
    /// matches on both columns, so a row is only touched while it still
    /// belongs to the caller; when no row matches, nothing changes and the
    /// operation reports a persistence failure.
    pub fn update_question(&mut self, question: Question, id: i32, account_id: AccountId) -> (r:
        Result<Question, CustomError>)
        requires
            old(self).wf(),
        ensures
            final(self).wf(),
            final(self)@.answers == old(self)@.answers,
            final(self)@.accounts == old(self)@.accounts,
            final(self)@.next_question_id == old(self)@.next_question_id,
            final(self)@.next_answer_id == old(self)@.next_answer_id,
            final(self)@.next_account_id == old(self)@.next_account_id,
            ({
                let updated = (QuestionV {
                    id: id as int,
                    title: question.title@,
                    content: question.content@,
                    tags: crate::types::question::tags_view(question.tags),
                    owner: account_id.0 as int,
                });
                if owns_question_v(old(self)@.questions, id as int, account_id.0 as int) {
                    &&& r matches Ok(ret) && ret@ == updated
                    &&& final(self)@.questions.len() == old(self)@.questions.len()
                    &&& forall|k: int|
                        0 <= k < old(self)@.questions.len() && (#[trigger] old(
                            self,
                        )@.questions[k]).id != id as int ==> final(self)@.questions[k] == old(
                            self,
                        )@.questions[k]
                    &&& forall|k: int|
                        0 <= k < old(self)@.questions.len() && (#[trigger] old(
                            self,
                        )@.questions[k]).id == id as int ==> final(self)@.questions[k] == updated
                } else {
                    &&& r matches Err(e) && e matches CustomError::DatabaseQueryError(db) && db
                        == DbError::RowNotFound
                    &&& *final(self) == *old(self)
                }
            }),
    {
        let mut i: usize = 0;
        while i < self.questions.len()
            invariant
                *self == *old(self),
                old(self).wf(),
                i <= self.questions@.len(),
                forall|j: int|
                    0 <= j < i ==> !((#[trigger] self@.questions[j]).id == id as int
                        && self@.questions[j].owner == account_id.0 as int),
            decreases self.questions@.len() - i,
        {
            let q = &self.questions[i];
            if q.id.0 == id && q.owner.0 == account_id.0 {
                let updated_q = Question {
                    id: QuestionId(id),
                    title: question.title,
                    content: question.content,
                    tags: question.tags,
                    owner: account_id,
                };
                let ret = updated_q.clone();
                proof {
                    assert(self@.questions[i as int].id == id as int);
                    assert(self@.questions[i as int].owner == account_id.0 as int);
                }
                self.questions.set(i, updated_q);
                proof {
                    let pre = old(self)@.questions;
                    let post = self@.questions;
                    assert(post =~= pre.update(i as int, ret@));
                    assert forall|k: int|
                        0 <= k < pre.len() && (#[trigger] pre[k]).id == id as int implies post[k]
                        == ret@ by {
                        if k != i {
                            assert(pre[k].id != pre[i as int].id);
                        }
                    }
                    assert forall|k: int| 0 <= k < post.len() implies (#[trigger] post[k]).id
                        == pre[k].id by {}
                    assert forall|a: int, b: int| 0 <= a < b < post.len() implies post[a].id
                        != post[b].id by {
                        assert(post[a].id == pre[a].id && post[b].id == pre[b].id);
                    }
                    assert forall|k: int| 0 <= k < self@.answers.len() implies has_question_v(
                        post,
                        (#[trigger] self@.answers[k]).question_id,
                    ) by {
                        let qid = self@.answers[k].question_id;
                        assert(old(self)@.answers[k].question_id == qid);
                        assert(has_question_v(pre, qid));
                        let w = choose|w: int| 0 <= w < pre.len() && pre[w].id == qid;
                        assert(post[w].id == qid);
                    }
                }
                return Ok(ret);
            }
            i = i + 1;
        }
        Err(CustomError::DatabaseQueryError(DbError::RowNotFound))
    }

    /// Removes every answer that belongs to the given question. This is the
    /// first step of deleting a question; it reports completion before the
    /// question row itself may be removed.
    fn delete_all_question_answers(&mut self, id: i32) -> (r: Result<bool, CustomError>)
        requires
            old(self).wf(),
        ensures
            final(self).wf(),
            r matches Ok(b) && b,
            final(self)@.answers == answers_not_for(old(self)@.answers, id as int),
            final(self)@.questions == old(self)@.questions,
            final(self)@.accounts == old(self)@.accounts,
            final(self)@.next_question_id == old(self)@.next_question_id,
            final(self)@.next_answer_id == old(self)@.next_answer_id,
            final(self)@.next_account_id == old(self)@.next_account_id,
    {
        let mut kept: Vec<Answer> = Vec::new();
        let mut i: usize = 0;
        proof {
            assert(self.answers@.subrange(0, 0) =~= Seq::<Answer>::empty());
            assert(a_views(kept@) =~= answers_not_for(
                a_views(self.answers@.subrange(0, 0)),
                id as int,
            ));
        }
        while i < self.answers.len()
            invariant
                *self == *old(self),
                old(self).wf(),
                i <= self.answers@.len(),
                a_views(kept@) == answers_not_for(
                    a_views(self.answers@.subrange(0, i as int)),
                    id as int,
                ),
            decreases self.answers@.len() - i,
        {
            proof {
                let sub = self.answers@.subrange(0, i as int);
                let sub1 = self.answers@.subrange(0, i as int + 1);
                assert(sub1.drop_last() =~= sub);
                assert(a_views(sub1).drop_last() =~= a_views(sub));
                assert(a_views(sub1).last() == self.answers@[i as int]@);
            }
            let a = &self.answers[i];
            if a.question_id.0 != id {
                kept.push(a.clone());
                proof {
                    assert(a_views(kept@) =~= answers_not_for(
                        a_views(self.answers@.subrange(0, i as int + 1)),
                        id as int,
                    ));
                }
            } else {
                proof {
                    assert(a_views(kept@) =~= answers_not_for(
                        a_views(self.answers@.subrange(0, i as int + 1)),
                        id as int,
                    ));
                }
            }
            i = i + 1;
        }
        proof {
            assert(self.answers@.subrange(0, self.answers@.len() as int) =~= self.answers@);
        }
        self.answers = kept;
        proof {
            let out = answers_not_for(old(self)@.answers, id as int);
            assert(self@.answers == out);
            assert(self@.questions == old(self)@.questions);
            lemma_answers_not_for_props(old(self)@.answers, id as int);
            lemma_answers_not_for_distinct(old(self)@.answers, id as int);
            assert forall|k: int| 0 <= k < self@.answers.len() implies 0 < (
            #[trigger] self@.answers[k]).id < self@.next_answer_id && has_question_v(
                self@.questions,
                self@.answers[k].question_id,
            ) by {
                assert(old(self)@.answers.contains(out[k]));
                let j = choose|j: int|
                    0 <= j < old(self)@.answers.len() && old(self)@.answers[j] == out[k];
                assert(has_question_v(old(self)@.questions, old(self)@.answers[j].question_id));
            }
        }
        Ok(true)
    }

    /// Deletes a question in two ordered steps: first every answer that
    /// references it, then the question row matching both the identifier and
    /// the owner. The second step is attempted only after the first
    /// completes, so a removed question never leaves orphaned answers
    /// behind; when no row matches both the identifier and the owner, the
    /// answers of the question are still removed and the question remains.
    pub fn delete_question(&mut self, id: i32, account_id: AccountId) -> (r: Result<
        bool,
        CustomError,
    >)
        requires
            old(self).wf(),
        ensures
            final(self).wf(),
            r matches Ok(b) && b,
            final(self)@.answers == answers_not_for(old(self)@.answers, id as int),
            final(self)@.questions == questions_without(
                old(self)@.questions,
                id as int,
                account_id.0 as int,
            ),
            final(self)@.accounts == old(self)@.accounts,
            final(self)@.next_question_id == old(self)@.next_question_id,
            final(self)@.next_answer_id == old(self)@.next_answer_id,
            final(self)@.next_account_id == old(self)@.next_account_id,
    {
        match self.delete_all_question_answers(id) {
            Ok(_) => {},
            Err(e) => {
                return Err(e);
            },
        }
        let mut kept: Vec<Question> = Vec::new();
        let mut i: usize = 0;
        proof {
            assert(self.questions@.subrange(0, 0) =~= Seq::<Question>::empty());
            assert(q_views(kept@) =~= questions_without(
                q_views(self.questions@.subrange(0, 0)),
                id as int,
                account_id.0 as int,
            ));
        }
        while i < self.questions.len()
            invariant
                old(self).wf(),
                self@.answers == answers_not_for(old(self)@.answers, id as int),
                self@.questions == old(self)@.questions,
                self@.accounts == old(self)@.accounts,
                self@.next_question_id == old(self)@.next_question_id,
                self@.next_answer_id == old(self)@.next_answer_id,
                self@.next_account_id == old(self)@.next_account_id,
                self.wf(),
                i <= self.questions@.len(),
                q_views(kept@) == questions_without(
                    q_views(self.questions@.subrange(0, i as int)),
                    id as int,
                    account_id.0 as int,
                ),
            decreases self.questions@.len() - i,
        {
            proof {
                let sub = self.questions@.subrange(0, i as int);
                let sub1 = self.questions@.subrange(0, i as int + 1);
                assert(sub1.drop_last() =~= sub);
                assert(q_views(sub1).drop_last() =~= q_views(sub));
                assert(q_views(sub1).last() == self.questions@[i as int]@);
            }
            let q = &self.questions[i];
            if !(q.id.0 == id && q.owner.0 == account_id.0) {
                kept.push(q.clone());
                proof {
                    assert(q_views(kept@) =~= questions_without(
                        q_views(self.questions@.subrange(0, i as int + 1)),
                        id as int,
                        account_id.0 as int,
                    ));
                }
            } else {
                proof {
                    assert(q_views(kept@) =~= questions_without(
                        q_views(self.questions@.subrange(0, i as int + 1)),
                        id as int,
                        account_id.0 as int,
                    ));
                }
            }
            i = i + 1;
        }
        proof {
            assert(self.questions@.subrange(0, self.questions@.len() as int) =~= self.questions@);
        }
        self.questions = kept;
        proof {
            let out = questions_without(old(self)@.questions, id as int, account_id.0 as int);
            let kept_answers = answers_not_for(old(self)@.answers, id as int);
            assert(self@.questions == out);
            assert(self@.answers == kept_answers);
            lemma_questions_without_props(old(self)@.questions, id as int, account_id.0 as int);
            lemma_questions_without_distinct(old(self)@.questions, id as int, account_id.0 as int);
            lemma_answers_not_for_props(old(self)@.answers, id as int);
            assert forall|k: int| 0 <= k < self@.questions.len() implies 0 < (
            #[trigger] self@.questions[k]).id < self@.next_question_id by {
                assert(old(self)@.questions.contains(out[k]));
                let j = choose|j: int|
                    0 <= j < old(self)@.questions.len() && old(self)@.questions[j] == out[k];
            }
            assert forall|k: int| 0 <= k < self@.answers.len() implies 0 < (
            #[trigger] self@.answers[k]).id < self@.next_answer_id && has_question_v(
                self@.questions,
                self@.answers[k].question_id,
            ) by {
                assert(old(self)@.answers.contains(kept_answers[k]));
                let j = choose|j: int|
                    0 <= j < old(self)@.answers.len() && old(self)@.answers[j] == kept_answers[k];
                let qid = kept_answers[k].question_id;
                assert(qid != id as int);
                assert(has_question_v(old(self)@.questions, old(self)@.answers[j].question_id));
                let w = choose|w: int|
                    0 <= w < old(self)@.questions.len() && old(self)@.questions[w].id == qid;
                assert(!((old(self)@.questions[w]).id == id as int && old(
                    self,
                )@.questions[w].owner == account_id.0 as int));
                assert(out.contains(old(self)@.questions[w]));
                let m = choose|m: int| 0 <= m < out.len() && out[m] == old(self)@.questions[w];
                assert(self@.questions[m].id == qid);
            }
        }
        Ok(true)
    }

    /// Lists the answers of one question in creation order, skipping
    /// `offset` of them and returning at most `limit`. A question without
    /// answers and a question that does not exist both yield an empty
    /// listing, never an error.
    pub fn get_question_answers(&self, limit: Option<u32>, offset: u32, question_id: i32) -> (r:
        Result<Vec<Answer>, CustomError>)
        ensures
            r matches Ok(v) && a_views(v@) == paginate(
                answers_for(self@.answers, question_id as int),
                limit,
                offset,
            ),
    {
        let mut matching: Vec<Answer> = Vec::new();
        let mut i: usize = 0;
        proof {
            assert(self.answers@.subrange(0, 0) =~= Seq::<Answer>::empty());
            assert(a_views(matching@) =~= answers_for(
                a_views(self.answers@.subrange(0, 0)),
                question_id as int,
            ));
        }
        while i < self.answers.len()
            invariant
                i <= self.answers@.len(),
                a_views(matching@) == answers_for(
                    a_views(self.answers@.subrange(0, i as int)),
                    question_id as int,
                ),
            decreases self.answers@.len() - i,
        {
            proof {
                let sub = self.answers@.subrange(0, i as int);
                let sub1 = self.answers@.subrange(0, i as int + 1);
                assert(sub1.drop_last() =~= sub);
                assert(a_views(sub1).drop_last() =~= a_views(sub));
                assert(a_views(sub1).last() == self.answers@[i as int]@);
            }
            let a = &self.answers[i];
            if a.question_id.0 == question_id {
                matching.push(a.clone());
                proof {
                    assert(a_views(matching@) =~= answers_for(
                        a_views(self.answers@.subrange(0, i as int + 1)),
                        question_id as int,
                    ));
                }
            } else {
                proof {
                    assert(a_views(matching@) =~= answers_for(
                        a_views(self.answers@.subrange(0, i as int + 1)),
                        question_id as int,
                    ));
                }
            }
            i = i + 1;
        }
        proof {
            assert(self.answers@.subrange(0, self.answers@.len() as int) =~= self.answers@);
        }
        Ok(paginate_answers(&matching, limit, offset))
    }

    /// Persists a new answer for the given owner against an existing
    /// question and returns it. When the referenced question does not
    /// exist, the backend rejects the reference and the operation reports a
    /// persistence failure carrying the backend's reference-violation code.
    pub fn add_answer(&mut self, new_answer: NewAnswer, account_id: AccountId) -> (r: Result<
        Answer,
        CustomError,
    >)
        requires
            old(self).wf(),
            has_question_v(old(self)@.questions, new_answer.question_id.0 as int) ==> old(
                self,
            )@.next_answer_id < i32::MAX as int,
        ensures
            final(self).wf(),
            ({
                let a = (AnswerV {
                    id: old(self)@.next_answer_id,
                    content: new_answer.content@,
                    question_id: new_answer.question_id.0 as int,
                    owner: account_id.0 as int,
                });
                if has_question_v(old(self)@.questions, new_answer.question_id.0 as int) {
                    &&& r matches Ok(created) && created@ == a
                    &&& final(self)@.answers == old(self)@.answers.push(a)
                    &&& final(self)@.questions == old(self)@.questions
                    &&& final(self)@.accounts == old(self)@.accounts
                    &&& final(self)@.next_answer_id == old(self)@.next_answer_id + 1
                    &&& final(self)@.next_question_id == old(self)@.next_question_id
                    &&& final(self)@.next_account_id == old(self)@.next_account_id
                } else {
                    &&& r matches Err(e) && e matches CustomError::DatabaseQueryError(db) && db
                        == (DbError::Database { code: FOREIGN_KEY_VIOLATION })
                    &&& *final(self) == *old(self)
                }
            }),
    {
        if !self.contains_question(new_answer.question_id.0) {
            return Err(
                CustomError::DatabaseQueryError(DbError::Database { code: FOREIGN_KEY_VIOLATION }),
            );
        }
        let id = self.next_answer_id;
        let answer = Answer {
            id: AnswerId(id),
            content: new_answer.content,
            question_id: new_answer.question_id,
            owner: account_id,
        };
        let created = answer.clone();
        self.answers.push(answer);
        self.next_answer_id = id + 1;
        proof {
            assert(self@.answers =~= old(self)@.answers.push(created@));
            assert(self@.questions == old(self)@.questions);
            assert forall|k: int| 0 <= k < self@.answers.len() implies has_question_v(
                self@.questions,
                (#[trigger] self@.answers[k]).question_id,
            ) by {
                let qid = self@.answers[k].question_id;
                if k < old(self)@.answers.len() {
                    assert(old(self)@.answers[k].question_id == qid);
                    assert(has_question_v(old(self)@.questions, qid));
                } else {
                    assert(qid == new_answer.question_id.0 as int);
                }
            }
        }
        Ok(created)
    }

    /// Persists a new account, assigning it an identifier. An email that is
    /// already taken is rejected with the backend's uniqueness-violation
    /// code, which is the one failure a caller can tell apart from any
    /// other persistence failure.
    pub fn add_account(&mut self, account: Account) -> (r: Result<bool, CustomError>)
        requires
            old(self).wf(),
            !has_email(old(self)@.accounts, account.email@) ==> old(self)@.next_account_id
                < i32::MAX as int,
        ensures
            final(self).wf(),
            if has_email(old(self)@.accounts, account.email@) {
                &&& r matches Err(e) && e matches CustomError::DatabaseQueryError(db) && db == (
                DbError::Database { code: DUPLICATE_KEY })
                &&& *final(self) == *old(self)
            } else {
                &&& r matches Ok(b) && b
                &&& final(self)@.accounts == old(self)@.accounts.push(
                    AccountV {
                        id: Some(old(self)@.next_account_id),
                        email: account.email@,
                        password: account.password@,
                    },
                )
                &&& final(self)@.questions == old(self)@.questions
                &&& final(self)@.answers == old(self)@.answers
                &&& final(self)@.next_account_id == old(self)@.next_account_id + 1
                &&& final(self)@.next_question_id == old(self)@.next_question_id
                &&& final(self)@.next_answer_id == old(self)@.next_answer_id
            },
    {
        let mut i: usize = 0;
        while i < self.accounts.len()
            invariant
                *self == *old(self),
                old(self).wf(),
                i <= self.accounts@.len(),
                forall|j: int|
                    0 <= j < i ==> (#[trigger] self@.accounts[j]).email != account.email@,
            decreases self.accounts@.len() - i,
        {
            let existing = &self.accounts[i];
            if existing.email == account.email {
                proof {
                    assert(self@.accounts[i as int].email == account.email@);
                }
                return Err(CustomError::DatabaseQueryError(DbError::Database { code: DUPLICATE_KEY }));
            }
            i = i + 1;
        }
        let id = self.next_account_id;
        let stored = Account {
            id: Some(AccountId(id)),
            email: account.email,
            password: account.password,
        };
        self.accounts.push(stored);
        self.next_account_id = id + 1;
        proof {
            assert(self@.accounts =~= old(self)@.accounts.push(
                AccountV {
                    id: Some(old(self)@.next_account_id),
                    email: account.email@,
                    password: account.password@,
                },
            ));
            assert(self@.questions == old(self)@.questions);
            assert(self@.answers == old(self)@.answers);
            assert forall|k: int| 0 <= k < self@.answers.len() implies has_question_v(
                self@.questions,
                (#[trigger] self@.answers[k]).question_id,
            ) by {
                assert(old(self)@.answers[k] == self@.answers[k]);
            }
        }
        Ok(true)
    }

    /// Looks an account up by its email. A missing account and a failed
    /// query are reported the same way, as a persistence failure.
    pub fn get_account(&self, email: String) -> (r: Result<Account, CustomError>)
        ensures
            if has_email(self@.accounts, email@) {
                r matches Ok(a) && exists|i: int|
                    0 <= i < self@.accounts.len() && (#[trigger] self@.accounts[i]).email == email@
                        && a@ == self@.accounts[i]
            } else {
                r matches Err(e) && e matches CustomError::DatabaseQueryError(db) && db
                    == DbError::RowNotFound
            },
    {
        let mut i: usize = 0;
        while i < self.accounts.len()
            invariant
                i <= self.accounts@.len(),
                forall|j: int| 0 <= j < i ==> (#[trigger] self@.accounts[j]).email != email@,
            decreases self.accounts@.len() - i,
        {
            let existing = &self.accounts[i];
            if existing.email == email {
                let found = existing.clone();
                proof {
                    assert(self@.accounts[i as int].email == email@);
                    assert(found@ == self@.accounts[i as int]);
                }
                return Ok(found);
            }
            i = i + 1;
        }
        Err(CustomError::DatabaseQueryError(DbError::RowNotFound))
    }
}

/// The answers that belong to the given question, in creation order.
pub open spec fn answers_for(answers: Seq<AnswerV>, qid: int) -> Seq<AnswerV>
    decreases answers.len(),
{
    if answers.len() == 0 {
        Seq::<AnswerV>::empty()
    } else {
        let rest = answers_for(answers.drop_last(), qid);
        if answers.last().question_id == qid {
            rest.push(answers.last())
        } else {
            rest
        }
    }
}

/// The answers left once those of the given question are removed, in
/// creation order.
pub open spec fn answers_not_for(answers: Seq<AnswerV>, qid: int) -> Seq<AnswerV>
    decreases answers.len(),
{
    if answers.len() == 0 {
        Seq::<AnswerV>::empty()
    } else {
        let rest = answers_not_for(answers.drop_last(), qid);
        if answers.last().question_id != qid {
            rest.push(answers.last())
        } else {
            rest
        }
    }
}

/// The questions left once the row matching both the identifier and the
/// owner is removed, in creation order.
pub open spec fn questions_without(questions: Seq<QuestionV>, qid: int, owner: int) -> Seq<
    QuestionV,
>
    decreases questions.len(),
{
    if questions.len() == 0 {
        Seq::<QuestionV>::empty()
    } else {
        let rest = questions_without(questions.drop_last(), qid, owner);
        if !(questions.last().id == qid && questions.last().owner == owner) {
            rest.push(questions.last())
        } else {
            rest
        }
    }
}

/// Every remaining answer came from the input sequence and does not
/// belong to the removed question; conversely, every answer of another
/// question remains.
pub proof fn lemma_answers_not_for_props(answers: Seq<AnswerV>, qid: int)
    ensures
        answers_not_for(answers, qid).len() <= answers.len(),
        forall|k: int|
            0 <= k < answers_not_for(answers, qid).len() ==> (#[trigger] answers_not_for(
                answers,
                qid,
            )[k]).question_id != qid && answers.contains(answers_not_for(answers, qid)[k]),
        forall|k: int|
            0 <= k < answers.len() && (#[trigger] answers[k]).question_id != qid
                ==> answers_not_for(answers, qid).contains(answers[k]),
    decreases answers.len(),
{
    if answers.len() > 0 {
        let prefix = answers.drop_last();
        let rest = answers_not_for(prefix, qid);
        let out = answers_not_for(answers, qid);
        lemma_answers_not_for_props(prefix, qid);
        assert forall|k: int| 0 <= k < out.len() implies (#[trigger] out[k]).question_id != qid
            && answers.contains(out[k]) by {
            if k < rest.len() {
                let j = choose|j: int| 0 <= j < prefix.len() && prefix[j] == rest[k];
                assert(answers[j] == rest[k]);
            } else {
                assert(out[k] == answers.last());
                assert(answers[answers.len() - 1] == answers.last());
            }
        }
        assert forall|k: int|
            0 <= k < answers.len() && (#[trigger] answers[k]).question_id != qid implies out.contains(
            answers[k],
        ) by {
            if k < answers.len() - 1 {
                assert(prefix[k] == answers[k]);
                let j = choose|j: int| 0 <= j < rest.len() && rest[j] == prefix[k];
                assert(out[j] == answers[k]);
            } else {
                assert(answers[k] == answers.last());
                assert(out[out.len() - 1] == answers.last());
            }
        }
    }
}

/// Removing a question's answers keeps the remaining identifiers pairwise
/// distinct.
pub proof fn lemma_answers_not_for_distinct(answers: Seq<AnswerV>, qid: int)
    requires
        forall|i: int, j: int| 0 <= i < j < answers.len() ==> answers[i].id != answers[j].id,
    ensures
        forall|i: int, j: int|
            0 <= i < j < answers_not_for(answers, qid).len() ==> answers_not_for(answers, qid)[i].id
                != answers_not_for(answers, qid)[j].id,
    decreases answers.len(),
{
    if answers.len() > 0 {
        let prefix = answers.drop_last();
        let rest = answers_not_for(prefix, qid);
        let out = answers_not_for(answers, qid);
        lemma_answers_not_for_props(prefix, qid);
        lemma_answers_not_for_distinct(prefix, qid);
        assert forall|i: int, j: int| 0 <= i < j < out.len() implies out[i].id != out[j].id by {
            if j < rest.len() {
                assert(out[i] == rest[i] && out[j] == rest[j]);
            } else if j == rest.len() && out.len() > rest.len() {
                let w = choose|w: int| 0 <= w < prefix.len() && prefix[w] == rest[i];
                assert(answers[w] == rest[i]);
                assert(answers[answers.len() - 1] == out[j]);
            }
        }
    }
}

/// Every remaining question came from the input sequence and is not the
/// removed row; conversely, every other question remains.
pub proof fn lemma_questions_without_props(questions: Seq<QuestionV>, qid: int, owner: int)
    ensures
        questions_without(questions, qid, owner).len() <= questions.len(),
        forall|k: int|
            0 <= k < questions_without(questions, qid, owner).len() ==> !((#[trigger] questions_without(
                questions,
                qid,
                owner,
            )[k]).id == qid && questions_without(questions, qid, owner)[k].owner == owner)
                && questions.contains(questions_without(questions, qid, owner)[k]),
        forall|k: int|
            0 <= k < questions.len() && !((#[trigger] questions[k]).id == qid
                && questions[k].owner == owner) ==> questions_without(
                questions,
                qid,
                owner,
            ).contains(questions[k]),
    decreases questions.len(),
{
    if questions.len() > 0 {
        let prefix = questions.drop_last();
        let rest = questions_without(prefix, qid, owner);
        let out = questions_without(questions, qid, owner);
        lemma_questions_without_props(prefix, qid, owner);
        assert forall|k: int| 0 <= k < out.len() implies !((#[trigger] out[k]).id == qid
            && out[k].owner == owner) && questions.contains(out[k]) by {
            if k < rest.len() {
                let j = choose|j: int| 0 <= j < prefix.len() && prefix[j] == rest[k];
                assert(questions[j] == rest[k]);
            } else {
                assert(out[k] == questions.last());
                assert(questions[questions.len() - 1] == questions.last());
            }
        }
        assert forall|k: int|
            0 <= k < questions.len() && !((#[trigger] questions[k]).id == qid
                && questions[k].owner == owner) implies out.contains(questions[k]) by {
            if k < questions.len() - 1 {
                assert(prefix[k] == questions[k]);
                let j = choose|j: int| 0 <= j < rest.len() && rest[j] == prefix[k];
                assert(out[j] == questions[k]);
            } else {
                assert(questions[k] == questions.last());
                assert(out[out.len() - 1] == questions.last());
            }
        }
    }
}

/// Removing a question keeps the remaining identifiers pairwise distinct.
pub proof fn lemma_questions_without_distinct(questions: Seq<QuestionV>, qid: int, owner: int)
    requires
        forall|i: int, j: int| 0 <= i < j < questions.len() ==> questions[i].id != questions[j].id,
    ensures
        forall|i: int, j: int|
            0 <= i < j < questions_without(questions, qid, owner).len() ==> questions_without(
                questions,
                qid,
                owner,
            )[i].id != questions_without(questions, qid, owner)[j].id,
    decreases questions.len(),
{
    if questions.len() > 0 {
        let prefix = questions.drop_last();
        let rest = questions_without(prefix, qid, owner);
        let out = questions_without(questions, qid, owner);
        lemma_questions_without_props(prefix, qid, owner);
        lemma_questions_without_distinct(prefix, qid, owner);
        assert forall|i: int, j: int| 0 <= i < j < out.len() implies out[i].id != out[j].id by {
            if j < rest.len() {
                assert(out[i] == rest[i] && out[j] == rest[j]);
            } else if j == rest.len() && out.len() > rest.len() {
                let w = choose|w: int| 0 <= w < prefix.len() && prefix[w] == rest[i];
                assert(questions[w] == rest[i]);
                assert(questions[questions.len() - 1] == out[j]);
            }
        }
    }
}

/// The ownership gate reports `false` both when no question carries the
/// identifier and when every question that carries it belongs to someone
/// else: the two cases are indistinguishable to the caller, so resource
/// existence is not leaked to non-owners.
pub proof fn lemma_gate_denies_non_owner(questions: Seq<QuestionV>, qid: int, account: int)
    requires
        forall|i: int|
            0 <= i < questions.len() && (#[trigger] questions[i]).id == qid ==> questions[i].owner
                != account,
    ensures
        !owns_question_v(questions, qid, account),
{
}

/// A sequence of answers none of which belongs to the given question has no
/// answers for it.
proof fn lemma_answers_for_empty(answers: Seq<AnswerV>, qid: int)
    requires
        forall|k: int| 0 <= k < answers.len() ==> (#[trigger] answers[k]).question_id != qid,
    ensures
        answers_for(answers, qid) =~= Seq::<AnswerV>::empty(),
    decreases answers.len(),
{
    if answers.len() > 0 {
        assert forall|k: int| 0 <= k < answers.drop_last().len() implies (
        #[trigger] answers.drop_last()[k]).question_id != qid by {
            assert(answers[k].question_id != qid);
        }
        lemma_answers_for_empty(answers.drop_last(), qid);
    }
}

/// Deleting a question removes every answer that referenced it: a
/// subsequent listing of that question's answers is empty, whatever
/// pagination is applied.
pub proof fn lemma_cascade_leaves_no_answers(
    answers: Seq<AnswerV>,
    qid: int,
    limit: Option<u32>,
    offset: u32,
)
    ensures
        paginate(answers_for(answers_not_for(answers, qid), qid), limit, offset) =~= Seq::<
            AnswerV,
        >::empty(),
{
    lemma_answers_not_for_props(answers, qid);
    lemma_answers_for_empty(answers_not_for(answers, qid), qid);
}

/// Creating a question in a store with no questions and immediately listing
/// with offset zero and limit one yields exactly the created entity.
pub proof fn lemma_create_then_first(questions: Seq<QuestionV>, q: QuestionV)
    requires
        questions.len() == 0,
    ensures
        paginate(questions.push(q), Some(1u32), 0u32) =~= seq![q],
{
}

/// Copies the page of `src` that `limit` and `offset` select.
fn paginate_questions(src: &Vec<Question>, limit: Option<u32>, offset: u32) -> (r: Vec<Question>)
    ensures
        q_views(r@) == paginate(q_views(src@), limit, offset),
{
    let len = src.len();
    let start = if (offset as usize) < len {
        offset as usize
    } else {
        len
    };
    let avail = len - start;
    let count = match limit {
        Some(l) => if (l as usize) < avail {
            l as usize
        } else {
            avail
        },
        None => avail,
    };
    let mut out: Vec<Question> = Vec::new();
    let mut j: usize = 0;
    while j < count
        invariant
            start + count <= src@.len(),
            src@.len() <= usize::MAX,
            j <= count,
            out@.len() == j,
            forall|k: int| 0 <= k < j ==> (#[trigger] out@[k])@ == src@[start + k]@,
        decreases count - j,
    {
        out.push(src[start + j].clone());
        j = j + 1;
    }
    proof {
        assert(q_views(out@) =~= paginate(q_views(src@), limit, offset));
    }
    out
}

/// Copies the page of `src` that `limit` and `offset` select.
fn paginate_answers(src: &Vec<Answer>, limit: Option<u32>, offset: u32) -> (r: Vec<Answer>)
    ensures
        a_views(r@) == paginate(a_views(src@), limit, offset),
{
    let len = src.len();
    let start = if (offset as usize) < len {
        offset as usize
    } else {
        len
    };
    let avail = len - start;
    let count = match limit {
        Some(l) => if (l as usize) < avail {
            l as usize
        } else {
            avail
        },
        None => avail,
    };
    let mut out: Vec<Answer> = Vec::new();
    let mut j: usize = 0;
    while j < count
        invariant
            start + count <= src@.len(),
            src@.len() <= usize::MAX,
            j <= count,
            out@.len() == j,
            forall|k: int| 0 <= k < j ==> (#[trigger] out@[k])@ == src@[start + k]@,
        decreases count - j,
    {
        out.push(src[start + j].clone());
        j = j + 1;
    }
    proof {
        assert(a_views(out@) =~= paginate(a_views(src@), limit, offset));
    }
    out
}

} // verus!
