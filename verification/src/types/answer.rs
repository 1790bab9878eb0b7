use vstd::prelude::*;

use crate::types::account::AccountId;
use crate::types::question::QuestionId;

verus! {

/// Unique identifier of an answer.
#[derive(Clone, Copy, PartialEq, Eq, Hash, Structural, Debug)]
pub struct AnswerId(pub i32);

/// A stored answer. It always references a question that existed when the
/// answer was created, and it is removed together with that question.
#[derive(Debug)]
pub struct Answer {
    pub id: AnswerId,
    pub content: String,
    /// The question this answer belongs to.
    pub question_id: QuestionId,
    /// The account that created the answer.
    pub owner: AccountId,
}

/// An answer as submitted for creation, before an identifier is assigned.
#[derive(Debug)]
pub struct NewAnswer {
    pub content: String,
    pub question_id: QuestionId,
}

/// Mathematical image of an [`Answer`].
pub struct AnswerV {
    pub id: int,
    pub content: Seq<char>,
    pub question_id: int,
    pub owner: int,
}

impl View for Answer {
    type V = AnswerV;

    open spec fn view(&self) -> AnswerV {
        AnswerV {
            id: self.id.0 as int,
            content: self.content@,
            question_id: self.question_id.0 as int,
            owner: self.owner.0 as int,
        }
    }
}

impl Clone for Answer {
    fn clone(&self) -> (res: Self)
        ensures
            res@ == self@,
    {
        Answer {
            id: self.id,
            content: self.content.clone(),
            question_id: self.question_id,
            owner: self.owner,
        }
    }
}

} // verus!
