use vstd::prelude::*;

use crate::types::account::AccountId;

verus! {

/// Unique identifier of a question.
#[derive(Clone, Copy, PartialEq, Eq, Hash, Structural, Debug)]
pub struct QuestionId(pub i32);

/// A stored question. The owner is the account that created it and never
/// changes; only the owner may update or delete the question.
#[derive(Debug)]
pub struct Question {
    pub id: QuestionId,
    pub title: String,
    pub content: String,
    pub tags: Option<Vec<String>>,
    /// The account that created the question; immutable after creation.
    pub owner: AccountId,
}

/// A question as submitted for creation, before an identifier is assigned.
#[derive(Debug)]
pub struct NewQuestion {
    pub title: String,
    pub content: String,
    pub tags: Option<Vec<String>>,
}

/// Mathematical image of an optional tag list.
pub open spec fn tags_view(tags: Option<Vec<String>>) -> Option<Seq<Seq<char>>> {
    match tags {
        Some(v) => Some(v.deep_view()),
        None => None,
    }
}

/// Mathematical image of a [`Question`].
pub struct QuestionV {
    pub id: int,
    pub title: Seq<char>,
    pub content: Seq<char>,
    pub tags: Option<Seq<Seq<char>>>,
    pub owner: int,
}

impl View for Question {
    type V = QuestionV;

    open spec fn view(&self) -> QuestionV {
        QuestionV {
            id: self.id.0 as int,
            title: self.title@,
            content: self.content@,
            tags: tags_view(self.tags),
            owner: self.owner.0 as int,
        }
    }
}

/// Clones an optional tag list; the copy has the same image.
pub fn clone_tags(tags: &Option<Vec<String>>) -> (res: Option<Vec<String>>)
    ensures
        tags_view(res) == tags_view(*tags),
{
    match tags {
        Some(v) => {
            let copy = v.clone();
            proof {
                assert forall|i: int| 0 <= i < v@.len() implies copy@[i] == v@[i] by {
                    assert(cloned::<String>(v@[i], copy@[i]));
                }
                assert(copy.deep_view() =~= v.deep_view());
            }
            Some(copy)
        },
        None => None,
    }
}

impl Clone for Question {
    fn clone(&self) -> (res: Self)
        ensures
            res@ == self@,
    {
        Question {
            id: self.id,
            title: self.title.clone(),
            content: self.content.clone(),
            tags: clone_tags(&self.tags),
            owner: self.owner,
        }
    }
}

impl Clone for NewQuestion {
    fn clone(&self) -> (res: Self)
        ensures
            res.title@ == self.title@,
            res.content@ == self.content@,
            tags_view(res.tags) == tags_view(self.tags),
    {
        NewQuestion {
            title: self.title.clone(),
            content: self.content.clone(),
            tags: clone_tags(&self.tags),
        }
    }
}

} // verus!
