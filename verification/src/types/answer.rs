//! Answers.

use vstd::prelude::*;

use crate::types::question::QuestionId;

verus! {

/// The identifier of an answer.
#[derive(Debug, Clone, Copy, PartialEq, Eq, Hash, Structural)]
pub struct AnswerId(pub i32);

/// A stored answer.
#[derive(Debug, Clone)]
pub struct Answer {
    pub id: AnswerId,
    pub content: String,
    pub question_id: QuestionId,
    /// The user who wrote it, if known.
    pub author_id: Option<i32>,
}

/// The body of a request that answers a question.
#[derive(Debug, Clone)]
pub struct NewAnswer {
    pub content: String,
    pub question_id: QuestionId,
}

} // verus!
