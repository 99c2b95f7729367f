//! Questions.

use vstd::prelude::*;

verus! {

/// The identifier of a question.
#[derive(Debug, Clone, Copy, PartialEq, Eq, Hash, Structural)]
pub struct QuestionId(pub i32);

/// A stored question.
#[derive(Debug, Clone)]
pub struct Question {
    pub id: QuestionId,
    pub title: String,
    pub content: String,
    pub tags: Option<Vec<String>>,
    /// The user who asked it, if known.
    pub author_id: Option<i32>,
}

/// The body of a request that asks a new question.
#[derive(Debug, Clone)]
pub struct NewQuestion {
    pub title: String,
    pub content: String,
    pub tags: Option<Vec<String>>,
}

/// The body of a request that rewrites a question; its id comes from the path.
#[derive(Debug, Clone)]
pub struct UpdateQuestion {
    pub title: String,
    pub content: String,
    pub tags: Option<Vec<String>>,
}

} // verus!
