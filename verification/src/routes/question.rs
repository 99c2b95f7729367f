//! The question handlers' decisions: pagination, body checks and replies.

use vstd::prelude::*;

use crate::error::Error;
use crate::number::{i32_text, i32_to_text};
use crate::text::{is_blank, trim};
use crate::types::pagination::{extraction_pagination, pagination_of, Pagination, QueryParams};
use crate::types::question::{NewQuestion, UpdateQuestion};

verus! {

/// The pagination that a `/questions` query asks for: the whole list when it
/// has no parameters, else what `extraction_pagination` reads.
pub fn questions_pagination(params: QueryParams) -> (r: Result<Pagination, Error>)
    ensures
        params@.dom() == Set::<Seq<char>>::empty() ==> r == Ok::<Pagination, Error>(
            Pagination { limit: None, offset: 0 },
        ),
        params@.dom() != Set::<Seq<char>>::empty() ==> r == pagination_of(params@),
{
    if params.is_empty() {
        Ok(Pagination::default())
    } else {
        extraction_pagination(params)
    }
}

/// The complaint about a question whose title or content is blank, if any.
pub open spec fn question_fields_error(title: Seq<char>, content: Seq<char>) -> Option<Seq<char>> {
    if is_blank(title) {
        Some("title must not be empty"@)
    } else if is_blank(content) {
        Some("content must not be empty"@)
    } else {
        None
    }
}

/// Checks a title and a content: neither may be blank (whitespace only).
fn check_question_fields(title: &str, content: &str) -> (r: Result<(), Error>)
    ensures
        match question_fields_error(title@, content@) {
            None => r is Ok,
            Some(m) => r matches Err(Error::ValidationError(e)) && e@ == m,
        },
{
    if trim(title).is_empty() {
        return Err(Error::ValidationError(String::from_str("title must not be empty")));
    }
    if trim(content).is_empty() {
        return Err(Error::ValidationError(String::from_str("content must not be empty")));
    }
    Ok(())
}

/// Checks a new question: a blank title or content is refused; otherwise the
/// question is passed on exactly as given.
pub fn validate_new_question(question: NewQuestion) -> (r: Result<NewQuestion, Error>)
    ensures
        match question_fields_error(question.title@, question.content@) {
            None => r matches Ok(q) && q.title == question.title && q.content == question.content
                && q.tags == question.tags,
            Some(m) => r matches Err(Error::ValidationError(e)) && e@ == m,
        },
{
    check_question_fields(question.title.as_str(), question.content.as_str())?;
    Ok(question)
}

/// Checks a rewrite of a question, by the same rules as a new question; a
/// rewrite that passes is passed on exactly as given.
pub fn validate_update_question(question: UpdateQuestion) -> (r: Result<UpdateQuestion, Error>)
    ensures
        match question_fields_error(question.title@, question.content@) {
            None => r matches Ok(q) && q.title == question.title && q.content == question.content
                && q.tags == question.tags,
            Some(m) => r matches Err(Error::ValidationError(e)) && e@ == m,
        },
{
    check_question_fields(question.title.as_str(), question.content.as_str())?;
    Ok(question)
}

/// The reply to the deletion of question `id`: a confirmation when a row was
/// removed, or `NotFound` when there was none.
pub fn question_deleted(id: i32, deleted: bool) -> (r: Result<String, Error>)
    ensures
        deleted ==> (r matches Ok(s) && s@ == "Question "@ + i32_text(id) + " deleted"@),
        !deleted ==> r == Err::<String, Error>(Error::NotFound),
{
    if !deleted {
        return Err(Error::NotFound);
    }
    let mut s = String::from_str("Question ");
    let n = i32_to_text(id);
    s.append(n.as_str());
    s.append(" deleted");
    Ok(s)
}

} // verus!
