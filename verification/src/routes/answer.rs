//! The answer handlers' decisions: body checks and replies.

use vstd::prelude::*;

use crate::error::Error;
use crate::number::{i32_text, i32_to_text};
use crate::text::{is_blank, trim, trimmed};
use crate::types::answer::NewAnswer;

verus! {

/// Checks a new answer: blank content is refused; otherwise the answer with
/// its content trimmed.
pub fn validate_new_answer(answer: NewAnswer) -> (r: Result<NewAnswer, Error>)
    ensures
        is_blank(answer.content@) ==> (r matches Err(Error::ValidationError(m)) && m@
            == "content must not be empty"@),
        !is_blank(answer.content@) ==> (r matches Ok(a) && a.content@ == trimmed(answer.content@)
            && a.question_id == answer.question_id),
{
    let content = trim(answer.content.as_str());
    if content.is_empty() {
        return Err(Error::ValidationError(String::from_str("content must not be empty")));
    }
    Ok(NewAnswer { content: String::from_str(content), question_id: answer.question_id })
}

/// The reply to the deletion of answer `id`: a confirmation when a row was
/// removed, or `NotFound` when there was none.
pub fn answer_deleted(id: i32, deleted: bool) -> (r: Result<String, Error>)
    ensures
        deleted ==> (r matches Ok(s) && s@ == "Answer "@ + i32_text(id) + " deleted"@),
        !deleted ==> r == Err::<String, Error>(Error::NotFound),
{
    if !deleted {
        return Err(Error::NotFound);
    }
    let mut s = String::from_str("Answer ");
    let n = i32_to_text(id);
    s.append(n.as_str());
    s.append(" deleted");
    Ok(s)
}

} // verus!
