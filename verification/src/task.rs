//! The decisions of the background task that answers a question: which
//! model reply counts, and what the screen is sent afterwards.
use rig_core::completion::Message;
use vstd::prelude::*;

use crate::prompt::compression_notice;
use crate::state::TaskResult;

verus! {

/// What to do after a model replied.
#[derive(Clone, Debug)]
pub enum ReplyStep {
    /// Use this answer.
    Answered(String),
    /// The first model failed with this error: ask the fallback model.
    CallFallback(String),
    /// Both models failed: report this error, the first model's.
    Failed(String),
}

/// The step after `reply`: `first_error` is `None` for the first model's
/// reply and holds the first model's error for the fallback's reply. An
/// answer is used; a first failure leads to the fallback; a failure of the
/// fallback reports the first model's error.
pub fn on_reply(first_error: Option<String>, reply: Result<String, String>) -> (step: ReplyStep)
    ensures
        match (first_error, reply) {
            (_, Ok(a)) => step matches ReplyStep::Answered(s) && s@ == a@,
            (None, Err(e)) => step matches ReplyStep::CallFallback(s) && s@ == e@,
            (Some(e1), Err(_)) => step matches ReplyStep::Failed(s) && s@ == e1@,
        },
{
    match reply {
        Ok(a) => ReplyStep::Answered(a),
        Err(e) => match first_error {
            None => ReplyStep::CallFallback(e),
            Some(e1) => ReplyStep::Failed(e1),
        },
    }
}

/// What an answered question sends to the screen, in order: the notice that
/// the older conversation was summarised, when it was, then the answer with
/// the updated history and the number of memories used.
pub fn answer_results(
    response: String,
    history: Vec<Message>,
    memory_count: usize,
    compressed: bool,
) -> (r: Vec<TaskResult>)
    ensures
        r@.len() == if compressed {
            2int
        } else {
            1int
        },
        compressed ==> (r@[0] matches TaskResult::SystemMessage(m) && m@
            == "🗜️ Percakapan lama dirangkum dan disimpan ke memori"@),
        r@.last() matches TaskResult::AiResponse { response: a, updated_history: h, memory_count: c }
            && a@ == response@ && h == history && c == memory_count,
{
    let mut r: Vec<TaskResult> = Vec::new();
    if compressed {
        r.push(TaskResult::SystemMessage(compression_notice()));
    }
    r.push(TaskResult::AiResponse { response, updated_history: history, memory_count });
    r
}

} // verus!
