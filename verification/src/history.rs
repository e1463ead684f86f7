//! The model-side conversation history: its plain-text transcript, and how
//! an overlong history is cut down and headed by a summary.
use rig_core::completion::Message;
use vstd::prelude::*;

use crate::text::{join, join_text, views};

verus! {

#[verifier::external_type_specification]
#[verifier::external_body]
pub struct ExMessage(Message);

/// The history length above which the older part is summarised.
pub const MAX_HISTORY: usize = 20;

/// How many of the newest history messages stay when the history is cut.
pub const COMPRESS_KEEP: usize = 10;

/// Who a history message is from.
#[derive(Clone, Copy, Debug, PartialEq, Eq, Structural)]
pub enum Speaker {
    User,
    Assistant,
    System,
}

/// One content block of a history message: text, or anything else
/// (a tool call, an image, reasoning, ...).
#[derive(Clone, Debug)]
pub enum Part {
    Text(String),
    Other,
}

/// What the transcript reads of one history message: its speaker and its
/// content blocks in order.
#[derive(Clone, Debug)]
pub struct Turn {
    pub speaker: Speaker,
    pub parts: Vec<Part>,
}

/// The text of the first text block among `parts`.
pub open spec fn first_text(parts: Seq<Part>) -> Option<Seq<char>>
    decreases parts.len(),
{
    if parts.len() == 0 {
        None
    } else {
        match parts[0] {
            Part::Text(t) => Some(t@),
            Part::Other => first_text(parts.drop_first()),
        }
    }
}

/// The transcript line of one message: its first text, labelled by speaker;
/// none for a system message or a message without text.
pub open spec fn turn_line(t: Turn) -> Option<Seq<char>> {
    match t.speaker {
        Speaker::User => match first_text(t.parts@) {
            Some(x) => Some("User: "@ + x),
            None => None,
        },
        Speaker::Assistant => match first_text(t.parts@) {
            Some(x) => Some("AI: "@ + x),
            None => None,
        },
        Speaker::System => None,
    }
}

/// The transcript lines of `turns`, in order.
pub open spec fn transcript_lines(turns: Seq<Turn>) -> Seq<Seq<char>>
    decreases turns.len(),
{
    if turns.len() == 0 {
        seq![]
    } else {
        let rest = transcript_lines(turns.drop_last());
        match turn_line(turns.last()) {
            Some(l) => rest.push(l),
            None => rest,
        }
    }
}

/// The plain-text transcript of a history: one line per message that has text.
pub open spec fn transcript(turns: Seq<Turn>) -> Seq<char> {
    join(transcript_lines(turns), "\n"@)
}

proof fn lines_are_not_empty(turns: Seq<Turn>)
    ensures
        forall|i: int|
            0 <= i < transcript_lines(turns).len() ==> (#[trigger] transcript_lines(turns)[i]).len()
                > 0,
        transcript_lines(turns).len() == 0 <==> forall|i: int|
            0 <= i < turns.len() ==> turn_line(#[trigger] turns[i]) is None,
    decreases turns.len(),
{
    reveal_strlit("User: ");
    reveal_strlit("AI: ");
    if turns.len() > 0 {
        let rest = turns.drop_last();
        lines_are_not_empty(rest);
        assert forall|i: int| 0 <= i < rest.len() implies rest[i] == turns[i] by {}
        if transcript_lines(turns).len() == 0 {
            assert forall|i: int| 0 <= i < turns.len() implies turn_line(#[trigger] turns[i]) is None by {
                if i < rest.len() {
                    assert(rest[i] == turns[i]);
                }
            }
        }
        if turn_line(turns.last()) is None && transcript_lines(rest).len() > 0 {
            let j = choose|j: int| 0 <= j < rest.len() && !(turn_line(#[trigger] rest[j]) is None);
            assert(rest[j] == turns[j]);
        }
    }
}

proof fn join_of_non_empty(parts: Seq<Seq<char>>, sep: Seq<char>)
    requires
        forall|i: int| 0 <= i < parts.len() ==> (#[trigger] parts[i]).len() > 0,
    ensures
        join(parts, sep).len() == 0 <==> parts.len() == 0,
    decreases parts.len(),
{
    if parts.len() > 1 {
        assert(parts.last() == parts[parts.len() - 1]);
    } else if parts.len() == 1 {
        assert(parts[0].len() > 0);
    }
}

/// The transcript is empty exactly when no message of the history yields a
/// line, that is, when no user or assistant message has a text block.
pub proof fn transcript_empty_iff_no_text(turns: Seq<Turn>)
    ensures
        transcript(turns).len() == 0 <==> forall|i: int|
            0 <= i < turns.len() ==> turn_line(#[trigger] turns[i]) is None,
{
    lines_are_not_empty(turns);
    join_of_non_empty(transcript_lines(turns), "\n"@);
}

fn first_text_of(parts: &Vec<Part>) -> (r: Option<String>)
    ensures
        match r {
            Some(s) => first_text(parts@) == Some(s@),
            None => first_text(parts@) is None,
        },
{
    let n = parts.len();
    let mut k: usize = 0;
    assert(parts@.skip(0) =~= parts@);
    while k < n
        invariant
            n == parts@.len(),
            k <= n,
            first_text(parts@) == first_text(parts@.skip(k as int)),
        decreases n - k,
    {
        assert(parts@.skip(k as int)[0] == parts@[k as int]);
        match &parts[k] {
            Part::Text(t) => {
                return Some(t.clone());
            },
            Part::Other => {},
        }
        assert(parts@.skip(k as int).drop_first() =~= parts@.skip(k + 1));
        k = k + 1;
    }
    None
}

fn turn_text(t: &Turn) -> (r: Option<String>)
    ensures
        match r {
            Some(s) => turn_line(*t) == Some(s@),
            None => turn_line(*t) is None,
        },
{
    match t.speaker {
        Speaker::System => None,
        Speaker::User => match first_text_of(&t.parts) {
            Some(x) => Some(String::from_str("User: ").concat(x.as_str())),
            None => None,
        },
        Speaker::Assistant => match first_text_of(&t.parts) {
            Some(x) => Some(String::from_str("AI: ").concat(x.as_str())),
            None => None,
        },
    }
}

/// The transcript of `turns`: each message with text becomes a line
/// `User: <text>` or `AI: <text>` (its first text block), and the lines are
/// joined with newlines.
pub fn messages_to_text(turns: &[Turn]) -> (r: String)
    ensures
        r@ == transcript(turns@),
{
    let mut lines: Vec<String> = Vec::new();
    let n = turns.len();
    let mut i: usize = 0;
    while i < n
        invariant
            n == turns@.len(),
            i <= n,
            views(lines@) == transcript_lines(turns@.take(i as int)),
        decreases n - i,
    {
        assert(turns@.take(i + 1).drop_last() =~= turns@.take(i as int));
        assert(turns@.take(i + 1).last() == turns@[i as int]);
        match turn_text(&turns[i]) {
            Some(l) => {
                lines.push(l);
                assert(views(lines@) =~= transcript_lines(turns@.take(i + 1)));
            },
            None => {},
        }
        i = i + 1;
    }
    assert(turns@.take(n as int) =~= turns@);
    join_text(lines.as_slice(), "\n")
}

/// Cuts an overlong history: when it holds more than `MAX_HISTORY`
/// messages, all but the newest `COMPRESS_KEEP` are taken out and returned,
/// oldest first; otherwise nothing happens.
pub fn take_old_history(history: &mut Vec<Message>) -> (taken: Option<Vec<Message>>)
    ensures
        old(history)@.len() <= MAX_HISTORY ==> taken is None && final(history)@ == old(history)@,
        old(history)@.len() > MAX_HISTORY ==> (taken matches Some(o) && o@ == old(history)@.take(
            old(history)@.len() - COMPRESS_KEEP,
        ) && final(history)@ == old(history)@.skip(old(history)@.len() - COMPRESS_KEEP)),
        // what was taken, followed by what is left, is the history as it was,
        // and exactly the newest `COMPRESS_KEEP` messages are left
        taken matches Some(o) ==> o@ + final(history)@ == old(history)@ && final(history)@.len()
            == COMPRESS_KEEP,
{
    if history.len() <= MAX_HISTORY {
        return None;
    }
    let split = history.len() - COMPRESS_KEEP;
    let mut kept = history.split_off(split);
    std::mem::swap(history, &mut kept);
    assert(kept@ + history@ =~= old(history)@);
    Some(kept)
}

/// The user message whose content is the one text block `text`.
pub uninterp spec fn user_message_of(text: Seq<char>) -> Message;

/// A user message holding `text`.
///
/// Trusted: `Message::user` of rig-core, which builds a user message whose
/// content is the one text block `text`, and depends on `text` alone. The
/// built message is named `user_message_of(text)`.
#[verifier::external_body]
fn user_message(text: String) -> (m: Message)
    ensures
        m == user_message_of(text@),
{
    Message::user(text)
}

/// The text of the message that heads a cut history.
pub open spec fn summary_note_text(summary: Seq<char>) -> Seq<char> {
    "[Ringkasan percakapan sebelumnya]\n"@ + summary
}

/// The text of the message that stands for the summarised part of a history.
pub fn summary_note(summary: &str) -> (r: String)
    ensures
        r@ == summary_note_text(summary@),
{
    String::from_str("[Ringkasan percakapan sebelumnya]\n").concat(summary)
}

/// Puts a user message carrying `summary_note(summary)` in front of the history.
pub fn prepend_summary(history: &mut Vec<Message>, summary: &str)
    ensures
        final(history)@ == seq![user_message_of(summary_note_text(summary@))] + old(history)@,
{
    let note = summary_note(summary);
    let m = user_message(note);
    history.insert(0, m);
    assert(history@ =~= seq![user_message_of(summary_note_text(summary@))] + old(history)@);
}

/// The request that asks for a summary of `conversation`.
pub open spec fn summary_request_text(conversation: Seq<char>) -> Seq<char> {
    "Rangkum percakapan berikut menjadi 1 paragraf ringkas dalam Bahasa Indonesia:\n\n"@
        + conversation
}

/// The request that asks the model to summarise `conversation`.
pub fn summary_prompt(conversation: &str) -> (r: String)
    ensures
        r@ == summary_request_text(conversation@),
{
    String::from_str(
        "Rangkum percakapan berikut menjadi 1 paragraf ringkas dalam Bahasa Indonesia:\n\n",
    ).concat(conversation)
}

} // verus!
