//! The texts sent to the model and the notices a finished task shows.
use vstd::prelude::*;

use crate::text::{join, join_holds_parts, join_offset, join_text, views};

verus! {

/// The prompt for `question` given the memories `found`: the question
/// alone when nothing was found, otherwise the memories as context followed
/// by the question.
pub open spec fn prompt_text(found: Seq<Seq<char>>, question: Seq<char>) -> Seq<char> {
    if found.len() == 0 {
        question
    } else {
        "[Konteks dari memori tentang user]\n"@ + join(found, "\n- "@) + "\n\n[Pertanyaan user]\n"@
            + question
    }
}

/// The question always closes the prompt, and with no memories found the
/// prompt is the question alone.
pub proof fn prompt_ends_with_question(found: Seq<Seq<char>>, question: Seq<char>)
    ensures
        prompt_text(found, question).len() >= question.len(),
        prompt_text(found, question).skip(
            prompt_text(found, question).len() - question.len(),
        ) == question,
        found.len() == 0 ==> prompt_text(found, question) == question,
{
    let p = prompt_text(found, question);
    assert(p.skip(p.len() - question.len()) =~= question);
}

/// With at least one memory found, the prompt is the context header, the
/// memories joined by `\n- `, the question header and the question; so it
/// starts with the context header and holds every found memory unchanged.
pub proof fn prompt_holds_memories(found: Seq<Seq<char>>, question: Seq<char>)
    requires
        found.len() > 0,
    ensures
        prompt_text(found, question) == "[Konteks dari memori tentang user]\n"@ + join(
            found,
            "\n- "@,
        ) + "\n\n[Pertanyaan user]\n"@ + question,
        prompt_text(found, question).take("[Konteks dari memori tentang user]\n"@.len() as int)
            == "[Konteks dari memori tentang user]\n"@,
        forall|i: int|
            #![trigger found[i]]
            0 <= i < found.len() ==> {
                let at = "[Konteks dari memori tentang user]\n"@.len() + join_offset(found, "\n- "@, i);
                &&& at + found[i].len() <= prompt_text(found, question).len()
                &&& prompt_text(found, question).subrange(at, at + found[i].len()) == found[i]
            },
{
    let header = "[Konteks dari memori tentang user]\n"@;
    let j = join(found, "\n- "@);
    let p = prompt_text(found, question);
    assert(p.take(header.len() as int) =~= header);
    assert forall|i: int| #![trigger found[i]] 0 <= i < found.len() implies ({
        let at = header.len() + join_offset(found, "\n- "@, i);
        &&& at + found[i].len() <= p.len()
        &&& p.subrange(at, at + found[i].len()) == found[i]
    }) by {
        join_holds_parts(found, "\n- "@, i);
        let k = join_offset(found, "\n- "@, i);
        let m = header.len() + k;
        assert(p.subrange(m, m + found[i].len()) =~= j.subrange(k, k + found[i].len()));
    }
}

/// Builds the prompt for `question` from the memories found for it.
pub fn build_prompt(found: &[String], question: &str) -> (r: String)
    ensures
        r@ == prompt_text(views(found@), question@),
{
    if found.len() == 0 {
        String::from_str(question)
    } else {
        let context = join_text(found, "\n- ");
        String::from_str("[Konteks dari memori tentang user]\n").concat(context.as_str()).concat(
            "\n\n[Pertanyaan user]\n",
        ).concat(question)
    }
}

/// The notice after an attempt to remember `fact`: stored, already known, or
/// failed with error text `e`.
pub open spec fn remember_reply_text(outcome: Result<bool, Seq<char>>, fact: Seq<char>) -> Seq<
    char,
> {
    match outcome {
        Ok(true) => "✅ Tersimpan ke memori: \""@ + fact + "\""@,
        Ok(false) => "ℹ️  Sudah ada di memori"@,
        Err(e) => "⚠️ Gagal menyimpan: "@ + e,
    }
}

/// The notice after an attempt to remember `fact`.
pub fn remember_reply(outcome: &Result<bool, String>, fact: &str) -> (r: String)
    ensures
        r@ == remember_reply_text(
            match outcome {
                Ok(b) => Ok(*b),
                Err(e) => Err(e@),
            },
            fact@,
        ),
{
    match outcome {
        Ok(true) => String::from_str("✅ Tersimpan ke memori: \"").concat(fact).concat("\""),
        Ok(false) => String::from_str("ℹ️  Sudah ada di memori"),
        Err(e) => String::from_str("⚠️ Gagal menyimpan: ").concat(e.as_str()),
    }
}

/// The notice that the older part of the conversation was summarised.
pub fn compression_notice() -> (r: String)
    ensures
        r@ == "🗜️ Percakapan lama dirangkum dan disimpan ke memori"@,
{
    String::from_str("🗜️ Percakapan lama dirangkum dan disimpan ke memori")
}

} // verus!
