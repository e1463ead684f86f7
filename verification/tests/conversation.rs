use chat_assistant::history::{
    messages_to_text, prepend_summary, summary_note, summary_prompt, take_old_history, Part,
    Speaker, Turn, COMPRESS_KEEP, MAX_HISTORY,
};
use chat_assistant::prompt::{build_prompt, compression_notice, remember_reply};
use rig_core::completion::Message;

fn text_turn(speaker: Speaker, text: &str) -> Turn {
    Turn { speaker, parts: vec![Part::Text(text.to_string())] }
}

#[test]
fn transcript_labels_and_joins() {
    let turns = vec![
        text_turn(Speaker::User, "hai"),
        text_turn(Speaker::Assistant, "halo"),
        text_turn(Speaker::System, "diabaikan"),
        Turn { speaker: Speaker::User, parts: vec![Part::Other] },
        Turn {
            speaker: Speaker::Assistant,
            parts: vec![Part::Other, Part::Text("kedua".into()), Part::Text("ketiga".into())],
        },
    ];
    assert_eq!(messages_to_text(&turns), "User: hai\nAI: halo\nAI: kedua");
}

#[test]
fn transcript_of_textless_history_is_empty() {
    assert_eq!(messages_to_text(&[]), "");
    let turns = vec![
        Turn { speaker: Speaker::User, parts: vec![Part::Other] },
        text_turn(Speaker::System, "aturan"),
    ];
    assert_eq!(messages_to_text(&turns), "");
}

#[test]
fn short_history_is_not_cut() {
    let mut history: Vec<Message> = (0..MAX_HISTORY).map(|i| Message::user(format!("m{}", i))).collect();
    let before = history.clone();
    assert!(take_old_history(&mut history).is_none());
    assert_eq!(history, before);
}

#[test]
fn long_history_keeps_the_newest() {
    let all: Vec<Message> = (0..25).map(|i| Message::user(format!("m{}", i))).collect();
    let mut history = all.clone();
    let old = take_old_history(&mut history).expect("history over the limit is cut");
    assert_eq!(history.len(), COMPRESS_KEEP);
    assert_eq!(old.len(), 15);
    assert_eq!(old[..], all[..15]);
    assert_eq!(history[..], all[15..]);
}

#[test]
fn summary_goes_in_front() {
    let mut history = vec![Message::user("a"), Message::assistant("b")];
    prepend_summary(&mut history, "ringkas");
    assert_eq!(history.len(), 3);
    assert_eq!(history[0], Message::user("[Ringkasan percakapan sebelumnya]\nringkas"));
    assert_eq!(history[1], Message::user("a"));
    assert_eq!(summary_note("x"), "[Ringkasan percakapan sebelumnya]\nx");
}

#[test]
fn summary_request_text() {
    assert_eq!(
        summary_prompt("User: hai"),
        "Rangkum percakapan berikut menjadi 1 paragraf ringkas dalam Bahasa Indonesia:\n\nUser: hai"
    );
}

#[test]
fn prompt_without_memories_is_the_question() {
    assert_eq!(build_prompt(&[], "apa kabar?"), "apa kabar?");
}

#[test]
fn prompt_with_memories() {
    let found = vec!["suka kopi".to_string(), "tinggal di Bandung".to_string()];
    let p = build_prompt(&found, "minum apa?");
    assert_eq!(
        p,
        "[Konteks dari memori tentang user]\nsuka kopi\n- tinggal di Bandung\n\n[Pertanyaan user]\nminum apa?"
    );
    assert!(p.ends_with("minum apa?"));
}

#[test]
fn remember_replies() {
    assert_eq!(remember_reply(&Ok(true), "suka teh"), "✅ Tersimpan ke memori: \"suka teh\"");
    assert_eq!(remember_reply(&Ok(false), "suka teh"), "ℹ️  Sudah ada di memori");
    assert_eq!(
        remember_reply(&Err("disk penuh".to_string()), "suka teh"),
        "⚠️ Gagal menyimpan: disk penuh"
    );
}

#[test]
fn compression_notice_text() {
    assert_eq!(compression_notice(), "🗜️ Percakapan lama dirangkum dan disimpan ke memori");
}
