use chat_assistant::memory::{default_source, pick_memories, MemoryEntry};
use chat_assistant::state::{App, ChatMessage, Role};
use chat_assistant::view::{
    chat_lines, chat_scroll, cursor_position, estimate_line_count, input_segment, ChatLine,
    Segment, Tone,
};

fn entry(content: &str) -> MemoryEntry {
    MemoryEntry::stamped(content, "manual", 1)
}

fn line(parts: &[(Tone, &str)]) -> ChatLine {
    ChatLine {
        segments: parts.iter().map(|(t, s)| Segment { tone: *t, text: s.to_string() }).collect(),
    }
}

fn runs(l: &ChatLine) -> Vec<(Tone, String)> {
    l.segments.iter().map(|s| (s.tone, s.text.clone())).collect()
}

#[test]
fn default_source_is_manual() {
    assert_eq!(default_source(), "manual");
}

#[test]
fn stamped_entry() {
    let e = MemoryEntry::stamped("suka kopi", "auto", 1725029869);
    assert_eq!(e.id, "mem_1725029869");
    assert_eq!(e.content, "suka kopi");
    assert_eq!(e.source, "auto");
    assert_eq!(e.created_at, 1725029869);
    let a = MemoryEntry::stamped("x", "manual", 12);
    let b = MemoryEntry::stamped("x", "manual", 1);
    let c = MemoryEntry::stamped("x", "manual", 121);
    assert_ne!(a.id, b.id);
    assert_ne!(a.id, c.id);
}

#[test]
fn new_entry_uses_the_clock() {
    let e = MemoryEntry::new("fakta", "manual").expect("the clock reads after the epoch");
    assert!(e.created_at > 1_600_000_000);
    assert_eq!(e.id, format!("mem_{}", e.created_at));
    assert_eq!(e.content, "fakta");
    assert_eq!(e.source, "manual");
}

#[test]
fn picks_relevant_among_top() {
    let entries = vec![entry("a"), entry("b"), entry("c"), entry("d")];
    let ranking = vec![(2, true), (0, false), (3, true), (1, true)];
    assert_eq!(pick_memories(&entries, &ranking, 3), vec!["c".to_string(), "d".to_string()]);
    assert_eq!(pick_memories(&entries, &ranking, 10), vec!["c", "d", "b"]);
    assert!(pick_memories(&entries, &ranking, 0).is_empty());
    assert!(pick_memories(&[], &[], 3).is_empty());
}

#[test]
fn chat_pane_lines() {
    let mut app = App::new();
    app.messages = vec![
        ChatMessage { role: Role::User, content: "hai".into() },
        ChatMessage { role: Role::Ai, content: "baris satu\nbaris dua\r\n".into() },
        ChatMessage { role: Role::System, content: "catatan".into() },
    ];
    app.is_loading = true;
    app.spinner_frame = 2;
    let lines = chat_lines(&app);
    let got: Vec<Vec<(Tone, String)>> = lines.iter().map(runs).collect();
    let want: Vec<Vec<(Tone, String)>> = vec![
        vec![(Tone::UserLabel, "Kamu: ".into()), (Tone::Plain, "hai".into())],
        vec![],
        vec![(Tone::AiLabel, "AI:".into())],
        vec![(Tone::AiText, "baris satu".into())],
        vec![(Tone::AiText, "baris dua".into())],
        vec![],
        vec![(Tone::Notice, "catatan".into())],
        vec![],
        vec![(Tone::Busy, "⠹ Sedang berpikir...".into())],
    ];
    assert_eq!(got, want);
}

#[test]
fn answer_lines_split_like_std() {
    let samples = ["", "\n", "a\r\n\r\nb\r", "x\n\ny\n", "satu", "a\rb\nc", "\r\n\r\n"];
    for text in samples {
        let mut app = App::new();
        app.messages = vec![ChatMessage { role: Role::Ai, content: text.to_string() }];
        let lines = chat_lines(&app);
        let middle: Vec<String> =
            lines[1..lines.len() - 1].iter().map(|l| l.segments[0].text.clone()).collect();
        let want: Vec<String> = text.lines().map(|l| l.to_string()).collect();
        assert_eq!(middle, want, "{:?}", text);
        assert!(lines[1..lines.len() - 1].iter().all(|l| l.segments[0].tone == Tone::AiText));
    }
}

#[test]
fn rows_add_up_and_shrink_with_width() {
    let a = vec![line(&[(Tone::Plain, "abcdefg")]), line(&[])];
    let b = vec![line(&[(Tone::Plain, "hijklmnopq")])];
    let both: Vec<ChatLine> = a.iter().chain(b.iter()).cloned().collect();
    for w in 1..12 {
        assert_eq!(
            estimate_line_count(&both, w),
            estimate_line_count(&a, w) + estimate_line_count(&b, w)
        );
        assert!(estimate_line_count(&both, w + 1) <= estimate_line_count(&both, w));
    }
}

#[test]
fn idle_pane_has_no_busy_line() {
    let app = App::new();
    let lines = chat_lines(&app);
    assert_eq!(lines.len(), 2);
    assert_eq!(runs(&lines[0])[0].0, Tone::Notice);
}

#[test]
fn line_count_wraps() {
    let lines = vec![
        line(&[]),
        line(&[(Tone::Plain, "abcde")]),
        line(&[(Tone::UserLabel, "Kamu: "), (Tone::Plain, "xyz")]),
        line(&[(Tone::Plain, "ééé")]),
    ];
    assert_eq!(estimate_line_count(&lines, 0), 4);
    // 1 + ceil(5/4) + ceil(9/4) + ceil(3/4)
    assert_eq!(estimate_line_count(&lines, 4), 1 + 2 + 3 + 1);
    assert_eq!(estimate_line_count(&lines, 100), 4);
    for width in 1..20 {
        assert!(estimate_line_count(&lines, width) >= lines.len());
    }
    assert_eq!(estimate_line_count(&[], 10), 0);
}

#[test]
fn scroll_shows_the_end() {
    let lines: Vec<ChatLine> = (0..30).map(|_| line(&[(Tone::Plain, "x")])).collect();
    assert_eq!(chat_scroll(&lines, 40, 12), 20);
    assert_eq!(chat_scroll(&lines, 40, 40), 0);
    assert_eq!(chat_scroll(&lines, 2, 12), 20);
    assert_eq!(chat_scroll(&lines, 1, 0), 30);
}

#[test]
fn input_box_hint_and_text() {
    let mut app = App::new();
    let s = input_segment(&app);
    assert_eq!((s.tone, s.text.as_str()), (Tone::Hint, "ketik pesan di sini..."));
    app.is_loading = true;
    let s = input_segment(&app);
    assert_eq!((s.tone, s.text.as_str()), (Tone::Typed, ""));
    app.is_loading = false;
    app.input = "halo".into();
    let s = input_segment(&app);
    assert_eq!((s.tone, s.text.as_str()), (Tone::Typed, "halo"));
}

#[test]
fn cursor_follows_input_bytes() {
    let mut app = App::new();
    assert_eq!(cursor_position(&app, 1, 5, 20), Some((1, 5)));
    app.input = "héllo".into();
    assert_eq!(cursor_position(&app, 1, 5, 20), Some((7, 5)));
    assert_eq!(cursor_position(&app, 1, 5, 4), Some((4, 5)));
    assert_eq!(cursor_position(&app, 1, 5, 0), Some((1, 5)));
    app.is_loading = true;
    assert_eq!(cursor_position(&app, 1, 5, 20), None);
}
