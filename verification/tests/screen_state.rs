use chat_assistant::state::{Action, App, Key, KeyPress, Role, TaskResult};
use rig_core::completion::Message;

fn press(key: Key) -> KeyPress {
    KeyPress { key, ctrl: false, alt: false }
}

fn type_text(app: &mut App, text: &str) {
    for c in text.chars() {
        assert!(matches!(app.handle_key(press(Key::Char(c))), Action::Nothing));
    }
}

#[test]
fn new_app_greets() {
    let app = App::new();
    assert_eq!(app.messages.len(), 1);
    assert_eq!(app.messages[0].role, Role::System);
    assert_eq!(
        app.messages[0].content,
        "Halo! Ketik pesan lalu Enter. \"remember: <fakta>\" untuk simpan ke memori. Ctrl+C untuk keluar."
    );
    assert_eq!(app.input, "");
    assert!(!app.is_loading);
    assert_eq!(app.spinner_frame, 0);
    assert!(app.rig_history.is_empty());
}

#[test]
fn spinner_cycles_through_ten_glyphs() {
    let mut app = App::new();
    let glyphs = ["⠋", "⠙", "⠹", "⠸", "⠼", "⠴", "⠦", "⠧", "⠇", "⠏"];
    for g in glyphs {
        assert_eq!(app.spinner(), g);
        app.tick();
    }
    assert_eq!(app.spinner_frame, 0);
    assert_eq!(app.spinner(), "⠋");
}

#[test]
fn typing_and_erasing() {
    let mut app = App::new();
    type_text(&mut app, "hai");
    assert_eq!(app.input, "hai");
    app.handle_key(press(Key::Backspace));
    assert_eq!(app.input, "ha");
    type_text(&mut app, "!");
    app.handle_key(press(Key::Backspace));
    assert_eq!(app.input, "ha");
    app.handle_key(press(Key::Backspace));
    app.handle_key(press(Key::Backspace));
    app.handle_key(press(Key::Backspace));
    assert_eq!(app.input, "");
}

#[test]
fn modified_characters_are_not_typed() {
    let mut app = App::new();
    app.handle_key(KeyPress { key: Key::Char('x'), ctrl: true, alt: false });
    app.handle_key(KeyPress { key: Key::Char('y'), ctrl: false, alt: true });
    app.handle_key(press(Key::Other));
    assert_eq!(app.input, "");
    assert_eq!(app.messages.len(), 1);
}

#[test]
fn enter_on_empty_input_does_nothing() {
    let mut app = App::new();
    assert!(matches!(app.handle_key(press(Key::Enter)), Action::Nothing));
    assert!(!app.is_loading);
    assert_eq!(app.messages.len(), 1);
}

#[test]
fn enter_asks_the_question() {
    let mut app = App::new();
    type_text(&mut app, "apa kabar?");
    match app.handle_key(press(Key::Enter)) {
        Action::Ask(q) => assert_eq!(q, "apa kabar?"),
        _ => panic!("expected a question"),
    }
    assert_eq!(app.input, "");
    assert!(app.is_loading);
    assert_eq!(app.messages.len(), 2);
    assert_eq!(app.messages[1].role, Role::User);
    assert_eq!(app.messages[1].content, "apa kabar?");
}

#[test]
fn enter_with_remember_prefix_remembers_trimmed_fact() {
    let mut app = App::new();
    type_text(&mut app, "remember:   saya suka kopi  ");
    match app.handle_key(press(Key::Enter)) {
        Action::Remember(f) => assert_eq!(f, "saya suka kopi"),
        _ => panic!("expected a fact to remember"),
    }
    assert_eq!(app.messages[1].content, "remember:   saya suka kopi  ");
    assert!(app.is_loading);
}

#[test]
fn keys_are_ignored_while_busy() {
    let mut app = App::new();
    type_text(&mut app, "tanya");
    app.handle_key(press(Key::Enter));
    assert!(app.is_loading);
    type_text(&mut app, "abc");
    app.handle_key(press(Key::Backspace));
    assert!(matches!(app.handle_key(press(Key::Enter)), Action::Nothing));
    assert_eq!(app.input, "");
    assert_eq!(app.messages.len(), 2);
}

#[test]
fn control_c_quits_even_while_busy() {
    let mut app = App::new();
    type_text(&mut app, "tanya");
    app.handle_key(press(Key::Enter));
    let action = app.handle_key(KeyPress { key: Key::Char('c'), ctrl: true, alt: false });
    assert!(matches!(action, Action::Quit));
    let last = app.messages.last().unwrap();
    assert_eq!(last.role, Role::System);
    assert_eq!(last.content, "💾 Menyimpan memori sebelum keluar...");
}

#[test]
fn answer_with_memories_is_noted() {
    let mut app = App::new();
    app.is_loading = true;
    let history = vec![Message::user("hai"), Message::assistant("halo")];
    app.apply_result(TaskResult::AiResponse {
        response: "Halo juga".to_string(),
        updated_history: history.clone(),
        memory_count: 3,
    });
    assert!(!app.is_loading);
    assert_eq!(app.messages.len(), 3);
    assert_eq!(app.messages[1].role, Role::System);
    assert_eq!(app.messages[1].content, "🧠 3 memori relevan digunakan");
    assert_eq!(app.messages[2].role, Role::Ai);
    assert_eq!(app.messages[2].content, "Halo juga");
    assert_eq!(app.rig_history, history);
}

#[test]
fn answer_without_memories_adds_only_the_answer() {
    let mut app = App::new();
    app.is_loading = true;
    app.apply_result(TaskResult::AiResponse {
        response: "ok".to_string(),
        updated_history: vec![],
        memory_count: 0,
    });
    assert_eq!(app.messages.len(), 2);
    assert_eq!(app.messages[1].role, Role::Ai);
    assert!(!app.is_loading);
}

#[test]
fn notices_and_errors_end_loading() {
    let mut app = App::new();
    app.rig_history = vec![Message::user("tetap")];
    app.is_loading = true;
    app.apply_result(TaskResult::SystemMessage("ℹ️  Sudah ada di memori".to_string()));
    assert!(!app.is_loading);
    assert_eq!(app.messages[1].content, "ℹ️  Sudah ada di memori");
    app.is_loading = true;
    app.apply_result(TaskResult::Error("timeout".to_string()));
    assert!(!app.is_loading);
    assert_eq!(app.messages[2].role, Role::System);
    assert_eq!(app.messages[2].content, "⚠️ Error: timeout");
    assert_eq!(app.rig_history, vec![Message::user("tetap")]);
}
