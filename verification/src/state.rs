//! The chat screen's state and how it changes: on a key press, when a
//! background task reports back, and on each animation tick.
use rig_core::completion::Message;
use vstd::prelude::*;

use crate::text::{
    decimal, is_space, pop_char, push_char, push_decimal, strip_prefix, strip_text_prefix, trim,
    trim_has_no_outer_space, trim_text,
};

verus! {

/// Who a line of the chat log is from.
#[derive(Clone, Copy, Debug, PartialEq, Eq, Structural)]
pub enum Role {
    User,
    Ai,
    System,
}

/// One entry of the chat log.
#[derive(Clone, Debug)]
pub struct ChatMessage {
    pub role: Role,
    pub content: String,
}

/// What a background task hands back to the screen.
pub enum TaskResult {
    /// The model answered; `updated_history` is the history after the
    /// exchange and `memory_count` the number of memories put in the prompt.
    AiResponse { response: String, updated_history: Vec<Message>, memory_count: usize },
    /// A notice to show.
    SystemMessage(String),
    /// The request failed with this error text.
    Error(String),
}

/// The keys the screen reacts to.
#[derive(Clone, Copy, Debug, PartialEq, Eq, Structural)]
pub enum Key {
    Char(char),
    Enter,
    Backspace,
    Other,
}

/// A key press with the state of the Control and Alt modifiers.
#[derive(Clone, Copy, Debug, PartialEq, Eq, Structural)]
pub struct KeyPress {
    pub key: Key,
    pub ctrl: bool,
    pub alt: bool,
}

/// What the caller has to do after a key press.
#[derive(Clone, Debug)]
pub enum Action {
    /// Nothing beyond redrawing.
    Nothing,
    /// Save what the conversation taught and leave.
    Quit,
    /// Store this fact in the memory.
    Remember(String),
    /// Send this question to the model.
    Ask(String),
}

/// The state of the chat screen.
pub struct App {
    pub messages: Vec<ChatMessage>,
    pub input: String,
    pub is_loading: bool,
    pub spinner_frame: usize,
    pub rig_history: Vec<Message>,
}

/// The screen as values: the log as (role, text) pairs, the input line,
/// whether a task is running, and the spinner frame.
#[verifier::ext_equal]
pub struct ChatView {
    pub log: Seq<(Role, Seq<char>)>,
    pub input: Seq<char>,
    pub loading: bool,
    pub frame: nat,
}

/// An action as values.
pub enum Command {
    Nothing,
    Quit,
    Remember(Seq<char>),
    Ask(Seq<char>),
}

impl Action {
    pub open spec fn command(self) -> Command {
        match self {
            Action::Nothing => Command::Nothing,
            Action::Quit => Command::Quit,
            Action::Remember(f) => Command::Remember(f@),
            Action::Ask(q) => Command::Ask(q@),
        }
    }
}

/// The (role, text) pairs of a chat log.
pub open spec fn log_of(messages: Seq<ChatMessage>) -> Seq<(Role, Seq<char>)> {
    messages.map_values(|m: ChatMessage| (m.role, m.content@))
}

impl App {
    pub open spec fn model(self) -> ChatView {
        ChatView {
            log: log_of(self.messages@),
            input: self.input@,
            loading: self.is_loading,
            frame: self.spinner_frame as nat,
        }
    }
}

/// The greeting the log starts with.
pub open spec fn welcome_text() -> Seq<char> {
    "Halo! Ketik pesan lalu Enter. \"remember: <fakta>\" untuk simpan ke memori. Ctrl+C untuk keluar."@
}

/// The notice shown while leaving.
pub open spec fn leaving_text() -> Seq<char> {
    "💾 Menyimpan memori sebelum keluar..."@
}

/// The prefix that marks an input as a fact to remember.
pub open spec fn remember_prefix() -> Seq<char> {
    "remember:"@
}

/// The notice that `n` memories went into the prompt.
pub open spec fn memory_note(n: nat) -> Seq<char> {
    "🧠 "@ + decimal(n) + " memori relevan digunakan"@
}

/// The notice for a failed request with error text `e`.
pub open spec fn error_note(e: Seq<char>) -> Seq<char> {
    "⚠️ Error: "@ + e
}

/// The number of spinner glyphs.
pub const SPINNER_LEN: usize = 10;

/// The spinner glyph of frame `i`.
pub open spec fn spinner_glyph(i: nat) -> Seq<char> {
    if i == 0 {
        "⠋"@
    } else if i == 1 {
        "⠙"@
    } else if i == 2 {
        "⠹"@
    } else if i == 3 {
        "⠸"@
    } else if i == 4 {
        "⠼"@
    } else if i == 5 {
        "⠴"@
    } else if i == 6 {
        "⠦"@
    } else if i == 7 {
        "⠧"@
    } else if i == 8 {
        "⠇"@
    } else {
        "⠏"@
    }
}

/// Whether the key press asks to leave (Control+C).
pub open spec fn is_quit(p: KeyPress) -> bool {
    p.key == Key::Char('c') && p.ctrl
}

/// What Enter with the input `input` asks for.
pub open spec fn submit_command(input: Seq<char>) -> Command {
    match strip_prefix(input, remember_prefix()) {
        Some(rest) => Command::Remember(trim(rest)),
        None => Command::Ask(input),
    }
}

/// The screen and the action after the key press `p` on screen `v`.
pub open spec fn step_key(v: ChatView, p: KeyPress) -> (ChatView, Command) {
    if is_quit(p) {
        (
            ChatView { log: v.log.push((Role::System, leaving_text())), ..v },
            Command::Quit,
        )
    } else if p.key == Key::Enter && !v.loading && v.input.len() > 0 {
        (
            ChatView {
                log: v.log.push((Role::User, v.input)),
                input: Seq::empty(),
                loading: true,
                frame: v.frame,
            },
            submit_command(v.input),
        )
    } else if p.key == Key::Backspace && !v.loading {
        (
            ChatView {
                input: if v.input.len() > 0 {
                    v.input.drop_last()
                } else {
                    v.input
                },
                ..v
            },
            Command::Nothing,
        )
    } else if p.key is Char && !v.loading && !p.ctrl && !p.alt {
        (ChatView { input: v.input.push(p.key->Char_0), ..v }, Command::Nothing)
    } else {
        (v, Command::Nothing)
    }
}

/// The screen after the task result `r` arrived on screen `v`.
pub open spec fn step_result(v: ChatView, r: TaskResult) -> ChatView {
    match r {
        TaskResult::AiResponse { response, updated_history, memory_count } => {
            let noted = if memory_count > 0 {
                v.log.push((Role::System, memory_note(memory_count as nat)))
            } else {
                v.log
            };
            ChatView { log: noted.push((Role::Ai, response@)), loading: false, ..v }
        },
        TaskResult::SystemMessage(m) => ChatView {
            log: v.log.push((Role::System, m@)),
            loading: false,
            ..v
        },
        TaskResult::Error(e) => ChatView {
            log: v.log.push((Role::System, error_note(e@))),
            loading: false,
            ..v
        },
    }
}

/// The spinner frame after one tick.
pub open spec fn next_frame(f: nat) -> nat {
    (f + 1) % (SPINNER_LEN as nat)
}

/// The spinner frame after `k` ticks from frame `f`.
pub open spec fn frame_after(f: nat, k: nat) -> nat
    decreases k,
{
    if k == 0 {
        f
    } else {
        next_frame(frame_after(f, (k - 1) as nat))
    }
}

/// A tick always lands on a frame that has a glyph, and ten ticks bring the
/// spinner back to the frame it started from.
pub proof fn spinner_cycles(f: nat)
    requires
        f < SPINNER_LEN,
    ensures
        next_frame(f) < SPINNER_LEN,
        frame_after(f, 10) == f,
{
    frame_after_is_sum(f, 10);
}

proof fn frame_after_is_sum(f: nat, k: nat)
    requires
        f < SPINNER_LEN,
    ensures
        frame_after(f, k) == (f + k) % 10,
    decreases k,
{
    if k > 0 {
        frame_after_is_sum(f, (k - 1) as nat);
        assert(((f + k - 1) % 10 + 1) % 10 == (f + k) % 10) by (nonlinear_arith);
    }
}

/// Typing a character and then erasing it, while no task runs, leaves the
/// screen as it was and asks for nothing.
pub proof fn type_then_erase(v: ChatView, typed: KeyPress, erase: KeyPress)
    requires
        !v.loading,
        typed.key is Char,
        !typed.ctrl,
        !typed.alt,
        erase.key == Key::Backspace,
    ensures
        step_key(step_key(v, typed).0, erase) == (v, Command::Nothing),
{
    let w = step_key(v, typed).0;
    assert(w.input == v.input.push(typed.key->Char_0));
    assert(step_key(w, erase).0 =~= v);
}

/// A character key without Control or Alt, while no task runs, appends
/// exactly that character to the input and changes nothing else.
pub proof fn typing_appends(v: ChatView, p: KeyPress, c: char)
    requires
        !v.loading,
        p.key == Key::Char(c),
        !p.ctrl,
        !p.alt,
    ensures
        step_key(v, p).0.input == v.input.push(c),
        step_key(v, p).0.log == v.log,
        step_key(v, p).0.loading == v.loading,
        step_key(v, p).0.frame == v.frame,
        step_key(v, p).1 == Command::Nothing,
{
}

/// Backspace while no task runs removes exactly the last character of the
/// input, if there is one, and changes nothing else.
pub proof fn erasing_removes_last(v: ChatView, p: KeyPress)
    requires
        !v.loading,
        p.key == Key::Backspace,
    ensures
        v.input.len() > 0 ==> step_key(v, p).0.input == v.input.take(v.input.len() - 1),
        v.input.len() == 0 ==> step_key(v, p).0.input == v.input,
        step_key(v, p).0.log == v.log,
        step_key(v, p).1 == Command::Nothing,
{
    assert(v.input.drop_last() =~= v.input.take(v.input.len() - 1));
}

/// What each task result adds to the log: a notice is logged as a system
/// entry with exactly its text; an error as a system entry reading
/// `⚠️ Error: ` and the error; an answer as the AI's entry with exactly its
/// text, after a system entry `🧠 <n> memori relevan digunakan` when `n`
/// memories were used.
pub proof fn result_entries(v: ChatView, r: TaskResult)
    ensures
        match r {
            TaskResult::SystemMessage(m) => step_result(v, r).log == v.log.push(
                (Role::System, m@),
            ),
            TaskResult::Error(e) => step_result(v, r).log == v.log.push(
                (Role::System, "⚠️ Error: "@ + e@),
            ),
            TaskResult::AiResponse { response, updated_history, memory_count } => step_result(
                v,
                r,
            ).log == if memory_count > 0 {
                v.log.push(
                    (Role::System, "🧠 "@ + decimal(memory_count as nat) + " memori relevan digunakan"@),
                ).push((Role::Ai, response@))
            } else {
                v.log.push((Role::Ai, response@))
            },
        },
{
}

/// While a task runs, every key but Control+C leaves the screen as it is
/// and asks for nothing.
pub proof fn busy_ignores_keys(v: ChatView, p: KeyPress)
    requires
        v.loading,
        !is_quit(p),
    ensures
        step_key(v, p) == (v, Command::Nothing),
{
}

/// Control+C always asks to quit, in any state, and only adds the leaving
/// notice to the log.
pub proof fn quit_always_leaves(v: ChatView, p: KeyPress)
    requires
        is_quit(p),
    ensures
        step_key(v, p).1 == Command::Quit,
        step_key(v, p).0 == (ChatView { log: v.log.push((Role::System, leaving_text())), ..v }),
{
}

/// Enter on a non-empty input while no task runs moves the input into the
/// log as the user's message, empties the input line and starts a task; it
/// asks to remember what follows `remember:` (trimmed) when the input starts
/// with it, and to ask the whole input otherwise.
pub proof fn submit_moves_input(v: ChatView, p: KeyPress)
    requires
        p.key == Key::Enter,
        !v.loading,
        v.input.len() > 0,
    ensures
        step_key(v, p).0.log == v.log.push((Role::User, v.input)),
        step_key(v, p).0.input.len() == 0,
        step_key(v, p).0.loading,
        match step_key(v, p).1 {
            Command::Remember(f) => v.input.len() >= remember_prefix().len() && v.input.take(
                remember_prefix().len() as int,
            ) == remember_prefix() && f == trim(v.input.skip(remember_prefix().len() as int)),
            Command::Ask(q) => q == v.input && strip_prefix(v.input, remember_prefix()) is None,
            _ => false,
        },
{
    assert(v.input.subrange(remember_prefix().len() as int, v.input.len() as int) =~= v.input.skip(
        remember_prefix().len() as int,
    ));
}

/// A fact to remember never starts or ends with whitespace.
pub proof fn remembered_fact_is_trimmed(v: ChatView, p: KeyPress)
    requires
        step_key(v, p).1 is Remember,
    ensures
        ({
            let f = step_key(v, p).1->Remember_0;
            f.len() > 0 ==> !is_space(f[0]) && !is_space(f.last())
        }),
{
    let rest = strip_prefix(v.input, remember_prefix())->Some_0;
    trim_has_no_outer_space(rest);
}

/// Every task result ends the loading state, keeps the input and the
/// spinner, and adds to the end of the log without touching what was there.
pub proof fn result_ends_loading(v: ChatView, r: TaskResult)
    ensures
        !step_result(v, r).loading,
        step_result(v, r).input == v.input,
        step_result(v, r).frame == v.frame,
        step_result(v, r).log.len() > v.log.len(),
        step_result(v, r).log.take(v.log.len() as int) == v.log,
{
    let w = step_result(v, r);
    assert(w.log.take(v.log.len() as int) =~= v.log);
}

impl App {
    /// A fresh screen: the greeting alone in the log, an empty input, no
    /// running task, the first spinner frame and an empty history.
    pub fn new() -> (app: Self)
        ensures
            app.model().log == seq![(Role::System, welcome_text())],
            app.model().input == Seq::<char>::empty(),
            !app.is_loading,
            app.spinner_frame == 0,
            app.rig_history@ == Seq::<Message>::empty(),
    {
        let greeting = ChatMessage {
            role: Role::System,
            content: String::from_str(
                "Halo! Ketik pesan lalu Enter. \"remember: <fakta>\" untuk simpan ke memori. Ctrl+C untuk keluar.",
            ),
        };
        let mut messages: Vec<ChatMessage> = Vec::new();
        messages.push(greeting);
        let app = App {
            messages,
            input: String::new(),
            is_loading: false,
            spinner_frame: 0,
            rig_history: Vec::new(),
        };
        assert(app.model().log =~= seq![(Role::System, welcome_text())]);
        app
    }

    /// Advances the spinner by one frame; nothing else changes.
    pub fn tick(&mut self)
        requires
            old(self).spinner_frame < usize::MAX,
        ensures
            final(self).spinner_frame == next_frame(old(self).spinner_frame as nat),
            final(self).messages == old(self).messages,
            final(self).input == old(self).input,
            final(self).is_loading == old(self).is_loading,
            final(self).rig_history == old(self).rig_history,
    {
        self.spinner_frame = (self.spinner_frame + 1) % SPINNER_LEN;
    }

    /// The glyph of the current spinner frame.
    pub fn spinner(&self) -> (s: &str)
        requires
            self.spinner_frame < SPINNER_LEN,
        ensures
            s@ == spinner_glyph(self.spinner_frame as nat),
    {
        match self.spinner_frame {
            0 => "⠋",
            1 => "⠙",
            2 => "⠹",
            3 => "⠸",
            4 => "⠼",
            5 => "⠴",
            6 => "⠦",
            7 => "⠧",
            8 => "⠇",
            _ => "⠏",
        }
    }

    fn push_message(&mut self, role: Role, content: String)
        ensures
            final(self).model() == (ChatView {
                log: old(self).model().log.push((role, content@)),
                ..old(self).model()
            }),
            final(self).rig_history == old(self).rig_history,
    {
        self.messages.push(ChatMessage { role, content });
        assert(log_of(self.messages@) =~= log_of(old(self).messages@).push((role, content@)));
    }

    /// Reacts to a key press: Control+C notes the leaving and asks to quit;
    /// while no task runs, Enter on a non-empty input moves it into the log,
    /// starts a task and asks to remember the rest of a `remember:` input
    /// (trimmed) or to ask the input; Backspace erases the last character and
    /// other characters without Control or Alt are typed. Anything else
    /// changes nothing.
    pub fn handle_key(&mut self, press: KeyPress) -> (action: Action)
        ensures
            (final(self).model(), action.command()) == step_key(old(self).model(), press),
            final(self).rig_history == old(self).rig_history,
    {
        let ghost v = self.model();
        if press.key == Key::Char('c') && press.ctrl {
            self.push_message(
                Role::System,
                String::from_str("💾 Menyimpan memori sebelum keluar..."),
            );
            Action::Quit
        } else if press.key == Key::Enter && !self.is_loading && !self.input.as_str().is_empty() {
            let input = self.input.clone();
            self.input = String::new();
            self.push_message(Role::User, input.clone());
            self.is_loading = true;
            assert(self.model().log == v.log.push((Role::User, v.input)));
            match strip_text_prefix(input.as_str(), "remember:") {
                Some(rest) => Action::Remember(trim_text(rest.as_str())),
                None => Action::Ask(input),
            }
        } else if press.key == Key::Backspace && !self.is_loading {
            let _ = pop_char(&mut self.input);
            Action::Nothing
        } else {
            match press.key {
                Key::Char(c) => {
                    if !self.is_loading && !press.ctrl && !press.alt {
                        push_char(&mut self.input, c);
                    }
                },
                _ => {},
            }
            Action::Nothing
        }
    }

    /// Shows what a background task handed back and ends the loading state:
    /// an answer (after a note on the memories used, when there were any)
    /// with its updated history, a notice, or an error.
    pub fn apply_result(&mut self, result: TaskResult)
        ensures
            final(self).model() == step_result(old(self).model(), result),
            match result {
                TaskResult::AiResponse { updated_history, .. } => final(self).rig_history
                    == updated_history,
                _ => final(self).rig_history == old(self).rig_history,
            },
    {
        match result {
            TaskResult::AiResponse { response, updated_history, memory_count } => {
                if memory_count > 0 {
                    let mut note = String::from_str("🧠 ");
                    push_decimal(&mut note, memory_count as u64);
                    note.append(" memori relevan digunakan");
                    self.push_message(Role::System, note);
                }
                self.push_message(Role::Ai, response);
                self.rig_history = updated_history;
                self.is_loading = false;
            },
            TaskResult::SystemMessage(msg) => {
                self.push_message(Role::System, msg);
                self.is_loading = false;
            },
            TaskResult::Error(e) => {
                self.push_message(Role::System, String::from_str("⚠️ Error: ").concat(e.as_str()));
                self.is_loading = false;
            },
        }
    }
}

} // verus!
