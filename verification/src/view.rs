//! What the screen shows: the chat pane as styled lines with its scroll
//! offset, and the input box with its cursor.
use vstd::prelude::*;

use crate::state::{log_of, spinner_glyph, App, ChatMessage, ChatView, Role, SPINNER_LEN};
use crate::text::views;
use vstd::utf8::encode_utf8;

verus! {

/// How a piece of text is styled.
#[derive(Clone, Copy, Debug, PartialEq, Eq, Structural)]
pub enum Tone {
    /// The bold cyan `Kamu: ` label.
    UserLabel,
    /// Unstyled text.
    Plain,
    /// The bold green `AI:` label.
    AiLabel,
    /// White answer text.
    AiText,
    /// Yellow notice text.
    Notice,
    /// The bold yellow busy indicator.
    Busy,
    /// The dark grey hint in an empty input box.
    Hint,
    /// White typed input.
    Typed,
}

/// A run of text in one style.
#[derive(Clone, Debug)]
pub struct Segment {
    pub tone: Tone,
    pub text: String,
}

/// One line of the chat pane, as styled runs.
#[derive(Clone, Debug)]
pub struct ChatLine {
    pub segments: Vec<Segment>,
}

/// `l` without one `\r` at its end.
pub open spec fn strip_cr(l: Seq<char>) -> Seq<char> {
    if l.len() > 0 && l.last() == '\r' {
        l.drop_last()
    } else {
        l
    }
}

/// The lines of `s` from `start` on, where `s[start..i]` holds no `\n`: each
/// `\n` ends a line and is dropped with one `\r` before it; what follows the
/// last `\n`, when anything does, is the last line, kept as it is.
pub open spec fn split_from(s: Seq<char>, start: int, i: int) -> Seq<Seq<char>>
    decreases s.len() - i,
{
    if i >= s.len() {
        if start < s.len() {
            seq![s.subrange(start, s.len() as int)]
        } else {
            seq![]
        }
    } else if s[i] == '\n' {
        seq![strip_cr(s.subrange(start, i))] + split_from(s, i + 1, i + 1)
    } else {
        split_from(s, start, i + 1)
    }
}

/// The lines of `s`, as `str::lines` splits them: at `\n` and `\r\n`, with
/// no empty line after a final line ending.
pub open spec fn line_split(s: Seq<char>) -> Seq<Seq<char>> {
    split_from(s, 0, 0)
}

/// The lines of `s`.
///
/// Trusted: `str::lines`, which splits at `\n` and `\r\n`, leaves out the
/// line endings, and gives no empty line after a final line ending; a lone
/// `\r` stays. This is what `line_split` states.
#[verifier::external_body]
fn text_lines(s: &str) -> (r: Vec<String>)
    ensures
        views(r@) == line_split(s@),
{
    s.lines().map(|l| l.to_string()).collect()
}

/// A line as (style, text) runs.
pub open spec fn line_view(l: ChatLine) -> Seq<(Tone, Seq<char>)> {
    l.segments@.map_values(|s: Segment| (s.tone, s.text@))
}

/// Lines as (style, text) runs.
pub open spec fn lines_view(ls: Seq<ChatLine>) -> Seq<Seq<(Tone, Seq<char>)>> {
    ls.map_values(|l: ChatLine| line_view(l))
}

/// A blank line.
pub open spec fn blank() -> Seq<(Tone, Seq<char>)> {
    Seq::empty()
}

/// A line of one run.
pub open spec fn single(tone: Tone, text: Seq<char>) -> Seq<(Tone, Seq<char>)> {
    seq![(tone, text)]
}

/// The lines of the answer text `text`, each one run of answer style.
pub open spec fn answer_lines(text: Seq<char>) -> Seq<Seq<(Tone, Seq<char>)>> {
    line_split(text).map_values(|l: Seq<char>| single(Tone::AiText, l))
}

/// The lines that show one log entry, each entry ending with a blank line: a
/// user message after its label on one line; an answer under its label,
/// line by line; a notice on one line.
pub open spec fn entry_lines(role: Role, text: Seq<char>) -> Seq<Seq<(Tone, Seq<char>)>> {
    match role {
        Role::User => seq![seq![(Tone::UserLabel, "Kamu: "@), (Tone::Plain, text)], blank()],
        Role::Ai => seq![single(Tone::AiLabel, "AI:"@)] + answer_lines(text) + seq![blank()],
        Role::System => seq![single(Tone::Notice, text), blank()],
    }
}

/// The lines that show a log.
pub open spec fn log_lines(log: Seq<(Role, Seq<char>)>) -> Seq<Seq<(Tone, Seq<char>)>>
    decreases log.len(),
{
    if log.len() == 0 {
        seq![]
    } else {
        log_lines(log.drop_last()) + entry_lines(log.last().0, log.last().1)
    }
}

/// The busy line shown while a task runs.
pub open spec fn busy_text(frame: nat) -> Seq<char> {
    spinner_glyph(frame) + " Sedang berpikir..."@
}

/// The chat pane of screen `v`: the log, then the busy line while a task runs.
pub open spec fn chat_plan(v: ChatView) -> Seq<Seq<(Tone, Seq<char>)>> {
    if v.loading {
        log_lines(v.log).push(single(Tone::Busy, busy_text(v.frame)))
    } else {
        log_lines(v.log)
    }
}

fn one_run(tone: Tone, text: String) -> (l: ChatLine)
    ensures
        line_view(l) == single(tone, text@),
{
    let mut segments: Vec<Segment> = Vec::new();
    segments.push(Segment { tone, text });
    let l = ChatLine { segments };
    assert(line_view(l) =~= single(tone, text@));
    l
}

fn blank_line() -> (l: ChatLine)
    ensures
        line_view(l) == blank(),
{
    let l = ChatLine { segments: Vec::new() };
    assert(line_view(l) =~= blank());
    l
}

fn push_line(lines: &mut Vec<ChatLine>, l: ChatLine)
    ensures
        lines_view(final(lines)@) == lines_view(old(lines)@).push(line_view(l)),
{
    lines.push(l);
    assert(lines_view(lines@) =~= lines_view(old(lines)@).push(line_view(l)));
}

fn push_entry_lines(lines: &mut Vec<ChatLine>, m: &ChatMessage)
    ensures
        lines_view(final(lines)@) == lines_view(old(lines)@) + entry_lines(m.role, m.content@),
{
    let ghost start = lines_view(lines@);
    match m.role {
        Role::User => {
            let mut segments: Vec<Segment> = Vec::new();
            segments.push(Segment { tone: Tone::UserLabel, text: String::from_str("Kamu: ") });
            segments.push(Segment { tone: Tone::Plain, text: m.content.clone() });
            let l = ChatLine { segments };
            assert(line_view(l) =~= seq![(Tone::UserLabel, "Kamu: "@), (Tone::Plain, m.content@)]);
            push_line(lines, l);
            push_line(lines, blank_line());
            assert(lines_view(lines@) =~= start + entry_lines(m.role, m.content@));
        },
        Role::Ai => {
            push_line(lines, one_run(Tone::AiLabel, String::from_str("AI:")));
            let parts = text_lines(m.content.as_str());
            let ghost mid = lines_view(lines@);
            let n = parts.len();
            let mut i: usize = 0;
            while i < n
                invariant
                    n == parts@.len(),
                    views(parts@) == line_split(m.content@),
                    i <= n,
                    lines_view(lines@) == mid + answer_lines(m.content@).take(i as int),
                decreases n - i,
            {
                push_line(lines, one_run(Tone::AiText, parts[i].clone()));
                assert(answer_lines(m.content@).take(i + 1) =~= answer_lines(m.content@).take(
                    i as int,
                ).push(single(Tone::AiText, parts@[i as int]@)));
                i = i + 1;
            }
            assert(answer_lines(m.content@).take(n as int) =~= answer_lines(m.content@));
            push_line(lines, blank_line());
            assert(lines_view(lines@) =~= start + entry_lines(m.role, m.content@));
        },
        Role::System => {
            push_line(lines, one_run(Tone::Notice, m.content.clone()));
            push_line(lines, blank_line());
            assert(lines_view(lines@) =~= start + entry_lines(m.role, m.content@));
        },
    }
}

/// The lines of the chat pane: each log entry in turn, then the busy line
/// while a task runs.
pub fn chat_lines(app: &App) -> (r: Vec<ChatLine>)
    requires
        app.is_loading ==> app.spinner_frame < SPINNER_LEN,
    ensures
        lines_view(r@) == chat_plan(app.model()),
{
    let mut lines: Vec<ChatLine> = Vec::new();
    let n = app.messages.len();
    let mut i: usize = 0;
    assert(lines_view(lines@) =~= log_lines(log_of(app.messages@.take(0))));
    while i < n
        invariant
            n == app.messages@.len(),
            i <= n,
            lines_view(lines@) == log_lines(log_of(app.messages@.take(i as int))),
        decreases n - i,
    {
        push_entry_lines(&mut lines, &app.messages[i]);
        assert(log_of(app.messages@.take(i + 1)).drop_last() =~= log_of(
            app.messages@.take(i as int),
        ));
        assert(log_of(app.messages@.take(i + 1)).last() == (
            app.messages@[i as int].role,
            app.messages@[i as int].content@,
        ));
        i = i + 1;
    }
    assert(app.messages@.take(n as int) =~= app.messages@);
    if app.is_loading {
        let busy = String::from_str(app.spinner()).concat(" Sedang berpikir...");
        push_line(&mut lines, one_run(Tone::Busy, busy));
    }
    lines
}

/// The number of characters on a line.
pub open spec fn line_len(l: Seq<(Tone, Seq<char>)>) -> nat
    decreases l.len(),
{
    if l.len() == 0 {
        0
    } else {
        line_len(l.drop_last()) + l.last().1.len()
    }
}

/// The screen rows a line takes at `width` columns: one for an empty line,
/// otherwise its length divided by the width, rounded up.
pub open spec fn line_rows(l: Seq<(Tone, Seq<char>)>, width: nat) -> nat {
    if line_len(l) == 0 {
        1
    } else {
        ((line_len(l) + width - 1) / width as int) as nat
    }
}

/// The screen rows all of `ls` take at `width` columns.
pub open spec fn total_rows(ls: Seq<Seq<(Tone, Seq<char>)>>, width: nat) -> nat
    decreases ls.len(),
{
    if ls.len() == 0 {
        0
    } else {
        total_rows(ls.drop_last(), width) + line_rows(ls.last(), width)
    }
}

fn line_chars(l: &ChatLine) -> (n: usize)
    requires
        line_len(line_view(*l)) <= usize::MAX,
    ensures
        n == line_len(line_view(*l)),
{
    let k = l.segments.len();
    let mut total: usize = 0;
    let mut j: usize = 0;
    while j < k
        invariant
            k == l.segments@.len(),
            j <= k,
            line_len(line_view(*l)) <= usize::MAX,
            total == line_len(line_view(*l).take(j as int)),
        decreases k - j,
    {
        assert(line_view(*l).take(j + 1).drop_last() =~= line_view(*l).take(j as int));
        proof {
            lemma_line_len_prefix(line_view(*l), j + 1);
        }
        total = total + l.segments[j].text.as_str().unicode_len();
        j = j + 1;
    }
    assert(line_view(*l).take(k as int) =~= line_view(*l));
    total
}

proof fn lemma_line_len_prefix(l: Seq<(Tone, Seq<char>)>, k: int)
    requires
        0 <= k <= l.len(),
    ensures
        line_len(l.take(k)) <= line_len(l),
    decreases l.len() - k,
{
    if k < l.len() {
        lemma_line_len_prefix(l, k + 1);
        assert(l.take(k + 1).drop_last() =~= l.take(k));
    } else {
        assert(l.take(k) =~= l);
    }
}

proof fn lemma_total_rows_prefix(ls: Seq<Seq<(Tone, Seq<char>)>>, width: nat, k: int)
    requires
        0 <= k <= ls.len(),
    ensures
        total_rows(ls.take(k), width) <= total_rows(ls, width),
    decreases ls.len() - k,
{
    if k < ls.len() {
        lemma_total_rows_prefix(ls, width, k + 1);
        assert(ls.take(k + 1).drop_last() =~= ls.take(k));
    } else {
        assert(ls.take(k) =~= ls);
    }
}

/// Every line takes at least one row, so the lines never take fewer rows
/// than there are lines.
pub proof fn rows_at_least_lines(ls: Seq<Seq<(Tone, Seq<char>)>>, width: nat)
    requires
        width > 0,
    ensures
        total_rows(ls, width) >= ls.len(),
    decreases ls.len(),
{
    if ls.len() > 0 {
        rows_at_least_lines(ls.drop_last(), width);
        let n = line_len(ls.last());
        if n > 0 {
            assert((n + width - 1) / (width as int) >= 1) by (nonlinear_arith)
                requires n > 0, width > 0;
        }
    }
}

/// The rows of two runs of lines, one after the other, are the rows of the
/// first run and the rows of the second added up.
pub proof fn rows_add_up(a: Seq<Seq<(Tone, Seq<char>)>>, b: Seq<Seq<(Tone, Seq<char>)>>, width: nat)
    ensures
        total_rows(a + b, width) == total_rows(a, width) + total_rows(b, width),
    decreases b.len(),
{
    if b.len() == 0 {
        assert(a + b =~= a);
    } else {
        rows_add_up(a, b.drop_last(), width);
        assert((a + b).drop_last() =~= a + b.drop_last());
        assert((a + b).last() == b.last());
    }
}

proof fn line_rows_shrink(l: Seq<(Tone, Seq<char>)>, w1: nat, w2: nat)
    requires
        1 <= w1 <= w2,
    ensures
        line_rows(l, w2) <= line_rows(l, w1),
{
    let n = line_len(l) as int;
    if n > 0 {
        let a = w1 as int;
        let b = w2 as int;
        let q1 = (n + a - 1) / a;
        assert(q1 * a >= n) by (nonlinear_arith)
            requires a >= 1, n >= 1, q1 == (n + a - 1) / a;
        assert(q1 * b >= q1 * a) by (nonlinear_arith)
            requires b >= a, q1 >= 0;
        assert((n + b - 1) / b <= q1) by (nonlinear_arith)
            requires b >= 1, q1 * b >= n, n >= 1;
    }
}

/// Wrapping at more columns never takes more rows.
pub proof fn rows_shrink_with_width(ls: Seq<Seq<(Tone, Seq<char>)>>, w1: nat, w2: nat)
    requires
        1 <= w1 <= w2,
    ensures
        ls.len() <= total_rows(ls, w2) <= total_rows(ls, w1),
    decreases ls.len(),
{
    rows_at_least_lines(ls, w2);
    if ls.len() > 0 {
        rows_shrink_with_width(ls.drop_last(), w1, w2);
        line_rows_shrink(ls.last(), w1, w2);
    }
}

/// Whether every line's length and the rows of all lines fit a `usize`.
pub open spec fn rows_fit(ls: Seq<Seq<(Tone, Seq<char>)>>, width: nat) -> bool {
    &&& forall|i: int| 0 <= i < ls.len() ==> line_len(#[trigger] ls[i]) <= usize::MAX
    &&& total_rows(ls, width) <= usize::MAX
}

/// The screen rows `lines` take when wrapped at `width` columns; at width
/// zero, one row per line.
pub fn estimate_line_count(lines: &[ChatLine], width: usize) -> (n: usize)
    requires
        width > 0 ==> rows_fit(lines_view(lines@), width as nat),
    ensures
        n == if width == 0 {
            lines@.len()
        } else {
            total_rows(lines_view(lines@), width as nat)
        },
{
    if width == 0 {
        return lines.len();
    }
    let ghost ls = lines_view(lines@);
    let k = lines.len();
    let mut total: usize = 0;
    let mut i: usize = 0;
    while i < k
        invariant
            k == lines@.len(),
            ls == lines_view(lines@),
            width > 0,
            rows_fit(ls, width as nat),
            i <= k,
            total == total_rows(ls.take(i as int), width as nat),
        decreases k - i,
    {
        assert(ls[i as int] == line_view(lines@[i as int]));
        let len = line_chars(&lines[i]);
        assert(len % width != 0 ==> len / width < usize::MAX) by (nonlinear_arith)
            requires width > 0;
        let rows = if len == 0 {
            1
        } else {
            len / width + if len % width == 0 {
                0
            } else {
                1
            }
        };
        proof {
            assert(ls.take(i + 1).drop_last() =~= ls.take(i as int));
            assert(ls.take(i + 1).last() == ls[i as int]);
            let w = width as int;
            let q = len as int / w;
            let rem = len as int % w;
            assert(len as int == q * w + rem) by (nonlinear_arith)
                requires w > 0, q == len as int / w, rem == len as int % w;
            assert(0 <= rem < w) by (nonlinear_arith)
                requires w > 0, rem == len as int % w;
            if len > 0 {
                if rem == 0 {
                    assert((len + w - 1) / w == q) by (nonlinear_arith)
                        requires len as int == q * w, w > 0;
                } else {
                    assert((len + w - 1) / w == q + 1) by (nonlinear_arith)
                        requires len as int == q * w + rem, 0 < rem < w;
                }
            }
            lemma_total_rows_prefix(ls, width as nat, i + 1);
        }
        total = total + rows;
        i = i + 1;
    }
    assert(ls.take(k as int) =~= ls);
    total
}

/// How far the chat pane scrolls so that its last rows show: the rows the
/// lines take inside the borders, less the rows that fit, as a `u16`.
pub open spec fn scroll_offset(rows: nat, inner_height: nat) -> u16 {
    (if rows > inner_height {
        rows - inner_height
    } else {
        0
    }) as u16
}

/// The inner size of a bordered area along one side.
pub open spec fn inner_size(outer: u16) -> nat {
    if outer >= 2 {
        (outer - 2) as nat
    } else {
        0
    }
}

/// The scroll offset of the chat pane for `lines` in an area of
/// `area_width` by `area_height`, borders included.
pub fn chat_scroll(lines: &[ChatLine], area_width: u16, area_height: u16) -> (s: u16)
    requires
        inner_size(area_width) > 0 ==> rows_fit(
            lines_view(lines@),
            inner_size(area_width),
        ),
    ensures
        s == scroll_offset(
            if inner_size(area_width) == 0 {
                lines@.len()
            } else {
                total_rows(lines_view(lines@), inner_size(area_width))
            },
            inner_size(area_height),
        ),
{
    let inner_width = area_width.saturating_sub(2) as usize;
    let viewport_height = area_height.saturating_sub(2) as usize;
    let total = estimate_line_count(lines, inner_width);
    total.saturating_sub(viewport_height) as u16
}

/// The text of the input box of screen `v` and its style: a hint while the
/// input is empty and no task runs, otherwise the input.
pub open spec fn input_plan(v: ChatView) -> (Tone, Seq<char>) {
    if v.input.len() == 0 && !v.loading {
        (Tone::Hint, "ketik pesan di sini..."@)
    } else {
        (Tone::Typed, v.input)
    }
}

/// The text shown in the input box, with its style.
pub fn input_segment(app: &App) -> (s: Segment)
    ensures
        (s.tone, s.text@) == input_plan(app.model()),
{
    if app.input.as_str().is_empty() && !app.is_loading {
        Segment { tone: Tone::Hint, text: String::from_str("ketik pesan di sini...") }
    } else {
        Segment { tone: Tone::Typed, text: app.input.clone() }
    }
}

/// Where the cursor stands in the input box whose inner area starts at
/// column `x`, row `y` and is `width` columns wide: after the input's bytes,
/// but within the box; no cursor while a task runs.
pub open spec fn cursor_plan(loading: bool, input_bytes: usize, x: u16, y: u16, width: u16) -> Option<
    (u16, u16),
> {
    if loading {
        None
    } else {
        let limit: int = if width >= 1 {
            width - 1
        } else {
            0
        };
        let offset: int = if (input_bytes as u16) < limit {
            (input_bytes as u16) as int
        } else {
            limit
        };
        Some(((x + offset) as u16, y))
    }
}

/// The cursor position in the input box whose inner area starts at column
/// `x`, row `y` and is `width` columns wide.
pub fn cursor_position(app: &App, x: u16, y: u16, width: u16) -> (p: Option<(u16, u16)>)
    requires
        x + width <= u16::MAX,
    ensures
        p == cursor_plan(app.is_loading, encode_utf8(app.input@).len() as usize, x, y, width),
{
    if app.is_loading {
        return None;
    }
    let bytes = app.input.as_str().len();
    let shown = bytes as u16;
    let limit = width.saturating_sub(1);
    let offset = if shown < limit {
        shown
    } else {
        limit
    };
    Some((x + offset, y))
}

} // verus!
