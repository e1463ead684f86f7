# chat_assistant

A terminal chat assistant with a long-term memory, written as a Verus-verified
library (`src/`) and a thin program around it (`app/`).

`src/`, verified:

- `state` — the chat screen (`App`), its log of `ChatMessage`s, how a key press
  (`handle_key`) and a finished background task (`apply_result`) change it, and
  the spinner. Each change is stated against a value model (`ChatView`,
  `step_key`, `step_result`); the laws about typing, submitting, quitting and
  results are proof functions beside it.
- `view` — what the screen shows: the chat pane as styled lines
  (`chat_lines`), how many rows they wrap to and how far the pane scrolls, and
  the input box with its cursor.
- `history` — the model-side history: its plain-text transcript
  (`messages_to_text`), cutting an overlong history and heading it with a
  summary.
- `prompt` — the prompt built from found memories, and the notices tasks show.
- `task` — the answer task's decisions: which model reply counts, and what the
  screen is sent afterwards.
- `memory` — memory entries and the choice of which memories answer a query.
- `text` — whitespace, trimming, prefixes, decimal numbers, joining.

`app/`, not verified: the terminal loop (crossterm, ratatui, tokio), the calls
to the language and embedding models (rig-core), the memory file
(serde_json), and the floating-point similarity that ranks memories.
