# tact_tui

The interaction logic of a terminal coding assistant, written and proved in Verus: a composer with
history and image tokens, a scrolling transcript of messages and tool calls, menus and pickers, a
queue of prompts, subagents, a forked session beside the primary one, and the decisions of the main
loop.

- `src/` is the verified library. Each component is a struct with plain fields, a mathematical model
  that its `view` gives, and a spec function for every step it can take. Functions that draw return a
  list of drawing commands; their contracts say which.
- `tests/` runs the library, with its drawing commands carried out on a buffer.
- `app/` is the rest of the program: the terminal, the clipboard, the database, the files of the
  workspace and the event loop. It hands plain values to the library and does what the library asks
  for. Times are milliseconds since the program began; those of sessions and records, and
  the one that drawing takes, are milliseconds since 1970.

Reading order: `event`, `node` and `draw` for the vocabulary; `composer`, `transcript`, `queue` and
`subagents` for the components; `root`, `routing` and `dispatch` for a session; `panes` for two of
them; `pane_runtime`, `runtime`, `main_loop` and `errands` for the loop; `storage` and `record` for
what is kept on disk.

Proof functions whose names begin with `law_` state what holds of several operations together, such
as that a prompt is never lost or sent twice, or that additions do not move a viewport that does not
follow the end. Calls of other crates stand behind small functions marked
`#[verifier::external_body]`, whose comments say what is taken on trust.
