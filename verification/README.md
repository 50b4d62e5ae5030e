# cmux

The decision logic of a terminal multiplexer, with its behaviour stated as contracts and proved by
Verus.

- `src/` is the library. It does no input or output: what was read comes in as plain values, and
  what is to be done goes out as plain values.
- `tests/` runs it on concrete values.
- `app/` is the program around it: arguments, files, sockets, processes and the terminal.

Where to look:

| What | Modules |
| --- | --- |
| Command lines, verbs and requests | `args`, `cli`, `verbs`, `flags`, `requests`, `prompt` |
| Answers and what is printed of them | `answers`, `output` |
| Sessions | `sessions`, `session_picker`, `session_manager`, `socket_watchdog` |
| State, snapshots and layouts | `model`, `persist`, `layout_doc`, `layout_verbs`, `tree` |
| Overlays and the sidebar | `finder`, `help`, `sidebar`, `paint`, `input` |
| Hooks of agents | `hooks`, `aider_hook`, `antigravity_hook`, `codex_hook`, `grok_hook`, `opencode_hook`, `pi_hook` |
| Plugins | `plugin`, `fleet` |
| Terminal output, clipboard, git, themes, version | `osc`, `notify`, `desktop_notify`, `clipboard`, `git_info`, `theme`, `version` |
| Texts, JSON and order | `text`, `json`, `order` |

Laws that relate several functions are the public proof functions whose names start with `law_`.
JSON is read and written by `serde_json`; what is relied on of it is stated in `json`. The types of
the program's files have a JSON form in the library; the program in `app/` reads and writes their
texts with `serde`.
