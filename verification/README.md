# chat_adapter

The verified core of a chat adapter that connects chat platforms (Discord, Slack, LINE and
the like) to coding agents.

| Module | What it holds |
| --- | --- |
| `text` | trimming, lines, joining and decimal numbers over sequences of characters |
| `channel` | channels, messages, senders, session keys |
| `adapter` | what a platform's adapter decides, and its answers where it cannot do something |
| `config` | what an operator configures |
| `tools` | the agent's tool calls and how a reply shows them |
| `stream` | a run of the agent: events in, actions out, the final answer |
| `directives` | upload blocks in an answer |
| `uploads` | which files may be uploaded: questions about the disk out, answers in, paths tested |
| `delivery` | whether a final answer goes out, and the order of its edits, messages and file batches |
| `router` | prompts, and what happens around a run |
| `*_laws` | properties that span several functions, each a public proof function |

Every function in `src/` is verified with Verus. `app/` is ordinary async Rust around it: it
talks to platforms, agent sessions and the file system, performs what the library asks for
and reports back.

What is taken on trust of the standard library is declared where it is used:
`char::is_whitespace` and `String::push` in `text`, `PathBuf` and its `clone` in `adapter`.
Four calls of it stand behind wrappers of which nothing is claimed but that they are made:
`str::hash` and `Option::hash` in `channel`, `Path::is_absolute` and `Path::starts_with` in
`uploads`.
