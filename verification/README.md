# uplink

The verified core of the Uplink desktop chat client, written in Verus.

`src/` holds the decisions the client makes, each with a contract that Verus
proves: the configuration and its settings, keyboard shortcuts, the chat
input's key handling and the rich editor's messages, message and reaction
rules, file selection and upload prompts, friend requests, seed words, the
typing indicator, and the login steps of the Warp runner. Public proof
functions (`lemma_*`) state properties that hold across calls, such as
toggling a selection twice giving it back, or copied seed words reading back
as the same words.

Calls into outside crates (`humansize`, `mime`, `uuid`) and a few standard
library functions stand behind small trusted wrappers whose contracts are
written next to them.

`app/` is a thin command-line front end: it reads and writes
`~/.uplink/Config.json` with `serde_json`, sets up logging and the crash
report, and prints the library's decisions for a few commands.

`tests/` runs the library on concrete values.
