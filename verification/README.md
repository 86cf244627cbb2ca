# presguel

A Hangul input method that interprets Nalgaeset input settings, written in Rust and verified with
Verus.

- `src/` is the verified library. Every function states in its contract what it returns or
  changes, over mathematical models of the data, and Verus proves it.
- `app/` is the program around it: an IBus engine on D-Bus, which reads files and environment
  variables, hands events to the library and sends the signals that it asks for.
- `tests/` runs the library on concrete values.

## Modules

| Module | What it holds |
| --- | --- |
| `text` | characters, strings, number literals |
| `unit`, `jamo`, `ngs_seq` | letters, their names and numbers, precomposed syllables |
| `expr` | value expressions: tokens, grammar, evaluation |
| `config` | settings documents: their elements, and layouts compiled from them |
| `engine` | composing: what each key does to the syllable |
| `evdev` | physical keys |
| `settings`, `paths` | user settings, and where files stand |
| `ibus` | the front end: entries, switching between them, what to tell the bus |
| `bus` | the address of the bus, and the engine objects that it asks for |

The modules named `model` say what composing and the front end are; those named `laws` state what
holds of them as a whole. `engine/reached.rs` states what holds in every state that keys lead to, and
`engine/documents.rs` what follows for layouts read from a document. XML markup is read by the crate `quick_xml`; what the library relies on
there is stated in `config/xml.rs`.

## Expressions without a value

Key tables and automata are written as 64-bit integer expressions. An operation that overflows,
divides by zero or shifts out of range has no value. `Expr::eval`, `Engine::press`,
`Engine::backspace` and `IBusEngine::process_key_event` are for inputs that come to no such
operation; `Expr::checked_eval`, `Engine::press_defined`, `Engine::backspace_defined` and
`IBusEngine::key_event_defined` tell beforehand.
