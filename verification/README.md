# HuFu front ends

The front ends of HuFu (虎符), an input method for Chinese. The engine runs in a process of its
own; a front end sends it keys and shows what comes back.

- `src/` is the library, written and verified in Verus. It holds what a front end decides, but for
  what is computed in floating point: the frames and requests that go to the engine, which of them
  comes first, and what the replies mean, the reverse lookup, the sounds and the configuration of
  the Linux client, the pipe's waiting and starting rules, the menu, mode and icon of the language
  bar, the dialog that adds a word, and of the candidate windows their rows, places, moves, sizes,
  colours and messages.
- `app/` is ordinary Rust around it: sockets, pipes, windows, COM objects, and the curves and
  blends that are computed in floating point.
- `tests/` runs the library with its outside crates linked.

## How the library is laid out

| Modules | What they hold |
| --- | --- |
| `text`, `utf16`, `number`, `base64`, `color`, `geometry` | plain values |
| `json`, `frame`, `http`, `request` | what goes over the wire |
| `session`, `lookup`, `sound`, `client` | the Linux client |
| `ipc`, `com`, `displayattr`, `canduielement`, `langbar`, `smoke`, `addword` | the Windows service |
| `skin`, `labels`, `rows`, `place`, `motion`, `morph`, `drag`, `watch`, `layered` | parts of a candidate window |
| `candwin`, `candwin2`, `candwin3` | the three candidate windows |

Exchanges with the engine are state machines: the library says what to do next, the host does it
and hands back what came of it. Animations are split the same way: the library decides that a
window slides from here to there, and the host computes the step for the moment.

## What is taken on trust

The calls into `serde_json` and two calls into the standard library are behind declarations whose
contracts are believed, not proved; each says in its comment what it claims. All of them stand in
`src/json.rs`, `src/text.rs` and `src/utf16.rs`.
