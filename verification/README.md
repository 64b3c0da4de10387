# ferris_the_waiter

A small web service that runs configured shell commands for a logged-in user
and streams their output to the browser.

- `src/` is the verified library: session tokens and their expiry
  (`session`), password login with rate limiting (`auth`), the command table,
  shell invocation and the registry of launched commands (`commands`), the
  websocket messages and their handling (`messages`), the decisions of the
  output streaming loops (`streaming`), and the browser-side state
  (`client`). `time` and `decimal` hold the clock and token-text helpers.
- `app/` is the program around it: the axum/leptos server, the server
  functions, the websocket I/O loops and the browser components.
- `tests/` runs the library on concrete values.
