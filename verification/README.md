# aurora

The logic of the Aurora coding assistant, verified with Verus: the agent's
conversation state and turn loop, context trimming, tool argument checks and
outputs, file search reports, the streaming chat protocol, the WebSocket
message handling, the chat window's state, the dream tracker, HTML
preprocessing, web content assembly and the Telegram table rewrite.

## Layout

- `src/` — the verified library. Every public function states its result in
  `ensures` over spec functions; the `law_*` proof functions state what holds
  across functions and calls. Calls into outside crates (`scraper`,
  `ego-tree`, `html2md`, `regex`, `glob`, `serde_json`, `unicode-width`) and
  into the clock stand behind small trusted wrappers whose contracts name
  what those crates compute.
- `app/` — the server around the library: configuration files, HTTP calls to
  the model and to the memory service, the WebSocket endpoint, the tools'
  file system and process access, and the JSON forms of the library's types.
- `tests/` — tests of the library on concrete values.
