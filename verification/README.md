# cli_agent

A developer assistant for the terminal with a web front end. The model is asked
over HTTP and streams its reply; a reply can ask for a command to be run or for a
web search to be made, and the result goes back to the model until a reply asks
for nothing more.

- `src/` is the library: what the agent decides and computes, with contracts that
  Verus proves. What the contracts take as given of other crates stands in
  `src/outside.rs` and nowhere else.
- `app/` is the program round it: terminal, network, processes, and the JSON of
  the library's own types. It carries out what the library decides. Very long
  pages, on some of which the HTML parser panics, are parsed there too.
- `tests/` runs the library on concrete values.

| module | what it holds |
| --- | --- |
| `task`, `task_laws` | one task, from the user's words to the last reply |
| `stream` | collecting a streamed reply and passing it on |
| `tool_call`, `trimmer` | requests in a reply; shortening of tool output |
| `search`, `github`, `duckduckgo`, `listing` | web searches and their reports |
| `command`, `port` | reports on commands; freeing the front end's port |
| `conversation`, `effect`, `frontend`, `http` | what is said, shown and sent |
| `session`, `terminal` | what comes in and what is done with it |
| `text`, `text_laws`, `number` | text and numbers |
