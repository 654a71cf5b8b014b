# browser-mcp-rs

An MCP server that drives a pinned Chromium over the DevTools Protocol, with its logic verified by
Verus. The library decides: it takes what the browser, the file system and the client said as plain
values, and gives back the commands to send, the files to write and the replies. The program around
it does the input and output.

## Layout

| Directory | Role |
|---|---|
| `src/` | the library: every function with its contract, and the laws that relate them |
| `tests/` | the library run on concrete values, with the outside crates linked |
| `app/` | the program: pipes and processes, files, the viewer's web server, the MCP tools |

| Module | What it decides |
|---|---|
| `text`, `path`, `json`, `encoding`, `pattern` | strings, Unix paths, JSON values, base64, regular expressions and URL globs |
| `config`, `install`, `launch` | the command line, the bundled builds, how Chromium starts |
| `cdp`, `events`, `page_events`, `state` | the protocol's messages, and what events do to what is known of the browser |
| `browser`, `mode`, `origin` | navigation, evaluation, the switch between headless and headed, which origins are let through |
| `keys`, `input`, `gesture`, `elements`, `actions` | trusted input and everything else that is done to a page |
| `snapshot`, `reply`, `network`, `reading`, `project` | what the client reads: snapshots and their changes, logs, texts, items |
| `capture`, `tabs`, `stores`, `liveview` | files that tools write, tabs and routes, cookies and storage, the hand-off to a person |
| `params`, `tools`, `capabilities`, `server` | the tools: parameters, replies, capabilities, batches |

Laws are public proof functions whose names begin with `law_`.

## What is believed without proof

Calls into other crates stand behind small functions whose contracts are not proved: `regex`
(compiling, matching, escaping), `similar` (the steps between two texts), `base64` (both ways),
`serde_json` (the text of a string, the kind of a JSON text, its indented form), and of the standard
library `String::push`, `String::from_utf8_lossy`, `str::parse::<u32>` and the debug text of a list
of strings. Each names the function it calls.

## Run

The program reads `injected.js` and `liveview.html` from the directory in `BROWSER_MCP_ASSETS`, or
from beside its executable. Without `liveview.html` the browser is handed to a person in a visible
window, not in a live view. `browser-mcp-rs --help` lists the options.
