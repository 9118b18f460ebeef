# Microsoft 365 Copilot OpenAI proxy

A local HTTP proxy that lets OpenAI and Anthropic clients talk to Microsoft 365 Copilot over the
same WebSocket hub that the web page uses. The token comes from a debug browser, from a file or
from a pasted address.

## Layout

- `src/` is the library `m365_copilot_proxy`, verified with Verus. It does no I/O: files,
  variables, frames, tabs and key presses come in as values, and file contents, messages, actions
  and answers go out as values.
- `app/` is the program `copilot-openai-proxy`: the command line, the HTTP server, the WebSocket
  connections, the terminal and the tray.
- `tests/` runs the library.

## The library

| Module | What it states |
|--------|----------------|
| `text`, `platform`, `json` | text, paths and JSON values, over sequences, maps and numbers |
| `models`, `translator` | how OpenAI, Responses and Anthropic requests become a prompt with context |
| `token_store` | the claims of a token, its validity, and its place in the environment file |
| `session_store` | conversations that last over several requests |
| `substrate_client` | the address, the messages and the replies of the chat hub |
| `routes` | which conversation a request belongs to, and every answer and event stream |
| `config`, `bootstrap` | where settings come from, and what the first run makes |
| `browsers`, `browser_install` | finding, starting and installing a browser |
| `cdp`, `runtime`, `runtime_status` | getting, refreshing and storing tokens while serving |
| `doctor`, `logging`, `onboarding`, `tray`, `tui`, `keys` | what the user is shown, and what keys do |
| `copilot` | a stand-in for the hub |

What a function returns is stated by a `spec` function of the same module. Properties that span
several functions are public proof functions whose names begin with `law_`.

## What is trusted

The contracts of the functions marked `external_body`, each of which calls another crate or
`std`, and the two `assume_specification` items in `text` and the one in `json`.
Their doc comments say what is claimed of the outside function.

## Configuration

Flags come before environment variables, these before `config.toml`, and that before the
defaults. The file is looked for at `--config`, at `M365_CONFIG`, in the working directory and in
the user's configuration directory.
