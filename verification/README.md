# hyper-mcp-remote

A stdio to Streamable-HTTP MCP proxy with OAuth. An MCP client spawns it as a
stdio server; it forwards every message to a remote MCP server, performs the
MCP OAuth flow on first run, and caches the tokens in the secret store of the
operating system.

The decisions that the proxy makes are a library, verified with
[Verus](https://github.com/verus-lang/verus): each function states what it
returns, and laws that relate several functions are proved beside them. The
program around it does the talking to the world.

## Layout

| Path | What it holds |
| --- | --- |
| `src/cli.rs`, `src/launch.rs` | the command line, its rules, and what a launch derives from it |
| `src/headers.rs` | `--header` values and `${ENV}` interpolation |
| `src/filter.rs` | `--allow-tool` and `--deny-tool` |
| `src/session.rs` | session hashes and credential keys |
| `src/auth/` | discovery, the authentication flow, the callback, the credential store |
| `src/proxy.rs`, `src/transport.rs` | the state of the proxy, introductions, keepalive |
| `src/logging.rs`, `src/update.rs` | settings of the log file and of the self-update |
| `src/text.rs`, `src/number.rs`, `src/weburl.rs` | text, decimal numbers, URLs |
| `app/` | the program: clap, HTTP, browser, keyring, files, the MCP service |
| `tests/` | tests of the library |

Outside crates that only compute (`globset`, `hex`, `http`, `serde_json` on the
credentials of `rmcp`, `sha2`, `url`) are called from the library through small
functions whose contracts are trusted; each of them says what it claims.

The self-update needs the key that releases are signed with: set
`HYPER_MCP_REMOTE_VERIFYING_KEY` to its 32 bytes in hexadecimal when building.
