# ssh3

SSH3 carries the connection protocol of SSH over HTTP/3. This crate holds what both ends of it
decide and compute, written in Verus: every function in `src/` states in its contract what it
returns, and Verus proves it.

The library performs no I/O. It is handed bytes, answers and file contents, and returns the bytes
to write and the next thing to do. The programs in `app/` open the connections, run the processes
and keep the time.

## Layout

| Where | What |
| --- | --- |
| `src/proto` | The wire format: variable-length integers, channel headers, addresses, messages and requests. What is written is read back. |
| `src/conversation` | Channels, the conversations that they belong to, their queues, and the routing of streams and datagrams. |
| `src/auth` | Keys, signatures and tokens, the lists of authorized identities, and the tokens of identity providers. |
| `src/server` | Who may open a conversation, how a session runs, and how passwords are looked up. |
| `src/client` | The command line, the request, the session, the log in through the browser, and the agent. |
| `src/http.rs` | The requests and responses that open a conversation. |
| `src/relay.rs` | What goes between a channel and a socket. |
| `src/failure.rs` | Which failures only mean that the peer is gone. |
| `src/text.rs`, `src/words.rs`, `src/path.rs` | Texts, the words of a command line, and paths. |
| `tests` | Examples, run against the compiled library. |
| `app` | The programs `ssh3-client` and `ssh3-server`. |

## What is proved, and what is trusted

Contracts are stated over mathematical views of the types (`ChannelView`, `SessionView` and the
like). Properties that span several functions are public proof functions beside them, such as
`written_data_arrives`, `session_starts_once` or `accepted_iff_an_identity_accepts`.

Cryptography, base64, the key formats of OpenSSH, PEM, URIs and URLs come from other crates. Each
such call stands in a small function marked `#[verifier::external_body]`; the comment above it
names the function that is called and says what is taken for granted about it.

JSON is read and written in `app/`: the library hands out the JSON of a token as bytes, and takes
what it holds beside the token.

The programs open conversations through h3, whose `Protocol` has to hold the name `ssh3`. Release
0.0.8 holds two other names only: with it the client reports, when it runs, that h3 does not know
the protocol.
