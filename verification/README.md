# cli-warden

A daemon that runs a strict, explicit set of commands for remote clients over gRPC with mutual
TLS, and the client for it. The decisions of both are a verified library.

- `src/` is the library. Every function in it but the wrappers of outside calls is verified
  against its contract.
  - `policy`, `policy_model`, `policy_laws`: which rule decides on a command line.
  - `patterns`: the shell patterns and regular expressions of the rules.
  - `hook`: the program that is asked about a request.
  - `server`, `server_model`, `session`, `session_model`, `server_laws`: how a request is
    admitted, run and answered, at once or as a stream.
  - `redaction`, `utf8_input`, `output_pump`, `output_laws`: what of a command's output reaches a
    client.
  - `stream_queue`: packets, and the budget of bytes under way.
  - `client`: what a client sends, prints and reports.
  - `pki`, `setup`: the certificates and the configuration of a daemon and of its clients.
  - `policy_tool`: what the author of a policy is shown.
  - `config`, `registry`, `ordered`, `text`: what the others share.
- `tests/` runs the library.
- `app/` is the program: the command line, files, processes, sockets and TLS. Where it talks to
  the system it performs the actions that the library asks for, and hands back what happened.

The functions marked `external_body` and the names without a body say what the library relies on
from other crates (`aho-corasick`, `glob`, `regex`, `rcgen`, `serde_json`) and from the standard
library; each says in its doc comment what it claims.
