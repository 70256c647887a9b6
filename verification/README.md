# specmesh-server

An authenticated, loopback-only Streamable HTTP MCP server for SpecMesh, with its decisions
verified by Verus.

- `src/` is the library: which requests are let through and how the others are rejected, what
  becomes of a body, how many calls are active at once, when progress is streamed, what a shutdown
  or a lost connection cancels, and which token file is taken. Every function has a contract, and
  the laws that span functions are public proof functions named `law_*`.
- `app/` is the program around it: arguments, sockets, files, tasks and the clock. Tools, routing
  and cancellation come from the `specmesh-engine` crate.
- `tests/` runs the library.

Outside crates are called from `src/` only through items whose doc comments begin with the function
they call and say, after `Trusted:`, what is believed of it.

The token file holds 32 random bytes in unpadded base64url, and lies outside the workspace:

```sh
umask 077
openssl rand -base64 32 | tr '+/' '-_' | tr -d '=\n' > /absolute/path/specmesh-token
specmesh-server --workspace /absolute/path/workspace --port 8765 \
  --token-file /absolute/path/specmesh-token
```
