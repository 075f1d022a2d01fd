# bore

A TCP tunnel. A client behind a firewall connects to a relay server, proves that it holds an
allowed Ed25519 key, and asks for a public port. Whoever connects to that port is forwarded to the
client, which relays the connection to a local service.

The protocol is verified with Verus; what touches sockets, timers and JSON is not.

## The library (`src/`)

| module | what it holds |
| --- | --- |
| `keys`, `hex`, `text` | Ed25519 keys as bytes, hexadecimal and decimal text |
| `shared` | peer keys, messages, errors of reception |
| `delimited` | frames that end in a null byte: what is read is fed in, frames come out |
| `auth` | the server's challenge, the client's answer, the verdict |
| `ports` | the search for a port to forward |
| `connections` | connections that wait for their client |
| `session` | what follows on each event of a control connection |
| `server`, `client` | the server's and the client's decisions |
| `session_laws`, `protocol_laws` | what holds of every session, and of a client and a server together |
| `outside` | everything that is believed of other crates and of the system |

A server or a client is driven by events: the library says what is to be done, the caller does it
and hands back how it went.

## Around the library (`app/`)

`app/` makes the connections, keeps the timers, reads and writes JSON, and runs the callbacks.
