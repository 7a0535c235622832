# tunnix

An encrypted tunnel that carries SOCKS5, HTTP, remote terminals and file transfers over
plain HTTP: the client posts its messages, the server answers on an event stream.

`src/` is the library, verified with Verus. It holds the rules of both ends and what they
compute; it opens no socket and reads no file.

| modules | what they hold |
| --- | --- |
| `wire`, `protocol` | the binary encoding of fields, messages and frames |
| `crypto`, `envelope` | the key from the password, sealing and opening messages |
| `sse` | events on the stream, and reading them off it however the bytes are cut |
| `uri`, `config`, `cli`, `reload` | addresses, settings, the command line, reading the file again |
| `session`, `server`, `delivery` | the server's sessions, requests and messages, bounded delivery |
| `tcp_relay`, `pty_relay` | the server's end of a connection and of a terminal |
| `tunnel`, `relay`, `exec` | the client's end: the stream, connections, terminals |
| `proxy`, `socks5`, `http_proxy` | what a proxied application says |
| `archive`, `transfer` | archives in pieces, uploads and downloads |
| `end_to_end` | what holds of both ends together |
| `text` | characters, numbers, white space |

Whatever takes turns with the network is a state machine: an event goes in, the next action
comes out. A spec function says what each step does, and laws speak of all runs.

`app/` is the program around the library: sockets, terminals, files, the runtime.
`tests/` runs the library on concrete values.
