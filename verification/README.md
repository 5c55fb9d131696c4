# remote_open_power

Wake-on-LAN control over an authenticated, encrypted TCP channel. A server on the
local network wakes hosts on behalf of enrolled clients. It never learns targets
from them: clients name hosts of its catalogue, and only those that they may use.

`src/` is the library, verified with Verus. It holds the rules: what settings,
credentials and messages are valid, who may connect, which request is answered
how, when a wake is sent and when it is not, and what the pages of the program
show. Each function states in its contract what it returns, and where that rests
on a random draw, what holds of every draw; laws that span several functions are
public proof functions beside them.

`app/` is the program around it: sockets, files, threads, the clock and the
terminal. It asks the library what to do and does it.

## Where things are

| Topic | Modules |
| --- | --- |
| Texts, bytes, time, tables | `text`, `octets`, `clock`, `table`, `literals`, `header_map` |
| Addresses and limits | `net`, `limits`, `transfer`, `probe` |
| Messages | `protocol`, `wire` |
| Settings and credentials | `config`, `credential`, `private_file`, `forms` |
| The channel | `crypto`, `compact`, `noise`, `security`, `handshake`, `channel`, `replay` |
| The server | `policy`, `snapshot`, `ledger`, `request`, `session`, `server` |
| The client | `client`, `wake`, `cli`, `panel` |
| The program's pages | `actions`, `client_view`, `server_view`, `desk`, `issue`, `round_trip`, `deployment` |
| Logs | `logging`, `redacted` |

## What is trusted

The ciphers of `snow`, the curve of `x25519-dalek`, the digest of `sha2`, the
random numbers of `rand`, the wire form of `postcard`, `hex` and `zeroize` are
called through small functions in `crypto`, `noise` and `wire`. Their comments say what
is taken on trust.

Times are given to the library as numbers: a moment is a count of nanoseconds on
a monotonic clock, a wall-clock time a count of milliseconds.
