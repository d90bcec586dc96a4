# rgs

Querying game servers: Quake 3 masters and servers, OpenTTD masters and
servers, and the Source engine info request.

The library (`src/`) is verified with Verus. It holds the data model of
queried servers, the OpenTTD server-info wire format, the mapping of
decoded Quake 3 and OpenTTD packets onto servers and follow-up queries,
and the request each protocol sends. Every public function states what it
returns in its contract; the laws that relate several functions are public
proof functions next to them.

- `model`, `models`, `value`, `net`: servers, players, countries, hosts and
  queries; `StrMap`, a map kept in key order.
- `q3`, `protocol`: the Quake 3 rule mapping, server and master protocols.
- `protocols`: the same protocols in the result-list style, and OpenTTD,
  A2S and request templates.
- `dns`: which address a host resolves to.
- `text`, `bytes`: decimal, hexadecimal and UTF-8 text, byte order.

`app/` is the program around it: sockets, DNS lookups, ICMP pings, the
`q3a` and `openttd` packet codecs, and JSON output with `serde`.
