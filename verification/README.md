# ifconfig

A Linux-style `ifconfig` for Windows: it lists network adapters with their addresses,
statistics, DHCP, DNS and routing details, as coloured text or JSON, and plans the
`netsh` / PowerShell calls that reconfigure an interface.

The library under `src/` is verified with Verus; the contract of each public function
states its result. The machine's offset of local time from UTC, which depends on its time
zone, is read by the program in `app/` and handed to the library, whose lease-time texts
are then stated exactly.

- `adapter` builds adapter records from what the system reports (names, addresses,
  counters, registry values).
- `addr` formats IPv4 and IPv6 addresses, netmasks, broadcast addresses and hardware addresses,
  and classifies address scopes.
- `display` lays out the text views (full, brief, summary) as styled lines and selects
  the adapters to show.
- `control` parses CIDR and MAC arguments and plans the configuration commands, and
  decides how a finished `netsh` or PowerShell run ends.
- `units` renders byte counts and link speeds exactly as floating-point formatting would.
- `laws` proves properties that span several functions.

`app/` is the command-line program: argument parsing, reading the system, terminal
colours, JSON, and running the planned commands.
