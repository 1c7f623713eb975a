# netscanner

A network reconnaissance library, verified with Verus, and the command-line
scanner built on it.

The library (`src/`) holds the logic of a scan and states it in contracts:

- `net`: IPv4 and Ethernet addresses, their text forms and the dotted-quad parser.
- `types`: the scan records and the interface's network, gateway and host range.
- `scanner::iface`: choosing the interface and expanding a target (`local`,
  `a.b.c.d/p`, `a.b.c.d`) into addresses.
- `ports`: reading a port selection (`top`, `80,443`, `1-1024`).
- `scanner::arp`: the ARP request frame and the table of hosts filled from
  captured frames.
- `probes`: the DNS PTR, mDNS, NetBIOS, SSDP and HTTP messages, the parsers
  of their replies, the TLS certificate summary and the OS guess by TTL.
- `scanner::audit`, `scanner::tcp`, `report`: the per-host record, service
  names and the text of the results table.
- `text`: the character-level operations the parsers are built from.

The program (`app/`) does the I/O: sockets, packet capture, threads, the
table and the JSON report.
