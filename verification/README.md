# mwand

A lightweight multi-WAN failover daemon for Linux (IPv4 and IPv6), with its decision
logic and wire formats verified with Verus.

- `src/` is the verified library: the RFC 1071 checksum (`checksum`), ICMP/ICMPv6 echo
  requests and reply recognition (`icmp`), the probe schedule of a health check
  (`probe`), route records and the `ip`/`conntrack` command lines (`router`), text
  helpers (`text`), the daemon settings (`cli`) and the failover decisions (`failover`).
- `app/` is the program: argument parsing, sockets, running commands, JSON decoding of
  `ip -j` output, logging, signals and the main loop.
- `tests/` exercises the library on concrete values.
