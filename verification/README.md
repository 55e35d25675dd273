# pingw

Ping a target through a chosen interface and gateway without touching the
kernel's routing table: resolve the gateway's hardware address by ARP, send
an ICMP echo request framed for that address, and wait for the reply.

- `src/` is the verified library: the ARP and echo frames byte by byte
  (`arp`, `echo`, `bytes`, `addr`), the recognition of the replies, the
  decisions taken while waiting (`ArpWait`, `EchoWait`), the ping as a whole
  as a session fed with frames and elapsed time (`session`), the choice of
  the source addresses (`ping`), lengths of time (`span`) and the errors
  (`error`). The IPv4 and ICMP
  checksums are computed by `pnet` (`checksum`), random identifiers by
  `rand`.
- `app/` is the program: command line, the link-layer channel of `pnet`,
  the clock, and the loop that feeds received frames to the session.
- `tests/` run the library against frames read and written with `pnet`.
