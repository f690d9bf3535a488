# mylan

Local-network inventory: host discovery, port scanning, device fingerprinting
and a SQLite store of devices, services, scans and a timeline of changes.

- `src/` is the library, verified with Verus: the port catalogues and scan
  profiles, ARP/ICMP/SSDP/mDNS packet and answer handling, the ARP table
  parser, interface selection, the identity rules that merge sightings into
  hosts, fingerprint rules and OUI lookup, the device merge and diff engine,
  the storage codecs, query builders and schema versions. Each public
  function states its result in its contract; the laws of the library stand
  as public proof functions (`lemma_*`).
- `app/` is the runtime around it: sockets, D-Bus, DNS resolution, files and
  the SQLite connection. It hands the library plain values and stores or
  sends what the library returns.
- `tests/` runs the library on concrete values.
