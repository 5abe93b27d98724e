# ttl

A multi-target, multi-protocol traceroute whose core is verified with Verus.

- `src/` is the library: packets and their checksums, the parsing of ICMP
  answers, the matching of answers with outstanding probes, path MTU search,
  name, AS, exchange and location lookups, exports, argument rules and the state
  of the terminal interface. Each function states in its contract what it
  returns; functions named `law_..` state what holds across functions.
- `app/` is the program around it: sockets, threads, files, DNS, HTTP, drawing,
  and the statistics that need floating point.
- `tests/` runs the library on concrete values.

What the proofs rest on, besides Verus itself, are the few functions marked
`external_body` or `assume_specification`. Each names the outside function that
it calls and says what is taken for granted about it.
