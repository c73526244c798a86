# dnsglobe

How far has a DNS record propagated? dnsglobe asks a list of public resolvers
around the world, groups their answers, and shows which of them agree, in a
table and on a map.

- `src/` is the library: reading and classifying replies, grouping answers,
  judging caches by their TTLs, the state of a run and what the keys do to it,
  the configuration, and the text of every panel and report. Every function has
  a contract that Verus proves.
- `app/` is the program around it: the command line, the configuration file,
  the sockets, the terminal, and what takes floating point.
- `tests/` runs the library on concrete values.

What comes from other crates or the standard library without a proof is marked
`#[verifier::external_body]` or `assume_specification`; the comment above each
says what is relied on.
