# sentinelx

A verified core for a Linux host-integrity agent. The library in `src/`
holds the agent's logic, each function with a contract that Verus proves:

- threat and evidence records, and conversions between them;
- correlation of threat events and evidence by rule;
- the evidence graph and path search;
- the behaviour state machine of watched processes;
- incidents, and parsers for `/proc` and `/sys` texts and eBPF events;
- kernel symbol tables and integrity checks;
- forensic snapshots and reports.

Laws that span several calls stand in `src/` as public proof functions,
named `lemma_...`.

`app/` holds the parts around the library that Verus does not see:
- reading `/proc` and `/sys`;
- fanotify and kernel I/O;
- the serialisable copies of configuration and report types;
- the floating-point scoring and trust models.

`tests/` runs the library on concrete values.
