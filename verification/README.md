# wasi_usb

The decisions behind a set of USB benchmark programs and a UVC webcam
capture guest, written in Verus and proved against their contracts.

- `src/` is the verified library: the Bulk-Only Transport wrappers (CBW
  framing, CSW checking, the per-command state machine), the mass-storage
  reader's block arithmetic and cursor, the partition window, the
  benchmarks' command lines, pass layout and round-trip statistics, the
  descriptor choices, the webcam tester's prompts and format ordering, and
  the UVC frame reassembly and JPEG table injection.
- `tests/` runs the library on concrete values.
- `app/` holds the programs themselves (`latency`, `throughput`, `bulk`,
  `storage`, `interrupt`, `camera` subcommands): device I/O through rusb,
  exFAT and MBR reading, camera access through nokhwa, timing and output
  files. Each one asks the library what to send and what the answers mean.
