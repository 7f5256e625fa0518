# module_live_telemetry

A verified library for racing-simulator telemetry recordings, written in
Verus. The library's logic under `src/` is verified against its contracts.
The few calls into std and into the `crc32fast` and `crossbeam-channel`
crates go through small trusted wrappers, whose doc comments say what is
assumed of them; what a channel does with a frame offered to it is not
stated, since it depends on the other threads.

- `codec`, `error`, `text`, `text_order` — little-endian byte access, error
  values, decimal/hexadecimal rendering and the order of texts.
- `format`, `reader`, `samples` — the chunked v1 format: headers, chunk
  index, metadata, and the typed samples of each cluster.
- `format_v2`, `encode_v2`, `reader_v2` — the columnar v2 format: headers,
  schema, row groups, skip and lap indexes, column codecs, and reading a
  group's columns through the skip index or from every row group;
  `frame_window` trims the columns read to a frame window.
- `raw_pages`, `raw_catalog`, `item_key` — samples read from the game's
  shared-memory pages, the catalog of raw items and item keys.
- `laps`, `lap_report` — lap segmentation of raw graphics samples and the
  lap table of a recording.
- `compute` — calculated items, their errors and the registry's names.
- `dashboard`, `subscriptions`, `schedule`, `latest_value`, `distributor` —
  dashboard subscriptions and their scheduling, the latest-value channel
  and frame fan-out.
- `cli_args`, `commands`, `recorder` — the decisions of the command-line
  tools.

`app/main.rs` is the command-line front end: it reads files and prints what
the library computes. `tests/` exercises the library on concrete values.
