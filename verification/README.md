# anxwritter

A library that writes i2 Analyst's Notebook Exchange (`.anx`) chart files:
UTF-16 LE XML documents with a byte-order mark, built from typed chart data
(entities, links, attributes, grades, styling and chart settings). The logic is
written in Verus and every public function states its behaviour as a contract
that Verus proves.

## Layout

- `src/` — the verified library.
  - `text`, `number`, `datetime`, `color`, `enums`: characters, numbers,
    dates and times, colours and the enumerations of the format.
  - `xml`: escaping (with its safety and round-trip laws), the line-oriented
    XML writer and the UTF-16 LE / UTF-8 byte sinks.
  - `models`, `input`, `entities`, `value`, `sugar`, `transforms`: the chart
    and configuration model and its normalisation.
  - `config_value`, `layering`: config documents as value trees and the
    layering of config files (deep merge, upsert by name, wipe, delete, and
    locked leaves that later layers cannot change).
  - `validation/`: the validation rules; every finding is reported.
  - `ids`, `registry`, `register`, `resolve`, `resolved`, `pending`,
    `semantic`, `custom_icons`, `items`, `sections`, `emit`: identifier
    minting, entity and link resolution, custom icons (data URIs, bitmap
    conversion, compressed payloads) and the emission of document sections.
  - `builder`, `api`: the whole build (initial registrations, the resolve
    passes, emission in schema order) and its entry points (`render_xml`,
    `to_xml`, `build_anx`, `build_anx_with`, `iter_anx_bytes`, `write_anx`).
    What is computed in floating point (layout, geographic placement,
    automatic colours, link intensity, display templates) and the creation
    date reach the build as plain values in a `LaidOut`.
  - `maps`, `pattern`, `interop`, `datetime`: the contracts under which the
    library calls `indexmap`, `regex`, `uuid`, `chrono`, `flate2`, `base64`
    and `image`.
- `tests/`: tests of the library on concrete values.
- `app/`: the command-line program: reading JSON or YAML, the floating-point
  layout and colour work that fills a `LaidOut`, the clock, and file output.
