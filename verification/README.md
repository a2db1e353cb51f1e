# ansi

ANSI escape-code primitives with machine-checked contracts, written in Verus.

- `src/attribute.rs`: SGR text attributes as a bit set, their escape codes
  and their inverses.
- `src/color.rs`, `src/color/`: terminal colors, their foreground,
  background and underline escape codes, the bitwise combinators, and a
  32-bit packed form.
- `src/control.rs`, `src/escape.rs`, `src/params.rs`: C0 control codes,
  escape writing, and CSI parameter lists (display and parse).
- `src/utf8/`: a UTF-8 validating DFA, an incremental decoder with the
  maximal-subpart error policy, with the proof that decoding any input
  gives one replacement per maximal ill-formed subpart.
- `src/parser/`: a VT-style parser (state table, parameter accumulator,
  dispatch to a `Handler`), an escape-sequence stripper, and a second
  table-driven UTF-8 decoder.
- `src/parser2/`: the packed transition table of the second parser design.
- `src/events.rs`: key event types and modifier bits.
- `src/input/`: decoding terminal input into events. `decoding.rs` reads
  one event from the start of the input and dispatches to the readers of
  control sequences (`csi.rs`: keys, terminal replies, mouse reports),
  SS3 keys (`ss3.rs`), OSC color and clipboard replies (`osc.rs`, with
  `base64.rs`), string sequences and DCS replies (`decode.rs`), Kitty key
  reports (`kitty.rs`, `keys.rs`), control bytes (`controls.rs`) and mouse
  reports (`mouse.rs`). Grapheme clusters are segmented by the caller,
  which passes the length of the first cluster at each position.

`tests/` holds the tests, and `app/` the parts that need I/O or outside
traits: `std::io::Write` adapters, `thiserror` error types and the
`CompactString` key code.
