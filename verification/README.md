# Skydimo effect logic, verified

The parameter reading, colour arithmetic, random generators and frame layout
of the Skydimo LED effect plugins, written in Verus and proved against their
contracts.

- `src/` is the verified library. `text`, `json_bytes`, `json_text` and
  `json_fields` read values out of parameter texts in the styles the effects
  use; `hex` parses colours; `rgb`, `palette`, `layout` and `rng` hold the
  shared colour, palette, frame and generator logic; the other modules hold
  what is particular to one effect. `laws` states properties across
  operations.
- `tests/` runs the library on concrete values.
- `app/` holds what stays outside the proofs: the C ABI records with raw
  pointers, floating-point colour arithmetic and blurring, number parsing, and
  the glue that hands parsed numbers to the library.
