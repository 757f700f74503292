# bitstuff

Bit-packed structs and enums for registers and other bit fields, with the
layout logic proved by Verus.

- `src/` is the verified library: the bounded integers `u1` .. `u127`
  (`ints`), non-zero integers (`nonzero`), the bit-conversion traits
  (`BitRepr`, `FromBits`, `ToBits`, `TryFromBits`), reading and writing one
  field of a packed word (`layout`), and every decision of the `bitstuff`
  attribute on a struct (`struct_macro`) and on an enum (`enum_macro`), taken
  over a plain-value form of the attribute syntax (`syntax`).
- `app/` reads Rust syntax with `syn`, hands the library plain values, and
  writes the code that the library planned with `quote`; the accessors it
  writes call `layout::read_field` and `layout::write_field`.
- `tests/` runs the library on the registers of a PL011 UART and on the
  edge cases and errors of each decision.
