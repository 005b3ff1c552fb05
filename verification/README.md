# turns

Fixed-point angles modulo 2π, backed by unsigned integers, with the integer
arithmetic verified in Verus.

`Angle<T>` stores an angle as an unsigned integer where the full range of `T`
is one turn; `Angle8` to `Angle128` cover the widths 8 to 128 bits.

Layout:

- `src/word.rs`: the `Word` trait over `u8`..`u128`: wrapping, checked and
  shifting operations with their exact meaning modulo `2^width`.
- `src/lib.rs`: `Angle<T>`, its view (the step count), `checked_mul`,
  `checked_div` and `cast`.
- `src/ops.rs`: `+`, `-`, unary `-`, `*`, `/`, `<<`, `>>` on angles.
- `src/consts.rs`: the named angles (zero, τ, π and its fractions).
- `src/laws.rs`: the group laws of angle addition and the re-encoding laws.
- `app/lib.rs`: the floating-point conversions and trigonometry
  (`FloatAngle`), over `num-traits`; floats are not verified.
- `tests/`: behaviour on concrete values.
