# rand_distr (verified constructors)

The Gamma distribution and the distributions built on it: chi-squared,
Fisher F, Student t and Beta.

- `src/ieee.rs`: IEEE-754 binary formats read off their bit patterns: sign,
  exponent, fraction and exact value (in units of the smallest subnormal) as
  spec functions, with the order, halving and reciprocal facts the
  constructors rest on.
- `src/format.rs`: the `Binary` trait for `f64` and `f32` bit patterns (`u64`
  and `u32`), and the verified comparisons, halving and reciprocal sign
  written once over it.
- `src/gamma.rs`: the distributions. Each constructor checks its parameters as
  the IEEE comparisons do, reports the documented error, and picks the
  sampling scheme; the contracts state both exactly.
- `app/lib.rs`: `f64`/`f32` front ends that pass `to_bits` to the library,
  form the floating-point constants of the chosen scheme, and sample with
  `rand`.
- `tests/`: the library's tests, including comparisons of the bit-level
  operations with hardware `f64` and `f32` arithmetic.
