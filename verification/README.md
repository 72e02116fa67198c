# airborne

A heavily-typed statistics and finance library, verified with Verus.

- `src/` is the verified library: the `DataSet` container with its
  `Sample`/`Population` markers and degrees of freedom, the checks that
  statistics run before computing (empty series, paired lengths,
  conversions), average ranks, fractions and ratios with Euclid's gcd,
  bookkeeping entries, and the generic financial ratios and build-ups.
- `app/` holds the floating-point side: the `f64` number type, means,
  variances, covariance and correlation, percentages, the cost of debt
  capital, future values and risk ratios, and the error type with its
  messages. It calls the library for every decision the library can make.
- `tests/` runs the library on concrete values.
