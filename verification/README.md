# chrono_ta

Timestamp-aware technical indicators whose time machinery is proved with Verus.

Every streaming input carries a UTC timestamp, so a 30-day indicator means
30 calendar days of observations rather than the last 30 calls. Repeated
updates inside the current time bucket revise the live observation instead of
advancing the series.

## Layout

- `src/` is the library, verified by Verus: fixed and adaptive time buckets,
  elapsed-time windows with exact expiry, the lag lookup, the sliding
  minimum and extrema over order keys, bounded thinning, the live-bar and
  sealed-state bookkeeping that keeps revisions from compounding, crosses,
  and Supertrend's band logic. Prices enter it as order keys (`i64` whose
  order is the order of the prices) or as `Level`s, which also model a price
  with no place in the order.
- `app/` holds the indicators themselves: it converts `chrono` timestamps to
  nanoseconds and floating-point prices to order keys, does the
  floating-point arithmetic, and drives the library's windows. Indicator
  state serializes with serde through plain forms of the library's values
  (`app/state.rs`), which the library's `from_parts` constructors resume.
- `tests/` exercises the library on concrete values.
