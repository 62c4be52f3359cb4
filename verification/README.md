# eos

A date and time library in Verus: dates of the proleptic Gregorian calendar, times
of day, UTC offsets, date times, intervals, `strftime`-like formatting and parsing,
ISO 8601 and RFC 3339 text, POSIX TZ rules, TZif time zone data, and recurrences.
Every function in `src/` is verified against its `requires` / `ensures` contract.

Layout:

- `src/` — the verified library. Each module states its model as spec functions and
  views (for example, a `Date` is its `(year, month, day)`, an `Interval` its total
  months, days and microseconds, with the units as written kept beside them), and the
  laws that relate several functions as public proof functions.
- `tests/` — tests that run the compiled library.
- `app/` — the unverified edges: reading the system clock and the local time zone
  file, and conversions for floating-point values.
