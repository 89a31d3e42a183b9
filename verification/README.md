# delayed_logger

A logger for nested spans that keeps quiet about everything that does not take long.

Messages of a span are held back until the span has been running for a given time. From then on the
span may print, provided that its parent has the permission to do so and does not lend it to another
child already. All spans below one root are printed in one line.

## Layout

- `src/` is the library, verified with Verus.
  - `state`, `registry`: the spans and the permission to print. All operations take the thread and
    the time as arguments and return what is to be printed.
  - `ambient`, `outside`: the same for the calling thread and the current time.
  - `logger`, `recorder`, `color`, `level`, `text`: what is printed, and how.
  - `model`, `trace`, `history`: the mathematical model that the contracts speak of, sequences of
    operations on the registry, and sequences of calls to the logger.
  - `preservation`, `laws`, `tree_laws`, `print_laws`, `history_laws`: what holds of all of it.
- `app/` is a `tracing` subscriber that prints to standard output what the library returns.
- `tests/` runs the library on concrete values.
