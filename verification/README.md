# odin world statistics

Statistics about a Valheim dedicated server's world, gathered from its log,
and their Prometheus text.

- `src/` is the library, verified with Verus:
  - `log_line`: which event a log line reports (the line patterns are matched
    with the `regex` crate) and the cheap phrase filter in front of it;
  - `event`: the recognised events and the text they carry;
  - `world`: the statistics, what each event does to them (`step`), and the
    laws that hold of every event (bounded histories, a load time set once per
    boot, counters that never go down, one entry per rejected Steam id);
  - `metrics`: label escaping and the world, server and player samples, with
    the laws of the rendered text (escaped quotes, one sample per rejected
    Steam id and per latest save);
  - `float_text`: which duration texts the `f64` parser accepts;
  - `clock`: the current Unix time, read without panicking;
  - `numbers`, `text`, `table`: integers read and written as `std` does, text
    search, and a small keyed table.
- `app/` reads and writes `world.stats`, measures the world on disk, and does
  the floating-point parts of the metrics.
- `tests/` runs the library on concrete lines.
