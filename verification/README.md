# io-thread-controller

The verified core of a controller that resizes the I/O worker pools of a fleet
of VMs, and of `iothread-tui`, the dashboard that watches them.

* `src/` is the library. It computes on plain values and is proved with Verus:
  registries and discovery, the state of one VM with its rates and utilisation,
  cgroup counters, ownership classification, startup decisions, and the whole of
  the dashboard apart from drawing (roster, plots, axes, table, overlays, keys).
* `app/` is ordinary Rust around it: the terminal, D-Bus, `/proc` and `/sys`, the
  file system, logging, and figures rounded as floating-point numbers.
* `tests/` runs the library.

Conventions of the library:

* Times are nanoseconds on a monotonic clock.
* A utilisation is counted in `UTIL_UNIT`ths of one thread, or held as an exact
  fraction (`Share`).
* Outside code enters in two places only: `String`'s `push`, `pop` and `from`, and
  the `regex` crate behind `ThreadNameFilter`.
