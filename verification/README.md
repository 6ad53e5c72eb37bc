# smith-rs

A system monitoring agent for Linux with a Nagios-style SOFT/HARD state
machine, YAML object configuration with template inheritance, and e-mail
alerts. The decision logic is a library verified with Verus; a thin program
around it reads the system, runs the schedule and delivers the mail.

## Layout

- `src/` — the verified library
  - `config.rs` — the per-service state tracker and its laws (consecutive
    problem results counted whatever their status, SOFT before
    `check_attempts`, HARD and one notification at it, recovery), the raw and
    resolved configuration objects, template resolution, time-period windows
    and the contacts an alert goes to
  - `engine.rs` — scheduling decisions, state transitions with their log
    lines and notifications, and the performance numbers of result messages
  - `alert.rs` — the HARD alert e-mail and its SMTP delivery set-up
  - `mail.rs` — the `lettre` types and calls alerting uses, with their contracts
  - `checks/` — the statuses, thresholds, counters and parsers of each check
    (disk, inodes, IOPS, I/O wait, load, memory, network, network errors,
    NTP, swap)
  - `registry.rs` — an ordered map keyed by name
  - `text.rs` — string operations with exact specifications
- `tests/` — tests of the library on concrete values
- `app/` — the program: command line, daemon mode, configuration file, system
  readings, floating-point rates and rendering, the scheduler loop and mail
  delivery
