# asteria

Verified logic of the ASTERIA rocket firmware and of its host tool, written in Verus.

## Layout

- `src/` — the verified library. Every function carries a contract that Verus proves.
  - `vfs`, `ops`, `shell`, `console`, `wire_types`, `text`: the host tool — remote path
    normalisation, natural ordering of directory entries, checks of every RPC answer, input
    lines (trimming, shell-word splitting) and command-line parsing, prompt/error/listing
    layout, and the shell's reactions to command outcomes.
  - `epos4`: the Maxon EPOS4 serial protocol — object access words, CRC-CCITT, byte stuffing,
    response checks, status and error codes.
  - `lsm6dso32`, `ina232`, `ltc2945`, `ads1120`, `max31889`, `i2c`: sensor drivers — register
    fields, the IMU's initialisation sequence, FIFO frame decoding, I2C write framing,
    converter command and configuration bytes.
  - `firmware_params`: parameter keys (zero-padded paths), their lookup, and the outcomes of
    reads, writes and loads.
  - `unix_time`: the board's UTC clock and timestamps.
  - `can_utils`, `can_derive`: CAN broadcast throttling and the rules of the `Broadcast` and
    `Collector` derives.
  - `dpr`: the pressure regulators' loop states (dome regulator, fuel board loop with its
    safety latch and pressurization runs).
  - `engine_control`, `engine_sensors`: the engine board's thrust-curve acceptance and
    stepping, sensor-target detection, and when its pressure-sensor bus counts as online.
  - `backplane`: which power source is active and which rail readings are published.
- `tests/` — tests of the library on concrete values.
- `app/` — what cannot be verified: the async drivers and transports, the interactive shell's
  terminal and runtime, floating-point conversions and filters, the process-wide clock, and the
  derive code generation.

The laws of the library (round trips, idempotence, what a check accepts) are public proof
functions named `lemma_*` next to the functions they speak of.
