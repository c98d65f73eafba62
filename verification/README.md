# uno_systems_lab

Verified support logic for an ATmega328P (Arduino Uno R3) device runtime.

`src/` is the library, verified with Verus:

- `events` – the events the device reports.
- `event_queue` – a fixed-capacity FIFO ring buffer, proved against a
  sequence model, with a first-in-first-out law over any run of pushes and pops.
- `state` – the coalescing store of the latest binary-input and measurement
  records with dirty tracking, and laws on what an update leaves behind.
- `debounce` – the debouncer as a step function, with laws on stability,
  glitch filtering and one-time reporting.
- `register`, `gpio` (with `gpio/board`), `adc`, `timer`, `serial` – the
  register writes each peripheral operation performs, computed from the
  registers' current values, and the decimal text carried by the serial link.
- `telemetry` – the report line of each event and the sampling decisions.
- `demo` – the demo LED behaviour and the timer-tick step of the firmware.

`app/` is the firmware around the library: volatile register access,
interrupt control through the startup assembly, the interrupt-safe shared
wrappers, the peripheral polling loops and the main loop.

`tests/` runs the library on concrete values.
