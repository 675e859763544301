# mtui

A terminal client for Modbus devices: it reads holding, input, coil and
discrete registers, shows them in several interpretations, writes them,
pins and labels them, evaluates custom rules, scans for devices and unit
ids, and serves a small HTTP API. A simulated bus of power meters stands in
for a real device.

The library in `src/` is written in Verus. Each public function states what
it returns or changes in its `requires`/`ensures`, and Verus proves the code
against it. Laws that span several functions are public proof functions
(named `lemma_*`).

## Layout

- `src/register.rs`, `src/modbus.rs`, `src/num_ops.rs`: register types,
  word orders, digit editing and cycling.
- `src/interpretator.rs`: the columns of a register row and the header.
- `src/config.rs`, `src/config/registers.rs`: configuration values, key
  bindings, pinned registers, labels and custom rules.
- `src/custom.rs`: custom rules (word addresses, raw bits, bit names,
  enumerations).
- `src/state.rs`, `src/settings.rs`: the screens and popups and their
  editing.
- `src/handler.rs`: where a key goes, and what it does in each popup.
- `src/app/`: the application's decisions (refresh planning, read log,
  writes, search, panels, sweeps, unit scans, settings, the main loop).
- `src/api.rs`: the answers of the HTTP API.
- `src/mock.rs`: the simulated meter's setpoints and register map.
- `src/text.rs`, `src/parse.rs`: text and number parsing used throughout.

`app/` holds the executable around the library: argument handling, file
reading, and the simulated meter's floating-point waveforms. `tests/` holds
the tests.
