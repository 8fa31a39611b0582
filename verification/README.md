# fbw_systems

Verified logic of FlyByWire aircraft systems and of the FDR Analyzer, a browser for
flight data recordings, written in Verus.

## Layout

- `src/` — the verified library.
  - `electrical` — circuit breakers and the circuit breaker board (toggle requests
    packed into one simulation variable, per-row state words).
  - `fuel`, `fuel_transfer`, `fuel_control`, `fuel_quantity_management` — the A380
    tanks, pumps and valves, the transfer galleries, the load alleviation transfers,
    the pump requests of the fuel control partition, and the refuel panel, command
    modules and automatic refuel schedules.
  - `fdr_reader`, `fdr_csv`, `fdr_query`, `fdr_store` — reading binary (gzip) and CSV
    recordings, the time index, and range queries over the recorded columns.
  - `parameters`, `parameter_tree` — parameter descriptions, the naming rules derived
    from column headers, and the grouped parameter browser.
  - `downsample`, `export`, `plot_panel`, `time_format` — series reduction for display,
    the rows of a CSV export, graph panel state, and clock-style time labels.
  - `float_bits`, `text` — comparisons of doubles given by their bit patterns, and
    character-level text operations.
- `tests/` — tests of the library on concrete values.
- `app/` — the desktop application (egui/eframe): file access, reading CSV fields as numbers, drawing,
  and floating-point arithmetic on times and masses.

Doubles that the library only stores, passes on or compares are carried as their 64-bit
patterns; `float_bits` states the IEEE-754 order on them.
