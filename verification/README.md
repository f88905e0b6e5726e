# puzzle_box

The logic of an electronic puzzle box built on a Raspberry Pi Pico, verified with Verus.

- `src/hardware/`: models of the devices the puzzles use. Inputs (the four debounced
  top buttons, the toggle switches read through the ADC) hold the level or conversion
  last sampled from their pins; outputs (LEDs, speaker, solenoid locks) are requested as
  `HardwareAction`s queued on the `HardwareBus`. A status LED state machine is there too.
- `src/puzzles/`: the entry button-sequence puzzle and the toggle-switch puzzle.
- `src/stages.rs`: the entry and active stages of the box.
- `src/lib.rs`: `PuzzleBox`, the stage machine that the main loop ticks.
- `app/main.rs`: the firmware's super loop: it samples the pins into the model, ticks
  the box and performs the requested actions on the pins.
