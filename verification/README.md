# mujina_miner

Verified control logic for BZM2 mining ASICs and their boards.

- `src/` is the library, checked by Verus: UART frame encoders and the
  streaming TDM parser (`protocol`), response checks, chain enumeration and
  engine discovery decisions (`uart`), PLL/DLL register plans and lock-poll
  decisions (`clock`), reset levels and voltage-stack sequencing (`power`),
  the integer part of the calibration planner (`tuning`), hex payloads
  (`hexcodec`), the board registry's decisions (`registry`) and the HTTP
  API bodies (`api_types`).
- `tests/` exercises the library with the real outside crates linked.
- `app/` performs the serial transfers, sleeps and file writes that the
  library plans, and holds the floating-point formulas and planner.
