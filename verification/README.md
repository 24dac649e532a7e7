# kaseta_control

User-interface control logic of a tape-delay module: the state machine that
maps and calibrates control inputs, the configuration dialog, tempo detection
from tapped buttons and clock signals, the prioritized LED display, and the
checksummed persistence of settings.

- `src/` is the library, verified with Verus. Its state machine takes the
  readings of a cycle as plain values (`store::InputObservation`) and states
  in its contracts what each cycle changes (`store::spec_converged`).
- `app/` is the part that works on floating-point readings: smoothing of
  pots and controls, calibration arithmetic, tapers, and the attribute values
  handed to the audio processor. It drives the library's state machine.
- `tests/` exercise both the library's contracts on concrete values and the
  module's behaviour cycle by cycle.
