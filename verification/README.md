# screen_guardian_core

The verified core of Screen Guardian, a tool that keeps chosen windows out
of screen captures on Windows by setting their display affinity.

- `src/` is the library, verified with Verus: the rule engine and its match
  order, the change history, the monitor's scan steps, the recognition of
  capture software, window sorting and classification, the shellcode that
  sets a window's affinity in another process, and the walk of a module's
  export table.
- `tests/` runs the library on concrete inputs.
- `app/` is the command-line program around it: argument handling, the JSON
  files, and the Win32 calls.
