# fas_rs

Frame-aware scheduling for Android games: the scheduler watches how long the
game in front takes to render each frame and steers the CPU frequency limits
so that frames arrive just in time.

`src/` is the verified library (Verus). Its modules hold the scheduler's
decisions with their contracts:

- `looper`: the main state machine (waiting, working, stopping), as steps
  from a state and an event to a new state and a list of actions; `laws`
  proves properties across its steps, the frame buffer and config merging.
- `buffer`, `frame_acc`, `cpu`, `thermal`: frame-time bookkeeping,
  target-rate matching, the frequency limits and the thermal offset.
- `pid`: the integer PID correction of an earlier version of the policy; the
  policy that runs (in `app/`) works in floating point.
- `config`, `config_data`, `table`, `mode`: the game list, mode settings,
  configuration merging and the mode node.
- `topapp`, `dumpsys`, `sensor`, `packages`: readers of `dumpsys` and `pm`
  output.
- `cleaner`, `extra_policy`, `extension`, `props`: the vendor switches,
  plugin-set bounds, plugin events and property setting.
- `zygisk`, `xtask`: the frame hook's symbol lookup and the build tool's
  paths and command lines.
- `text`: string operations with their specifications.

`app/` is the program around it: files, processes, threads, the Lua plugin
host, the web endpoint, and the floating-point part of the frequency policy.
`tests/` runs the library on concrete inputs.
