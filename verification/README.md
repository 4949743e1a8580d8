# interference-mitigation

The verified core of a framework that measures and mitigates cache
interference between cores.  A benchmark program runs inside a WebAssembly
interpreter in slices of fuel; after every slice the runner knows how long the
slice took and how much fuel it used, and a supervisor freezes the control
group of the interfering processes while the average time per fuel unit is
above a threshold.

`src/` is the library, verified with Verus:

- `fuel` – fuel accounting and the mitigation decision (`Mitigator`);
- `runner` – the per-slice bookkeeping of the runners (`FuelRun`,
  `WasmRunner`, `NativeRunner`, `MeasuredRun`, `WasmRunLogger`);
- `records` – the reports the runners send (`RefuelUpdate`, `WasmRunnerIpc`, ...);
- `bump` – the bump allocators used by the bare-metal payloads;
- `array`, `kernel` – fixed-size arrays and the 2mm benchmark kernel;
- `cgroup`, `pids`, `order` – reading control group files and ordering their removal;
- `counter`, `systick`, `stm`, `intruder` – performance counters, the system
  timer, trace message framing and the cache intruder's address walk.

`app/` is the supervisor program (configuration, processes, control group file
I/O, IPC) and the drivers that run a program slice by slice on an interpreter.
`tests/` exercises the library on concrete values.
