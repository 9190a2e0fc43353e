# cosi

Operating-system introspection of a Windows x64 guest: processes, threads, modules, handles and
the objects behind them, a diagnostic report and a syscall tracer. Kernel structure offsets come
from a Volatility 3 symbol profile.

The library in `src/` is verified with Verus and never touches the guest. A query is a function of
a `Guest`, which holds the registers and the memory reads made so far. It either finishes or
returns the one read that it is waiting for; the caller performs the read, records the outcome and
asks again. Every query is *steady*: an answer stays the same on a larger record, and no read is
asked for twice.

- `guest`, `reads`, `text`: the record, page tables and scalars, strings
- `profile`, `compressed`: symbol profiles and their xz files
- `kernel`, `lists`, `objects`, `handles`, `process`: the walkers
- `dump`, `strace`: the report and the tracer
- `surface`, `pandbox_compat`: the flat interface behind the C entry points

`app/` is the plugin around it: it reads the live guest, loads profiles from disk, exports the C
interface and registers the callbacks.
