# rightsize-msb

A container backend that drives the `msb` microsandbox command line, with the decisions it
takes proved correct in Verus.

- `src/` is the verified library. It builds the arguments of every `msb` invocation
  (`commands`), says what the output of an invocation means (`classify`, `refs`, `ls_json`,
  `broker`), decides what follows what while a sandbox boots (`boot`, `candidates`), while a
  checkpoint is taken (`checkpoint`), while links are installed and served (`links`,
  `exec_tunnel`) and while the toolchain is put in place (`provisioner`), and keeps the books
  on the sandboxes of a backend (`registry`). Time, processes and files enter as plain values.
- `app/` starts the processes, waits, reads and writes, and asks the library what to do next.
- `tests/` runs the library on concrete values.

Each state machine is a function from a state and an observation to the next state and action;
its contract is a spec function of the same shape, and the laws about whole runs (no sandbox is
removed before its snapshot exists, a refused name is never tried twice, a boot is repeated at
most once, attempts that the install lock of `msb` refused aside) are proof functions over those
spec functions, named `law_*`.

What is believed without proof: `String::push`, `str::to_lowercase`, `String::from_utf8_lossy`
and the `Debug` format of `str` from std, and `Sha256::digest` from the crate `sha2`.
