# kata_block

Block devices for sandboxed containers: how they are plugged into a virtual machine, how they are
taken out again, and who owns what while something is in doubt. The library is written in Rust and
verified with Verus.

- `src/` is the library. Nothing in it does I/O. An operation that needs something from outside
  gives back a command; it is run again from the state it started in once the reply is there. Its
  contract says, for all replies, which command comes next, which state is left and what the result
  is.
  - `qmp/` drives QEMU: sessions, fdsets, block and network devices, memory, vCPUs.
  - `ch/` drives Cloud Hypervisor: its HTTP API, devices, and the lifecycle of the virtual machine.
  - `volume/` keeps `emptyDir` volumes on block devices, and the disks behind them.
  - The other modules hold block devices and their handles, PCI paths, network namespaces, metrics,
    errors and text.
- Functions named `law_*` state what holds over several operations.
- `app/` is the code around the library: sockets, files, threads, and the conversion of values.
- `tests/` runs the library on concrete values.

Calls into other crates stand behind small functions marked `#[verifier::external_body]`; two
functions of the standard library have an `assume_specification`. Each says what is taken for granted
of the call.
