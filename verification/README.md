# wasm_operator

The decision core of a controller that runs Kubernetes operators as WebAssembly
components, verified with Verus, and the program around it.

An operator is loaded when there is something for it to do, and its memory is
written to disk when it is idle. Operators share the watch streams to the API
server.

## Layout

- `src/` is the verified library. It decides, and leaves input and output to its
  caller, which performs each step and reports back how it went.
  - `controller`: which operators run, as the cluster declares them
  - `operator`: the commands, events, memory and failures of one operator
  - `stream_handler`, `watch`: watch streams and those who listen to them
  - `stats`: what is measured of an operator
  - `settings`, `cli`: how the controller is configured
  - `clock`: the time that it is
  - `api`, `kubernetes`, `crd`, `metadata`, `prediction`, `wasmengine`: what is
    exchanged with operators, the cluster and other services
  - `examples`: operators to try the controller with
  - `text`: texts and numbers
  - `outside`: every call into another crate, with what is believed of it
- `tests/` runs the library.
- `app/` is the program: it talks to the cluster, runs WebAssembly, and reads and
  writes files. To save and restore the memory of an operator it needs a Wasmtime
  that can take snapshots of a store.

## What is proved

Each function states what it returns and changes, over a model of its data. Laws
that relate several of them are public proof functions beside them: that no event
is lost and none is given out of order, that an operator with events to see is
not put to sleep, that one is called only while it is loaded, that its memory is
looked for where it was written, that the time it is said to be idle is time in
memory, that a generation that has crashed is not started again, that only
declared operators remain after the watch was restarted, that all listeners of a
stream are told of its events, and others.
