# pod

A verified library for the POD wire format of PipeWire and for the
bookkeeping of a PipeWire client, written in Verus.

- `src/pod/`, `src/buf/` and the modules beside them: buffers that PODs are
  written into and read from, the struct, array and choice PODs, and the
  laws that what is written reads back.
- `src/client/`: the state a client keeps for its nodes, ports, buffers and
  shared memory, and the decisions it takes on the server's messages, each
  with a contract over a mathematical model.
- `app/`: the parts that touch the operating system (mapping memory, the
  clock, closing files, logging), around the library.
- `tests/`: tests of the library on concrete values.

Bit sets of buffers go through `bittle`, and the tables of mapped files and
of client nodes through `slab`; both are declared to Verus with contracts
taken from their sources.
