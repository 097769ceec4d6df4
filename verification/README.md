# uprobestats

The userspace logic of UprobeStats, Android's dynamic instrumentation through uprobes and
eBPF: resolving a probing configuration into probes, deciding which BPF maps a task may
poll, and turning the items that BPF programs write into statsd atoms and bridge service
events. The library is written in Verus. Each public function's contract states what it
does; where an answer comes from the device (the bridge service, the process and offset
resolvers, the guardrail, the clock, a random number), the contract ties the answer to
the question asked and states the result for whatever came back. Resolving a task
resolves each probe's method to the offsets the resolver gave for that method. The
properties that span several calls are proved as lemmas, over the spec functions that
the contracts use; for the timer, the lemma orders readings by the elapsed time they were
given, since nothing relates two readings of the clock itself.

## Layout

- `src/config.rs`: the probing configuration as plain values.
- `src/config_resolver.rs` (with `offsets.rs`, `process.rs`): validation of a configuration,
  binder transaction filters, feature flag gating of BPF files, and resolution of a task's
  probes against the process and offset lookups.
- `src/task.rs`: the set of maps polled by running tasks (a task whose maps are in use is
  refused; cleanup gives them back), and the binder filter entries a task writes.
- `src/bpf_handler.rs` and `src/bpf_handler/`: one handler per BPF ring buffer: generic
  instrumentation, process management, binder transactions, accessibility grants, bitmap
  allocations and snapshots, disruptive app activity, and the ART test handlers.
- `src/registry.rs`: which handler polls which map, as the flags enable them.
- `src/bpf_map.rs`: the binder interface map's keys and values in the kernel's layout.
- `src/atom.rs`, `src/bridge_service.rs`: atoms, atom writers, the bridge service and device
  properties, with recording stand-ins.
- `src/offsets_retry.rs`, `src/timer.rs`, `src/telemetry.rs`, `src/platform.rs`,
  `src/string.rs`: the retry policy of offset lookups, the polling timer, the values
  reported about uprobestats itself, build and API level checks, and C string handling.
- `app/`: the daemon around the library: binder services, BPF syscalls, the poll loop,
  protobuf parsing and the statsd writers.
- `tests/`: tests of the library on concrete values.
