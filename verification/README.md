# oris_runtime

The core of a durable execution runtime for agent workloads, written in Verus.

- `src/` is the verified library: the execution kernel (event log, reducer folds, replay,
  snapshots, timeline forks), the runtime's control plane (attempts, leases, retries, dead
  letters, replay guards, step reports, jobs, interrupts, API keys and the audit log, kept
  in an in-memory repository), the API's decisions (credentials and roles, request
  validation, trace context, worker polling and acknowledgements, job runs, resumes and
  replays, listings), the sandbox's rules for mutation patches, mutation specs, plugin
  metadata, and the registry of graph node plugins.
- `app/` is ordinary Rust around it: transport types with serde derives, the endpoints that
  drive the graph between the library's decisions, the sandbox's process and file work,
  typed node plugins, and the Prometheus metrics.
- `tests/` exercises the library through its public interface.
