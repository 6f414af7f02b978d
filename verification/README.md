# sandbox

Sandboxes for untrusted work, on a Kubernetes cluster or as local child processes. The library
under `src/` makes every decision and is verified with Verus; the program under `app/` does what
it is told: it talks to the cluster, starts, looks at and kills processes, moves bytes and waits.

- `types`, `error`: what a sandbox is asked for by, and the errors of the cluster backend.
- `k8s`: the pod manifest of a sandbox, and what the cluster's answers mean.
- `e2e`: the run that drives a backend through create, status, list, stop and destroy.
- `lifecycle`, `local`: the life of a sandbox that runs as a child process: its record, the
  numbered events of its changes, its input and output, watching it, and the memory it uses.
- `handle`: what the owner of a sandbox keeps count of.
- `outside`: the calls into outside crates, with what is taken on trust of each.
- `string_map`, `pairs`, `text`: what the others are built from.

Each function states what it returns or changes over a model of its data. The functions named
`law_..` state what holds across functions: that stopping and destroying twice succeeds, that a
terminal state is never left, that the events of a sandbox have no gap, that reading output loses
no byte, and the like.
