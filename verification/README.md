# timing

Costs of GPU kernels, looked up in tables of profiled shapes. The library in `src/` is
written in Rust and verified with Verus.

A kernel kind declares the shapes it is profiled at and how a shape is put to the
profiler. Building a kernel asks the profiler for the times of those shapes, one request
per backend, and fits a table to each answer. A query is projected onto the axes of the
tables and takes the cost of the fastest backend. The costs of a model's kernels are
combined in a cost tree.

- `bridge/`: the payloads and measurements that pass between a build and the profiler,
  the state of a build, and the decisions around a request.
- `cache/`: tables over one, two and three axes, with their warnings, their behaviour off
  the grid, and the peak rates over their cells. Tables are generic over their number
  type; what they compute is stated over the operations of that type.
- `cost_tree/`: trees of costs, their flat form, and their evaluation.
- `kernels/`: the kernel kinds, and the build and lookup that they share.
- `sweep`, `dims`, `expert_demand`, `jit`: sweep axes and grids, dimensions that remember
  their formula, rows routed to experts, and plans of what is still to be profiled.
- `text`, `text_map`: text order, decimal numbers, and maps keyed by text.

`app/` connects the library to floating-point numbers, to the Python profiler and to JSON.
`tests/` runs the library on concrete values.
