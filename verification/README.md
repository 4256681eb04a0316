# sheaf

A coordination engine: agents on a graph, each with a local state, agree with their neighbours
through linear restriction maps. An encoder sets every agent's local objective, a splitting loop
alternates local proposals with a consensus step (conjugate gradients on the sheaf Laplacian), and a
decoder reads the answer off the proposals. The tasks are mazes; loaders for digit and sudoku models
come along.

- `src/` is the verified library. All numeric code is written over the trait `scalar::Scalar`, so
  that contracts fix which operations are made and in which order, for machine numbers and exact
  numbers alike. `laws/` holds what follows for numbers that are exact, ordered, or both;
  `modular::Modular` is an exact number type.
- `tests/` run the library on single-precision numbers.
- `app/` holds the programs: `maze_demo`, `parity_check`, `viz_export`, and a browser interface.

What is believed without proof: `weights::container` parses the header of a tensor container with
`serde_json` and reads the container with `safetensors`; the contracts of these two functions say
what is assumed of them.
