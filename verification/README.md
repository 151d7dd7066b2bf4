# nsga_rs

Building blocks of the NSGA2 multi-objective genetic algorithm, verified with Verus.

- `src/problem`: objectives, decision variables (bounded integers, booleans, choices) and
  their random generation, variable values, errors.
- `src/algorithms/stopping_condition.rs`: stopping conditions, their descriptions and the
  single conditions of the Python interface.
- `src/algorithms/nsga2`: the population-size check, the selection of the ranked fronts that
  form the next population, the survival of the last front by crowding distance, and the
  orderings and ranks behind the two crowding distance operators.
- `src/text.rs`: decimal numbers and joined strings, as `Display` and `join` write them.
- `app/`: serde forms of the types, real-valued variables and the floating-point parts of
  the crowding distance.

Real numbers enter the library as `i64` keys that order them as `f64::total_cmp` does.
