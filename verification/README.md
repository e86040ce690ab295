# labdessem

Short-term hydrothermal scheduling: thermal unit commitment, hydro cascades with
diversion and pumping, renewables, submarket interchange, operational limits and
an optional DC network handled by iterative flow cuts.

## Layout

- `src/` is the verified library (Verus). It holds the structure of a study and
  everything decided on integers, names and references:
  - `system`, `validation`: the entities of a study and the structural rules that
    a consistent study obeys, pumping plants included (`System::validate` is
    proved equal to the rules' specification);
  - `study`, `text`: interpretation of input fields (periods, plant references,
    limit variables and targets, the hydro cascade, grouping rows by key);
  - `indexing`, `layout`: the index layout of the model and which variables each
    balance, limit and productivity constraint holds, with their signs;
  - `commitment`: minimum up/down time constraints and what they mean, status
    transitions, ramp trajectory terms and the generation envelope, residence
    times and post-horizon profiles;
  - `network`: the columns of the reduced DC network (every bus but the angle
    reference) and the incidence of each branch on them;
  - `naming`, `relaxation`: variable and constraint names and the slacks that
    relax operational limits;
  - `model`: solve modes, which commitment blocks a model carries in each, and
    the domain and fixing of each family of variables;
  - `iteration`: the solution process (LP cut loop, MILP, LP with fixed
    commitment, final pricing LP, or a single MILP), the flow cut set and its
    grouping by branch;
  - `laws`: properties that span several operations, proved.
- `app/` is the program around it: settings and CSV reading, the floating point
  data of a study, the optimization model with its coefficients, the solver
  (`good_lp`), the DC flow computation and the CSV reports.
- `tests/` exercises the library on concrete studies.
