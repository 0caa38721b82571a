# workspace_model

The verified core of a systems-modeling desktop workspace, written in Verus.
Every function in `src/` carries a contract that Verus proves.

Modules:

- `history`, `workspace_state` — bounded undo/redo of the authored state, and
  copying and publishing that state behind its locks (all or nothing).
- `layout` — deterministic layering of diagram nodes (Kahn layering, then a
  spanning hierarchy for cycles) and the rows of each level in caller order.
- `occurrences`, `allocation`, `regrouping` — occurrence groups of a
  property's population in an internal block diagram: parsing `name = count`
  lines, coverage of a multiplicity, the allocation rules a diagram keeps, and
  the plan that renames or rebuilds a population.
- `group_text` — the group text an editor shows for a population ("north =
  2" per line, by first display position), which parses back to the groups.
- `expansion` — expanding and collapsing a property presentation: the depth
  and size limits of a view and the child paths an expansion adds.
- `package_diagrams` — naming package diagrams and placing packages on them.
- `navigation` — which block a type-level internal block diagram shows,
  whether an existing one is reused, and which package owns a new one.
- `connectors`, `item_flows` — connector ends projected into nested contexts,
  routing lanes, item-flow direction and the notation overlay's records.
- `model_script`, `reconcile`, `model_build`, `ids` — reading a model
  script (payload, references, diagram families), reconciling its statements
  with existing External IDs, the order of a unified build plan, reporting
  build failures, and the stable identities of script diagrams.
- `script_compile` — compiling a script's statements (elements,
  relationships, connectors, item flows, bindings, and the activities, state
  machines and interactions with what they hold) against plain facts of the
  project and its behavior stores into build-plan operations and
  CREATE/UPDATE/NO_CHANGE preview lines, or every diagnostic in statement
  order.
- `populate`, `ibd_population`, `activity_population`, `state_population` —
  what a new script diagram shows: BDD-like nodes and edges, IBD property
  boxes, ports and connectors, activity nodes and edges, state-machine
  vertices (nested regions walked depth first) and transitions, sequence
  lifelines.
- `parametrics`, `execution_registry` — the context of a parametric diagram,
  and the bookkeeping of its executions (sessions, model fingerprints,
  runtime selections).
- `features`, `text` — edit values (aggregation, directions, multiplicity)
  and the string operations the rules rely on.

`app/` holds what stays outside the proofs: floating-point diagram
coordinates and box sizes, fresh presentation ids, reading a script's JSON
into statements, and serialized copies of the reports.
