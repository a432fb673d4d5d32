# vulkan_distributed

Plans how the dispatches of a model are spread over several devices, and runs them there.
Every part that decides or computes something is verified with Verus; the devices
themselves are reached through closures that the caller hands in. A closure takes the
devices and gives them back, so that a contract says which calls are made, in which order,
and that no other call is made.

- `contracts`, `prepared`, `execution_plans`, `dispatch_shards`, `placement`, `resident`,
  `errors`: the types, each with a model on which the contracts are stated.
- `values`, `ordered`, `sequences`, `text`, `arithmetic`, `row_distribution`: what the rest
  is built of.
- `contract_selection`, `contract_coverage`, `selected_resources`, `planning`,
  `contract_planning`, `plan_building`, `plan_sampling`: from prepared dispatches to
  distributed plans.
- `islands`, `island_plans`: groups of dispatches that execute as one sequence.
- `parameter_*`: which bytes of which tensor each device holds, and how they get there.
- `activation_*`: shared, reduced and private activation buffers.
- `runner_*`, `dispatch_runners`, `queue_dependencies`, `timeline_replay`: making runners,
  submitting, waiting, recovering from missing resources, replaying.
- `exact_*`: replaying measured executions.
- `*_laws`: what holds of several functions together.
- `shader_contracts`, `labels`, `execution_observation`: requirements of shaders, fields of
  labels, and the kinds of islands.

`app/` holds error types that can be displayed and the record of submissions.
