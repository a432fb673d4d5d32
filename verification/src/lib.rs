//! Planning of multi-device Vulkan execution.
use vstd::prelude::*;

pub mod activation_alternatives;
pub mod activation_buffers;
pub mod activation_building;
pub mod activation_laws;
pub mod activation_lookups;
pub mod activation_plans;
pub mod allocation_laws;
pub mod alternative_laws;
pub mod arena_laws;
pub mod arithmetic;
pub mod binding_laws;
pub mod building_laws;
pub mod case_laws;
pub mod clock_laws;
pub mod contract_coverage;
pub mod contract_planning;
pub mod contract_selection;
pub mod contracts;
pub mod counting_laws;
pub mod coverage_laws;
pub mod creation_laws;
pub mod dispatch_laws;
pub mod dispatch_runners;
pub mod dispatch_shards;
pub mod errors;
pub mod exact_application;
pub mod exact_component;
pub mod exact_coverage;
pub mod exact_laws;
pub mod exact_rebinding;
pub mod exact_replay;
pub mod execution_observation;
pub mod execution_plans;
pub mod island_laws;
pub mod island_plans;
pub mod islands;
pub mod labels;
pub mod lane_laws;
pub mod loading_laws;
pub mod lookup_laws;
pub mod merging_laws;
pub mod ordered;
pub mod parameter_buffers;
pub mod parameter_laws;
pub mod parameter_loading;
pub mod parameter_mounting;
pub mod parameter_plans;
pub mod parameter_pool;
pub mod phase_laws;
pub mod placement;
pub mod plan_building;
pub mod plan_sampling;
pub mod planning;
pub mod planning_laws;
pub mod prepared;
pub mod queue_dependencies;
pub mod recovery_laws;
pub mod replay_laws;
pub mod resident;
pub mod row_distribution;
pub mod runner_bindings;
pub mod runner_execution;
pub mod runner_feedback;
pub mod runner_laws;
pub mod runner_recovery;
pub mod runner_stages;
pub mod sameness_laws;
pub mod sampling_laws;
pub mod selected_resources;
pub mod selection_laws;
pub mod sequences;
pub mod service_laws;
pub mod shader_contracts;
pub mod stage_laws;
pub mod submission_laws;
pub mod text;
pub mod timeline_replay;
pub mod usage_laws;
pub mod values;
pub mod whole_laws;

verus! {

} // verus!
