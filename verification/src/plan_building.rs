//! Building distributed execution plans from prepared dispatches.
use vstd::prelude::*;

use crate::arithmetic::{is_power_of_two, power_of_two};
use crate::contract_planning::{
    contract_is_sound, has_sound_numbers, plan_contract_dispatch, planned_dispatch,
    BF16_BYTE_COUNT,
};
use crate::contract_selection::{select_distributed_contract, selected_contract};
use crate::contracts::{ExecutionPhase, ExecutionShape};
use crate::errors::{plan_agrees, VulkanDistributedPlanError};
use crate::execution_plans::{
    VulkanDistributedDispatchPlan, VulkanDistributedDispatchPlanModel,
    VulkanDistributedDispatchSequenceKind, VulkanDistributedExecutionPlan,
    VulkanDistributedExecutionPlanModel, VulkanDistributedExecutionPlanSet,
    VulkanDistributedExecutionPlanSetModel, VulkanSharedResidentBufferRoute,
};
use crate::island_plans::{resolved_islands, resolved_physical_execution_islands_for_phase};
use crate::ordered::{ordered_listing, ordered_members, OrderedMap, OrderedSet};
use crate::planning::{device_pool_fault, validate_device_pool};
use crate::prepared::{
    CompiledResourceResidencyContract, CompiledResourceResidencyContractModel,
    ComponentEdgePlacement, ComponentEdgePlacementModel, TensorIndex, TensorIndexModel,
    VulkanPhysicalKernelArtifactManifest, VulkanPhysicalKernelArtifactManifestModel,
    VulkanPreparedDispatch, VulkanPreparedDispatchModel, VulkanPreparedDispatchPlan,
    VulkanPreparedDispatchPlanModel,
};
use crate::sequences::{append, fold_from, holds};
use crate::text::{
    debug_text, decimal, decimal_text, join3, join4, join5, join7, listed, listed_text, quoted,
};
use crate::values::PlainValue;

verus! {

impl VulkanDistributedDispatchSequenceKind {
    /// The sequence of a submission: with a feedback lane the indirect one.
    pub fn for_feedback_lane(feedback_lane: Option<usize>) -> (kind: Self)
        ensures
            kind == (if feedback_lane is Some {
                VulkanDistributedDispatchSequenceKind::FeedbackIndirect
            } else {
                VulkanDistributedDispatchSequenceKind::Direct
            }),
    {
        match feedback_lane {
            Some(_) => VulkanDistributedDispatchSequenceKind::FeedbackIndirect,
            None => VulkanDistributedDispatchSequenceKind::Direct,
        }
    }
}

/// The dispatches that are replaced: owner, index, component and node.
pub open spec fn logical_dispatches(dispatches: Seq<VulkanDistributedDispatchPlanModel>) -> Set<
    (Seq<char>, (usize, (Seq<char>, Seq<char>))),
>
    decreases dispatches.len(),
{
    if dispatches.len() == 0 {
        Set::empty()
    } else {
        let last = dispatches.last();
        logical_dispatches(dispatches.drop_last()).insert(
            (last.owner_device_id, (last.dispatch_index, (last.component_id, last.node_id))),
        )
    }
}

/// Two plans replace the same dispatches, and as many.
pub open spec fn same_logical_dispatches(
    left: VulkanDistributedExecutionPlanModel,
    right: VulkanDistributedExecutionPlanModel,
) -> bool {
    left.dispatches.len() == right.dispatches.len() && logical_dispatches(left.dispatches)
        == logical_dispatches(right.dispatches)
}

fn list_logical_dispatches(dispatches: &Vec<VulkanDistributedDispatchPlan>) -> (keys: OrderedSet<
    (String, (usize, (String, String))),
>)
    ensures
        keys.deep_view() == logical_dispatches(dispatches.deep_view()),
{
    let ghost all = dispatches.deep_view();
    let mut keys: OrderedSet<(String, (usize, (String, String)))> = OrderedSet::new();
    for index in 0..dispatches.len()
        invariant
            all == dispatches.deep_view(),
            keys.deep_view() == logical_dispatches(all.take(index as int)),
    {
        assert(all.take(index as int + 1).drop_last() =~= all.take(index as int));
        let dispatch = &dispatches[index];
        assert(all[index as int] == dispatch.deep_view());
        keys.insert(
            (
                dispatch.owner_device_id.clone(),
                (
                    dispatch.dispatch_index,
                    (dispatch.component_id.clone(), dispatch.node_id.clone()),
                ),
            ),
        );
    }
    assert(all.take(all.len() as int) =~= all);
    keys
}

/// A prepared plan with the device that owns it.
pub type OwnedPlanModel = (Seq<char>, VulkanPreparedDispatchPlanModel);

/// Every contract of a plan that its own validation accepts is sound.
pub open spec fn prepared_is_sound(plan: VulkanPreparedDispatchPlan) -> bool {
    forall|i: int, j: int|
        #![trigger plan.dispatches@[i].physical_execution_contracts@[j]]
        0 <= i < plan.dispatches.len() && 0 <= j
            < plan.dispatches@[i].physical_execution_contracts.len()
            && plan.dispatches@[i].physical_execution_contracts@[j].validation_error is None
            && plan.dispatches@[i].physical_execution_contracts@[j].strategy.spreads()
            ==> contract_is_sound(
            plan.dispatches@[i].physical_execution_contracts@[j].deep_view(),
        )
}

/// Whether every contract of a plan that its own validation accepts is sound.
pub fn has_sound_contracts(plan: &VulkanPreparedDispatchPlan) -> (result: bool)
    ensures
        result == prepared_is_sound(*plan),
{
    for index in 0..plan.dispatches.len()
        invariant
            forall|i: int, j: int|
                #![trigger plan.dispatches@[i].physical_execution_contracts@[j]]
                0 <= i < index && 0 <= j < plan.dispatches@[i].physical_execution_contracts.len()
                    && plan.dispatches@[i].physical_execution_contracts@[j].validation_error is None
                    && plan.dispatches@[i].physical_execution_contracts@[j].strategy.spreads()
                    ==> contract_is_sound(
                    plan.dispatches@[i].physical_execution_contracts@[j].deep_view(),
                ),
    {
        let dispatch = &plan.dispatches[index];
        for place in 0..dispatch.physical_execution_contracts.len()
            invariant
                index < plan.dispatches.len(),
                *dispatch == plan.dispatches@[index as int],
                forall|j: int|
                    #![trigger dispatch.physical_execution_contracts@[j]]
                    0 <= j < place
                        && dispatch.physical_execution_contracts@[j].validation_error is None
                        && dispatch.physical_execution_contracts@[j].strategy.spreads()
                        ==> contract_is_sound(
                        dispatch.physical_execution_contracts@[j].deep_view(),
                    ),
        {
            let contract = &dispatch.physical_execution_contracts[place];
            if contract.validation_error.is_none() && contract.strategy.is_distributed()
                && !has_sound_numbers(contract) {
                assert(!contract_is_sound(
                    plan.dispatches@[index as int].physical_execution_contracts@[place as int].deep_view(),
                ));
                return false;
            }
        }
    }
    true
}

/// The contracts of prepared plans that their own validation accepts are sound.
pub open spec fn all_prepared_are_sound(
    plans: Seq<(&String, &VulkanPreparedDispatchPlan)>,
) -> bool {
    forall|i: int| 0 <= i < plans.len() ==> prepared_is_sound(*(#[trigger] plans[i]).1)
}

/// What planning has found so far.
pub struct PlanningModel {
    pub dispatches: Seq<VulkanDistributedDispatchPlanModel>,
    pub input_byte_capacity: usize,
    pub output_byte_capacity: usize,
    pub parameter_byte_count: usize,
    pub planned_components: Set<Seq<char>>,
}

/// Planning that has found nothing.
pub open spec fn nothing_planned() -> PlanningModel {
    PlanningModel {
        dispatches: Seq::empty(),
        input_byte_capacity: 0,
        output_byte_capacity: 0,
        parameter_byte_count: 0,
        planned_components: Set::empty(),
    }
}

/// The larger of two numbers.
pub open spec fn larger(left: usize, right: usize) -> usize {
    if left >= right {
        left
    } else {
        right
    }
}

/// What every dispatch is planned with.
pub struct PlanningContextModel {
    pub tensors: TensorIndexModel,
    pub manifest: VulkanPhysicalKernelArtifactManifestModel,
    pub pools: Map<Seq<char>, Seq<Seq<char>>>,
    pub edges: Seq<ComponentEdgePlacementModel>,
    pub offset_alignment: usize,
    pub phase: ExecutionPhase,
    pub shape: ExecutionShape,
    pub resources: Option<(Seq<char>, CompiledResourceResidencyContractModel)>,
}

/// Plans one dispatch where its component is distributed and a contract applies.
pub open spec fn dispatch_step(
    context: PlanningContextModel,
    owner_device_id: Seq<char>,
) -> spec_fn(
    PlanningModel,
    VulkanPreparedDispatchModel,
) -> Result<PlanningModel, Seq<char>> {
    |found: PlanningModel, dispatch: VulkanPreparedDispatchModel|
        if !context.pools.contains_key(dispatch.component_id) {
            Ok(found)
        } else if !context.pools[dispatch.component_id].contains(owner_device_id) {
            Err(
                "internal shard pool for component "@ + debug_text(dispatch.component_id)
                    + " omits its owner device "@ + debug_text(owner_device_id),
            )
        } else {
            match selected_contract(dispatch, context.manifest, context.phase, context.shape) {
                Err(message) => Err(message),
                Ok(None) => Ok(found),
                Ok(Some((contract, artifact))) => match planned_dispatch(
                    owner_device_id,
                    dispatch,
                    context.tensors,
                    context.pools[dispatch.component_id],
                    context.edges,
                    artifact,
                    contract,
                    context.offset_alignment,
                    context.resources,
                ) {
                    Err(message) => Err(message),
                    Ok(None) => Ok(found),
                    Ok(Some(plan)) => if found.parameter_byte_count
                        + plan.distributed_parameter_byte_count > usize::MAX {
                        Err("distributed parameter byte count overflowed"@)
                    } else {
                        Ok(
                            PlanningModel {
                                dispatches: found.dispatches.push(plan),
                                input_byte_capacity: larger(
                                    found.input_byte_capacity,
                                    plan.input_byte_capacity,
                                ),
                                output_byte_capacity: larger(
                                    found.output_byte_capacity,
                                    plan.output_byte_capacity,
                                ),
                                parameter_byte_count: (found.parameter_byte_count
                                    + plan.distributed_parameter_byte_count) as usize,
                                planned_components: found.planned_components.insert(
                                    dispatch.component_id,
                                ),
                            },
                        )
                    },
                },
            }
        }
}

/// Plans the dispatches of one owner.
pub open spec fn owner_step(context: PlanningContextModel) -> spec_fn(
    PlanningModel,
    OwnedPlanModel,
) -> Result<PlanningModel, Seq<char>> {
    |found: PlanningModel, owned: OwnedPlanModel|
        fold_from(owned.1.dispatches, 0, found, dispatch_step(context, owned.0))
}

/// Adds the devices of a pool.
pub open spec fn pool_step() -> spec_fn(
    Set<Seq<char>>,
    (Seq<char>, Seq<Seq<char>>),
) -> Result<Set<Seq<char>>, Seq<char>> {
    |found: Set<Seq<char>>, pool: (Seq<char>, Seq<Seq<char>>)|
        match device_pool_fault(pool.1) {
            Some(message) => Err(message),
            None => if pool.1.len() < 2 {
                Err(
                    "internal sharding for component "@ + debug_text(pool.0)
                        + " requires at least two devices"@,
                )
            } else {
                Ok(found.union(pool.1.to_set()))
            },
        }
}

/// The texts of the prepared dispatches of a component of one owner.
pub open spec fn owner_dispatch_texts(
    owner_device_id: Seq<char>,
    dispatches: Seq<VulkanPreparedDispatchModel>,
    component_id: Seq<char>,
) -> Seq<Seq<char>>
    decreases dispatches.len(),
{
    if dispatches.len() == 0 {
        Seq::empty()
    } else {
        let found = owner_dispatch_texts(owner_device_id, dispatches.drop_last(), component_id);
        let last = dispatches.last();
        if last.component_id == component_id {
            found.push(
                debug_text(
                    last.component_id + "."@ + last.node_id + ":"@ + last.op + "@"@
                        + owner_device_id,
                ),
            )
        } else {
            found
        }
    }
}

/// The texts of the prepared dispatches of a component.
pub open spec fn dispatch_texts(plans: Seq<OwnedPlanModel>, component_id: Seq<char>) -> Seq<
    Seq<char>,
>
    decreases plans.len(),
{
    if plans.len() == 0 {
        Seq::empty()
    } else {
        dispatch_texts(plans.drop_last(), component_id) + owner_dispatch_texts(
            plans.last().0,
            plans.last().1.dispatches,
            component_id,
        )
    }
}

/// The first component from an index on that no dispatch was planned for makes an
/// error.
pub open spec fn unplanned_fault_from(
    plans: Seq<OwnedPlanModel>,
    pools: Seq<(Seq<char>, Seq<Seq<char>>)>,
    planned: Set<Seq<char>>,
    index: nat,
) -> Option<Seq<char>>
    decreases pools.len() - index,
{
    if index >= pools.len() {
        None
    } else if !planned.contains(pools[index as int].0) {
        Some(
            "requested internal sharding for component "@ + debug_text(pools[index as int].0)
                + " has no compatible distributable dispatch; prepared dispatches for that component: ["@
                + listed_text(dispatch_texts(plans, pools[index as int].0)) + "]"@,
        )
    } else {
        unplanned_fault_from(plans, pools, planned, index + 1)
    }
}

/// The offset alignment is one that storage buffers can have.
pub open spec fn valid_offset_alignment(alignment: usize) -> bool {
    alignment != 0 && power_of_two(alignment as nat) && alignment % BF16_BYTE_COUNT == 0
}

/// The distributed plan of prepared dispatches, or the text of the error.
pub open spec fn built_plan(plans: Seq<OwnedPlanModel>, context: PlanningContextModel) -> Result<
    VulkanDistributedExecutionPlanModel,
    Seq<char>,
> {
    let pools = ordered_listing::<String, Seq<Seq<char>>>(context.pools);
    let route = VulkanSharedResidentBufferRoute::SharedHost;
    if !valid_offset_alignment(context.offset_alignment) {
        Err(
            "distributed storage-buffer offset alignment "@ + decimal_text(
                context.offset_alignment as nat,
            ) + " is invalid"@,
        )
    } else {
        match fold_from(pools, 0, Set::empty(), pool_step()) {
            Err(message) => Err(message),
            Ok(device_ids) => match fold_from(plans, 0, nothing_planned(), owner_step(context)) {
                Err(message) => Err(message),
                Ok(found) => if unplanned_fault_from(
                    plans,
                    pools,
                    found.planned_components,
                    0,
                ) is Some {
                    Err(unplanned_fault_from(plans, pools, found.planned_components, 0)->0)
                } else {
                    match resolved_islands(found.dispatches, route, context.phase) {
                        Err(message) => Err(message),
                        Ok(execution_islands) => Ok(
                            VulkanDistributedExecutionPlanModel {
                                device_ids: ordered_members::<String>(device_ids),
                                storage_buffer_offset_alignment: context.offset_alignment,
                                dispatches: found.dispatches,
                                execution_islands,
                                shared_activation_route: route,
                                shared_input_byte_capacity: found.input_byte_capacity,
                                shared_output_byte_capacity: found.output_byte_capacity,
                                distributed_parameter_byte_count: found.parameter_byte_count,
                            },
                        ),
                    }
                },
            },
        }
    }
}

/// What every dispatch is planned with.
struct PlanningContext<'a> {
    tensor_index: &'a TensorIndex,
    artifact_manifest: &'a VulkanPhysicalKernelArtifactManifest,
    component_device_pools: &'a OrderedMap<String, Vec<String>>,
    edge_placements: &'a [ComponentEdgePlacement],
    storage_buffer_offset_alignment: usize,
    phase: ExecutionPhase,
    execution_shape: ExecutionShape,
    resource_context: Option<(&'a String, &'a CompiledResourceResidencyContract)>,
}

impl<'a> PlanningContext<'a> {
    spec fn model(&self) -> PlanningContextModel {
        PlanningContextModel {
            tensors: self.tensor_index.deep_view(),
            manifest: self.artifact_manifest.deep_view(),
            pools: self.component_device_pools.deep_view(),
            edges: self.edge_placements.deep_view(),
            offset_alignment: self.storage_buffer_offset_alignment,
            phase: self.phase,
            shape: self.execution_shape,
            resources: self.resource_context.deep_view(),
        }
    }
}

/// What planning has found so far.
struct Planning {
    dispatches: Vec<VulkanDistributedDispatchPlan>,
    input_byte_capacity: usize,
    output_byte_capacity: usize,
    parameter_byte_count: usize,
    planned_components: OrderedSet<String>,
}

impl Planning {
    spec fn model(&self) -> PlanningModel {
        PlanningModel {
            dispatches: self.dispatches.deep_view(),
            input_byte_capacity: self.input_byte_capacity,
            output_byte_capacity: self.output_byte_capacity,
            parameter_byte_count: self.parameter_byte_count,
            planned_components: self.planned_components.deep_view(),
        }
    }

    fn new() -> (planning: Self)
        ensures
            planning.model() == nothing_planned(),
    {
        let planning = Planning {
            dispatches: Vec::new(),
            input_byte_capacity: 0,
            output_byte_capacity: 0,
            parameter_byte_count: 0,
            planned_components: OrderedSet::new(),
        };
        assert(planning.dispatches.deep_view() =~= Seq::empty());
        planning
    }

    fn plan_dispatch(
        &mut self,
        context: &PlanningContext,
        owner_device_id: &String,
        dispatch: &VulkanPreparedDispatch,
    ) -> (outcome: Result<(), VulkanDistributedPlanError>)
        requires
            context.storage_buffer_offset_alignment > 0,
            forall|j: int|
                #![trigger dispatch.physical_execution_contracts@[j]]
                0 <= j < dispatch.physical_execution_contracts.len()
                    && dispatch.physical_execution_contracts@[j].validation_error is None
                    && dispatch.physical_execution_contracts@[j].strategy.spreads()
                    ==> contract_is_sound(dispatch.physical_execution_contracts@[j].deep_view()),
        ensures
            match outcome {
                Ok(_) => dispatch_step(context.model(), owner_device_id@)(
                    old(self).model(),
                    dispatch.deep_view(),
                ) == Ok::<PlanningModel, Seq<char>>(final(self).model()),
                Err(error) => dispatch_step(context.model(), owner_device_id@)(
                    old(self).model(),
                    dispatch.deep_view(),
                ) == Err::<PlanningModel, Seq<char>>(error.0@),
            },
    {
        let component_devices = match context.component_device_pools.get(&dispatch.component_id) {
            None => {
                return Ok(());
            },
            Some(devices) => devices,
        };
        if !holds(component_devices, owner_device_id) {
            return Err(
                VulkanDistributedPlanError(
                    join4(
                        "internal shard pool for component ",
                        quoted(dispatch.component_id.as_str()).as_str(),
                        " omits its owner device ",
                        quoted(owner_device_id.as_str()).as_str(),
                    ),
                ),
            );
        }
        let (contract, artifact) = match select_distributed_contract(
            dispatch,
            context.artifact_manifest,
            context.phase,
            context.execution_shape,
        ) {
            Err(error) => {
                return Err(error);
            },
            Ok(None) => {
                return Ok(());
            },
            Ok(Some(selected)) => selected,
        };
        proof {
            let j = choose|j: int|
                0 <= j < dispatch.physical_execution_contracts.len()
                    && dispatch.physical_execution_contracts@[j] == *contract;
            assert(contract_is_sound(dispatch.physical_execution_contracts@[j].deep_view()));
        }
        let devices = component_devices.as_slice();
        assert(devices.deep_view() =~= component_devices.deep_view());
        let planned = match plan_contract_dispatch(
            owner_device_id,
            dispatch,
            context.tensor_index,
            devices,
            context.edge_placements,
            artifact,
            contract,
            context.storage_buffer_offset_alignment,
            context.resource_context,
        ) {
            Err(error) => {
                return Err(error);
            },
            Ok(None) => {
                return Ok(());
            },
            Ok(Some(planned)) => planned,
        };
        match self.parameter_byte_count.checked_add(planned.distributed_parameter_byte_count) {
            None => Err(
                VulkanDistributedPlanError(
                    "distributed parameter byte count overflowed".to_owned(),
                ),
            ),
            Some(bytes) => {
                if planned.input_byte_capacity > self.input_byte_capacity {
                    self.input_byte_capacity = planned.input_byte_capacity;
                }
                if planned.output_byte_capacity > self.output_byte_capacity {
                    self.output_byte_capacity = planned.output_byte_capacity;
                }
                self.parameter_byte_count = bytes;
                append(&mut self.dispatches, planned);
                self.planned_components.insert(dispatch.component_id.clone());
                Ok(())
            },
        }
    }

    fn plan_owner(
        &mut self,
        context: &PlanningContext,
        owner_device_id: &String,
        plan: &VulkanPreparedDispatchPlan,
    ) -> (outcome: Result<(), VulkanDistributedPlanError>)
        requires
            context.storage_buffer_offset_alignment > 0,
            prepared_is_sound(*plan),
        ensures
            match outcome {
                Ok(_) => owner_step(context.model())(
                    old(self).model(),
                    (owner_device_id@, plan.deep_view()),
                ) == Ok::<PlanningModel, Seq<char>>(final(self).model()),
                Err(error) => owner_step(context.model())(
                    old(self).model(),
                    (owner_device_id@, plan.deep_view()),
                ) == Err::<PlanningModel, Seq<char>>(error.0@),
            },
    {
        let ghost all = plan.deep_view().dispatches;
        let ghost step = dispatch_step(context.model(), owner_device_id@);
        for index in 0..plan.dispatches.len()
            invariant
                context.storage_buffer_offset_alignment > 0,
                prepared_is_sound(*plan),
                all == plan.deep_view().dispatches,
                step == dispatch_step(context.model(), owner_device_id@),
                fold_from(all, 0, old(self).model(), step) == fold_from(
                    all,
                    index as nat,
                    self.model(),
                    step,
                ),
        {
            assert(all[index as int] == plan.dispatches@[index as int].deep_view());
            match self.plan_dispatch(context, owner_device_id, &plan.dispatches[index]) {
                Err(error) => {
                    return Err(error);
                },
                Ok(_) => {},
            }
        }
        Ok(())
    }
}

fn collect_pool_devices(pools: &OrderedMap<String, Vec<String>>) -> (outcome: Result<
    OrderedSet<String>,
    VulkanDistributedPlanError,
>)
    ensures
        plan_agrees(
            outcome,
            fold_from(
                ordered_listing::<String, Seq<Seq<char>>>(pools.deep_view()),
                0,
                Set::empty(),
                pool_step(),
            ),
        ),
{
    let ghost listing = pools.listing();
    let ghost step = pool_step();
    let count: usize = pools.len();
    let mut device_ids: OrderedSet<String> = OrderedSet::new();
    for index in 0..count
        invariant
            count == listing.len(),
            listing == pools.listing(),
            step == pool_step(),
            fold_from(listing, 0, Set::empty(), step) == fold_from(
                listing,
                index as nat,
                device_ids.deep_view(),
                step,
            ),
    {
        let devices = pools.value_at(index);
        let pool = devices.as_slice();
        assert(pool.deep_view() =~= devices.deep_view());
        match validate_device_pool(pool) {
            Err(error) => {
                return Err(error);
            },
            Ok(_) => {},
        }
        if devices.len() < 2 {
            return Err(
                VulkanDistributedPlanError(
                    join3(
                        "internal sharding for component ",
                        quoted(pools.key_at(index).as_str()).as_str(),
                        " requires at least two devices",
                    ),
                ),
            );
        }
        let ghost before = device_ids.deep_view();
        let ghost all = devices.deep_view();
        for device in 0..devices.len()
            invariant
                all == devices.deep_view(),
                device_ids.deep_view() == before.union(all.take(device as int).to_set()),
        {
            assert(all[device as int] == devices@[device as int]@);
            device_ids.insert(devices[device].clone());
            assert(device_ids.deep_view() =~= before.union(all.take(device as int + 1).to_set()))
                by {
                assert forall|id: Seq<char>| all.take(device as int + 1).contains(id) <==> all.take(
                    device as int,
                ).contains(id) || id == all[device as int] by {
                    crate::planning::lemma_take_contains(all, device as int, id);
                }
            }
        }
        assert(all.take(all.len() as int) =~= all);
    }
    Ok(device_ids)
}

fn list_owner_texts(
    owner_device_id: &String,
    dispatches: &Vec<VulkanPreparedDispatch>,
    component_id: &String,
) -> (texts: Vec<String>)
    ensures
        texts.deep_view() == owner_dispatch_texts(
            owner_device_id@,
            dispatches.deep_view(),
            component_id@,
        ),
{
    let ghost all = dispatches.deep_view();
    let mut texts: Vec<String> = Vec::new();
    assert(texts.deep_view() =~= Seq::empty());
    for index in 0..dispatches.len()
        invariant
            all == dispatches.deep_view(),
            texts.deep_view() == owner_dispatch_texts(
                owner_device_id@,
                all.take(index as int),
                component_id@,
            ),
    {
        assert(all.take(index as int + 1).drop_last() =~= all.take(index as int));
        let dispatch = &dispatches[index];
        assert(all[index as int] == dispatch.deep_view());
        if dispatch.component_id == *component_id {
            append(
                &mut texts,
                quoted(
                    join7(
                        dispatch.component_id.as_str(),
                        ".",
                        dispatch.node_id.as_str(),
                        ":",
                        dispatch.op.as_str(),
                        "@",
                        owner_device_id.as_str(),
                    ).as_str(),
                ),
            );
        }
    }
    assert(all.take(all.len() as int) =~= all);
    texts
}

fn list_texts(
    prepared_plans: &[(&String, &VulkanPreparedDispatchPlan)],
    component_id: &String,
) -> (texts: Vec<String>)
    ensures
        texts.deep_view() == dispatch_texts(prepared_plans.deep_view(), component_id@),
{
    let ghost all = prepared_plans.deep_view();
    let mut texts: Vec<String> = Vec::new();
    assert(texts.deep_view() =~= Seq::empty());
    for index in 0..prepared_plans.len()
        invariant
            all == prepared_plans.deep_view(),
            texts.deep_view() == dispatch_texts(all.take(index as int), component_id@),
    {
        assert(all.take(index as int + 1).drop_last() =~= all.take(index as int));
        assert(all[index as int] == prepared_plans@[index as int].deep_view());
        let owned = list_owner_texts(
            prepared_plans[index].0,
            &prepared_plans[index].1.dispatches,
            component_id,
        );
        crate::islands::append_all(&mut texts, &owned);
    }
    assert(all.take(all.len() as int) =~= all);
    texts
}

fn require_planned(
    prepared_plans: &[(&String, &VulkanPreparedDispatchPlan)],
    pools: &OrderedMap<String, Vec<String>>,
    planned: &OrderedSet<String>,
) -> (outcome: Result<(), VulkanDistributedPlanError>)
    ensures
        match outcome {
            Ok(_) => unplanned_fault_from(
                prepared_plans.deep_view(),
                ordered_listing::<String, Seq<Seq<char>>>(pools.deep_view()),
                planned.deep_view(),
                0,
            ) is None,
            Err(error) => unplanned_fault_from(
                prepared_plans.deep_view(),
                ordered_listing::<String, Seq<Seq<char>>>(pools.deep_view()),
                planned.deep_view(),
                0,
            ) == Some(error.0@),
        },
{
    let ghost all = prepared_plans.deep_view();
    let ghost listing = pools.listing();
    let count: usize = pools.len();
    for index in 0..count
        invariant
            count == listing.len(),
            listing == pools.listing(),
            all == prepared_plans.deep_view(),
            unplanned_fault_from(all, listing, planned.deep_view(), 0) == unplanned_fault_from(
                all,
                listing,
                planned.deep_view(),
                index as nat,
            ),
    {
        let component_id = pools.key_at(index);
        if !planned.contains(component_id) {
            let texts = list_texts(prepared_plans, component_id);
            return Err(
                VulkanDistributedPlanError(
                    join5(
                        "requested internal sharding for component ",
                        quoted(component_id.as_str()).as_str(),
                        " has no compatible distributable dispatch; prepared dispatches for that component: [",
                        listed(&texts).as_str(),
                        "]",
                    ),
                ),
            );
        }
    }
    Ok(())
}

impl VulkanDistributedExecutionPlan {
    /// Whether two plans replace the same dispatches.
    pub fn replaces_same_logical_dispatches(&self, other: &Self) -> (result: bool)
        ensures
            result == same_logical_dispatches(self.deep_view(), other.deep_view()),
    {
        if self.dispatches.len() != other.dispatches.len() {
            return false;
        }
        list_logical_dispatches(&self.dispatches).same(&list_logical_dispatches(&other.dispatches))
    }

    /// Plans the single-lane decode of prepared dispatches.
    pub fn from_prepared_plans(
        prepared_plans: &[(&String, &VulkanPreparedDispatchPlan)],
        tensor_index: &TensorIndex,
        artifact_manifest: &VulkanPhysicalKernelArtifactManifest,
        component_device_pools: &OrderedMap<String, Vec<String>>,
        edge_placements: &[ComponentEdgePlacement],
        storage_buffer_offset_alignment: usize,
    ) -> (outcome: Result<Self, VulkanDistributedPlanError>)
        requires
            all_prepared_are_sound(prepared_plans@),
        ensures
            plan_agrees(
                outcome,
                built_plan(
                    prepared_plans.deep_view(),
                    PlanningContextModel {
                        tensors: tensor_index.deep_view(),
                        manifest: artifact_manifest.deep_view(),
                        pools: component_device_pools.deep_view(),
                        edges: edge_placements.deep_view(),
                        offset_alignment: storage_buffer_offset_alignment,
                        phase: ExecutionPhase::Decode,
                        shape: ExecutionShape::SingleLane,
                        resources: None,
                    },
                ),
            ),
    {
        Self::from_prepared_plans_for_phase(
            prepared_plans,
            tensor_index,
            artifact_manifest,
            component_device_pools,
            edge_placements,
            storage_buffer_offset_alignment,
            ExecutionPhase::Decode,
            ExecutionShape::SingleLane,
        )
    }

    /// Plans prepared dispatches in a phase and shape.
    pub fn from_prepared_plans_for_phase(
        prepared_plans: &[(&String, &VulkanPreparedDispatchPlan)],
        tensor_index: &TensorIndex,
        artifact_manifest: &VulkanPhysicalKernelArtifactManifest,
        component_device_pools: &OrderedMap<String, Vec<String>>,
        edge_placements: &[ComponentEdgePlacement],
        storage_buffer_offset_alignment: usize,
        phase: ExecutionPhase,
        execution_shape: ExecutionShape,
    ) -> (outcome: Result<Self, VulkanDistributedPlanError>)
        requires
            all_prepared_are_sound(prepared_plans@),
        ensures
            plan_agrees(
                outcome,
                built_plan(
                    prepared_plans.deep_view(),
                    PlanningContextModel {
                        tensors: tensor_index.deep_view(),
                        manifest: artifact_manifest.deep_view(),
                        pools: component_device_pools.deep_view(),
                        edges: edge_placements.deep_view(),
                        offset_alignment: storage_buffer_offset_alignment,
                        phase,
                        shape: execution_shape,
                        resources: None,
                    },
                ),
            ),
    {
        Self::from_prepared_plans_for_phase_and_resources(
            prepared_plans,
            tensor_index,
            artifact_manifest,
            component_device_pools,
            edge_placements,
            storage_buffer_offset_alignment,
            phase,
            execution_shape,
            None,
        )
    }

    /// Plans prepared dispatches in a phase and shape, with the residency contract of
    /// the resources that they select.
    pub fn from_prepared_plans_for_phase_and_resources(
        prepared_plans: &[(&String, &VulkanPreparedDispatchPlan)],
        tensor_index: &TensorIndex,
        artifact_manifest: &VulkanPhysicalKernelArtifactManifest,
        component_device_pools: &OrderedMap<String, Vec<String>>,
        edge_placements: &[ComponentEdgePlacement],
        storage_buffer_offset_alignment: usize,
        phase: ExecutionPhase,
        execution_shape: ExecutionShape,
        resource_context: Option<(&String, &CompiledResourceResidencyContract)>,
    ) -> (outcome: Result<Self, VulkanDistributedPlanError>)
        requires
            all_prepared_are_sound(prepared_plans@),
        ensures
            plan_agrees(
                outcome,
                built_plan(
                    prepared_plans.deep_view(),
                    PlanningContextModel {
                        tensors: tensor_index.deep_view(),
                        manifest: artifact_manifest.deep_view(),
                        pools: component_device_pools.deep_view(),
                        edges: edge_placements.deep_view(),
                        offset_alignment: storage_buffer_offset_alignment,
                        phase,
                        shape: execution_shape,
                        resources: resource_context.deep_view(),
                    },
                ),
            ),
    {
        if storage_buffer_offset_alignment == 0 || !is_power_of_two(storage_buffer_offset_alignment)
            || storage_buffer_offset_alignment % BF16_BYTE_COUNT != 0 {
            return Err(
                VulkanDistributedPlanError(
                    join3(
                        "distributed storage-buffer offset alignment ",
                        decimal(storage_buffer_offset_alignment).as_str(),
                        " is invalid",
                    ),
                ),
            );
        }
        let context = PlanningContext {
            tensor_index,
            artifact_manifest,
            component_device_pools,
            edge_placements,
            storage_buffer_offset_alignment,
            phase,
            execution_shape,
            resource_context,
        };
        let ghost context_model = context.model();
        let ghost all = prepared_plans.deep_view();
        let device_ids = match collect_pool_devices(component_device_pools) {
            Err(error) => {
                return Err(error);
            },
            Ok(device_ids) => device_ids,
        };
        let ghost expected = built_plan(all, context_model);
        let ghost step = owner_step(context_model);
        let mut planning = Planning::new();
        for index in 0..prepared_plans.len()
            invariant
                all_prepared_are_sound(prepared_plans@),
                context.storage_buffer_offset_alignment > 0,
                context_model == context.model(),
                all == prepared_plans.deep_view(),
                step == owner_step(context_model),
                fold_from(all, 0, nothing_planned(), step) == fold_from(
                    all,
                    index as nat,
                    planning.model(),
                    step,
                ),
                expected == built_plan(all, context_model),
                fold_from(all, 0, nothing_planned(), step) is Err ==> expected == Err::<
                    VulkanDistributedExecutionPlanModel,
                    Seq<char>,
                >(fold_from(all, 0, nothing_planned(), step)->Err_0),
                context_model == (PlanningContextModel {
                    tensors: tensor_index.deep_view(),
                    manifest: artifact_manifest.deep_view(),
                    pools: component_device_pools.deep_view(),
                    edges: edge_placements.deep_view(),
                    offset_alignment: storage_buffer_offset_alignment,
                    phase,
                    shape: execution_shape,
                    resources: resource_context.deep_view(),
                }),
        {
            assert(all[index as int] == prepared_plans@[index as int].deep_view());
            assert(prepared_is_sound(*prepared_plans@[index as int].1));
            match planning.plan_owner(&context, prepared_plans[index].0, prepared_plans[index].1) {
                Err(error) => {
                    return Err(error);
                },
                Ok(_) => {},
            }
        }
        match require_planned(
            prepared_plans,
            component_device_pools,
            &planning.planned_components,
        ) {
            Err(error) => {
                return Err(error);
            },
            Ok(_) => {},
        }
        let shared_activation_route = VulkanSharedResidentBufferRoute::SharedHost;
        let planned = planning.dispatches.as_slice();
        assert(planned.deep_view() =~= planning.dispatches.deep_view());
        let execution_islands = match resolved_physical_execution_islands_for_phase(
            planned,
            shared_activation_route,
            phase,
        ) {
            Err(error) => {
                return Err(error);
            },
            Ok(islands) => islands,
        };
        Ok(
            VulkanDistributedExecutionPlan {
                device_ids: device_ids.to_vec(),
                storage_buffer_offset_alignment,
                dispatches: planning.dispatches,
                execution_islands,
                shared_activation_route,
                shared_input_byte_capacity: planning.input_byte_capacity,
                shared_output_byte_capacity: planning.output_byte_capacity,
                distributed_parameter_byte_count: planning.parameter_byte_count,
            },
        )
    }
}

/// The text of an error about plans that replace different dispatches.
pub open spec fn different_dispatches_text() -> Seq<char> {
    "single-lane decode, multi-lane decode, and multi-lane prefill replace different logical dispatches"@
}

/// The plans of every phase and shape, or the text of the error.
pub open spec fn built_plan_set(
    plans: Seq<OwnedPlanModel>,
    context: PlanningContextModel,
) -> Result<VulkanDistributedExecutionPlanSetModel, Seq<char>> {
    match built_plan(
        plans,
        PlanningContextModel {
            phase: ExecutionPhase::Decode,
            shape: ExecutionShape::SingleLane,
            ..context
        },
    ) {
        Err(message) => Err(message),
        Ok(decode) => match built_plan(
            plans,
            PlanningContextModel {
                phase: ExecutionPhase::Decode,
                shape: ExecutionShape::MultiLane,
                ..context
            },
        ) {
            Err(message) => Err(message),
            Ok(decode_batch) => match built_plan(
                plans,
                PlanningContextModel {
                    phase: ExecutionPhase::Prefill,
                    shape: ExecutionShape::MultiLane,
                    ..context
                },
            ) {
                Err(message) => Err(message),
                Ok(prefill) => if same_logical_dispatches(decode, decode_batch)
                    && same_logical_dispatches(decode, prefill) {
                    Ok(VulkanDistributedExecutionPlanSetModel { decode, decode_batch, prefill })
                } else {
                    Err(different_dispatches_text())
                },
            },
        },
    }
}

/// The context of a plan set; its phase and shape are those of the plans.
pub open spec fn plan_set_context(
    tensors: TensorIndexModel,
    manifest: VulkanPhysicalKernelArtifactManifestModel,
    pools: Map<Seq<char>, Seq<Seq<char>>>,
    edges: Seq<ComponentEdgePlacementModel>,
    offset_alignment: usize,
    resources: Option<(Seq<char>, CompiledResourceResidencyContractModel)>,
) -> PlanningContextModel {
    PlanningContextModel {
        tensors,
        manifest,
        pools,
        edges,
        offset_alignment,
        phase: ExecutionPhase::Decode,
        shape: ExecutionShape::SingleLane,
        resources,
    }
}

impl VulkanDistributedExecutionPlanSet {
    /// Plans prepared dispatches in every phase and shape.
    pub fn from_prepared_plans(
        prepared_plans: &[(&String, &VulkanPreparedDispatchPlan)],
        tensor_index: &TensorIndex,
        artifact_manifest: &VulkanPhysicalKernelArtifactManifest,
        component_device_pools: &OrderedMap<String, Vec<String>>,
        edge_placements: &[ComponentEdgePlacement],
        storage_buffer_offset_alignment: usize,
    ) -> (outcome: Result<Self, VulkanDistributedPlanError>)
        requires
            all_prepared_are_sound(prepared_plans@),
        ensures
            plan_agrees(
                outcome,
                built_plan_set(
                    prepared_plans.deep_view(),
                    plan_set_context(
                        tensor_index.deep_view(),
                        artifact_manifest.deep_view(),
                        component_device_pools.deep_view(),
                        edge_placements.deep_view(),
                        storage_buffer_offset_alignment,
                        None,
                    ),
                ),
            ),
    {
        Self::from_prepared_plans_and_resources(
            prepared_plans,
            tensor_index,
            artifact_manifest,
            component_device_pools,
            edge_placements,
            storage_buffer_offset_alignment,
            None,
        )
    }

    /// Plans prepared dispatches in every phase and shape, with the residency contract
    /// of the resources that they select.
    pub fn from_prepared_plans_with_resource_contract(
        prepared_plans: &[(&String, &VulkanPreparedDispatchPlan)],
        tensor_index: &TensorIndex,
        artifact_manifest: &VulkanPhysicalKernelArtifactManifest,
        component_device_pools: &OrderedMap<String, Vec<String>>,
        edge_placements: &[ComponentEdgePlacement],
        storage_buffer_offset_alignment: usize,
        execution_scope: &String,
        resource_contract: &CompiledResourceResidencyContract,
    ) -> (outcome: Result<Self, VulkanDistributedPlanError>)
        requires
            all_prepared_are_sound(prepared_plans@),
        ensures
            plan_agrees(
                outcome,
                built_plan_set(
                    prepared_plans.deep_view(),
                    plan_set_context(
                        tensor_index.deep_view(),
                        artifact_manifest.deep_view(),
                        component_device_pools.deep_view(),
                        edge_placements.deep_view(),
                        storage_buffer_offset_alignment,
                        Some((execution_scope@, resource_contract.deep_view())),
                    ),
                ),
            ),
    {
        Self::from_prepared_plans_and_resources(
            prepared_plans,
            tensor_index,
            artifact_manifest,
            component_device_pools,
            edge_placements,
            storage_buffer_offset_alignment,
            Some((execution_scope, resource_contract)),
        )
    }

    fn from_prepared_plans_and_resources(
        prepared_plans: &[(&String, &VulkanPreparedDispatchPlan)],
        tensor_index: &TensorIndex,
        artifact_manifest: &VulkanPhysicalKernelArtifactManifest,
        component_device_pools: &OrderedMap<String, Vec<String>>,
        edge_placements: &[ComponentEdgePlacement],
        storage_buffer_offset_alignment: usize,
        resource_context: Option<(&String, &CompiledResourceResidencyContract)>,
    ) -> (outcome: Result<Self, VulkanDistributedPlanError>)
        requires
            all_prepared_are_sound(prepared_plans@),
        ensures
            plan_agrees(
                outcome,
                built_plan_set(
                    prepared_plans.deep_view(),
                    plan_set_context(
                        tensor_index.deep_view(),
                        artifact_manifest.deep_view(),
                        component_device_pools.deep_view(),
                        edge_placements.deep_view(),
                        storage_buffer_offset_alignment,
                        resource_context.deep_view(),
                    ),
                ),
            ),
    {
        let decode =
            match VulkanDistributedExecutionPlan::from_prepared_plans_for_phase_and_resources(
            prepared_plans,
            tensor_index,
            artifact_manifest,
            component_device_pools,
            edge_placements,
            storage_buffer_offset_alignment,
            ExecutionPhase::Decode,
            ExecutionShape::SingleLane,
            resource_context,
        ) {
            Err(error) => {
                return Err(error);
            },
            Ok(plan) => plan,
        };
        let decode_batch =
            match VulkanDistributedExecutionPlan::from_prepared_plans_for_phase_and_resources(
            prepared_plans,
            tensor_index,
            artifact_manifest,
            component_device_pools,
            edge_placements,
            storage_buffer_offset_alignment,
            ExecutionPhase::Decode,
            ExecutionShape::MultiLane,
            resource_context,
        ) {
            Err(error) => {
                return Err(error);
            },
            Ok(plan) => plan,
        };
        let prefill =
            match VulkanDistributedExecutionPlan::from_prepared_plans_for_phase_and_resources(
            prepared_plans,
            tensor_index,
            artifact_manifest,
            component_device_pools,
            edge_placements,
            storage_buffer_offset_alignment,
            ExecutionPhase::Prefill,
            ExecutionShape::MultiLane,
            resource_context,
        ) {
            Err(error) => {
                return Err(error);
            },
            Ok(plan) => plan,
        };
        if !decode.replaces_same_logical_dispatches(&decode_batch)
            || !decode.replaces_same_logical_dispatches(&prefill) {
            return Err(
                VulkanDistributedPlanError(
                    "single-lane decode, multi-lane decode, and multi-lane prefill replace different logical dispatches".to_owned(),
                ),
            );
        }
        Ok(VulkanDistributedExecutionPlanSet { decode, decode_batch, prefill })
    }

    /// The plans of the set.
    pub fn all(&self) -> (plans: [&VulkanDistributedExecutionPlan; 3])
        ensures
            plans@ == seq![&self.decode, &self.decode_batch, &self.prefill],
    {
        let plans = [&self.decode, &self.decode_batch, &self.prefill];
        assert(plans@ =~= seq![&self.decode, &self.decode_batch, &self.prefill]);
        plans
    }
}

} // verus!
