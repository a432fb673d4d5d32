//! Feedback sequences, and the gates of all islands.
use vstd::prelude::*;

use crate::dispatch_runners::{
    runners_are_sound, VulkanDistributedDispatchRunnerModel, VulkanDistributedDispatchRunners,
    VulkanDistributedDispatchRunnersModel, VulkanDistributedDispatchShardRunner,
    VulkanDistributedDispatchShardRunnerModel,
};
use crate::dispatch_shards::{VulkanDistributedDispatchShard, VulkanDistributedDispatchShardModel};
use crate::errors::VulkanDistributedDispatchRunnerError;
use crate::execution_plans::{VulkanDistributedDispatchPlan, VulkanDistributedDispatchPlanModel};
use crate::islands::append_all;
use crate::runner_bindings::{
    distributed_shard_push_constants, runner_agrees, runner_fault, shard_constants,
};
use crate::runner_recovery::{flat_gates, list_flat_gates};
use crate::runner_stages::{guard_tag, VulkanDistributedStagePlace};
use crate::sequences::append;
use crate::text::{debug_text, join4, quoted};
use crate::values::PlainValue;

verus! {

/// A step of the work of a shard whose size a device reads from a command in memory.
#[derive(Debug, PartialEq, Eq)]
pub enum VulkanDistributedFeedbackStep {
    Gate { dispatch: usize, gate: usize, byte_offset: usize },
    Dispatch { dispatch: usize, push_constants: Vec<u8>, byte_offset: usize, guard: Option<u32> },
}

/// The model of [`VulkanDistributedFeedbackStep`].
pub enum VulkanDistributedFeedbackStepModel {
    Gate { dispatch: usize, gate: usize, byte_offset: usize },
    Dispatch { dispatch: usize, push_constants: Seq<u8>, byte_offset: usize, guard: Option<u32> },
}

impl DeepView for VulkanDistributedFeedbackStep {
    type V = VulkanDistributedFeedbackStepModel;

    open spec fn deep_view(&self) -> VulkanDistributedFeedbackStepModel {
        match self {
            VulkanDistributedFeedbackStep::Gate { dispatch, gate, byte_offset } =>
                VulkanDistributedFeedbackStepModel::Gate {
                    dispatch: dispatch.deep_view(),
                    gate: gate.deep_view(),
                    byte_offset: byte_offset.deep_view(),
                },
            VulkanDistributedFeedbackStep::Dispatch {
                dispatch,
                push_constants,
                byte_offset,
                guard,
            } => VulkanDistributedFeedbackStepModel::Dispatch {
                dispatch: dispatch.deep_view(),
                push_constants: push_constants.deep_view(),
                byte_offset: byte_offset.deep_view(),
                guard: guard.deep_view(),
            },
        }
    }
}

impl Clone for VulkanDistributedFeedbackStep {
    fn clone(&self) -> (copy: Self)
        ensures
            copy.deep_view() == self.deep_view(),
    {
        self.duplicate()
    }
}

impl PlainValue for VulkanDistributedFeedbackStep {
    fn duplicate(&self) -> (copy: Self) {
        match self {
            VulkanDistributedFeedbackStep::Gate { dispatch, gate, byte_offset } =>
                VulkanDistributedFeedbackStep::Gate {
                    dispatch: dispatch.duplicate(),
                    gate: gate.duplicate(),
                    byte_offset: byte_offset.duplicate(),
                },
            VulkanDistributedFeedbackStep::Dispatch {
                dispatch,
                push_constants,
                byte_offset,
                guard,
            } => VulkanDistributedFeedbackStep::Dispatch {
                dispatch: dispatch.duplicate(),
                push_constants: push_constants.duplicate(),
                byte_offset: byte_offset.duplicate(),
                guard: guard.duplicate(),
            },
        }
    }

    fn same(&self, other: &Self) -> (equal: bool) {
        match (self, other) {
            (
                VulkanDistributedFeedbackStep::Gate {
                    dispatch: left_dispatch,
                    gate: left_gate,
                    byte_offset: left_byte_offset,
                },
                VulkanDistributedFeedbackStep::Gate {
                    dispatch: right_dispatch,
                    gate: right_gate,
                    byte_offset: right_byte_offset,
                },
            ) =>
                left_dispatch.same(right_dispatch)
                    && left_gate.same(right_gate)
                    && left_byte_offset.same(right_byte_offset),
            (
                VulkanDistributedFeedbackStep::Dispatch {
                    dispatch: left_dispatch,
                    push_constants: left_push_constants,
                    byte_offset: left_byte_offset,
                    guard: left_guard,
                },
                VulkanDistributedFeedbackStep::Dispatch {
                    dispatch: right_dispatch,
                    push_constants: right_push_constants,
                    byte_offset: right_byte_offset,
                    guard: right_guard,
                },
            ) =>
                left_dispatch.same(right_dispatch)
                    && left_push_constants.same(right_push_constants)
                    && left_byte_offset.same(right_byte_offset)
                    && left_guard.same(right_guard),
            _ => false,
        }
    }
}

/// The smaller of two numbers.
pub open spec fn smaller_of(left: nat, right: nat) -> nat {
    if left <= right {
        left
    } else {
        right
    }
}

/// The gates and kernels of the first dispatches of a shard, in the order in which
/// they run.
pub open spec fn feedback_handles(
    kernels: Seq<u64>,
    gates: Seq<Seq<u64>>,
    count: nat,
) -> Seq<u64>
    decreases count,
{
    if count == 0 {
        Seq::empty()
    } else {
        (feedback_handles(kernels, gates, (count - 1) as nat) + gates[count - 1]).push(
            kernels[count - 1],
        )
    }
}

/// The gates and kernels of a shard, in the order in which they run.
pub open spec fn shard_feedback_handles(
    shard: VulkanDistributedDispatchShardRunnerModel,
) -> Seq<u64> {
    feedback_handles(
        shard.resident_dispatches,
        shard.selected_resource_gates,
        smaller_of(shard.resident_dispatches.len(), shard.selected_resource_gates.len()),
    )
}

fn list_feedback_handles(shard: &VulkanDistributedDispatchShardRunner) -> (handles: Vec<u64>)
    ensures
        handles.deep_view() == shard_feedback_handles(shard.deep_view()),
{
    let ghost kernels = shard.deep_view().resident_dispatches;
    let ghost gates = shard.deep_view().selected_resource_gates;
    let mut handles: Vec<u64> = Vec::new();
    assert(handles.deep_view() =~= Seq::empty());
    let mut index: usize = 0;
    while index < shard.resident_dispatches.len() && index < shard.selected_resource_gates.len()
        invariant
            kernels == shard.resident_dispatches.deep_view(),
            gates == shard.selected_resource_gates.deep_view(),
            index <= smaller_of(kernels.len(), gates.len()),
            handles.deep_view() == feedback_handles(kernels, gates, index as nat),
        decreases shard.resident_dispatches.len() - index,
    {
        assert(kernels[index as int] == shard.resident_dispatches@[index as int]);
        assert(gates[index as int] == shard.selected_resource_gates@[index as int].deep_view());
        append_all(&mut handles, &shard.selected_resource_gates[index]);
        append(&mut handles, shard.resident_dispatches[index]);
        index += 1;
    }
    handles
}

/// The constants of the kernels of a shard from an index on, or the text of the error.
pub open spec fn feedback_constants_from(
    planned: Seq<VulkanDistributedDispatchShardModel>,
    dispatches: Seq<VulkanDistributedDispatchPlanModel>,
    index: nat,
    constants: Seq<Seq<u8>>,
) -> Result<Seq<Seq<u8>>, Seq<char>>
    decreases planned.len() - index,
{
    if index >= planned.len() || index >= dispatches.len() {
        Ok(constants)
    } else {
        match shard_constants(dispatches[index as int], planned[index as int]) {
            Err(message) => Err(message),
            Ok(bytes) => feedback_constants_from(
                planned,
                dispatches,
                index + 1,
                constants.push(bytes),
            ),
        }
    }
}

/// The gates of a dispatch, each with its command.
pub open spec fn gate_feedback_steps(
    dispatch: nat,
    gates: Seq<u64>,
    byte_offsets: Seq<usize>,
    used: nat,
) -> Seq<VulkanDistributedFeedbackStepModel> {
    Seq::new(
        gates.len(),
        |g: int|
            VulkanDistributedFeedbackStepModel::Gate {
                dispatch: dispatch as usize,
                gate: g as usize,
                byte_offset: byte_offsets[used + g],
            },
    )
}

/// The steps of a shard from a dispatch on, behind those that have used a number of
/// commands, or the text of the error.
pub open spec fn feedback_steps_from(
    shard: VulkanDistributedDispatchShardRunnerModel,
    dispatches: Seq<VulkanDistributedDispatchPlanModel>,
    constants: Seq<Seq<u8>>,
    byte_offsets: Seq<usize>,
    index: nat,
    used: nat,
    steps: Seq<VulkanDistributedFeedbackStepModel>,
) -> Result<Seq<VulkanDistributedFeedbackStepModel>, Seq<char>>
    decreases constants.len() - index,
{
    if index >= constants.len() || index >= shard.resident_dispatches.len() || index
        >= shard.selected_resource_gates.len() {
        if used < byte_offsets.len() {
            Err("distributed feedback indirect commands exceed recorded steps"@)
        } else {
            Ok(steps)
        }
    } else {
        let gates = shard.selected_resource_gates[index as int];
        if used + gates.len() > byte_offsets.len() {
            Err("distributed feedback gate has no indirect command"@)
        } else if used + gates.len() == byte_offsets.len() {
            Err("distributed feedback dispatch has no indirect command"@)
        } else {
            feedback_steps_from(
                shard,
                dispatches,
                constants,
                byte_offsets,
                index + 1,
                used + gates.len() + 1,
                (steps + gate_feedback_steps(index, gates, byte_offsets, used)).push(
                    VulkanDistributedFeedbackStepModel::Dispatch {
                        dispatch: index as usize,
                        push_constants: constants[index as int],
                        byte_offset: byte_offsets[used + gates.len() as int],
                        guard: if flat_gates(shard.selected_resource_gates).len() > 0 {
                            Some(guard_tag(dispatches[index as int].dispatch_index))
                        } else {
                            None
                        },
                    },
                ),
            )
        }
    }
}

/// The steps of a shard with the commands that it was given, or the text of the error.
pub open spec fn feedback_steps(
    shard: VulkanDistributedDispatchShardRunnerModel,
    dispatches: Seq<VulkanDistributedDispatchPlanModel>,
    byte_offsets: Seq<usize>,
) -> Result<Seq<VulkanDistributedFeedbackStepModel>, Seq<char>> {
    match feedback_constants_from(shard.planned, dispatches, 0, Seq::empty()) {
        Err(message) => Err(message),
        Ok(constants) => feedback_steps_from(
            shard,
            dispatches,
            constants,
            byte_offsets,
            0,
            0,
            Seq::empty(),
        ),
    }
}

fn list_feedback_constants(
    planned: &Vec<VulkanDistributedDispatchShard>,
    dispatches: &Vec<VulkanDistributedDispatchPlan>,
) -> (outcome: Result<Vec<Vec<u8>>, VulkanDistributedDispatchRunnerError>)
    ensures
        runner_agrees(
            outcome,
            feedback_constants_from(planned.deep_view(), dispatches.deep_view(), 0, Seq::empty()),
        ),
        outcome is Ok ==> outcome->Ok_0.len() <= dispatches.len(),
{
    let ghost shards = planned.deep_view();
    let ghost all = dispatches.deep_view();
    let mut constants: Vec<Vec<u8>> = Vec::new();
    assert(constants.deep_view() =~= Seq::empty());
    let mut index: usize = 0;
    while index < planned.len() && index < dispatches.len()
        invariant
            shards == planned.deep_view(),
            all == dispatches.deep_view(),
            index <= dispatches.len(),
            constants.len() == index,
            feedback_constants_from(shards, all, 0, Seq::empty()) == feedback_constants_from(
                shards,
                all,
                index as nat,
                constants.deep_view(),
            ),
        decreases planned.len() - index,
    {
        assert(shards[index as int] == planned@[index as int].deep_view());
        assert(all[index as int] == dispatches@[index as int].deep_view());
        match distributed_shard_push_constants(&dispatches[index], &planned[index]) {
            Err(error) => {
                return Err(error);
            },
            Ok(bytes) => {
                append(&mut constants, bytes);
            },
        }
        index += 1;
    }
    Ok(constants)
}

/// Lists the steps of a shard with the commands that it was given.
pub fn list_feedback_steps(
    shard: &VulkanDistributedDispatchShardRunner,
    dispatches: &Vec<VulkanDistributedDispatchPlan>,
    byte_offsets: &Vec<usize>,
) -> (outcome: Result<Vec<VulkanDistributedFeedbackStep>, VulkanDistributedDispatchRunnerError>)
    ensures
        runner_agrees(
            outcome,
            feedback_steps(shard.deep_view(), dispatches.deep_view(), byte_offsets.deep_view()),
        ),
{
    let ghost model = shard.deep_view();
    let ghost all = dispatches.deep_view();
    let ghost offsets = byte_offsets.deep_view();
    let constants = match list_feedback_constants(&shard.planned, dispatches) {
        Err(error) => {
            return Err(error);
        },
        Ok(constants) => constants,
    };
    let ghost bytes = constants.deep_view();
    let flat = list_flat_gates(&shard.selected_resource_gates);
    assert(flat.len() == flat.deep_view().len());
    let mut steps: Vec<VulkanDistributedFeedbackStep> = Vec::new();
    assert(steps.deep_view() =~= Seq::empty());
    let mut used: usize = 0;
    let mut index: usize = 0;
    while index < constants.len() && index < shard.resident_dispatches.len() && index
        < shard.selected_resource_gates.len()
        invariant
            model == shard.deep_view(),
            all == dispatches.deep_view(),
            offsets == byte_offsets.deep_view(),
            bytes == constants.deep_view(),
            constants.len() <= dispatches.len(),
            flat.len() == flat_gates(model.selected_resource_gates).len(),
            used <= byte_offsets.len(),
            feedback_steps(model, all, offsets) == feedback_steps_from(
                model,
                all,
                bytes,
                offsets,
                index as nat,
                used as nat,
                steps.deep_view(),
            ),
        decreases constants.len() - index,
    {
        let gates = &shard.selected_resource_gates[index];
        assert(model.selected_resource_gates[index as int] == gates.deep_view());
        assert(bytes[index as int] == constants@[index as int].deep_view());
        assert(all[index as int] == dispatches@[index as int].deep_view());
        let left: usize = byte_offsets.len() - used;
        if gates.len() > left {
            return runner_fault("distributed feedback gate has no indirect command".to_owned());
        }
        if gates.len() == left {
            return runner_fault("distributed feedback dispatch has no indirect command".to_owned());
        }
        let ghost before = steps.deep_view();
        let ghost own = gate_feedback_steps(index as nat, gates.deep_view(), offsets, used as nat);
        assert(steps.deep_view() =~= before + own.take(0));
        for g in 0..gates.len()
            invariant
                offsets == byte_offsets.deep_view(),
                used + gates.len() < byte_offsets.len(),
                own == gate_feedback_steps(
                    index as nat,
                    gates.deep_view(),
                    offsets,
                    used as nat,
                ),
                steps.deep_view() == before + own.take(g as int),
        {
            assert(offsets[used + g] == byte_offsets@[used + g]);
            append(
                &mut steps,
                VulkanDistributedFeedbackStep::Gate {
                    dispatch: index,
                    gate: g,
                    byte_offset: byte_offsets[used + g],
                },
            );
            assert(steps.deep_view() =~= before + own.take(g as int + 1));
        }
        assert(own.take(own.len() as int) =~= own);
        assert(offsets[used + gates.len()] == byte_offsets@[used + gates.len()]);
        let guard: Option<u32> = if flat.len() > 0 {
            if dispatches[index].dispatch_index > u32::MAX as usize {
                Some(u32::MAX)
            } else {
                Some(dispatches[index].dispatch_index as u32)
            }
        } else {
            None
        };
        append(
            &mut steps,
            VulkanDistributedFeedbackStep::Dispatch {
                dispatch: index,
                push_constants: constants[index].duplicate(),
                byte_offset: byte_offsets[used + gates.len()],
                guard,
            },
        );
        used = used + gates.len() + 1;
        index += 1;
    }
    if used < byte_offsets.len() {
        return runner_fault(
            "distributed feedback indirect commands exceed recorded steps".to_owned(),
        );
    }
    Ok(steps)
}

/// The place of a shard of an island.
pub open spec fn feedback_place(island: int, shard: int) -> VulkanDistributedStagePlace {
    VulkanDistributedStagePlace { island: island as usize, shard: shard as usize, dispatch: 0 }
}

/// Finding a device gave an outcome and left the devices so.
pub open spec fn device_gave<D, F: Fn(D, &String) -> (D, Result<(), String>)>(
    resolve: F,
    from: D,
    device_id: Seq<char>,
    to: D,
    outcome: Result<(), String>,
) -> bool {
    exists|device: &String|
        device@ == device_id && #[trigger] call_ensures(resolve, (from, device), (to, outcome))
}

/// Registering the kernels and gates of a shard gave an outcome and left the devices so.
pub open spec fn register_gave<
    D,
    G: Fn(D, VulkanDistributedStagePlace, &String, &Vec<u64>) -> (D, Result<Vec<usize>, String>),
>(
    register: G,
    from: D,
    place: VulkanDistributedStagePlace,
    device_id: Seq<char>,
    handles: Seq<u64>,
    to: D,
    outcome: Result<Vec<usize>, String>,
) -> bool {
    exists|device: &String, registered: &Vec<u64>|
        device@ == device_id && registered.deep_view() == handles && #[trigger] call_ensures(
            register,
            (from, place, device, registered),
            (to, outcome),
        )
}

/// Recording the steps of a shard, made of its kernels and gates, gave an outcome and left
/// the devices so.
pub open spec fn record_gave<
    D,
    R: Fn(
        D,
        VulkanDistributedStagePlace,
        &String,
        &Vec<u64>,
        &Vec<VulkanDistributedFeedbackStep>,
    ) -> (D, Result<u64, String>),
>(
    record: R,
    from: D,
    place: VulkanDistributedStagePlace,
    device_id: Seq<char>,
    handles: Seq<u64>,
    steps: Seq<VulkanDistributedFeedbackStepModel>,
    to: D,
    outcome: Result<u64, String>,
) -> bool {
    exists|device: &String, registered: &Vec<u64>, recorded: &Vec<VulkanDistributedFeedbackStep>|
        device@ == device_id && registered.deep_view() == handles && recorded.deep_view() == steps
            && #[trigger] call_ensures(
            record,
            (from, place, device, registered, recorded),
            (to, outcome),
        )
}

/// The device of a shard was found, and registering its kernels and gates gave these
/// commands.
pub open spec fn commands_were_given<
    D,
    F: Fn(D, &String) -> (D, Result<(), String>),
    G: Fn(D, VulkanDistributedStagePlace, &String, &Vec<u64>) -> (D, Result<Vec<usize>, String>),
>(
    resolve: F,
    register: G,
    place: VulkanDistributedStagePlace,
    shard: VulkanDistributedDispatchShardRunnerModel,
    byte_offsets: Vec<usize>,
    from: D,
    to: D,
) -> bool {
    exists|at: D| #[trigger]
        device_gave(resolve, from, shard.device_id, at, Ok::<(), String>(())) && register_gave(
            register,
            at,
            place,
            shard.device_id,
            shard_feedback_handles(shard),
            to,
            Ok::<Vec<usize>, String>(byte_offsets),
        )
}

/// A device may be asked to prepare a shard: it is found, then the kernels and gates of
/// the shard are registered, then the steps for the commands that came back are recorded.
pub open spec fn can_prepare<
    D,
    F: Fn(D, &String) -> (D, Result<(), String>),
    G: Fn(D, VulkanDistributedStagePlace, &String, &Vec<u64>) -> (D, Result<Vec<usize>, String>),
    R: Fn(
        D,
        VulkanDistributedStagePlace,
        &String,
        &Vec<u64>,
        &Vec<VulkanDistributedFeedbackStep>,
    ) -> (D, Result<u64, String>),
>(
    resolve: F,
    register: G,
    record: R,
    place: VulkanDistributedStagePlace,
    shard: VulkanDistributedDispatchShardRunnerModel,
    dispatches: Seq<VulkanDistributedDispatchPlanModel>,
    from: D,
) -> bool {
    let handles = shard_feedback_handles(shard);
    &&& forall|device: &String|
        device@ == shard.device_id ==> #[trigger] call_requires(resolve, (from, device))
    &&& forall|at: D, device: &String, registered: &Vec<u64>|
        #![trigger device_gave(resolve, from, shard.device_id, at, Ok::<(), String>(())), call_requires(register, (at, place, device, registered))]
        device_gave(resolve, from, shard.device_id, at, Ok::<(), String>(())) && device@
            == shard.device_id && registered.deep_view() == handles ==> call_requires(
            register,
            (at, place, device, registered),
        )
    &&& forall|
        byte_offsets: Vec<usize>,
        at: D,
        device: &String,
        registered: &Vec<u64>,
        recorded: &Vec<VulkanDistributedFeedbackStep>,
    |
        #![trigger commands_were_given(resolve, register, place, shard, byte_offsets, from, at), call_requires(record, (at, place, device, registered, recorded))]
        commands_were_given(resolve, register, place, shard, byte_offsets, from, at) && device@
            == shard.device_id && registered.deep_view() == handles && feedback_steps(
            shard,
            dispatches,
            byte_offsets.deep_view(),
        ) == Ok::<Seq<VulkanDistributedFeedbackStepModel>, Seq<char>>(recorded.deep_view())
            ==> call_requires(record, (at, place, device, registered, recorded))
}

/// Why a shard was not prepared: its device was not found, its kernels and gates could not
/// be registered, its steps could not be planned, or could not be recorded.
pub open spec fn preparing_failed<
    D,
    F: Fn(D, &String) -> (D, Result<(), String>),
    G: Fn(D, VulkanDistributedStagePlace, &String, &Vec<u64>) -> (D, Result<Vec<usize>, String>),
    R: Fn(
        D,
        VulkanDistributedStagePlace,
        &String,
        &Vec<u64>,
        &Vec<VulkanDistributedFeedbackStep>,
    ) -> (D, Result<u64, String>),
>(
    resolve: F,
    register: G,
    record: R,
    place: VulkanDistributedStagePlace,
    shard: VulkanDistributedDispatchShardRunnerModel,
    dispatches: Seq<VulkanDistributedDispatchPlanModel>,
    text: Seq<char>,
    from: D,
    to: D,
) -> bool {
    let handles = shard_feedback_handles(shard);
    ||| exists|reason: String| #[trigger]
        device_gave(resolve, from, shard.device_id, to, Err::<(), String>(reason)) && text
            == "failed to resolve feedback shard device "@ + debug_text(shard.device_id) + ": "@
            + reason@
    ||| exists|at: D, reason: String| #[trigger]
        register_gave(
            register,
            at,
            place,
            shard.device_id,
            handles,
            to,
            Err::<Vec<usize>, String>(reason),
        ) && device_gave(resolve, from, shard.device_id, at, Ok::<(), String>(())) && text
            == reason@
    ||| exists|byte_offsets: Vec<usize>| #[trigger]
        commands_were_given(resolve, register, place, shard, byte_offsets, from, to)
            && feedback_steps(shard, dispatches, byte_offsets.deep_view()) == Err::<
            Seq<VulkanDistributedFeedbackStepModel>,
            Seq<char>,
        >(text)
    ||| exists|byte_offsets: Vec<usize>, at: D, reason: String|
        #![trigger commands_were_given(resolve, register, place, shard, byte_offsets, from, at), reason@]
        commands_were_given(resolve, register, place, shard, byte_offsets, from, at)
            && feedback_steps(shard, dispatches, byte_offsets.deep_view()) is Ok && record_gave(
            record,
            at,
            place,
            shard.device_id,
            handles,
            feedback_steps(shard, dispatches, byte_offsets.deep_view())->Ok_0,
            to,
            Err::<u64, String>(reason),
        ) && text == reason@
}

/// A shard was prepared: its device was found, its kernels and gates were registered, and
/// recording the steps for the commands that came back gave a sequence.
pub open spec fn preparing_gave<
    D,
    F: Fn(D, &String) -> (D, Result<(), String>),
    G: Fn(D, VulkanDistributedStagePlace, &String, &Vec<u64>) -> (D, Result<Vec<usize>, String>),
    R: Fn(
        D,
        VulkanDistributedStagePlace,
        &String,
        &Vec<u64>,
        &Vec<VulkanDistributedFeedbackStep>,
    ) -> (D, Result<u64, String>),
>(
    resolve: F,
    register: G,
    record: R,
    place: VulkanDistributedStagePlace,
    shard: VulkanDistributedDispatchShardRunnerModel,
    dispatches: Seq<VulkanDistributedDispatchPlanModel>,
    sequence: u64,
    from: D,
    to: D,
) -> bool {
    exists|byte_offsets: Vec<usize>, at: D| #[trigger]
        commands_were_given(resolve, register, place, shard, byte_offsets, from, at)
            && feedback_steps(shard, dispatches, byte_offsets.deep_view()) is Ok && record_gave(
            record,
            at,
            place,
            shard.device_id,
            shard_feedback_handles(shard),
            feedback_steps(shard, dispatches, byte_offsets.deep_view())->Ok_0,
            to,
            Ok::<u64, String>(sequence),
        )
}

fn prepare_feedback<
    D,
    F: Fn(D, &String) -> (D, Result<(), String>),
    G: Fn(D, VulkanDistributedStagePlace, &String, &Vec<u64>) -> (D, Result<Vec<usize>, String>),
    R: Fn(
        D,
        VulkanDistributedStagePlace,
        &String,
        &Vec<u64>,
        &Vec<VulkanDistributedFeedbackStep>,
    ) -> (D, Result<u64, String>),
>(
    place: VulkanDistributedStagePlace,
    shard: &VulkanDistributedDispatchShardRunner,
    dispatches: &Vec<VulkanDistributedDispatchPlan>,
    devices: D,
    resolve: &F,
    register: &G,
    record: &R,
) -> (result: (Result<u64, VulkanDistributedDispatchRunnerError>, D))
    requires
        can_prepare(
            *resolve,
            *register,
            *record,
            place,
            shard.deep_view(),
            dispatches.deep_view(),
            devices,
        ),
    ensures
        match result.0 {
            Ok(sequence) => preparing_gave(
                *resolve,
                *register,
                *record,
                place,
                shard.deep_view(),
                dispatches.deep_view(),
                sequence,
                devices,
                result.1,
            ),
            Err(error) => preparing_failed(
                *resolve,
                *register,
                *record,
                place,
                shard.deep_view(),
                dispatches.deep_view(),
                error.0@,
                devices,
                result.1,
            ),
        },
{
    let ghost model = shard.deep_view();
    let ghost from = devices;
    let (resolved, found) = resolve(devices, &shard.device_id);
    let ghost found_at = resolved;
    assert(call_ensures(*resolve, (from, &shard.device_id), (found_at, found)));
    assert(device_gave(*resolve, from, model.device_id, found_at, found));
    match found {
        Err(reason) => {
            assert(device_gave(
                *resolve,
                from,
                model.device_id,
                found_at,
                Err::<(), String>(reason),
            ));
            return (
                runner_fault(
                    join4(
                        "failed to resolve feedback shard device ",
                        quoted(shard.device_id.as_str()).as_str(),
                        ": ",
                        reason.as_str(),
                    ),
                ),
                resolved,
            );
        },
        Ok(unit) => {
            assert(unit == ());
        },
    }
    assert(device_gave(*resolve, from, model.device_id, found_at, Ok::<(), String>(())));
    let handles = list_feedback_handles(shard);
    let (enrolled, registered) = register(resolved, place, &shard.device_id, &handles);
    let ghost registered_at = enrolled;
    assert(call_ensures(
        *register,
        (found_at, place, &shard.device_id, &handles),
        (registered_at, registered),
    ));
    assert(register_gave(
        *register,
        found_at,
        place,
        model.device_id,
        shard_feedback_handles(model),
        registered_at,
        registered,
    ));
    let byte_offsets = match registered {
        Err(reason) => {
            assert(register_gave(
                *register,
                found_at,
                place,
                model.device_id,
                shard_feedback_handles(model),
                registered_at,
                Err::<Vec<usize>, String>(reason),
            ));
            return (Err(VulkanDistributedDispatchRunnerError(reason)), enrolled);
        },
        Ok(byte_offsets) => byte_offsets,
    };
    assert(commands_were_given(
        *resolve,
        *register,
        place,
        model,
        byte_offsets,
        from,
        registered_at,
    ));
    let steps = match list_feedback_steps(shard, dispatches, &byte_offsets) {
        Err(error) => {
            return (Err(error), enrolled);
        },
        Ok(steps) => steps,
    };
    let (left, recorded) = record(enrolled, place, &shard.device_id, &handles, &steps);
    assert(call_ensures(
        *record,
        (registered_at, place, &shard.device_id, &handles, &steps),
        (left, recorded),
    ));
    assert(record_gave(
        *record,
        registered_at,
        place,
        model.device_id,
        shard_feedback_handles(model),
        steps.deep_view(),
        left,
        recorded,
    ));
    match recorded {
        Err(reason) => {
            let failed: Result<u64, VulkanDistributedDispatchRunnerError> = Err(
                VulkanDistributedDispatchRunnerError(reason),
            );
            assert(failed->Err_0.0@ == reason@);
            (failed, left)
        },
        Ok(sequence) => (Ok(sequence), left),
    }
}

/// The shard stands before the place at which preparing stopped.
pub open spec fn stands_before(island: int, shard: int, stop: (int, int)) -> bool {
    island < stop.0 || (island == stop.0 && shard < stop.1)
}

/// The shards before a place have feedback sequences, and everything else is as it was.
pub open spec fn prepared_up_to(
    before: VulkanDistributedDispatchRunnersModel,
    after: VulkanDistributedDispatchRunnersModel,
    stop: (int, int),
) -> bool {
    &&& after.dispatch_count == before.dispatch_count
    &&& after.shard_count == before.shard_count
    &&& after.transaction_predicates == before.transaction_predicates
    &&& after.dispatches.len() == before.dispatches.len()
    &&& forall|i: int|
        0 <= i < before.dispatches.len() ==> (#[trigger] after.dispatches[i]) == (
        VulkanDistributedDispatchRunnerModel {
            shards: after.dispatches[i].shards,
            ..before.dispatches[i]
        }) && after.dispatches[i].shards.len() == before.dispatches[i].shards.len()
    &&& forall|i: int, s: int|
        #![trigger after.dispatches[i].shards[s]]
        0 <= i < before.dispatches.len() && 0 <= s < before.dispatches[i].shards.len()
            ==> shard_prepared(
            before.dispatches[i].shards[s],
            after.dispatches[i].shards[s],
            stands_before(i, s, stop),
        )
}

/// The shard has a feedback sequence, or is as it was.
pub open spec fn shard_prepared(
    before: VulkanDistributedDispatchShardRunnerModel,
    after: VulkanDistributedDispatchShardRunnerModel,
    prepared: bool,
) -> bool {
    if prepared {
        &&& after.feedback_sequence is Some
        &&& after == (VulkanDistributedDispatchShardRunnerModel {
            feedback_sequence: after.feedback_sequence,
            ..before
        })
    } else {
        after == before
    }
}

/// The shards before a place were prepared by their devices, one after the other, and
/// hold the sequences that came back.
pub open spec fn prepared_in_turn<
    D,
    F: Fn(D, &String) -> (D, Result<(), String>),
    G: Fn(D, VulkanDistributedStagePlace, &String, &Vec<u64>) -> (D, Result<Vec<usize>, String>),
    R: Fn(
        D,
        VulkanDistributedStagePlace,
        &String,
        &Vec<u64>,
        &Vec<VulkanDistributedFeedbackStep>,
    ) -> (D, Result<u64, String>),
>(
    resolve: F,
    register: G,
    record: R,
    before: VulkanDistributedDispatchRunnersModel,
    after: VulkanDistributedDispatchRunnersModel,
    island: nat,
    shard: nat,
    from: D,
    to: D,
) -> bool
    decreases island, shard,
{
    if shard > 0 {
        exists|at: D| #[trigger]
            preparing_gave(
                resolve,
                register,
                record,
                feedback_place(island as int, shard - 1),
                before.dispatches[island as int].shards[shard - 1],
                before.dispatches[island as int].planned.dispatches,
                after.dispatches[island as int].shards[shard - 1].feedback_sequence->0,
                at,
                to,
            ) && prepared_in_turn(
                resolve,
                register,
                record,
                before,
                after,
                island,
                (shard - 1) as nat,
                from,
                at,
            )
    } else if island > 0 {
        prepared_in_turn(
            resolve,
            register,
            record,
            before,
            after,
            (island - 1) as nat,
            before.dispatches[island - 1].shards.len(),
            from,
            to,
        )
    } else {
        from == to
    }
}

/// Preparing one more shard leaves the earlier ones as they are.
proof fn lemma_prepared_stay<
    D,
    F: Fn(D, &String) -> (D, Result<(), String>),
    G: Fn(D, VulkanDistributedStagePlace, &String, &Vec<u64>) -> (D, Result<Vec<usize>, String>),
    R: Fn(
        D,
        VulkanDistributedStagePlace,
        &String,
        &Vec<u64>,
        &Vec<VulkanDistributedFeedbackStep>,
    ) -> (D, Result<u64, String>),
>(
    resolve: F,
    register: G,
    record: R,
    before: VulkanDistributedDispatchRunnersModel,
    after: VulkanDistributedDispatchRunnersModel,
    later: VulkanDistributedDispatchRunnersModel,
    island: nat,
    shard: nat,
    from: D,
    to: D,
)
    requires
        prepared_in_turn(resolve, register, record, before, after, island, shard, from, to),
        forall|i: int, s: int|
            #![trigger later.dispatches[i].shards[s]]
            0 <= i && 0 <= s && stands_before(i, s, (island as int, shard as int))
                ==> later.dispatches[i].shards[s] == after.dispatches[i].shards[s]
                || (i < island && s >= before.dispatches[i].shards.len()),
    ensures
        prepared_in_turn(resolve, register, record, before, later, island, shard, from, to),
    decreases island, shard,
{
    if shard > 0 {
        let at = choose|at: D| #[trigger]
            preparing_gave(
                resolve,
                register,
                record,
                feedback_place(island as int, shard - 1),
                before.dispatches[island as int].shards[shard - 1],
                before.dispatches[island as int].planned.dispatches,
                after.dispatches[island as int].shards[shard - 1].feedback_sequence->0,
                at,
                to,
            ) && prepared_in_turn(
                resolve,
                register,
                record,
                before,
                after,
                island,
                (shard - 1) as nat,
                from,
                at,
            );
        lemma_prepared_stay(
            resolve,
            register,
            record,
            before,
            after,
            later,
            island,
            (shard - 1) as nat,
            from,
            at,
        );
        assert(later.dispatches[island as int].shards[shard - 1]
            == after.dispatches[island as int].shards[shard - 1]);
    } else if island > 0 {
        lemma_prepared_stay(
            resolve,
            register,
            record,
            before,
            after,
            later,
            (island - 1) as nat,
            before.dispatches[island - 1].shards.len(),
            from,
            to,
        );
    }
}

/// The shards before a place are prepared, and everything else is as it was.
pub open spec fn were_prepared<
    D,
    F: Fn(D, &String) -> (D, Result<(), String>),
    G: Fn(D, VulkanDistributedStagePlace, &String, &Vec<u64>) -> (D, Result<Vec<usize>, String>),
    R: Fn(
        D,
        VulkanDistributedStagePlace,
        &String,
        &Vec<u64>,
        &Vec<VulkanDistributedFeedbackStep>,
    ) -> (D, Result<u64, String>),
>(
    resolve: F,
    register: G,
    record: R,
    before: VulkanDistributedDispatchRunnersModel,
    after: VulkanDistributedDispatchRunnersModel,
    stop: (int, int),
    from: D,
    to: D,
) -> bool {
    prepared_up_to(before, after, stop) && prepared_in_turn(
        resolve,
        register,
        record,
        before,
        after,
        stop.0 as nat,
        stop.1 as nat,
        from,
        to,
    )
}

/// What preparing the feedback sequences of all shards comes to: all are prepared, or
/// those before the first shard that failed.
pub open spec fn configuration_gave<
    D,
    F: Fn(D, &String) -> (D, Result<(), String>),
    G: Fn(D, VulkanDistributedStagePlace, &String, &Vec<u64>) -> (D, Result<Vec<usize>, String>),
    R: Fn(
        D,
        VulkanDistributedStagePlace,
        &String,
        &Vec<u64>,
        &Vec<VulkanDistributedFeedbackStep>,
    ) -> (D, Result<u64, String>),
>(
    resolve: F,
    register: G,
    record: R,
    before: VulkanDistributedDispatchRunnersModel,
    after: VulkanDistributedDispatchRunnersModel,
    outcome: Result<(), VulkanDistributedDispatchRunnerError>,
    from: D,
    to: D,
) -> bool {
    match outcome {
        Ok(_) => were_prepared(
            resolve,
            register,
            record,
            before,
            after,
            (before.dispatches.len() as int, 0),
            from,
            to,
        ),
        Err(error) => exists|i: int, s: int, at: D|
            0 <= i < before.dispatches.len() && 0 <= s < before.dispatches[i].shards.len()
                && #[trigger] were_prepared(
                resolve,
                register,
                record,
                before,
                after,
                (i, s),
                from,
                at,
            ) && preparing_failed(
                resolve,
                register,
                record,
                feedback_place(i, s),
                before.dispatches[i].shards[s],
                before.dispatches[i].planned.dispatches,
                error.0@,
                at,
                to,
            ),
    }
}

/// Devices may be asked to prepare the shards in turn: each once those before it are
/// prepared. Nothing else is asked of them.
pub open spec fn shards_can_be_prepared<
    D,
    F: Fn(D, &String) -> (D, Result<(), String>),
    G: Fn(D, VulkanDistributedStagePlace, &String, &Vec<u64>) -> (D, Result<Vec<usize>, String>),
    R: Fn(
        D,
        VulkanDistributedStagePlace,
        &String,
        &Vec<u64>,
        &Vec<VulkanDistributedFeedbackStep>,
    ) -> (D, Result<u64, String>),
>(
    resolve: F,
    register: G,
    record: R,
    before: VulkanDistributedDispatchRunnersModel,
    from: D,
) -> bool {
    forall|after: VulkanDistributedDispatchRunnersModel, i: int, s: int, at: D| #[trigger]
        were_prepared(resolve, register, record, before, after, (i, s), from, at) && 0 <= i
            < before.dispatches.len() && 0 <= s < before.dispatches[i].shards.len() ==> can_prepare(
            resolve,
            register,
            record,
            feedback_place(i, s),
            before.dispatches[i].shards[s],
            before.dispatches[i].planned.dispatches,
            at,
        )
}

impl VulkanDistributedDispatchRunners {
    /// Prepares the feedback sequence of every shard of every island.
    pub fn configure_feedback_indirect_dispatches<
        D,
        F: Fn(D, &String) -> (D, Result<(), String>),
        G: Fn(D, VulkanDistributedStagePlace, &String, &Vec<u64>) -> (
            D,
            Result<Vec<usize>, String>,
        ),
        R: Fn(
            D,
            VulkanDistributedStagePlace,
            &String,
            &Vec<u64>,
            &Vec<VulkanDistributedFeedbackStep>,
        ) -> (D, Result<u64, String>),
    >(&mut self, devices: D, resolve: &F, register: &G, record: &R) -> (result: (
        Result<(), VulkanDistributedDispatchRunnerError>,
        D,
    ))
        requires
            shards_can_be_prepared(
                *resolve,
                *register,
                *record,
                old(self).deep_view(),
                devices,
            ),
        ensures
            configuration_gave(
                *resolve,
                *register,
                *record,
                old(self).deep_view(),
                final(self).deep_view(),
                result.0,
                devices,
                result.1,
            ),
    {
        let ghost before = self.deep_view();
        let ghost from = devices;
        let mut current = devices;
        let count: usize = self.dispatches.len();
        for i in 0..count
            invariant
                shards_can_be_prepared(*resolve, *register, *record, before, from),
                from == devices,
                before == old(self).deep_view(),
                count == before.dispatches.len(),
                count == self.dispatches.len(),
                were_prepared(
                    *resolve,
                    *register,
                    *record,
                    before,
                    self.deep_view(),
                    (i as int, 0),
                    from,
                    current,
                ),
        {
            let shard_count: usize = self.dispatches[i].shards.len();
            assert(self.deep_view().dispatches[i as int]
                == self.dispatches@[i as int].deep_view());
            for s in 0..shard_count
                invariant
                    shards_can_be_prepared(*resolve, *register, *record, before, from),
                    from == devices,
                    before == old(self).deep_view(),
                    i < count,
                    count == before.dispatches.len(),
                    count == self.dispatches.len(),
                    shard_count == self.dispatches@[i as int].shards.len(),
                    shard_count == before.dispatches[i as int].shards.len(),
                    were_prepared(
                        *resolve,
                        *register,
                        *record,
                        before,
                        self.deep_view(),
                        (i as int, s as int),
                        from,
                        current,
                    ),
            {
                let ghost earlier = self.deep_view();
                let ghost at = current;
                assert(earlier.dispatches[i as int] == self.dispatches@[i as int].deep_view());
                let runner = &self.dispatches[i];
                assert(earlier.dispatches[i as int].shards[s as int]
                    == runner.shards@[s as int].deep_view());
                assert(shard_prepared(
                    before.dispatches[i as int].shards[s as int],
                    earlier.dispatches[i as int].shards[s as int],
                    stands_before(i as int, s as int, (i as int, s as int)),
                ));
                let ghost own = before.dispatches[i as int].shards[s as int];
                let (prepared, left) = prepare_feedback(
                    VulkanDistributedStagePlace { island: i, shard: s, dispatch: 0 },
                    &runner.shards[s],
                    &runner.planned.dispatches,
                    current,
                    resolve,
                    register,
                    record,
                );
                current = left;
                match prepared {
                    Err(error) => {
                        assert(were_prepared(
                            *resolve,
                            *register,
                            *record,
                            before,
                            self.deep_view(),
                            (i as int, s as int),
                            from,
                            at,
                        ));
                        return (Err(error), current);
                    },
                    Ok(sequence) => {
                        self.dispatches[i].shards[s].feedback_sequence = Some(sequence);
                        proof {
                            let now = self.deep_view();
                            let changed = VulkanDistributedDispatchShardRunnerModel {
                                feedback_sequence: Some(sequence),
                                ..own
                            };
                            assert(now.dispatches[i as int].shards
                                =~= earlier.dispatches[i as int].shards.update(
                                s as int,
                                changed,
                            ));
                            assert forall|j: int| 0 <= j < before.dispatches.len() implies (
                            #[trigger] now.dispatches[j]) == (
                            VulkanDistributedDispatchRunnerModel {
                                shards: now.dispatches[j].shards,
                                ..before.dispatches[j]
                            }) && now.dispatches[j].shards.len()
                                == before.dispatches[j].shards.len() by {
                                assert(earlier.dispatches[j] == (
                                VulkanDistributedDispatchRunnerModel {
                                    shards: earlier.dispatches[j].shards,
                                    ..before.dispatches[j]
                                }));
                                if j != i {
                                    assert(now.dispatches[j] == earlier.dispatches[j]);
                                }
                            }
                            assert forall|j: int, t: int|
                                #![trigger now.dispatches[j].shards[t]]
                                0 <= j < before.dispatches.len() && 0 <= t
                                    < before.dispatches[j].shards.len() implies shard_prepared(
                                before.dispatches[j].shards[t],
                                now.dispatches[j].shards[t],
                                stands_before(j, t, (i as int, s as int + 1)),
                            ) by {
                                assert(shard_prepared(
                                    before.dispatches[j].shards[t],
                                    earlier.dispatches[j].shards[t],
                                    stands_before(j, t, (i as int, s as int)),
                                ));
                                if j != i {
                                    assert(now.dispatches[j] == earlier.dispatches[j]);
                                } else if t != s {
                                    assert(now.dispatches[j].shards[t]
                                        == earlier.dispatches[j].shards[t]);
                                } else {
                                    assert(now.dispatches[j].shards[t] == changed);
                                }
                            }
                            assert forall|j: int, t: int|
                                #![trigger now.dispatches[j].shards[t]]
                                0 <= j && 0 <= t && stands_before(
                                    j,
                                    t,
                                    (i as int, s as int),
                                ) implies now.dispatches[j].shards[t]
                                == earlier.dispatches[j].shards[t] || (j < i && t
                                >= before.dispatches[j].shards.len()) by {
                                if j != i {
                                    assert(now.dispatches[j] == earlier.dispatches[j]);
                                }
                            }
                            lemma_prepared_stay(
                                *resolve,
                                *register,
                                *record,
                                before,
                                earlier,
                                now,
                                i as nat,
                                s as nat,
                                from,
                                at,
                            );
                            let next = (s + 1) as nat;
                            assert(now.dispatches[i as int].shards[next - 1] == changed);
                            assert(preparing_gave(
                                *resolve,
                                *register,
                                *record,
                                feedback_place(i as nat as int, next - 1),
                                before.dispatches[i as nat as int].shards[next - 1],
                                before.dispatches[i as nat as int].planned.dispatches,
                                now.dispatches[i as nat as int].shards[next
                                    - 1].feedback_sequence->0,
                                at,
                                current,
                            ));
                            assert(prepared_in_turn(
                                *resolve,
                                *register,
                                *record,
                                before,
                                now,
                                i as nat,
                                next,
                                from,
                                current,
                            ));
                        }
                    },
                }
            }
            proof {
                let now = self.deep_view();
                assert forall|j: int, t: int|
                    #![trigger now.dispatches[j].shards[t]]
                    0 <= j < before.dispatches.len() && 0 <= t < before.dispatches[j].shards.len()
                    implies shard_prepared(
                    before.dispatches[j].shards[t],
                    now.dispatches[j].shards[t],
                    stands_before(j, t, (i as int + 1, 0)),
                ) by {
                    assert(stands_before(j, t, (i as int + 1, 0)) == stands_before(
                        j,
                        t,
                        (i as int, shard_count as int),
                    ));
                }
                let following = (i + 1) as nat;
                assert(prepared_in_turn(
                    *resolve,
                    *register,
                    *record,
                    before,
                    now,
                    (following - 1) as nat,
                    before.dispatches[following - 1].shards.len(),
                    from,
                    current,
                ));
            }
        }
        (Ok(()), current)
    }
}

/// The gates of all shards of a runner.
pub open spec fn runner_gates(shards: Seq<VulkanDistributedDispatchShardRunnerModel>) -> Seq<u64>
    decreases shards.len(),
{
    if shards.len() == 0 {
        Seq::empty()
    } else {
        runner_gates(shards.drop_last()) + flat_gates(shards.last().selected_resource_gates)
    }
}

/// The gates of all runners.
pub open spec fn all_gates(runners: Seq<VulkanDistributedDispatchRunnerModel>) -> Seq<u64>
    decreases runners.len(),
{
    if runners.len() == 0 {
        Seq::empty()
    } else {
        all_gates(runners.drop_last()) + runner_gates(runners.last().shards)
    }
}

fn list_runner_gates(shards: &Vec<VulkanDistributedDispatchShardRunner>) -> (gates: Vec<u64>)
    ensures
        gates.deep_view() == runner_gates(shards.deep_view()),
{
    let ghost all = shards.deep_view();
    let mut gates: Vec<u64> = Vec::new();
    assert(gates.deep_view() =~= runner_gates(all.take(0)));
    for index in 0..shards.len()
        invariant
            all == shards.deep_view(),
            gates.deep_view() == runner_gates(all.take(index as int)),
    {
        assert(all[index as int] == shards@[index as int].deep_view());
        assert(all.take(index as int + 1).drop_last() =~= all.take(index as int));
        append_all(&mut gates, &list_flat_gates(&shards[index].selected_resource_gates));
    }
    assert(all.take(all.len() as int) =~= all);
    gates
}

/// The first gates were reset, one after the other.
pub open spec fn were_reset<D, Z: Fn(D, u64) -> (D, Result<(), String>)>(
    reset: Z,
    gates: Seq<u64>,
    count: nat,
    from: D,
    to: D,
) -> bool
    decreases count,
{
    if count == 0 {
        from == to
    } else {
        exists|at: D| #[trigger]
            call_ensures(reset, (at, gates[count - 1]), (to, Ok::<(), String>(())))
                && were_reset(reset, gates, (count - 1) as nat, from, at)
    }
}

/// The gates may be reset in turn: each once those before it were. Nothing else is reset.
pub open spec fn gates_can_be_reset<D, Z: Fn(D, u64) -> (D, Result<(), String>)>(
    reset: Z,
    gates: Seq<u64>,
    from: D,
) -> bool {
    forall|count: nat, at: D| #[trigger]
        were_reset(reset, gates, count, from, at) && count < gates.len() ==> call_requires(
            reset,
            (at, gates[count as int]),
        )
}

/// Resetting gates in turn: all of them, or up to the first failure.
pub open spec fn resets_gave<D, Z: Fn(D, u64) -> (D, Result<(), String>)>(
    reset: Z,
    gates: Seq<u64>,
    outcome: Result<(), VulkanDistributedDispatchRunnerError>,
    from: D,
    to: D,
) -> bool {
    match outcome {
        Ok(_) => were_reset(reset, gates, gates.len(), from, to),
        Err(error) => exists|count: nat, at: D|
            count < gates.len() && #[trigger] were_reset(reset, gates, count, from, at)
                && call_ensures(
                reset,
                (at, gates[count as int]),
                (to, Err::<(), String>(error.0)),
            ),
    }
}

/// The first gates have no news. They were asked one after the other.
pub open spec fn have_no_news<D, Q: Fn(D, u64) -> (D, Result<bool, String>)>(
    pending: Q,
    gates: Seq<u64>,
    count: nat,
    from: D,
    to: D,
) -> bool
    decreases count,
{
    if count == 0 {
        from == to
    } else {
        exists|at: D| #[trigger]
            call_ensures(pending, (at, gates[count - 1]), (to, Ok::<bool, String>(false)))
                && have_no_news(pending, gates, (count - 1) as nat, from, at)
    }
}

/// The gates of a runner may be asked for news: each once those before it have none.
pub open spec fn gates_can_be_asked_for_news<D, Q: Fn(D, u64) -> (D, Result<bool, String>)>(
    pending: Q,
    gates: Seq<u64>,
    from: D,
) -> bool {
    forall|count: nat, at: D| #[trigger]
        have_no_news(pending, gates, count, from, at) && count < gates.len() ==> call_requires(
            pending,
            (at, gates[count as int]),
        )
}

/// The first gates of a runner have no news, and the next one gave an answer.
pub open spec fn news_came<D, Q: Fn(D, u64) -> (D, Result<bool, String>)>(
    pending: Q,
    gates: Seq<u64>,
    answer: Result<bool, String>,
    from: D,
    to: D,
) -> bool {
    exists|count: nat, at: D|
        count < gates.len() && #[trigger] have_no_news(pending, gates, count, from, at)
            && call_ensures(pending, (at, gates[count as int]), (to, answer))
}

/// The gates of a runner were asked for news, up to the first that has some.
pub open spec fn runner_news<D, Q: Fn(D, u64) -> (D, Result<bool, String>)>(
    pending: Q,
    gates: Seq<u64>,
    news: bool,
    from: D,
    to: D,
) -> bool {
    if news {
        news_came(pending, gates, Ok::<bool, String>(true), from, to)
    } else {
        have_no_news(pending, gates, gates.len(), from, to)
    }
}

/// The islands whose gates have news, as far as the answers go.
pub open spec fn pending_islands(
    runners: Seq<VulkanDistributedDispatchRunnerModel>,
    news: Seq<bool>,
) -> Seq<(Seq<char>, usize)>
    decreases news.len(),
{
    if news.len() == 0 {
        Seq::empty()
    } else {
        let earlier = pending_islands(runners, news.drop_last());
        let runner = runners[news.len() - 1];
        if news.last() {
            earlier.push(
                (runner.planned.owner_device_id, runner.planned.dispatches[0].dispatch_index),
            )
        } else {
            earlier
        }
    }
}

/// The gates of the first runners answered so, one runner after the other.
pub open spec fn news_gave<D, Q: Fn(D, u64) -> (D, Result<bool, String>)>(
    pending: Q,
    runners: Seq<VulkanDistributedDispatchRunnerModel>,
    news: Seq<bool>,
    from: D,
    to: D,
) -> bool
    decreases news.len(),
{
    if news.len() == 0 {
        from == to
    } else {
        news.len() <= runners.len() && exists|at: D| #[trigger]
            runner_news(
                pending,
                runner_gates(runners[news.len() - 1].shards),
                news.last(),
                at,
                to,
            ) && news_gave(pending, runners, news.drop_last(), from, at)
    }
}

/// The gates of the runners may be asked for news, one runner after the other.
pub open spec fn news_can_be_asked<D, Q: Fn(D, u64) -> (D, Result<bool, String>)>(
    pending: Q,
    runners: Seq<VulkanDistributedDispatchRunnerModel>,
    from: D,
) -> bool {
    forall|news: Seq<bool>, at: D| #[trigger]
        news_gave(pending, runners, news, from, at) && news.len() < runners.len()
            ==> gates_can_be_asked_for_news(
            pending,
            runner_gates(runners[news.len() as int].shards),
            at,
        )
}

/// What asking the gates of all islands for news comes to.
pub open spec fn pending_led_to<D, Q: Fn(D, u64) -> (D, Result<bool, String>)>(
    pending: Q,
    runners: Seq<VulkanDistributedDispatchRunnerModel>,
    news: Seq<bool>,
    outcome: Result<Vec<(String, usize)>, VulkanDistributedDispatchRunnerError>,
    from: D,
    to: D,
) -> bool {
    match outcome {
        Ok(islands) => news.len() == runners.len() && news_gave(pending, runners, news, from, to)
            && islands.deep_view() == pending_islands(runners, news),
        Err(error) => news.len() < runners.len() && exists|at: D| #[trigger]
            news_gave(pending, runners, news, from, at) && news_came(
                pending,
                runner_gates(runners[news.len() as int].shards),
                Err::<bool, String>(error.0),
                at,
                to,
            ),
    }
}

/// Some answers of the gates lead to the outcome.
pub open spec fn pending_can_give<D, Q: Fn(D, u64) -> (D, Result<bool, String>)>(
    pending: Q,
    runners: Seq<VulkanDistributedDispatchRunnerModel>,
    outcome: Result<Vec<(String, usize)>, VulkanDistributedDispatchRunnerError>,
    from: D,
    to: D,
) -> bool {
    exists|news: Seq<bool>| #[trigger] pending_led_to(pending, runners, news, outcome, from, to)
}

fn ask_for_news<D, Q: Fn(D, u64) -> (D, Result<bool, String>)>(
    gates: &Vec<u64>,
    devices: D,
    pending: &Q,
) -> (result: (Result<bool, String>, D))
    requires
        gates_can_be_asked_for_news(*pending, gates.deep_view(), devices),
    ensures
        match result.0 {
            Ok(news) => runner_news(*pending, gates.deep_view(), news, devices, result.1),
            Err(reason) => news_came(
                *pending,
                gates.deep_view(),
                Err::<bool, String>(reason),
                devices,
                result.1,
            ),
        },
{
    let ghost all = gates.deep_view();
    let ghost from = devices;
    let mut current = devices;
    for index in 0..gates.len()
        invariant
            gates_can_be_asked_for_news(*pending, all, from),
            from == devices,
            all == gates.deep_view(),
            have_no_news(*pending, all, index as nat, from, current),
    {
        assert(all[index as int] == gates@[index as int]);
        let ghost at = current;
        let (left, reply) = pending(current, gates[index]);
        current = left;
        assert(call_ensures(*pending, (at, all[index as int]), (current, reply)));
        assert(have_no_news(*pending, all, index as nat, from, at));
        match reply {
            Err(reason) => {
                return (Err(reason), current);
            },
            Ok(news) => {
                if news {
                    return (Ok(true), current);
                }
                assert(call_ensures(
                    *pending,
                    (at, all[(index + 1) as nat - 1]),
                    (current, Ok::<bool, String>(false)),
                ));
                assert(have_no_news(*pending, all, (index + 1) as nat, from, current));
            },
        }
    }
    (Ok(false), current)
}

impl VulkanDistributedDispatchRunners {
    /// The islands some gate of which has news.
    pub fn pending_residency_dispatches<D, Q: Fn(D, u64) -> (D, Result<bool, String>)>(
        &self,
        devices: D,
        pending: &Q,
    ) -> (result: (Result<Vec<(String, usize)>, VulkanDistributedDispatchRunnerError>, D))
        requires
            runners_are_sound(self.deep_view()),
            news_can_be_asked(*pending, self.deep_view().dispatches, devices),
        ensures
            pending_can_give(
                *pending,
                self.deep_view().dispatches,
                result.0,
                devices,
                result.1,
            ),
    {
        let ghost all = self.deep_view().dispatches;
        let ghost mut news: Seq<bool> = Seq::empty();
        let ghost from = devices;
        let mut current = devices;
        let mut islands: Vec<(String, usize)> = Vec::new();
        assert(islands.deep_view() =~= Seq::empty());
        for index in 0..self.dispatches.len()
            invariant
                runners_are_sound(self.deep_view()),
                news_can_be_asked(*pending, all, from),
                from == devices,
                all == self.dispatches.deep_view(),
                all == self.deep_view().dispatches,
                news.len() == index,
                news_gave(*pending, all, news, from, current),
                islands.deep_view() == pending_islands(all, news),
        {
            let runner = &self.dispatches[index];
            assert(all[index as int] == runner.deep_view());
            assert(all[index as int].planned.dispatches.len() > 0);
            let gates = list_runner_gates(&runner.shards);
            let ghost at = current;
            let (asked, left) = ask_for_news(&gates, current, pending);
            current = left;
            match asked {
                Err(reason) => {
                    let failed: Result<
                        Vec<(String, usize)>,
                        VulkanDistributedDispatchRunnerError,
                    > = Err(VulkanDistributedDispatchRunnerError(reason));
                    assert(news_gave(*pending, all, news, from, at));
                    assert(pending_led_to(*pending, all, news, failed, from, current));
                    return (failed, current);
                },
                Ok(found) => {
                    proof {
                        let next = news.push(found);
                        assert(next.drop_last() =~= news);
                        assert(runner_news(
                            *pending,
                            runner_gates(all[next.len() - 1].shards),
                            next.last(),
                            at,
                            current,
                        ));
                        assert(news_gave(*pending, all, next, from, current));
                        news = next;
                    }
                    if found {
                        append(
                            &mut islands,
                            (
                                runner.planned.owner_device_id.clone(),
                                runner.planned.leader().dispatch_index,
                            ),
                        );
                    }
                },
            }
        }
        let found: Result<Vec<(String, usize)>, VulkanDistributedDispatchRunnerError> = Ok(islands);
        assert(pending_led_to(*pending, all, news, found, from, current));
        (found, current)
    }

    /// Lets every gate of every island pass again.
    pub fn reset_residency_predicates<D, Z: Fn(D, u64) -> (D, Result<(), String>)>(
        &self,
        devices: D,
        reset: &Z,
    ) -> (result: (Result<(), VulkanDistributedDispatchRunnerError>, D))
        requires
            gates_can_be_reset(*reset, all_gates(self.deep_view().dispatches), devices),
        ensures
            resets_gave(
                *reset,
                all_gates(self.deep_view().dispatches),
                result.0,
                devices,
                result.1,
            ),
    {
        let ghost runners = self.deep_view().dispatches;
        let mut gates: Vec<u64> = Vec::new();
        assert(gates.deep_view() =~= all_gates(runners.take(0)));
        for index in 0..self.dispatches.len()
            invariant
                runners == self.dispatches.deep_view(),
                gates.deep_view() == all_gates(runners.take(index as int)),
        {
            assert(runners[index as int] == self.dispatches@[index as int].deep_view());
            assert(runners.take(index as int + 1).drop_last() =~= runners.take(index as int));
            append_all(&mut gates, &list_runner_gates(&self.dispatches[index].shards));
        }
        assert(runners.take(runners.len() as int) =~= runners);
        let ghost all = gates.deep_view();
        let ghost from = devices;
        let mut current = devices;
        for index in 0..gates.len()
            invariant
                gates_can_be_reset(*reset, all, from),
                from == devices,
                all == gates.deep_view(),
                all == all_gates(self.deep_view().dispatches),
                were_reset(*reset, all, index as nat, from, current),
        {
            assert(all[index as int] == gates@[index as int]);
            let ghost at = current;
            let (left, reply) = reset(current, gates[index]);
            current = left;
            assert(call_ensures(*reset, (at, all[index as int]), (current, reply)));
            match reply {
                Err(reason) => {
                    let failed: Result<(), VulkanDistributedDispatchRunnerError> = Err(
                        VulkanDistributedDispatchRunnerError(reason),
                    );
                    assert(were_reset(*reset, all, index as nat, from, at));
                    assert(call_ensures(
                        *reset,
                        (at, all[index as nat as int]),
                        (current, Err::<(), String>(failed->Err_0.0)),
                    ));
                    return (failed, current);
                },
                Ok(unit) => {
                    assert(unit == ());
                    assert(call_ensures(
                        *reset,
                        (at, all[(index + 1) as nat - 1]),
                        (current, Ok::<(), String>(())),
                    ));
                    assert(were_reset(*reset, all, (index + 1) as nat, from, current));
                },
            }
        }
        (Ok(()), current)
    }
}

} // verus!
