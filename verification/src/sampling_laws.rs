//! Laws of sampled plans.
use vstd::prelude::*;

use crate::contracts::InputDistribution;
use crate::dispatch_shards::{
    VulkanDistributedActivationRange, VulkanDistributedDispatchShardModel,
    VulkanDistributedParameterFragmentModel,
};
use crate::execution_plans::{
    VulkanDistributedDispatchPlanModel, VulkanDistributedExecutionPlanModel,
};
use crate::parameter_plans::execution_parameters;
use crate::plan_sampling::{
    budgeted_plan, law_sampled_rows_are_aligned, law_samples_keep_the_budget, sample_sources,
    sample_step, sampled_bytes, sampled_dispatch, sampled_plan, sampled_rows, sampled_shard,
    sampled_shards_from, scaled, scaled_auxiliary_from, scaled_fragment_step, scaled_range,
    SAMPLE_SCALE,
};
use crate::prepared::TensorIndexModel;
use crate::row_distribution::smaller;
use crate::sequences::fold_from;

verus! {

/// An amount for fewer rows is to the rows as the amount for all rows is to all rows.
pub open spec fn keeps_proportion(all: int, all_rows: int, some: int, some_rows: int) -> bool {
    some * all_rows == all * some_rows
}

/// The range starts where it did, and is shorter in proportion to the rows exactly where it
/// is cut with them.
pub open spec fn is_sampled_range(
    source_rows: usize,
    rows: usize,
    before: VulkanDistributedActivationRange,
    after: VulkanDistributedActivationRange,
    cut: bool,
) -> bool {
    &&& after.byte_offset == before.byte_offset
    &&& cut ==> keeps_proportion(
        before.byte_count as int,
        source_rows as int,
        after.byte_count as int,
        rows as int,
    )
    &&& !cut ==> after.byte_count == before.byte_count
}

/// The fragment is of the same tensor for the same binding, starts where it did, and is
/// shorter in proportion to the rows.
pub open spec fn is_sampled_fragment(
    source_rows: usize,
    rows: usize,
    before: VulkanDistributedParameterFragmentModel,
    after: VulkanDistributedParameterFragmentModel,
) -> bool {
    &&& after.binding == before.binding
    &&& after.tensor == before.tensor
    &&& after.byte_offset == before.byte_offset
    &&& keeps_proportion(
        before.byte_count as int,
        source_rows as int,
        after.byte_count as int,
        rows as int,
    )
}

/// The auxiliary input is cut with the rows: it is declared so, and the rows are not those
/// of experts.
pub open spec fn is_cut_input(
    dispatch: VulkanDistributedDispatchPlanModel,
    distribution: InputDistribution,
) -> bool {
    distribution is Sharded && !(dispatch.distribution is ExpertRange)
}

/// The shard executes a part of its source on a device: the same first row, at least one
/// row and no more than the source has, and whole aligned groups unless it has all rows.
/// What goes by rows is in proportion to them: the bytes of parameters, those of activations
/// that are cut, and, where the output is cut, its bytes and the workgroups. The rest is the
/// same, and it owns nothing that is selected at run time.
pub open spec fn is_sample_of(
    dispatch: VulkanDistributedDispatchPlanModel,
    source: VulkanDistributedDispatchShardModel,
    device_id: Seq<char>,
    sample: VulkanDistributedDispatchShardModel,
) -> bool {
    &&& sample.device_id == device_id
    &&& sample.row_start == source.row_start
    &&& 0 < sample.row_count <= source.row_count
    &&& sample.row_count == source.row_count || sample.row_count % dispatch.row_alignment == 0
    &&& dispatch.distribution is OutputRows ==> keeps_proportion(
        source.workgroup_count_x as int,
        source.row_count as int,
        sample.workgroup_count_x as int,
        sample.row_count as int,
    ) && keeps_proportion(
        source.output_byte_count as int,
        source.row_count as int,
        sample.output_byte_count as int,
        sample.row_count as int,
    )
    &&& !(dispatch.distribution is OutputRows) ==> sample.workgroup_count_x
        == source.workgroup_count_x && sample.output_byte_count == source.output_byte_count
    &&& sample.base_workgroup_z == source.base_workgroup_z
    &&& sample.output_byte_offset == source.output_byte_offset
    &&& is_sampled_range(
        source.row_count,
        sample.row_count,
        source.input_range,
        sample.input_range,
        dispatch.input_distribution is Sharded,
    )
    &&& sample.auxiliary_input_ranges.len() == source.auxiliary_input_ranges.len()
    &&& forall|i: int|
        0 <= i < source.auxiliary_input_ranges.len() ==> is_sampled_range(
            source.row_count,
            sample.row_count,
            source.auxiliary_input_ranges[i],
            #[trigger] sample.auxiliary_input_ranges[i],
            is_cut_input(dispatch, dispatch.auxiliary_input_distributions[i]),
        )
    &&& sample.parameters.len() == source.parameters.len()
    &&& forall|p: int|
        0 <= p < source.parameters.len() ==> is_sampled_fragment(
            source.row_count,
            sample.row_count,
            source.parameters[p],
            #[trigger] sample.parameters[p],
        )
    &&& sample.selected_resource_indices.dom() == Set::<Seq<char>>::empty()
    &&& sample.selected_resource_fragments.dom() == Set::<Seq<char>>::empty()
}

proof fn lemma_scaled(
    dispatch: VulkanDistributedDispatchPlanModel,
    source_rows: usize,
    rows: usize,
    value: usize,
    label: Seq<char>,
)
    requires
        source_rows > 0,
        scaled(dispatch, source_rows, rows, value, label) is Ok,
    ensures
        keeps_proportion(
            value as int,
            source_rows as int,
            scaled(dispatch, source_rows, rows, value, label)->Ok_0 as int,
            rows as int,
        ),
{
    let whole = value * rows;
    let divisor = source_rows as int;
    assert(0 <= whole / divisor <= whole) by (nonlinear_arith)
        requires
            whole >= 0,
            divisor > 0,
    ;
    assert((whole / divisor) * divisor == whole) by (nonlinear_arith)
        requires
            divisor > 0,
            whole % divisor == 0,
    ;
}

proof fn lemma_auxiliary_scaled(
    dispatch: VulkanDistributedDispatchPlanModel,
    source: VulkanDistributedDispatchShardModel,
    rows: usize,
    index: nat,
    found: Seq<VulkanDistributedActivationRange>,
)
    requires
        source.row_count > 0,
        found.len() == index,
        index <= source.auxiliary_input_ranges.len(),
        forall|i: int|
            0 <= i < index ==> is_sampled_range(
                source.row_count,
                rows,
                source.auxiliary_input_ranges[i],
                #[trigger] found[i],
                dispatch.auxiliary_input_distributions[i] is Sharded,
            ),
        scaled_auxiliary_from(dispatch, source, rows, index, found) is Ok,
    ensures
        ({
            let all = scaled_auxiliary_from(dispatch, source, rows, index, found)->Ok_0;
            &&& all.len() == source.auxiliary_input_ranges.len()
            &&& forall|i: int|
                0 <= i < all.len() ==> is_sampled_range(
                    source.row_count,
                    rows,
                    source.auxiliary_input_ranges[i],
                    #[trigger] all[i],
                    dispatch.auxiliary_input_distributions[i] is Sharded,
                )
        }),
    decreases source.auxiliary_input_ranges.len() - index,
{
    if index < source.auxiliary_input_ranges.len() {
        let range = source.auxiliary_input_ranges[index as int];
        let distribution = dispatch.auxiliary_input_distributions[index as int];
        let label = "auxiliary input range"@;
        let next = scaled_range(dispatch, source.row_count, rows, range, distribution, label)->Ok_0;
        if distribution is Sharded {
            lemma_scaled(dispatch, source.row_count, rows, range.byte_count, label);
        }
        lemma_auxiliary_scaled(dispatch, source, rows, index + 1, found.push(next));
    }
}

proof fn lemma_fragments_scaled(
    dispatch: VulkanDistributedDispatchPlanModel,
    fragments: Seq<VulkanDistributedParameterFragmentModel>,
    source_rows: usize,
    rows: usize,
    index: nat,
    found: Seq<VulkanDistributedParameterFragmentModel>,
)
    requires
        source_rows > 0,
        found.len() == index,
        index <= fragments.len(),
        forall|p: int|
            0 <= p < index ==> is_sampled_fragment(
                source_rows,
                rows,
                fragments[p],
                #[trigger] found[p],
            ),
        fold_from(fragments, index, found, scaled_fragment_step(dispatch, source_rows, rows)) is Ok,
    ensures
        ({
            let all = fold_from(
                fragments,
                index,
                found,
                scaled_fragment_step(dispatch, source_rows, rows),
            )->Ok_0;
            &&& all.len() == fragments.len()
            &&& forall|p: int|
                0 <= p < all.len() ==> is_sampled_fragment(
                    source_rows,
                    rows,
                    fragments[p],
                    #[trigger] all[p],
                )
        }),
    decreases fragments.len() - index,
{
    if index < fragments.len() {
        let fragment = fragments[index as int];
        let label = "parameter fragment"@;
        lemma_scaled(dispatch, source_rows, rows, fragment.byte_count, label);
        let byte_count = scaled(dispatch, source_rows, rows, fragment.byte_count, label)->Ok_0;
        lemma_fragments_scaled(
            dispatch,
            fragments,
            source_rows,
            rows,
            index + 1,
            found.push(VulkanDistributedParameterFragmentModel { byte_count, ..fragment }),
        );
    }
}

/// A sampled shard is a part of its source: what goes by rows is in proportion to them, and
/// the rest is the same. Its rows are the fraction that is asked for, as near below it as
/// whole aligned groups come, but at least one group where the source has that many.
pub proof fn law_sampled_shards_are_in_proportion(
    dispatch: VulkanDistributedDispatchPlanModel,
    source: VulkanDistributedDispatchShardModel,
    device_id: Seq<char>,
    numerator: usize,
    denominator: usize,
)
    requires
        denominator > 0,
        sampled_shard(dispatch, source, device_id, numerator, denominator) is Ok,
    ensures
        ({
            let sample = sampled_shard(
                dispatch,
                source,
                device_id,
                numerator,
                denominator,
            )->Ok_0;
            &&& is_sample_of(dispatch, source, device_id, sample)
            &&& sample.row_count > dispatch.row_alignment ==> sample.row_count * denominator
                <= source.row_count * numerator
            &&& sample.row_count < source.row_count ==> (sample.row_count
                + dispatch.row_alignment) * denominator > source.row_count * numerator || (
            sample.row_count + dispatch.row_alignment > source.row_count)
        }),
{
    let rows = sampled_rows(
        dispatch.row_alignment,
        source.row_count,
        numerator,
        denominator,
    )->Ok_0;
    law_sampled_rows_are_aligned(
        dispatch.row_alignment,
        source.row_count,
        numerator,
        denominator,
    );
    lemma_rows_follow_the_fraction(
        dispatch.row_alignment,
        source.row_count,
        numerator,
        denominator,
    );
    if dispatch.input_distribution is Sharded {
        lemma_scaled(
            dispatch,
            source.row_count,
            rows,
            source.input_range.byte_count,
            "primary input range"@,
        );
    }
    if dispatch.distribution is OutputRows {
        lemma_scaled(
            dispatch,
            source.row_count,
            rows,
            source.output_byte_count,
            "output range"@,
        );
        lemma_scaled(
            dispatch,
            source.row_count,
            rows,
            source.workgroup_count_x as usize,
            "workgroup count"@,
        );
    }
    if !(dispatch.distribution is ExpertRange) {
        lemma_auxiliary_scaled(dispatch, source, rows, 0, Seq::empty());
    }
    lemma_fragments_scaled(
        dispatch,
        source.parameters,
        source.row_count,
        rows,
        0,
        Seq::empty(),
    );
}

proof fn lemma_rows_follow_the_fraction(
    row_alignment: usize,
    row_count: usize,
    numerator: usize,
    denominator: usize,
)
    requires
        row_alignment > 0,
        row_count > 0,
        denominator > 0,
        sampled_rows(row_alignment, row_count, numerator, denominator) is Ok,
    ensures
        ({
            let rows = sampled_rows(row_alignment, row_count, numerator, denominator)->Ok_0;
            &&& rows > row_alignment ==> rows * denominator <= row_count * numerator
            &&& rows < row_count ==> (rows + row_alignment) * denominator > row_count * numerator
                || rows + row_alignment > row_count
        }),
{
    let whole = row_count * numerator;
    let parts = denominator as int;
    let quotient = whole / parts;
    let alignment = row_alignment as int;
    let proportional = smaller(quotient, row_count as int);
    let rows = sampled_rows(row_alignment, row_count, numerator, denominator)->Ok_0 as int;
    assert(whole >= 0) by (nonlinear_arith)
        requires
            whole == row_count * numerator,
    ;
    assert(quotient >= 0 && quotient * parts <= whole < (quotient + 1) * parts)
        by (nonlinear_arith)
        requires
            whole >= 0,
            parts > 0,
            quotient == whole / parts,
    ;
    let groups = proportional / alignment;
    assert(0 <= groups && groups * alignment <= proportional < (groups + 1) * alignment)
        by (nonlinear_arith)
        requires
            proportional >= 0,
            alignment > 0,
            groups == proportional / alignment,
    ;
    let kept_groups = if groups == 0 {
        1int
    } else {
        groups
    };
    assert(kept_groups * alignment >= 0) by (nonlinear_arith)
        requires
            kept_groups >= 1,
            alignment >= 1,
    ;
    if rows > alignment {
        assert(groups > 0) by {
            if groups == 0 {
                assert(kept_groups * alignment == alignment) by (nonlinear_arith)
                    requires
                        kept_groups == 1,
                ;
            }
        }
        assert(rows <= quotient);
        assert(rows * parts <= quotient * parts) by (nonlinear_arith)
            requires
                rows <= quotient,
                parts > 0,
        ;
    }
    if rows < row_count && rows + alignment <= row_count {
        assert(rows == kept_groups * alignment);
        assert((groups + 1) * alignment <= rows + alignment) by (nonlinear_arith)
            requires
                rows == kept_groups * alignment,
                groups <= kept_groups,
                alignment > 0,
        ;
        assert(proportional < rows + alignment);
        assert(proportional == quotient);
        assert((quotient + 1) * parts <= (rows + alignment) * parts)
            by (nonlinear_arith)
            requires
                quotient + 1 <= rows + alignment,
                parts > 0,
        ;
    }
}

/// The dispatch is as it was but for its owner, its shards and their parameter bytes: the
/// first participant owns it, and every participant has one shard, in order, each a part of
/// the shard at its place, or of all shards merged where there is one participant.
pub open spec fn is_sampled_from(
    before: VulkanDistributedDispatchPlanModel,
    after: VulkanDistributedDispatchPlanModel,
    participants: Seq<Seq<char>>,
) -> bool {
    let sources = sample_sources(before, participants.len());
    &&& after == (VulkanDistributedDispatchPlanModel {
        owner_device_id: participants[0],
        shards: after.shards,
        distributed_parameter_byte_count: after.distributed_parameter_byte_count,
        ..before
    })
    &&& sources is Ok
    &&& after.shards.len() == participants.len()
    &&& participants.len() <= sources->Ok_0.len()
    &&& forall|s: int|
        0 <= s < participants.len() ==> is_sample_of(
            before,
            sources->Ok_0[s],
            participants[s],
            #[trigger] after.shards[s],
        )
}

proof fn lemma_shards_sampled(
    dispatch: VulkanDistributedDispatchPlanModel,
    sources: Seq<VulkanDistributedDispatchShardModel>,
    participants: Seq<Seq<char>>,
    fraction: usize,
    index: nat,
    found: Seq<VulkanDistributedDispatchShardModel>,
)
    requires
        found.len() == index,
        index <= sources.len(),
        index <= participants.len(),
        forall|s: int|
            0 <= s < index ==> is_sample_of(
                dispatch,
                sources[s],
                participants[s],
                #[trigger] found[s],
            ),
        sampled_shards_from(dispatch, sources, participants, fraction, index, found) is Ok,
    ensures
        ({
            let shards = sampled_shards_from(
                dispatch,
                sources,
                participants,
                fraction,
                index,
                found,
            )->Ok_0;
            &&& shards.len() == smaller(sources.len() as int, participants.len() as int)
            &&& forall|s: int|
                0 <= s < shards.len() ==> is_sample_of(
                    dispatch,
                    sources[s],
                    participants[s],
                    #[trigger] shards[s],
                )
        }),
    decreases sources.len() - index,
{
    if index < sources.len() && index < participants.len() {
        let source = sources[index as int];
        let numerator = smaller(fraction as int, SAMPLE_SCALE as int) as usize;
        let shard = sampled_shard(
            dispatch,
            source,
            participants[index as int],
            numerator,
            SAMPLE_SCALE,
        )->Ok_0;
        law_sampled_shards_are_in_proportion(
            dispatch,
            source,
            participants[index as int],
            numerator,
            SAMPLE_SCALE,
        );
        lemma_shards_sampled(
            dispatch,
            sources,
            participants,
            fraction,
            index + 1,
            found.push(shard),
        );
    }
}

proof fn lemma_dispatches_sampled(
    dispatches: Seq<VulkanDistributedDispatchPlanModel>,
    participants: Seq<Seq<char>>,
    fraction: usize,
    index: nat,
    found: Seq<VulkanDistributedDispatchPlanModel>,
)
    requires
        found.len() == index,
        index <= dispatches.len(),
        forall|i: int|
            0 <= i < index ==> is_sampled_from(
                dispatches[i],
                #[trigger] found[i],
                participants,
            ),
        fold_from(dispatches, index, found, sample_step(participants, fraction)) is Ok,
    ensures
        ({
            let sampled = fold_from(
                dispatches,
                index,
                found,
                sample_step(participants, fraction),
            )->Ok_0;
            &&& sampled.len() == dispatches.len()
            &&& forall|i: int|
                0 <= i < dispatches.len() ==> is_sampled_from(
                    dispatches[i],
                    #[trigger] sampled[i],
                    participants,
                )
        }),
    decreases dispatches.len() - index,
{
    if index < dispatches.len() {
        let dispatch = dispatches[index as int];
        let sources = sample_sources(dispatch, participants.len())->Ok_0;
        lemma_shards_sampled(dispatch, sources, participants, fraction, 0, Seq::empty());
        let sampled = sampled_dispatch(dispatch, participants, fraction)->Ok_0;
        assert(is_sampled_from(dispatch, sampled, participants));
        lemma_dispatches_sampled(
            dispatches,
            participants,
            fraction,
            index + 1,
            found.push(sampled),
        );
    }
}

/// A plan that is sampled for a parameter budget keeps the budget, runs on the
/// participants, and has the dispatches of its source one to one and in order, each owned
/// by the first participant and with one shard for every participant, in order, that is a
/// part of the source's.
pub proof fn law_samples_match_their_source(
    source: VulkanDistributedExecutionPlanModel,
    tensors: TensorIndexModel,
    participants: Seq<Seq<char>>,
    budget: usize,
)
    requires
        budgeted_plan(source, tensors, participants, budget) is Ok,
        budgeted_plan(source, tensors, participants, budget)->Ok_0 is Some,
    ensures
        ({
            let plan = budgeted_plan(source, tensors, participants, budget)->Ok_0->0;
            &&& execution_parameters(plan, tensors, false) is Ok
            &&& execution_parameters(plan, tensors, false)->Ok_0.total_byte_capacity <= budget
            &&& plan.device_ids == participants
            &&& plan.dispatches.len() == source.dispatches.len()
            &&& forall|i: int|
                0 <= i < source.dispatches.len() ==> is_sampled_from(
                    source.dispatches[i],
                    #[trigger] plan.dispatches[i],
                    participants,
                )
        }),
{
    let fraction = law_samples_keep_the_budget(source, tensors, participants, budget);
    assert(sampled_plan(source, participants, fraction) is Ok);
    lemma_dispatches_sampled(source.dispatches, participants, fraction, 0, Seq::empty());
}

proof fn lemma_shards_are_samples(
    dispatch: VulkanDistributedDispatchPlanModel,
    sources: Seq<VulkanDistributedDispatchShardModel>,
    participants: Seq<Seq<char>>,
    fraction: usize,
    index: nat,
    found: Seq<VulkanDistributedDispatchShardModel>,
    shard: int,
)
    requires
        fraction <= SAMPLE_SCALE,
        found.len() == index,
        sampled_shards_from(dispatch, sources, participants, fraction, index, found) is Ok,
    ensures
        ({
            let shards = sampled_shards_from(
                dispatch,
                sources,
                participants,
                fraction,
                index,
                found,
            )->Ok_0;
            &&& shards.len() >= index
            &&& 0 <= shard < index ==> shards[shard] == found[shard]
            &&& index <= shard < shards.len() ==> shard < sources.len() && sampled_shard(
                dispatch,
                sources[shard],
                participants[shard],
                fraction,
                SAMPLE_SCALE,
            ) == Ok::<VulkanDistributedDispatchShardModel, Seq<char>>(shards[shard])
        }),
    decreases sources.len() - index,
{
    if index < sources.len() && index < participants.len() {
        let next = sampled_shard(
            dispatch,
            sources[index as int],
            participants[index as int],
            fraction,
            SAMPLE_SCALE,
        )->Ok_0;
        lemma_shards_are_samples(
            dispatch,
            sources,
            participants,
            fraction,
            index + 1,
            found.push(next),
            shard,
        );
    }
}

/// A dispatch that is sampled by millionths has on every participant that part of the rows
/// of the shard that it is sampled from: no more, but for one group of aligned rows that each
/// has at least, and less only by what does not fill a group.
pub proof fn law_sampled_dispatches_are_the_fraction(
    dispatch: VulkanDistributedDispatchPlanModel,
    participants: Seq<Seq<char>>,
    millionths: usize,
    shard: int,
)
    requires
        millionths <= 1_000_000,
        sampled_dispatch(dispatch, participants, millionths) is Ok,
        0 <= shard < participants.len(),
    ensures
        ({
            let sampled = sampled_dispatch(dispatch, participants, millionths)->Ok_0;
            let rows = sampled.shards[shard].row_count;
            let alignment = dispatch.row_alignment;
            let source_rows = sample_sources(
                dispatch,
                participants.len(),
            )->Ok_0[shard].row_count;
            &&& sampled.shards.len() == participants.len()
            &&& rows > 0
            &&& rows > alignment ==> rows * 1_000_000 <= source_rows * millionths
            &&& rows < source_rows ==> (rows + alignment) * 1_000_000 > source_rows * millionths
                || rows + alignment > source_rows
        }),
{
    let sources = sample_sources(dispatch, participants.len())->Ok_0;
    lemma_shards_are_samples(
        dispatch,
        sources,
        participants,
        millionths,
        0,
        Seq::empty(),
        shard,
    );
    law_sampled_shards_are_in_proportion(
        dispatch,
        sources[shard],
        participants[shard],
        millionths,
        SAMPLE_SCALE,
    );
    law_sampled_rows_are_aligned(
        dispatch.row_alignment,
        sources[shard].row_count,
        millionths,
        SAMPLE_SCALE,
    );
}

/// A budget gives no plan exactly where there is nothing to distribute, or where even one
/// group of rows for every shard takes more than the budget.
pub proof fn law_budgets_are_refused_by_the_smallest_sample(
    source: VulkanDistributedExecutionPlanModel,
    tensors: TensorIndexModel,
    participants: Seq<Seq<char>>,
    budget: usize,
)
    requires
        budgeted_plan(source, tensors, participants, budget) is Ok,
    ensures
        budget > 0,
        participants.len() > 0,
        budgeted_plan(source, tensors, participants, budget)->Ok_0 is None <==> {
            ||| source.dispatches.len() == 0
            ||| {
                let smallest = sampled_plan(source, participants, 0);
                &&& smallest is Ok
                &&& execution_parameters(smallest->Ok_0, tensors, false) is Ok
                &&& execution_parameters(smallest->Ok_0, tensors, false)->Ok_0.total_byte_capacity
                    > budget
            }
        },
{
    reveal(sampled_bytes);
}

} // verus!
