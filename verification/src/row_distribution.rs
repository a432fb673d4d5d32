//! Cutting rows into aligned shards.
use vstd::arithmetic::div_mod::{lemma_fundamental_div_mod, lemma_mod_multiples_basic};
use vstd::prelude::*;

use crate::text::{decimal, decimal_text, join6};

verus! {

/// The smaller of two numbers.
pub open spec fn smaller(left: int, right: int) -> int {
    if left <= right {
        left
    } else {
        right
    }
}

/// How many shards the rows are cut into: one for each aligned group, with a
/// group for the rows behind the last full one, up to the requested number.
pub open spec fn row_shard_count(row_count: int, requested: int, alignment: int) -> int {
    smaller(
        requested,
        row_count / alignment + if row_count % alignment != 0 {
            1int
        } else {
            0int
        },
    )
}

/// The row at which a shard starts: full groups are dealt out evenly, the first
/// shards taking one more where they do not divide.
pub open spec fn row_shard_start(row_count: int, shards: int, alignment: int, index: int) -> int {
    let groups = row_count / alignment;
    (index * (groups / shards) + smaller(index, groups % shards)) * alignment
}

/// The rows of a shard: up to the start of the next one, and to the end in the
/// last.
pub open spec fn row_shard_rows(row_count: int, shards: int, alignment: int, index: int) -> int {
    if index + 1 == shards {
        row_count - row_shard_start(row_count, shards, alignment, index)
    } else {
        row_shard_start(row_count, shards, alignment, index + 1) - row_shard_start(
            row_count,
            shards,
            alignment,
            index,
        )
    }
}

/// The shards of the rows as start and count, or the text of the error.
pub open spec fn row_shards(
    row_count: usize,
    requested: usize,
    workgroup_rows: usize,
    alignment: usize,
) -> Result<Seq<(usize, usize)>, Seq<char>> {
    if row_count == 0 || requested == 0 || workgroup_rows == 0 || alignment == 0 {
        Err("row distribution dimensions must not be zero"@)
    } else if row_count % workgroup_rows != 0 || alignment % workgroup_rows != 0 {
        Err(
            "row count "@ + decimal_text(row_count as nat) + " and shard boundary "@ + decimal_text(
                alignment as nat,
            ) + " are incompatible with workgroup width "@ + decimal_text(workgroup_rows as nat),
        )
    } else {
        let shards = row_shard_count(row_count as int, requested as int, alignment as int);
        Ok(
            Seq::new(
                shards as nat,
                |index: int|
                    (
                        row_shard_start(row_count as int, shards, alignment as int, index) as usize,
                        row_shard_rows(row_count as int, shards, alignment as int, index) as usize,
                    ),
            ),
        )
    }
}

/// What every distribution into at least one shard satisfies at an index.
proof fn lemma_shard_bounds(row_count: int, requested: int, alignment: int, index: int)
    requires
        row_count > 0,
        requested > 0,
        alignment > 0,
        0 <= index < row_shard_count(row_count, requested, alignment),
    ensures
        row_shard_count(row_count, requested, alignment) > 0,
        ({
            let shards = row_shard_count(row_count, requested, alignment);
            let groups = row_count / alignment;
            let start = row_shard_start(row_count, shards, alignment, index);
            let own = groups / shards + if index < groups % shards {
                1int
            } else {
                0int
            };
            &&& 0 <= start < row_count
            &&& own <= row_count
            &&& 0 <= own * alignment
            &&& own * alignment <= row_count
            &&& row_shard_start(row_count, shards, alignment, index + 1) == start + own * alignment
            &&& row_shard_rows(row_count, shards, alignment, index) > 0
            &&& start + row_shard_rows(row_count, shards, alignment, index) <= row_count
            &&& row_shard_rows(row_count, shards, alignment, index) == own * alignment + if index
                + 1 == shards {
                row_count % alignment
            } else {
                0int
            }
        }),
{
    let groups = row_count / alignment;
    let tail = row_count % alignment;
    let shards = row_shard_count(row_count, requested, alignment);
    lemma_fundamental_div_mod(row_count, alignment);
    assert(groups >= 0) by (nonlinear_arith)
        requires
            groups == row_count / alignment,
            row_count > 0,
            alignment > 0,
    ;
    assert(0 <= tail < alignment) by (nonlinear_arith)
        requires
            tail == row_count % alignment,
            alignment > 0,
    ;
    assert(groups > 0 || tail > 0) by (nonlinear_arith)
        requires
            row_count == alignment * groups + tail,
            row_count > 0,
            groups >= 0,
            tail >= 0,
    ;
    assert(shards > 0);
    let each = groups / shards;
    let rest = groups % shards;
    lemma_fundamental_div_mod(groups, shards);
    assert(each >= 0) by (nonlinear_arith)
        requires
            each == groups / shards,
            groups >= 0,
            shards > 0,
    ;
    assert(0 <= rest < shards) by (nonlinear_arith)
        requires
            rest == groups % shards,
            shards > 0,
    ;
    let own = each + if index < rest {
        1int
    } else {
        0int
    };
    let before = index * each + smaller(index, rest);
    let after = (index + 1) * each + smaller(index + 1, rest);
    assert(after == before + own) by (nonlinear_arith)
        requires
            before == index * each + smaller(index, rest),
            after == (index + 1) * each + smaller(index + 1, rest),
            own == each + if index < rest {
                1int
            } else {
                0int
            },
    ;
    assert(after * alignment == before * alignment + own * alignment) by (nonlinear_arith)
        requires
            after == before + own,
    ;
    assert(after <= groups) by (nonlinear_arith)
        requires
            after == (index + 1) * each + smaller(index + 1, rest),
            groups == shards * each + rest,
            index + 1 <= shards,
            each >= 0,
            rest >= 0,
    ;
    assert(before >= 0) by (nonlinear_arith)
        requires
            before == index * each + smaller(index, rest),
            index >= 0,
            each >= 0,
            rest >= 0,
    ;
    if groups < shards {
        assert(shards == groups + 1);
        assert(each == 0) by (nonlinear_arith)
            requires
                groups == shards * each + rest,
                groups < shards,
                each >= 0,
                rest >= 0,
                shards > 0,
        ;
        assert(groups == rest) by (nonlinear_arith)
            requires
                each == 0,
                groups == shards * each + rest,
        ;
    } else {
        assert(each >= 1) by (nonlinear_arith)
            requires
                groups == shards * each + rest,
                groups >= shards,
                rest < shards,
                shards > 0,
        ;
    }
    assert(index + 1 < shards ==> own >= 1);
    assert(index + 1 == shards ==> own >= 1 || tail > 0);
    assert(index + 1 == shards ==> after == groups) by (nonlinear_arith)
        requires
            after == (index + 1) * each + smaller(index + 1, rest),
            groups == shards * each + rest,
            rest < shards,
    ;
    assert(own * alignment >= own && before * alignment >= 0 && own * alignment <= groups
        * alignment && after * alignment <= groups * alignment && groups * alignment + tail
        == row_count) by (nonlinear_arith)
        requires
            own >= 0,
            before >= 0,
            own <= after,
            after == before + own,
            after <= groups,
            alignment > 0,
            row_count == alignment * groups + tail,
    ;
}

proof fn lemma_first_start(row_count: int, shards: int, alignment: int)
    requires
        shards > 0,
    ensures
        row_shard_start(row_count, shards, alignment, 0) == 0,
{
    let groups = row_count / alignment;
    assert(groups % shards >= 0) by (nonlinear_arith)
        requires
            shards > 0,
    ;
    assert(0 * (groups / shards) == 0) by (nonlinear_arith);
    assert(0 * alignment == 0) by (nonlinear_arith);
}

/// Cuts rows into shards at aligned boundaries.
pub fn distribute_rows(
    row_count: usize,
    requested_shards: usize,
    workgroup_row_count: usize,
    shard_boundary_row_alignment: usize,
) -> (outcome: Result<Vec<(usize, usize)>, String>)
    ensures
        match outcome {
            Ok(shards) => row_shards(
                row_count,
                requested_shards,
                workgroup_row_count,
                shard_boundary_row_alignment,
            ) == Ok::<Seq<(usize, usize)>, Seq<char>>(shards@),
            Err(message) => row_shards(
                row_count,
                requested_shards,
                workgroup_row_count,
                shard_boundary_row_alignment,
            ) == Err::<Seq<(usize, usize)>, Seq<char>>(message@),
        },
{
    if row_count == 0 || requested_shards == 0 || workgroup_row_count == 0
        || shard_boundary_row_alignment == 0 {
        return Err("row distribution dimensions must not be zero".to_owned());
    }
    if row_count % workgroup_row_count != 0 || shard_boundary_row_alignment % workgroup_row_count
        != 0 {
        return Err(
            join6(
                "row count ",
                decimal(row_count).as_str(),
                " and shard boundary ",
                decimal(shard_boundary_row_alignment).as_str(),
                " are incompatible with workgroup width ",
                decimal(workgroup_row_count).as_str(),
            ),
        );
    }
    let ghost expected = row_shards(
        row_count,
        requested_shards,
        workgroup_row_count,
        shard_boundary_row_alignment,
    )->Ok_0;
    let alignment: usize = shard_boundary_row_alignment;
    let aligned_groups: usize = row_count / alignment;
    let tail_rows: usize = row_count % alignment;
    let ghost shards_wanted = row_shard_count(
        row_count as int,
        requested_shards as int,
        alignment as int,
    );
    let shard_count: usize = if requested_shards <= aligned_groups {
        requested_shards
    } else if tail_rows != 0 {
        aligned_groups + 1
    } else {
        aligned_groups
    };
    proof {
        lemma_fundamental_div_mod(row_count as int, alignment as int);
        assert(aligned_groups > 0 || tail_rows > 0) by (nonlinear_arith)
            requires
                row_count == alignment * aligned_groups + tail_rows,
                row_count > 0,
        ;
    }
    assert(shard_count == shards_wanted);
    let groups_per_shard: usize = aligned_groups / shard_count;
    let remainder: usize = aligned_groups % shard_count;
    let mut row_start: usize = 0;
    let mut shards: Vec<(usize, usize)> = Vec::new();
    proof {
        lemma_first_start(row_count as int, shards_wanted, alignment as int);
    }
    for shard_index in 0..shard_count
        invariant
            row_count > 0,
            requested_shards > 0,
            alignment > 0,
            alignment == shard_boundary_row_alignment,
            aligned_groups == row_count / alignment,
            tail_rows == row_count % alignment,
            shard_count == shards_wanted,
            shards_wanted == row_shard_count(
                row_count as int,
                requested_shards as int,
                alignment as int,
            ),
            groups_per_shard == aligned_groups / shard_count,
            remainder == aligned_groups % shard_count,
            shard_index < shard_count ==> row_start == row_shard_start(
                row_count as int,
                shards_wanted,
                alignment as int,
                shard_index as int,
            ),
            expected.len() == shard_count,
            expected == Seq::new(
                shards_wanted as nat,
                |index: int|
                    (
                        row_shard_start(
                            row_count as int,
                            shards_wanted,
                            alignment as int,
                            index,
                        ) as usize,
                        row_shard_rows(
                            row_count as int,
                            shards_wanted,
                            alignment as int,
                            index,
                        ) as usize,
                    ),
            ),
            shards@ == expected.take(shard_index as int),
    {
        proof {
            lemma_shard_bounds(
                row_count as int,
                requested_shards as int,
                alignment as int,
                shard_index as int,
            );
        }
        let group_count: usize = if shard_index < remainder {
            groups_per_shard + 1
        } else {
            groups_per_shard
        };
        let mut shard_rows: usize = group_count * alignment;
        if shard_index + 1 == shard_count {
            shard_rows = shard_rows + tail_rows;
        }
        shards.push((row_start, shard_rows));
        row_start = row_start + shard_rows;
        assert(expected.take(shard_index as int + 1) =~= expected.take(shard_index as int).push(
            expected[shard_index as int],
        ));
    }
    assert(expected.take(expected.len() as int) =~= expected);
    Ok(shards)
}

/// The shards cover the rows: the first starts at row zero, each starts where
/// the one before it ends, none is empty, and the last ends behind the last row.
/// Every shard starts at an aligned row.
pub proof fn law_row_shards_tile_the_rows(
    row_count: usize,
    requested: usize,
    workgroup_rows: usize,
    alignment: usize,
)
    requires
        row_shards(row_count, requested, workgroup_rows, alignment) is Ok,
    ensures
        ({
            let shards = row_shards(row_count, requested, workgroup_rows, alignment)->Ok_0;
            &&& 0 < shards.len() <= requested
            &&& shards[0].0 == 0
            &&& shards.last().0 + shards.last().1 == row_count
            &&& forall|i: int| 0 <= i < shards.len() ==> (#[trigger] shards[i]).1 > 0
            &&& forall|i: int| 0 <= i < shards.len() ==> (#[trigger] shards[i]).0 % alignment == 0
            &&& forall|i: int|
                0 <= i < shards.len() - 1 ==> (#[trigger] shards[i]).0 + shards[i].1 == shards[i
                    + 1].0
        }),
{
    let shards = row_shards(row_count, requested, workgroup_rows, alignment)->Ok_0;
    let count = row_shard_count(row_count as int, requested as int, alignment as int);
    lemma_fundamental_div_mod(row_count as int, alignment as int);
    assert(row_count / alignment > 0 || row_count % alignment > 0) by (nonlinear_arith)
        requires
            row_count == alignment * (row_count / alignment) + row_count % alignment,
            row_count > 0,
            alignment > 0,
    ;
    assert forall|i: int| 0 <= i < shards.len() implies (#[trigger] shards[i]).1 > 0
        && shards[i].0 % alignment == 0 && shards[i].0 == row_shard_start(
        row_count as int,
        count,
        alignment as int,
        i,
    ) && shards[i].1 == row_shard_rows(row_count as int, count, alignment as int, i) by {
        lemma_shard_bounds(row_count as int, requested as int, alignment as int, i);
        let groups = row_count as int / alignment as int;
        lemma_mod_multiples_basic(
            i * (groups / count) + smaller(i, groups % count),
            alignment as int,
        );
    }
    assert forall|i: int| 0 <= i < shards.len() - 1 implies (#[trigger] shards[i]).0 + shards[i].1
        == shards[i + 1].0 by {
        assert(shards[i + 1].1 > 0);
    }
    lemma_first_start(row_count as int, count, alignment as int);
}

/// Every shard but the last holds a multiple of the alignment, and so every shard
/// holds whole workgroups.
pub proof fn law_row_shards_hold_whole_workgroups(
    row_count: usize,
    requested: usize,
    workgroup_rows: usize,
    alignment: usize,
    index: int,
)
    requires
        row_shards(row_count, requested, workgroup_rows, alignment) is Ok,
        0 <= index < row_shards(row_count, requested, workgroup_rows, alignment)->Ok_0.len(),
    ensures
        ({
            let shards = row_shards(row_count, requested, workgroup_rows, alignment)->Ok_0;
            &&& index + 1 < shards.len() ==> shards[index].1 % alignment == 0
            &&& shards[index].1 % workgroup_rows == 0
        }),
{
    let shards = row_shards(row_count, requested, workgroup_rows, alignment)->Ok_0;
    let count = row_shard_count(row_count as int, requested as int, alignment as int);
    lemma_shard_bounds(row_count as int, requested as int, alignment as int, index);
    let groups = row_count as int / alignment as int;
    let own = groups / count + if index < groups % count {
        1int
    } else {
        0int
    };
    let tail = row_count as int % alignment as int;
    lemma_mod_multiples_basic(own, alignment as int);
    let per_alignment = alignment as int / workgroup_rows as int;
    let per_rows = row_count as int / workgroup_rows as int;
    lemma_fundamental_div_mod(alignment as int, workgroup_rows as int);
    lemma_fundamental_div_mod(row_count as int, workgroup_rows as int);
    lemma_fundamental_div_mod(row_count as int, alignment as int);
    let in_tail = per_rows - per_alignment * groups;
    assert(tail == in_tail * workgroup_rows) by (nonlinear_arith)
        requires
            row_count == alignment * groups + tail,
            row_count == workgroup_rows * per_rows,
            alignment == workgroup_rows * per_alignment,
            in_tail == per_rows - per_alignment * groups,
    ;
    let in_shard = own * per_alignment + if index + 1 == count {
        in_tail
    } else {
        0int
    };
    assert(shards[index].1 == in_shard * workgroup_rows) by (nonlinear_arith)
        requires
            shards[index].1 == own * alignment + if index + 1 == count {
                tail
            } else {
                0int
            },
            alignment == workgroup_rows * per_alignment,
            tail == in_tail * workgroup_rows,
            in_shard == own * per_alignment + if index + 1 == count {
                in_tail
            } else {
                0int
            },
    ;
    lemma_mod_multiples_basic(in_shard, workgroup_rows as int);
}

/// Rows are cut as evenly as whole groups allow: no shard has more than one group more than
/// another, and earlier shards have no fewer groups than later ones. There are fewer shards
/// than requested only where no shard has more than one group of rows.
pub proof fn law_row_shards_are_balanced(
    row_count: usize,
    requested: usize,
    workgroup_rows: usize,
    alignment: usize,
    left: int,
    right: int,
)
    requires
        row_shards(row_count, requested, workgroup_rows, alignment) is Ok,
        0 <= left < row_shards(row_count, requested, workgroup_rows, alignment)->Ok_0.len(),
        0 <= right < row_shards(row_count, requested, workgroup_rows, alignment)->Ok_0.len(),
    ensures
        ({
            let shards = row_shards(row_count, requested, workgroup_rows, alignment)->Ok_0;
            &&& shards[left].1 < shards[right].1 + 2 * alignment
            &&& right + 1 < shards.len() ==> shards[left].1 <= shards[right].1 + alignment || left
                + 1 == shards.len()
            &&& left <= right && right + 1 < shards.len() ==> shards[right].1 <= shards[left].1
            &&& left < right ==> shards[right].1 < shards[left].1 + alignment
            &&& shards.len() < requested ==> shards[left].1 <= alignment
        }),
{
    let shards = row_shards(row_count, requested, workgroup_rows, alignment)->Ok_0;
    let count = row_shard_count(row_count as int, requested as int, alignment as int);
    let groups = row_count as int / alignment as int;
    let tail = row_count as int % alignment as int;
    lemma_shard_bounds(row_count as int, requested as int, alignment as int, left);
    lemma_shard_bounds(row_count as int, requested as int, alignment as int, right);
    let each = groups / count;
    let rest = groups % count;
    let left_own = each + if left < rest {
        1int
    } else {
        0int
    };
    let right_own = each + if right < rest {
        1int
    } else {
        0int
    };
    assert(0 <= tail < alignment) by (nonlinear_arith)
        requires
            tail == row_count as int % alignment as int,
            alignment > 0,
    ;
    assert(left_own * alignment <= right_own * alignment + alignment) by (nonlinear_arith)
        requires
            left_own <= right_own + 1,
            alignment > 0,
    ;
    if left <= right {
        assert(right_own * alignment <= left_own * alignment) by (nonlinear_arith)
            requires
                right_own <= left_own,
                alignment > 0,
        ;
    }
    if shards.len() < requested {
        lemma_fundamental_div_mod(row_count as int, alignment as int);
        assert(groups >= 0) by (nonlinear_arith)
            requires
                groups == row_count as int / alignment as int,
                alignment > 0,
                row_count >= 0,
        ;
        assert(count == groups || count == groups + 1);
        if count == groups {
            assert(each == 1 && rest == 0) by (nonlinear_arith)
                requires
                    each == groups / count,
                    rest == groups % count,
                    count == groups,
                    count > 0,
            ;
        } else {
            assert(each == 0 && rest == groups) by (nonlinear_arith)
                requires
                    each == groups / count,
                    rest == groups % count,
                    count == groups + 1,
                    groups >= 0,
            ;
        }
        assert(left_own <= 1);
        assert(left_own * alignment <= alignment) by (nonlinear_arith)
            requires
                left_own <= 1,
                alignment > 0,
        ;
        if left + 1 == count && tail > 0 {
            assert(left_own == 0);
            assert(left_own * alignment == 0) by (nonlinear_arith)
                requires
                    left_own == 0,
            ;
        }
    }
}

} // verus!
