use vstd::prelude::*;

use crate::client::clone_bucket;

verus! {

/// Position at which the `i`-th hook group starts inside the flattened
/// execution order (the summed lengths of the groups before it).
pub open spec fn group_offset(groups: Seq<Seq<usize>>, i: int) -> int
    decreases i,
{
    if i <= 0 {
        0
    } else {
        group_offset(groups, i - 1) + groups[i - 1].len()
    }
}

/// Group offsets never precede the origin.
pub proof fn lemma_group_offset_nonneg(groups: Seq<Seq<usize>>, i: int)
    ensures
        group_offset(groups, i) >= 0,
    decreases i,
{
    if i > 0 {
        lemma_group_offset_nonneg(groups, i - 1);
    }
}

/// Group offsets grow with the group index.
pub proof fn lemma_group_offset_monotonic(groups: Seq<Seq<usize>>, a: int, b: int)
    requires
        a <= b,
    ensures
        group_offset(groups, a) <= group_offset(groups, b),
    decreases b - a,
{
    if a < b {
        lemma_group_offset_monotonic(groups, a, b - 1);
    }
}

/// The order in which one run of the declared hook groups executes its
/// tasks: the groups keep their declared relative order, and the members of
/// each group with more than one member are shuffled uniformly among
/// themselves. Segment `i` of the result (between consecutive group
/// offsets) is always a permutation of group `i`.
pub fn hook_execution_order(groups: &Vec<Vec<usize>>) -> (order: Vec<usize>)
    ensures
        order@.len() == group_offset(groups.deep_view(), groups.deep_view().len() as int),
        forall|i: int|
            0 <= i < groups.deep_view().len() ==> #[trigger] order@.subrange(
                group_offset(groups.deep_view(), i),
                group_offset(groups.deep_view(), i) + groups.deep_view()[i].len(),
            ).to_multiset() == groups.deep_view()[i].to_multiset(),
{
    let ghost g = groups.deep_view();
    let mut order: Vec<usize> = Vec::new();
    let n = groups.len();
    let mut i: usize = 0;
    while i < n
        invariant
            n == groups@.len(),
            g == groups.deep_view(),
            0 <= i <= n,
            order@.len() == group_offset(g, i as int),
            forall|k: int|
                0 <= k < i ==> #[trigger] order@.subrange(
                    group_offset(g, k),
                    group_offset(g, k) + g[k].len(),
                ).to_multiset() == g[k].to_multiset(),
        decreases n - i,
    {
        let mut group = clone_bucket(&groups[i]);
        if group.len() > 1 {
            crate::rng::shuffle_tasks(&mut group);
        }
        let ghost shuffled = group@;
        let ghost before = order@;
        proof {
            assert(g[i as int] =~= groups@[i as int]@);
            assert(shuffled.to_multiset() == g[i as int].to_multiset());
            broadcast use vstd::seq_lib::group_to_multiset_ensures;

            assert(shuffled.len() == g[i as int].len());
        }
        order.append(&mut group);
        proof {
            assert(order@ == before + shuffled);
            assert(order@.len() == group_offset(g, i as int + 1));
            assert forall|k: int| 0 <= k < i as int + 1 implies #[trigger] order@.subrange(
                group_offset(g, k),
                group_offset(g, k) + g[k].len(),
            ).to_multiset() == g[k].to_multiset() by {
                lemma_group_offset_nonneg(g, k);
                if k < i as int {
                    lemma_group_offset_monotonic(g, k + 1, i as int);
                    assert(order@.subrange(group_offset(g, k), group_offset(g, k) + g[k].len())
                        =~= before.subrange(group_offset(g, k), group_offset(g, k) + g[k].len()));
                } else {
                    assert(order@.subrange(group_offset(g, k), group_offset(g, k) + g[k].len())
                        =~= shuffled);
                }
            }
        }
        i = i + 1;
    }
    order
}

/// Hook ordering: every task executed inside segment `i` of a flattened
/// hook order belongs to group `i`, so all members of a group run to
/// completion before any member of a later group starts.
pub proof fn lemma_hook_groups_ordered(
    groups: Seq<Seq<usize>>,
    order: Seq<usize>,
    i: int,
    p: int,
)
    requires
        order.len() == group_offset(groups, groups.len() as int),
        forall|k: int|
            0 <= k < groups.len() ==> #[trigger] order.subrange(
                group_offset(groups, k),
                group_offset(groups, k) + groups[k].len(),
            ).to_multiset() == groups[k].to_multiset(),
        0 <= i < groups.len(),
        group_offset(groups, i) <= p < group_offset(groups, i + 1),
    ensures
        groups[i].contains(order[p]),
{
    broadcast use vstd::seq_lib::group_to_multiset_ensures;

    lemma_group_offset_nonneg(groups, i);
    lemma_group_offset_monotonic(groups, i + 1, groups.len() as int);
    let segment = order.subrange(group_offset(groups, i), group_offset(groups, i) + groups[i].len());
    assert(segment.to_multiset() == groups[i].to_multiset());
    assert(segment[p - group_offset(groups, i)] == order[p]);
    assert(segment.contains(order[p]));
    assert(groups[i].to_multiset().count(order[p]) > 0);
}

} // verus!
