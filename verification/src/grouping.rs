//! Greedy grouping of the items of a corpus around representatives.
//!
//! Items are visited in ascending order. An item that no earlier
//! representative has claimed becomes a representative itself and claims every
//! later, still unclaimed item that is linked to it. A representative together
//! with the items it claimed forms a group; groups of one item are not
//! reported.

use vstd::prelude::*;
use crate::score::Score;

verus! {

/// For every pair `i < j` either the score under which `j` may join the group
/// that `i` represents, or nothing.
pub type Links = spec_fn(int, int) -> Option<Score>;

/// The representative of item `j` when only the items below `bound` have been
/// visited: the smallest representative below `bound` that is linked to `j`,
/// or `j` itself if there is none.
pub open spec fn representative_below(links: Links, j: int, bound: int) -> int
    decreases j, bound,
{
    if bound <= 0 || bound > j {
        j
    } else {
        let earlier = representative_below(links, j, bound - 1);
        if earlier != j {
            earlier
        } else if representative_below(links, bound - 1, bound - 1) == bound - 1 && links(
            bound - 1,
            j,
        ) is Some {
            bound - 1
        } else {
            j
        }
    }
}

/// The item whose group `j` belongs to; `j` itself if no earlier
/// representative claimed it.
pub open spec fn representative(links: Links, j: int) -> int {
    representative_below(links, j, j)
}

/// The items below `bound` that `i` represents, in ascending order.
pub open spec fn members_below(links: Links, i: int, bound: int) -> Seq<usize>
    decreases bound,
{
    if bound <= 0 {
        Seq::empty()
    } else {
        let rest = members_below(links, i, bound - 1);
        if representative(links, bound - 1) == i {
            rest.push((bound - 1) as usize)
        } else {
            rest
        }
    }
}

/// The greatest score under which an item below `bound` joined the group of
/// `i`; of equal scores the first one met is kept. Zero while nothing joined.
pub open spec fn best_score_below(links: Links, i: int, bound: int) -> Score
    decreases bound,
{
    if bound <= i + 1 || bound <= 0 {
        Score::spec_zero()
    } else {
        let best = best_score_below(links, i, bound - 1);
        if representative(links, bound - 1) == i && links(i, bound - 1) is Some {
            let joined = links(i, bound - 1)->0;
            if joined.gt(best) {
                joined
            } else {
                best
            }
        } else {
            best
        }
    }
}

/// A group as a mathematical value.
pub struct GroupView {
    pub representative: int,
    pub members: Seq<usize>,
    pub similarity: Score,
}

/// The group that `i` represents among `n` items.
pub open spec fn group_of(links: Links, n: int, i: int) -> GroupView {
    GroupView {
        representative: i,
        members: members_below(links, i, n),
        similarity: best_score_below(links, i, n),
    }
}

/// The groups of at least two items whose representative lies below `bound`,
/// in ascending order of the representative.
pub open spec fn groups_below(links: Links, n: int, bound: int) -> Seq<GroupView>
    decreases bound,
{
    if bound <= 0 {
        Seq::empty()
    } else {
        let earlier = groups_below(links, n, bound - 1);
        if members_below(links, bound - 1, n).len() >= 2 {
            earlier.push(group_of(links, n, bound - 1))
        } else {
            earlier
        }
    }
}

/// The groups that greedy grouping forms among `n` items.
pub open spec fn greedy_groups(links: Links, n: int) -> Seq<GroupView> {
    groups_below(links, n, n)
}

/// The number of items that belong to a group without representing it.
pub open spec fn duplicates_total(groups: Seq<GroupView>) -> int
    decreases groups.len(),
{
    if groups.len() == 0 {
        0
    } else {
        duplicates_total(groups.drop_last()) + groups.last().members.len() - 1
    }
}

/// A group of item indices with the score reported for it.
#[derive(Debug)]
pub struct IndexGroup {
    pub representative: usize,
    pub members: Vec<usize>,
    pub similarity: Score,
}

impl View for IndexGroup {
    type V = GroupView;

    open spec fn view(&self) -> GroupView {
        GroupView {
            representative: self.representative as int,
            members: self.members@,
            similarity: self.similarity,
        }
    }
}

/// The groups of a vector as mathematical values.
pub open spec fn groups_view(groups: Seq<IndexGroup>) -> Seq<GroupView> {
    groups.map_values(|g: IndexGroup| g@)
}

/// A source of pairwise decisions for the grouping pass.
pub trait PairOracle {
    /// What every call of `probe` may rely on.
    spec fn ready(&self) -> bool;

    /// The number of items.
    spec fn size(&self) -> nat;

    /// The score under which `j` may join the group of `i`, if it may.
    spec fn link(&self, i: int, j: int) -> Option<Score>;

    fn count(&self) -> (n: usize)
        requires
            self.ready(),
        ensures
            n == self.size(),
    ;

    fn probe(&self, i: usize, j: usize) -> (answer: Option<Score>)
        requires
            self.ready(),
            i < j < self.size(),
        ensures
            answer == self.link(i as int, j as int),
            answer matches Some(score) ==> score.wf(),
    ;
}

/// The links of an oracle as a function.
pub open spec fn links_of<O: PairOracle>(oracle: &O) -> Links {
    |i: int, j: int| oracle.link(i, j)
}

/// A representative is never a later item, and an item that is not its own
/// representative is linked to a representative below the bound.
pub proof fn lemma_representative_is_earlier(links: Links, j: int, bound: int)
    requires
        0 <= j,
    ensures
        ({
            let r = representative_below(links, j, bound);
            r == j || (0 <= r < j && r < bound && representative(links, r) == r && links(r, j)
                is Some)
        }),
    decreases bound,
{
    if bound <= 0 || bound > j {
    } else {
        lemma_representative_is_earlier(links, j, bound - 1);
    }
}

/// Once an item has been claimed, visiting more items does not change its
/// representative.
pub proof fn lemma_representative_stable(links: Links, j: int, low: int, high: int)
    requires
        0 <= low <= high <= j,
        representative_below(links, j, low) != j,
    ensures
        representative_below(links, j, high) == representative_below(links, j, low),
    decreases high - low,
{
    if low < high {
        lemma_representative_stable(links, j, low, high - 1);
    }
}

/// An item that is unclaimed after the items below `low` were visited is
/// later claimed, if at all, by an item at or above `low`.
pub proof fn lemma_representative_later(links: Links, j: int, low: int, high: int)
    requires
        0 <= low <= high <= j,
        representative_below(links, j, low) == j,
    ensures
        representative_below(links, j, high) == j || low <= representative_below(
            links,
            j,
            high,
        ) < high,
    decreases high - low,
{
    if low < high {
        lemma_representative_later(links, j, low, high - 1);
    }
}

/// Every member of a group lies below the bound and has the group's
/// representative; every such item is a member.
pub proof fn lemma_members_characterised(links: Links, i: int, bound: int)
    requires
        bound <= usize::MAX,
    ensures
        forall|k: usize| #[trigger]
            members_below(links, i, bound).contains(k) <==> (k < bound && representative(
                links,
                k as int,
            ) == i),
        forall|a: int, b: int|
            0 <= a < b < members_below(links, i, bound).len() ==> members_below(
                links,
                i,
                bound,
            )[a] < members_below(links, i, bound)[b],
    decreases bound,
{
    if bound <= 0 {
    } else {
        lemma_members_characterised(links, i, bound - 1);
        let rest = members_below(links, i, bound - 1);
        let all = members_below(links, i, bound);
        if representative(links, bound - 1) == i {
            assert(all == rest.push((bound - 1) as usize));
            assert forall|k: usize| #[trigger] all.contains(k) <==> (k < bound && representative(
                links,
                k as int,
            ) == i) by {
                if all.contains(k) {
                    let at = choose|at: int| 0 <= at < all.len() && all[at] == k;
                    if at < rest.len() {
                        assert(rest[at] == k);
                        assert(rest.contains(k));
                    }
                }
                if k < bound && representative(links, k as int) == i {
                    if k == bound - 1 {
                        assert(all[rest.len() as int] == k);
                    } else {
                        assert(rest.contains(k));
                        let at = choose|at: int| 0 <= at < rest.len() && rest[at] == k;
                        assert(all[at] == k);
                    }
                }
            }
            assert forall|a: int, b: int| 0 <= a < b < all.len() implies all[a] < all[b] by {
                if b == rest.len() {
                    assert(rest.contains(rest[a]));
                }
            }
        }
    }
}

/// Items below a representative are not among its members, and an item that
/// was claimed represents nobody.
pub proof fn lemma_members_start(links: Links, i: int, bound: int)
    requires
        0 <= i,
        bound <= i || representative(links, i) != i,
    ensures
        members_below(links, i, bound).len() == 0,
    decreases bound,
{
    if bound > 0 {
        lemma_members_start(links, i, bound - 1);
        lemma_representative_is_earlier(links, bound - 1, bound - 1);
    }
}

/// Every reported group is the group of its representative and has at least
/// two members, and the representatives ascend along the list.
pub proof fn lemma_groups_described(links: Links, n: int, bound: int)
    ensures
        forall|p: int|
            0 <= p < groups_below(links, n, bound).len() ==> {
                let g = #[trigger] groups_below(links, n, bound)[p];
                &&& 0 <= g.representative < bound
                &&& g == group_of(links, n, g.representative)
                &&& g.members.len() >= 2
            },
        forall|p: int, q: int|
            0 <= p < q < groups_below(links, n, bound).len() ==> groups_below(
                links,
                n,
                bound,
            )[p].representative < groups_below(links, n, bound)[q].representative,
    decreases bound,
{
    if bound > 0 {
        lemma_groups_described(links, n, bound - 1);
        let earlier = groups_below(links, n, bound - 1);
        let all = groups_below(links, n, bound);
        assert forall|p: int| 0 <= p < all.len() implies {
            let g = #[trigger] all[p];
            &&& 0 <= g.representative < bound
            &&& g == group_of(links, n, g.representative)
            &&& g.members.len() >= 2
        } by {
            if p < earlier.len() {
                assert(all[p] == earlier[p]);
            }
        }
        assert forall|p: int, q: int| 0 <= p < q < all.len() implies all[p].representative
            < all[q].representative by {
            assert(all[p] == earlier[p]);
            if q < earlier.len() {
                assert(all[q] == earlier[q]);
            }
        }
    }
}

/// The groups of one result share no item, each has at least two members,
/// and each lists its members in ascending order, the representative first.
pub proof fn lemma_groups_disjoint(links: Links, n: int)
    requires
        0 <= n <= usize::MAX,
    ensures
        forall|p: int|
            0 <= p < greedy_groups(links, n).len() ==> {
                let g = #[trigger] greedy_groups(links, n)[p];
                &&& g.members.len() >= 2
                &&& g.members[0] == g.representative
                &&& forall|a: int, b: int|
                    0 <= a < b < g.members.len() ==> g.members[a] < g.members[b]
                &&& forall|a: int| 0 <= a < g.members.len() ==> g.members[a] < n
            },
        forall|p: int, q: int, k: usize|
            0 <= p < greedy_groups(links, n).len() && 0 <= q < greedy_groups(links, n).len() && p
                != q ==> !(greedy_groups(links, n)[p].members.contains(k) && greedy_groups(
                links,
                n,
            )[q].members.contains(k)),
{
    let groups = greedy_groups(links, n);
    lemma_groups_described(links, n, n);
    assert forall|p: int| 0 <= p < groups.len() implies {
        let g = #[trigger] groups[p];
        &&& g.members.len() >= 2
        &&& g.members[0] == g.representative
        &&& forall|a: int, b: int| 0 <= a < b < g.members.len() ==> g.members[a] < g.members[b]
        &&& forall|a: int| 0 <= a < g.members.len() ==> g.members[a] < n
    } by {
        let g = groups[p];
        let i = g.representative;
        lemma_members_characterised(links, i, n);
        assert forall|a: int| 0 <= a < g.members.len() implies g.members[a] < n by {
            assert(g.members.contains(g.members[a]));
        }
        assert(g.members.contains(g.members[0]));
        lemma_representative_is_earlier(links, g.members[0] as int, g.members[0] as int);
        if representative(links, i) != i {
            lemma_members_start(links, i, n);
        }
        assert(g.members.contains(i as usize));
        let at = choose|at: int| 0 <= at < g.members.len() && g.members[at] == i as usize;
        if at != 0 {
            assert(g.members[0] < g.members[at]);
        }
    }
    assert forall|p: int, q: int, k: usize|
        0 <= p < groups.len() && 0 <= q < groups.len() && p != q implies !(
    groups[p].members.contains(k) && groups[q].members.contains(k)) by {
        lemma_members_characterised(links, groups[p].representative, n);
        lemma_members_characterised(links, groups[q].representative, n);
        if p < q {
            assert(groups[p].representative < groups[q].representative);
        } else {
            assert(groups[q].representative < groups[p].representative);
        }
    }
}

/// The number of items below `bound` that a representative below `seeds`
/// has claimed.
pub open spec fn claimed_below(links: Links, seeds: int, bound: int) -> int
    decreases bound,
{
    if bound <= 0 {
        0
    } else {
        claimed_below(links, seeds, bound - 1) + if representative(links, bound - 1) != bound - 1
            && representative(links, bound - 1) < seeds {
            1int
        } else {
            0int
        }
    }
}

proof fn lemma_claimed_bounds(links: Links, seeds: int, bound: int)
    ensures
        0 <= claimed_below(links, seeds, bound),
        claimed_below(links, seeds, bound) <= bound || bound < 0,
    decreases bound,
{
    if bound > 0 {
        lemma_claimed_bounds(links, seeds, bound - 1);
    }
}

/// Letting one more item represent adds the items that it claims.
proof fn lemma_claimed_step(links: Links, seed: int, bound: int)
    requires
        0 <= seed,
    ensures
        claimed_below(links, seed + 1, bound) == claimed_below(links, seed, bound) + members_below(
            links,
            seed,
            bound,
        ).len() - if seed < bound && representative(links, seed) == seed {
            1int
        } else {
            0int
        },
    decreases bound,
{
    if bound > 0 {
        lemma_claimed_step(links, seed, bound - 1);
        lemma_representative_is_earlier(links, bound - 1, bound - 1);
    }
}

proof fn lemma_duplicates_are_claimed(links: Links, n: int, bound: int)
    requires
        0 <= bound <= n <= usize::MAX,
    ensures
        duplicates_total(groups_below(links, n, bound)) == claimed_below(links, bound, n),
    decreases bound,
{
    if bound <= 0 {
        lemma_claimed_none(links, n);
    } else {
        let seed = bound - 1;
        lemma_duplicates_are_claimed(links, n, seed);
        lemma_claimed_step(links, seed, n);
        let members = members_below(links, seed, n);
        if representative(links, seed) != seed {
            lemma_members_start(links, seed, n);
        }
        if members.len() >= 2 {
            lemma_duplicates_total_push(groups_below(links, n, seed), group_of(links, n, seed));
        } else if representative(links, seed) == seed {
            lemma_members_characterised(links, seed, n);
            assert(members.contains(seed as usize));
        }
    }
}

proof fn lemma_claimed_none(links: Links, bound: int)
    ensures
        claimed_below(links, 0, bound) == 0,
    decreases bound,
{
    if bound > 0 {
        lemma_claimed_none(links, bound - 1);
        lemma_representative_is_earlier(links, bound - 1, bound - 1);
    }
}

/// There are at most as many groups as items that may represent one.
pub proof fn lemma_groups_count(links: Links, n: int, bound: int)
    ensures
        groups_below(links, n, bound).len() <= bound || bound < 0,
    decreases bound,
{
    if bound > 0 {
        lemma_groups_count(links, n, bound - 1);
    }
}

/// The groups among `n` items hold at most `n` items beside their
/// representatives.
pub proof fn lemma_duplicates_bounded(links: Links, n: int)
    requires
        0 <= n <= usize::MAX,
    ensures
        0 <= duplicates_total(greedy_groups(links, n)) <= n,
{
    lemma_duplicates_are_claimed(links, n, n);
    lemma_claimed_bounds(links, n, n);
}

/// Every member of a group but the representative is linked to the
/// representative.
pub proof fn lemma_members_are_linked(links: Links, n: int, p: int, a: int)
    requires
        0 <= n <= usize::MAX,
        0 <= p < greedy_groups(links, n).len(),
        1 <= a < greedy_groups(links, n)[p].members.len(),
    ensures
        links(
            greedy_groups(links, n)[p].representative,
            greedy_groups(links, n)[p].members[a] as int,
        ) is Some,
{
    let group = greedy_groups(links, n)[p];
    let member = group.members[a];
    lemma_groups_described(links, n, n);
    lemma_groups_disjoint(links, n);
    lemma_members_characterised(links, group.representative, n);
    assert(group.members.contains(member));
    assert(group.members[0] < member);
    lemma_representative_is_earlier(links, member as int, member as int);
}

/// Comparing fractions with positive denominators is transitive.
pub proof fn lemma_ge_transitive(a: Score, b: Score, c: Score)
    requires
        a.wf(),
        b.wf(),
        c.wf(),
        a.ge(b),
        b.ge(c),
    ensures
        a.ge(c),
{
    assert(a.num * c.den >= c.num * a.den) by (nonlinear_arith)
        requires
            a.num * b.den >= b.num * a.den,
            b.num * c.den >= c.num * b.den,
            0 < a.den,
            0 < b.den,
            0 < c.den,
            0 <= a.num,
            0 <= b.num,
            0 <= c.num,
    ;
}

/// The score reported for a group is at least the score under which any
/// member joined, where all scores are proper fractions.
pub proof fn lemma_best_score_is_greatest(links: Links, i: int, bound: int, k: int)
    requires
        forall|a: int, b: int| (#[trigger] links(a, b)) matches Some(score) ==> score.wf(),
        i < k < bound,
        representative(links, k) == i,
        links(i, k) is Some,
    ensures
        best_score_below(links, i, bound).wf(),
        best_score_below(links, i, bound).ge(links(i, k)->0),
    decreases bound,
{
    lemma_best_score_wf(links, i, bound - 1);
    let before = best_score_below(links, i, bound - 1);
    let best = best_score_below(links, i, bound);
    let joined = links(i, k)->0;
    assert(joined.wf());
    if k == bound - 1 {
        assert(best.ge(joined)) by (nonlinear_arith)
            requires
                best == (if joined.gt(before) {
                    joined
                } else {
                    before
                }),
        ;
    } else {
        lemma_best_score_is_greatest(links, i, bound - 1, k);
        if representative(links, bound - 1) == i && links(i, bound - 1) is Some {
            let last = links(i, bound - 1)->0;
            assert(last.wf());
            if last.gt(before) {
                assert(last.ge(before));
                lemma_ge_transitive(last, before, joined);
            }
        }
    }
}

/// The score reported for a group is a proper fraction where all scores are.
pub proof fn lemma_best_score_wf(links: Links, i: int, bound: int)
    requires
        forall|a: int, b: int| (#[trigger] links(a, b)) matches Some(score) ==> score.wf(),
    ensures
        best_score_below(links, i, bound).wf(),
    decreases bound,
{
    if !(bound <= i + 1 || bound <= 0) {
        lemma_best_score_wf(links, i, bound - 1);
        if links(i, bound - 1) is Some {
            assert(links(i, bound - 1)->0.wf());
        }
    }
}

/// An item that is linked to a representative below the bound has been
/// claimed, by that representative or by an earlier one.
pub proof fn lemma_representative_found(links: Links, j: int, seed: int, bound: int)
    requires
        0 <= seed < bound <= j,
        representative(links, seed) == seed,
        links(seed, j) is Some,
    ensures
        representative_below(links, j, bound) <= seed,
    decreases bound,
{
    if bound - 1 > seed {
        lemma_representative_found(links, j, seed, bound - 1);
    } else {
        lemma_representative_is_earlier(links, j, bound - 1);
    }
}

/// The links among `n` items behave like an equivalence: an item linked to a
/// later one that is linked to a third is linked to the third, and two items
/// linked to a common later item are linked to each other.
pub open spec fn links_transitive(links: Links, n: int) -> bool {
    &&& forall|a: int, b: int, c: int|
        0 <= a < b < c < n && #[trigger] links(a, b) is Some && #[trigger] links(b, c) is Some
            ==> links(a, c) is Some
    &&& forall|a: int, b: int, c: int|
        0 <= a < b < c < n && #[trigger] links(a, c) is Some && #[trigger] links(b, c) is Some
            ==> links(a, b) is Some
}

/// Under transitive links, two linked items have the same representative.
pub proof fn lemma_linked_items_share_representative(links: Links, n: int, i: int, k: int)
    requires
        links_transitive(links, n),
        0 <= i < k < n,
        links(i, k) is Some,
    ensures
        representative(links, k) == representative(links, i),
{
    let r = representative(links, i);
    lemma_representative_is_earlier(links, i, i);
    assert(links(r, k) is Some);
    lemma_representative_found(links, k, r, k);
    let s = representative(links, k);
    lemma_representative_is_earlier(links, k, k);
    if s < r {
        assert(links(s, r) is Some);
        lemma_representative_found(links, r, s, r);
    }
}

/// Removing links never joins items: where every link of `fewer` is a link of
/// `more` and the links of `more` are transitive, two items that `fewer` puts
/// into one group are in one group under `more` as well.
pub proof fn lemma_fewer_links_never_join(fewer: Links, more: Links, n: int, x: int, y: int)
    requires
        forall|i: int, j: int|
            0 <= i < j < n && #[trigger] fewer(i, j) is Some ==> more(i, j) is Some,
        links_transitive(more, n),
        0 <= x < n,
        0 <= y < n,
        representative(fewer, x) == representative(fewer, y),
    ensures
        representative(more, x) == representative(more, y),
{
    let i = representative(fewer, x);
    lemma_representative_is_earlier(fewer, x, x);
    lemma_representative_is_earlier(fewer, y, y);
    if i != x {
        lemma_linked_items_share_representative(more, n, i, x);
    }
    if i != y {
        lemma_linked_items_share_representative(more, n, i, y);
    }
}

/// A representative with at least one more member has its group in the list.
pub proof fn lemma_group_listed(links: Links, n: int, bound: int, i: int)
    requires
        0 <= i < bound,
        members_below(links, i, n).len() >= 2,
    ensures
        exists|q: int|
            0 <= q < groups_below(links, n, bound).len() && #[trigger] groups_below(
                links,
                n,
                bound,
            )[q] == group_of(links, n, i),
    decreases bound,
{
    let earlier = groups_below(links, n, bound - 1);
    let all = groups_below(links, n, bound);
    if i == bound - 1 {
        assert(all[earlier.len() as int] == group_of(links, n, i));
    } else {
        lemma_group_listed(links, n, bound - 1, i);
        let q = choose|q: int|
            0 <= q < earlier.len() && #[trigger] earlier[q] == group_of(links, n, i);
        assert(all[q] == group_of(links, n, i));
    }
}

/// Removing links keeps groups together: where every link of `fewer` is a
/// link of `more` and the links of `more` are transitive, every group under
/// `fewer` lies within one group under `more`, whose position is returned.
pub proof fn lemma_fewer_links_keep_groups_together(
    fewer: Links,
    more: Links,
    n: int,
    p: int,
) -> (q: int)
    requires
        0 <= n <= usize::MAX,
        forall|i: int, j: int|
            0 <= i < j < n && #[trigger] fewer(i, j) is Some ==> more(i, j) is Some,
        links_transitive(more, n),
        0 <= p < greedy_groups(fewer, n).len(),
    ensures
        0 <= q < greedy_groups(more, n).len(),
        forall|a: int|
            0 <= a < greedy_groups(fewer, n)[p].members.len() ==> greedy_groups(
                more,
                n,
            )[q].members.contains(#[trigger] greedy_groups(fewer, n)[p].members[a]),
{
    let group = greedy_groups(fewer, n)[p];
    let i = group.representative;
    lemma_groups_described(fewer, n, n);
    lemma_groups_disjoint(fewer, n);
    lemma_members_characterised(fewer, i, n);
    lemma_representative_is_earlier(more, i, i);
    let r = representative(more, i);
    let wide = members_below(more, r, n);
    lemma_members_characterised(more, r, n);
    assert forall|a: int| 0 <= a < group.members.len() implies wide.contains(
        #[trigger] group.members[a],
    ) by {
        let k = group.members[a];
        assert(group.members.contains(k));
        assert(group.members.contains(i as usize));
        lemma_fewer_links_never_join(fewer, more, n, k as int, i);
    }
    assert(wide.contains(group.members[0]));
    assert(wide.contains(group.members[1]));
    let first = choose|at: int| 0 <= at < wide.len() && wide[at] == group.members[0];
    let second = choose|at: int| 0 <= at < wide.len() && wide[at] == group.members[1];
    assert(group.members[0] < group.members[1]);
    assert(first != second);
    lemma_group_listed(more, n, n, r);
    let q = choose|q: int|
        0 <= q < greedy_groups(more, n).len() && #[trigger] greedy_groups(more, n)[q] == group_of(
            more,
            n,
            r,
        );
    assert(greedy_groups(more, n)[q].members == wide);
    q
}

proof fn lemma_duplicates_total_push(groups: Seq<GroupView>, group: GroupView)
    ensures
        duplicates_total(groups.push(group)) == duplicates_total(groups) + group.members.len()
            - 1,
{
    assert(groups.push(group).drop_last() =~= groups);
}

/// Forms the groups among the items of an oracle.
pub fn group_greedily<O: PairOracle>(oracle: &O) -> (groups: Vec<IndexGroup>)
    requires
        oracle.ready(),
    ensures
        groups_view(groups@) == greedy_groups(links_of(oracle), oracle.size() as int),
        0 <= duplicates_total(groups_view(groups@)) <= oracle.size(),
        forall|p: int| 0 <= p < groups@.len() ==> (#[trigger] groups@[p]).similarity.wf(),
{
    let n: usize = oracle.count();
    let ghost links = links_of(oracle);
    let mut absorbed: Vec<bool> = Vec::new();
    let mut fill: usize = 0;
    while fill < n
        invariant
            fill <= n,
            absorbed.len() == fill,
            forall|k: int| 0 <= k < fill ==> !absorbed[k],
        decreases n - fill,
    {
        absorbed.push(false);
        fill += 1;
    }
    let mut groups: Vec<IndexGroup> = Vec::new();
    let mut i: usize = 0;
    proof {
        assert(groups_view(groups@) =~= groups_below(links, n as int, 0));
    }
    while i < n
        invariant
            oracle.ready(),
            n == oracle.size(),
            links == links_of(oracle),
            i <= n,
            absorbed.len() == n,
            forall|k: int|
                0 <= k < n ==> (#[trigger] absorbed[k] <==> representative_below(
                    links,
                    k,
                    if k < i {
                        k
                    } else {
                        i as int
                    },
                ) != k),
            groups_view(groups@) == groups_below(links, n as int, i as int),
            forall|p: int| 0 <= p < groups@.len() ==> (#[trigger] groups@[p]).similarity.wf(),
        decreases n - i,
    {
        if absorbed[i] {
            proof {
                lemma_members_start(links, i as int, n as int);
                assert forall|k: int| 0 <= k < n implies (#[trigger] absorbed[k]
                    <==> representative_below(
                    links,
                    k,
                    if k < i + 1 {
                        k
                    } else {
                        i + 1
                    },
                ) != k) by {}
            }
        } else {
            let mut members: Vec<usize> = Vec::new();
            members.push(i);
            let mut best: Score = Score::zero();
            let mut j: usize = i + 1;
            proof {
                lemma_members_start(links, i as int, i as int);
                assert(members@ =~= members_below(links, i as int, i + 1));
            }
            while j < n
                invariant
                    oracle.ready(),
                    n == oracle.size(),
                    links == links_of(oracle),
                    i < j <= n,
                    absorbed.len() == n,
                    representative(links, i as int) == i,
                    forall|k: int|
                        0 <= k < n ==> (#[trigger] absorbed[k] <==> representative_below(
                            links,
                            k,
                            if k <= i {
                                k
                            } else if k < j {
                                i + 1
                            } else {
                                i as int
                            },
                        ) != k),
                    members@ == members_below(links, i as int, j as int),
                    members.len() >= 1,
                    best == best_score_below(links, i as int, j as int),
                    best.wf(),
                decreases n - j,
            {
                if !absorbed[j] {
                    let answer = oracle.probe(i, j);
                    match answer {
                        Some(score) => {
                            proof {
                                lemma_representative_stable(links, j as int, i + 1, j as int);
                            }
                            absorbed.set(j, true);
                            members.push(j);
                            if score.exceeds(&best) {
                                best = score;
                            }
                        },
                        None => {
                            proof {
                                lemma_representative_later(links, j as int, i + 1, j as int);
                            }
                        },
                    }
                } else {
                    proof {
                        lemma_representative_is_earlier(links, j as int, i as int);
                        lemma_representative_stable(links, j as int, i as int, j as int);
                    }
                }
                j += 1;
            }
            proof {
                assert forall|k: int| 0 <= k < n implies (#[trigger] absorbed[k]
                    <==> representative_below(
                    links,
                    k,
                    if k < i + 1 {
                        k
                    } else {
                        i + 1
                    },
                ) != k) by {}
            }
            if members.len() >= 2 {
                let group = IndexGroup { representative: i, members, similarity: best };
                proof {
                    assert(groups_view(groups@.push(group)) =~= groups_view(groups@).push(group@));
                }
                groups.push(group);
            }
        }
        i += 1;
    }
    proof {
        lemma_duplicates_bounded(links, n as int);
    }
    groups
}

} // verus!
