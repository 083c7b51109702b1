//! The pairwise traversal shared by the three steering rules.
//!
//! Every rule walks the same set of unordered pairs of agents, once per tick,
//! and treats both agents of a pair in the same visit. What differs is the
//! test a pair's distance must pass. [`survey`] performs the walk for one
//! test and reports which pairs passed it, in visiting order, and how many
//! partners each agent found.

use vstd::prelude::*;
use crate::distances::DistanceTable;
use crate::scalar::{
    lemma_units_increase, lemma_units_zero, Scalar, INFINITY_BITS, MIN_NORMAL_BITS,
};

verus! {

/// The test that decides whether the two agents of a pair act on each other.
#[derive(Clone, Copy, Debug, PartialEq, Eq, Structural)]
pub enum Rule {
    /// The agents see each other: their distance is below the threshold.
    Sight,
    /// The agents crowd each other: their distance is below the threshold
    /// and can be divided by, which leaves out coincident agents.
    Crowding,
}

/// Whether a pair at `distance` passes the test of `rule` for `threshold`.
/// The comparison is strict, and a NaN on either side fails it.
pub open spec fn applies(rule: Rule, distance: Scalar, threshold: Scalar) -> bool {
    match rule {
        Rule::Sight => distance.less_than(threshold),
        Rule::Crowding => distance.less_than(threshold) && distance.positive_normal(),
    }
}

/// Decides whether a pair at `distance` passes the test of `rule`.
pub fn rule_applies(rule: Rule, distance: Scalar, threshold: Scalar) -> (r: bool)
    ensures
        r == applies(rule, distance, threshold),
{
    match rule {
        Rule::Sight => distance.lt(threshold),
        Rule::Crowding => distance.lt(threshold) && distance.is_positive_normal(),
    }
}

/// Whether agents `a` and `b` are two distinct agents of the table whose
/// distance passes the test.
pub open spec fn linked(
    table: &DistanceTable,
    rule: Rule,
    threshold: Scalar,
    a: int,
    b: int,
) -> bool {
    &&& 0 <= a < table.population()
    &&& 0 <= b < table.population()
    &&& a != b
    &&& applies(rule, table.between(a, b), threshold)
}

/// Number of agents with an index below `upto` that are linked to agent `k`.
pub open spec fn links_below(
    table: &DistanceTable,
    rule: Rule,
    threshold: Scalar,
    k: int,
    upto: int,
) -> nat
    decreases upto,
{
    if upto <= 0 {
        0
    } else {
        links_below(table, rule, threshold, k, upto - 1) + if linked(
            table,
            rule,
            threshold,
            k,
            upto - 1,
        ) {
            1nat
        } else {
            0nat
        }
    }
}

/// Number of agents linked to agent `k`.
pub open spec fn link_count(table: &DistanceTable, rule: Rule, threshold: Scalar, k: int) -> nat {
    links_below(table, rule, threshold, k, table.population() as int)
}

/// The order in which pairs are visited: by the first agent, then the second.
pub open spec fn visited_before(p: (usize, usize), q: (usize, usize)) -> bool {
    p.0 < q.0 || (p.0 == q.0 && p.1 < q.1)
}

/// `pairs` holds exactly the linked pairs, each once with its smaller index
/// first, in visiting order.
pub open spec fn lists_links(
    pairs: Seq<(usize, usize)>,
    table: &DistanceTable,
    rule: Rule,
    threshold: Scalar,
) -> bool {
    &&& forall|x: int|
        0 <= x < pairs.len() ==> (#[trigger] pairs[x]).0 < pairs[x].1 && linked(
            table,
            rule,
            threshold,
            pairs[x].0 as int,
            pairs[x].1 as int,
        )
    &&& forall|a: usize, b: usize|
        a < b && linked(table, rule, threshold, a as int, b as int) ==> #[trigger] pairs.contains(
            (a, b),
        )
    &&& forall|x: int, y: int|
        0 <= x < y < pairs.len() ==> visited_before(#[trigger] pairs[x], #[trigger] pairs[y])
}

/// An agent has at most `upto` partners below `upto`.
pub proof fn lemma_links_bounded(
    table: &DistanceTable,
    rule: Rule,
    threshold: Scalar,
    k: int,
    upto: int,
)
    requires
        0 <= upto,
    ensures
        links_below(table, rule, threshold, k, upto) <= upto,
    decreases upto,
{
    if upto > 0 {
        lemma_links_bounded(table, rule, threshold, k, upto - 1);
    }
}

/// An agent linked to nobody has no partners.
pub proof fn lemma_unlinked_counts_zero(
    table: &DistanceTable,
    rule: Rule,
    threshold: Scalar,
    k: int,
    upto: int,
)
    requires
        forall|b: int| !linked(table, rule, threshold, k, b),
    ensures
        links_below(table, rule, threshold, k, upto) == 0,
    decreases upto,
{
    if upto > 0 {
        lemma_unlinked_counts_zero(table, rule, threshold, k, upto - 1);
    }
}

/// Number of pairs in `pairs` that agent `k` belongs to.
pub open spec fn memberships(pairs: Seq<(usize, usize)>, k: int) -> nat
    decreases pairs.len(),
{
    if pairs.len() == 0 {
        0
    } else {
        memberships(pairs.drop_last(), k) + if pairs.last().0 == k || pairs.last().1 == k {
            1nat
        } else {
            0nat
        }
    }
}

/// A pair counts for both of its agents together: recording the pair
/// `(left, right)` raises the memberships of `left` and of `right` by one
/// each, and those of no other agent.
pub proof fn lemma_pair_counts_for_both(
    pairs: Seq<(usize, usize)>,
    left: usize,
    right: usize,
    k: int,
)
    ensures
        memberships(pairs.push((left, right)), k) == memberships(pairs, k) + if k == left || k
            == right {
            1nat
        } else {
            0nat
        },
{
    let longer = pairs.push((left, right));
    assert(longer.drop_last() =~= pairs);
    assert(longer.last() == (left, right));
}

/// The memberships of the agents `0, ..., n - 1` in `pairs`, added up.
pub open spec fn total_memberships(pairs: Seq<(usize, usize)>, n: int) -> nat
    decreases n,
{
    if n <= 0 {
        0
    } else {
        total_memberships(pairs, n - 1) + memberships(pairs, n - 1)
    }
}

/// Among the agents below `m`, the last pair of `pairs` adds one membership
/// for each of its two agents that is below `m`.
proof fn lemma_last_pair_adds_its_agents(pairs: Seq<(usize, usize)>, m: int)
    requires
        pairs.len() > 0,
        pairs.last().0 != pairs.last().1,
    ensures
        total_memberships(pairs, m) == total_memberships(pairs.drop_last(), m) + if pairs.last().0
            < m {
            1nat
        } else {
            0nat
        } + if pairs.last().1 < m {
            1nat
        } else {
            0nat
        },
    decreases m,
{
    if m > 0 {
        lemma_last_pair_adds_its_agents(pairs, m - 1);
    }
}

/// Every pair is counted twice, once for each of its agents: over a flock
/// of `n` agents, the memberships of all agents add up to twice the number
/// of pairs.
pub proof fn lemma_every_pair_counts_twice(pairs: Seq<(usize, usize)>, n: int)
    requires
        forall|x: int| 0 <= x < pairs.len() ==> (#[trigger] pairs[x]).0 < pairs[x].1 < n,
    ensures
        total_memberships(pairs, n) == 2 * pairs.len(),
    decreases pairs.len(),
{
    if pairs.len() == 0 {
        lemma_no_pairs_no_memberships(pairs, n);
    } else {
        let earlier = pairs.drop_last();
        assert forall|x: int| 0 <= x < earlier.len() implies (#[trigger] earlier[x]).0
            < earlier[x].1 < n by {
            assert(earlier[x] == pairs[x]);
        }
        lemma_every_pair_counts_twice(earlier, n);
        lemma_last_pair_adds_its_agents(pairs, n);
        assert(pairs.last() == pairs[pairs.len() - 1]);
    }
}

/// Without pairs nobody has a membership.
proof fn lemma_no_pairs_no_memberships(pairs: Seq<(usize, usize)>, m: int)
    requires
        pairs.len() == 0,
    ensures
        total_memberships(pairs, m) == 0,
    decreases m,
{
    if m > 0 {
        lemma_no_pairs_no_memberships(pairs, m - 1);
    }
}

/// No pair is listed twice.
pub proof fn lemma_each_pair_listed_once(
    pairs: Seq<(usize, usize)>,
    table: &DistanceTable,
    rule: Rule,
    threshold: Scalar,
    x: int,
    y: int,
)
    requires
        lists_links(pairs, table, rule, threshold),
        0 <= x < pairs.len(),
        0 <= y < pairs.len(),
        x != y,
    ensures
        pairs[x] != pairs[y],
{
    if x < y {
        assert(visited_before(pairs[x], pairs[y]));
    } else {
        assert(visited_before(pairs[y], pairs[x]));
    }
}

/// Whether two agents are linked does not depend on which is named first.
pub proof fn lemma_links_are_mutual(
    table: &DistanceTable,
    rule: Rule,
    threshold: Scalar,
    a: int,
    b: int,
)
    ensures
        linked(table, rule, threshold, a, b) == linked(table, rule, threshold, b, a),
{
}

/// The threshold is exclusive: a distance equal to the threshold passes
/// neither test.
pub proof fn lemma_threshold_is_excluded(rule: Rule, distance: Scalar, threshold: Scalar)
    requires
        distance.units() == threshold.units(),
    ensures
        !applies(rule, distance, threshold),
{
}

/// Below the threshold a pair is included: a distance that is a number and
/// less than the threshold passes the test of sight, and it passes the test
/// of crowding if it can be divided by.
pub proof fn lemma_below_threshold_is_included(distance: Scalar, threshold: Scalar)
    requires
        !distance.nan(),
        !threshold.nan(),
        distance.units() < threshold.units(),
    ensures
        applies(Rule::Sight, distance, threshold),
        applies(Rule::Crowding, distance, threshold) <==> distance.positive_normal(),
{
}

/// The threshold is tight: the largest number below a positive threshold
/// passes the test of sight, and it passes the test of crowding unless it is
/// too small to be divided by.
pub proof fn lemma_just_below_threshold_is_included(threshold: Scalar)
    requires
        0 < threshold.bits <= INFINITY_BITS,
    ensures
        applies(Rule::Sight, Scalar { bits: (threshold.bits - 1) as u32 }, threshold),
        applies(Rule::Crowding, Scalar { bits: (threshold.bits - 1) as u32 }, threshold)
            <==> threshold.bits > MIN_NORMAL_BITS,
{
    lemma_units_increase((threshold.bits - 1) as nat, threshold.bits as nat);
}

/// Coincident agents do not crowd each other: a pair at distance zero fails
/// the test of crowding whatever the threshold, so that no direction is ever
/// asked of a vector that has none.
pub proof fn lemma_coincident_agents_are_not_crowded(distance: Scalar, threshold: Scalar)
    requires
        distance.zero_valued(),
    ensures
        !applies(Rule::Crowding, distance, threshold),
{
}

/// A threshold that is zero or negative switches a rule off: no distance,
/// which is never negative, is below it.
pub proof fn lemma_nonpositive_threshold_disables(rule: Rule, distance: Scalar, threshold: Scalar)
    requires
        !distance.is_negative(),
        threshold.is_negative() || threshold.zero_valued(),
    ensures
        !applies(rule, distance, threshold),
{
    lemma_units_zero(threshold.magnitude());
}

/// What one walk over all pairs found.
pub struct Survey {
    /// The pairs that passed the test, smaller index first, in visiting order.
    pub pairs: Vec<(usize, usize)>,
    /// For each agent, the number of pairs in `pairs` it belongs to.
    pub counts: Vec<usize>,
}

/// How far the walk, standing before pair `(i, j)`, has looked for partners
/// of agent `k`: every partner below this index has been counted.
spec fn horizon(k: int, i: int, j: int, n: int) -> int {
    if k < i {
        n
    } else if k == i {
        j
    } else if k < j {
        i + 1
    } else {
        i
    }
}

/// Visits every unordered pair of agents once and applies the test of `rule`
/// to its distance. A pair that passes is recorded, and counts for both of
/// its agents in the same visit.
pub fn survey(table: &DistanceTable, rule: Rule, threshold: Scalar) -> (found: Survey)
    ensures
        lists_links(found.pairs@, table, rule, threshold),
        found.counts@.len() == table.population(),
        forall|k: int|
            0 <= k < table.population() ==> found.counts@[k] == link_count(
                table,
                rule,
                threshold,
                k,
            ),
        forall|k: int|
            0 <= k < table.population() ==> found.counts@[k] == memberships(found.pairs@, k),
{
    let n: usize = table.agents();
    let mut pairs: Vec<(usize, usize)> = Vec::new();
    let mut counts: Vec<usize> = Vec::new();
    let mut k: usize = 0;
    while k < n
        invariant
            k <= n,
            counts@.len() == k,
            forall|x: int| 0 <= x < k ==> counts@[x] == 0,
        decreases n - k,
    {
        counts.push(0);
        k += 1;
    }
    let mut i: usize = 0;
    while i < n
        invariant
            n == table.population(),
            i <= n,
            counts@.len() == n,
            forall|k: int|
                0 <= k < n ==> counts@[k] == links_below(
                    table,
                    rule,
                    threshold,
                    k,
                    horizon(k, i as int, i as int, n as int),
                ),
            forall|k: int| 0 <= k < n ==> counts@[k] == memberships(pairs@, k),
            forall|x: int|
                0 <= x < pairs@.len() ==> (#[trigger] pairs@[x]).0 < pairs@[x].1 && pairs@[x].0 < i
                    && linked(table, rule, threshold, pairs@[x].0 as int, pairs@[x].1 as int),
            forall|a: usize, b: usize|
                a < b && a < i && linked(table, rule, threshold, a as int, b as int)
                    ==> #[trigger] pairs@.contains((a, b)),
            forall|x: int, y: int|
                0 <= x < y < pairs@.len() ==> visited_before(
                    #[trigger] pairs@[x],
                    #[trigger] pairs@[y],
                ),
        decreases n - i,
    {
        let mut j: usize = i + 1;
        proof {
            assert(!linked(table, rule, threshold, i as int, i as int));
            assert(links_below(table, rule, threshold, i as int, i + 1) == links_below(
                table,
                rule,
                threshold,
                i as int,
                i as int,
            ));
        }
        while j < n
            invariant
                n == table.population(),
                i < n,
                i < j <= n,
                counts@.len() == n,
                forall|k: int|
                    0 <= k < n ==> counts@[k] == links_below(
                        table,
                        rule,
                        threshold,
                        k,
                        horizon(k, i as int, j as int, n as int),
                    ),
                forall|k: int| 0 <= k < n ==> counts@[k] == memberships(pairs@, k),
                forall|x: int|
                    0 <= x < pairs@.len() ==> (#[trigger] pairs@[x]).0 < pairs@[x].1
                        && visited_before(pairs@[x], (i, j)) && linked(
                        table,
                        rule,
                        threshold,
                        pairs@[x].0 as int,
                        pairs@[x].1 as int,
                    ),
                forall|a: usize, b: usize|
                    a < b && visited_before((a, b), (i, j)) && linked(
                        table,
                        rule,
                        threshold,
                        a as int,
                        b as int,
                    ) ==> #[trigger] pairs@.contains((a, b)),
                forall|x: int, y: int|
                    0 <= x < y < pairs@.len() ==> visited_before(
                        #[trigger] pairs@[x],
                        #[trigger] pairs@[y],
                    ),
            decreases n - j,
        {
            let d: Scalar = table.distance(i, j);
            let ghost before = pairs@;
            if rule_applies(rule, d, threshold) {
                proof {
                    assert(linked(table, rule, threshold, i as int, j as int));
                    assert(linked(table, rule, threshold, j as int, i as int));
                    lemma_links_bounded(table, rule, threshold, i as int, j as int);
                    lemma_links_bounded(table, rule, threshold, j as int, i as int);
                }
                let left: usize = counts[i];
                counts.set(i, left + 1);
                let right: usize = counts[j];
                counts.set(j, right + 1);
                pairs.push((i, j));
                proof {
                    assert forall|k: int| 0 <= k < n implies counts@[k] == memberships(
                        pairs@,
                        k,
                    ) by {
                        lemma_pair_counts_for_both(before, i, j, k);
                    }
                    assert forall|a: usize, b: usize|
                        a < b && visited_before((a, b), (i, (j + 1) as usize)) && linked(
                            table,
                            rule,
                            threshold,
                            a as int,
                            b as int,
                        ) implies #[trigger] pairs@.contains((a, b)) by {
                        if a == i && b == j {
                            assert(pairs@[before.len() as int] == (a, b));
                        } else {
                            assert(before.contains((a, b)));
                            let x = choose|x: int| 0 <= x < before.len() && before[x] == (a, b);
                            assert(pairs@[x] == (a, b));
                        }
                    }
                }
            } else {
                proof {
                    assert(!linked(table, rule, threshold, i as int, j as int));
                    assert(!linked(table, rule, threshold, j as int, i as int));
                }
            }
            j += 1;
        }
        i += 1;
    }
    Survey { pairs, counts }
}

} // verus!
