//! Consolidation of the raw observations of one fetch into units.

use crate::database::capped;
use crate::screenpipe::Activity;
use vstd::prelude::*;

verus! {

/// Two observations belong to one group where application and window title
/// agree.
pub open spec fn same_group(a: Activity, b: Activity) -> bool {
    a.app_name@ == b.app_name@ && a.window_title@ == b.window_title@
}

/// The seconds of the observations in the group of `key`.
pub open spec fn group_secs(observations: Seq<Activity>, key: Activity) -> nat
    decreases observations.len(),
{
    if observations.len() == 0 {
        0
    } else {
        group_secs(observations.drop_last(), key) + (if same_group(observations.last(), key) {
            observations.last().duration_secs as nat
        } else {
            0
        })
    }
}

/// True where observation `i` is the first of its group.
pub open spec fn opens_group(observations: Seq<Activity>, i: int) -> bool {
    forall|j: int| 0 <= j < i ==> !same_group(#[trigger] observations[j], observations[i])
}

/// The positions of the observations that are the first of their group, in
/// order.
pub open spec fn group_starts(observations: Seq<Activity>) -> Seq<int>
    decreases observations.len(),
{
    if observations.len() == 0 {
        Seq::empty()
    } else if opens_group(observations, observations.len() - 1) {
        group_starts(observations.drop_last()).push(observations.len() - 1)
    } else {
        group_starts(observations.drop_last())
    }
}

/// The unit that stands for the group of observation `i`: that observation
/// with the seconds of its whole group. Sums too large for a `u64` are
/// reported as the largest `u64`.
pub open spec fn merged(observations: Seq<Activity>, i: int) -> Activity {
    Activity {
        duration_secs: capped(group_secs(observations, observations[i])),
        ..observations[i]
    }
}

/// One unit for each group of observations, in the order in which the groups
/// first appear; each unit carries the time and text of its group's first
/// observation and the seconds of the whole group.
pub open spec fn consolidated(observations: Seq<Activity>) -> Seq<Activity> {
    Seq::new(
        group_starts(observations).len(),
        |k: int| merged(observations, group_starts(observations)[k]),
    )
}

/// A group without members has no seconds.
proof fn lemma_absent_group(observations: Seq<Activity>, key: Activity)
    requires
        forall|j: int|
            0 <= j < observations.len() ==> !same_group(#[trigger] observations[j], key),
    ensures
        group_secs(observations, key) == 0,
    decreases observations.len(),
{
    if observations.len() > 0 {
        let rest = observations.drop_last();
        assert forall|j: int| 0 <= j < rest.len() implies !same_group(#[trigger] rest[j], key) by {
            assert(rest[j] == observations[j]);
        }
        lemma_absent_group(rest, key);
        assert(!same_group(observations[observations.len() - 1], key));
    }
}

/// The group starts are exactly the positions of the observations that open
/// a group, in rising order.
pub proof fn lemma_group_starts(observations: Seq<Activity>)
    ensures
        forall|k: int|
            0 <= k < group_starts(observations).len() ==> 0 <= #[trigger] group_starts(
                observations,
            )[k] < observations.len() && opens_group(observations, group_starts(observations)[k]),
        forall|a: int, b: int|
            0 <= a < b < group_starts(observations).len() ==> #[trigger] group_starts(
                observations,
            )[a] < #[trigger] group_starts(observations)[b],
        forall|i: int|
            0 <= i < observations.len() && #[trigger] opens_group(observations, i)
                ==> group_starts(observations).contains(i),
    decreases observations.len(),
{
    if observations.len() > 0 {
        let rest = observations.drop_last();
        let last = observations.len() - 1;
        let starts = group_starts(observations);
        let before = group_starts(rest);
        lemma_group_starts(rest);
        assert forall|i: int| 0 <= i < rest.len() implies opens_group(rest, i) == opens_group(
            observations,
            i,
        ) by {
            assert(rest[i] == observations[i]);
            if opens_group(rest, i) {
                assert forall|j: int| 0 <= j < i implies !same_group(
                    #[trigger] observations[j],
                    observations[i],
                ) by {
                    assert(rest[j] == observations[j]);
                }
            }
            if opens_group(observations, i) {
                assert forall|j: int| 0 <= j < i implies !same_group(#[trigger] rest[j], rest[i]) by {
                    assert(rest[j] == observations[j]);
                }
            }
        }
        assert forall|k: int| 0 <= k < starts.len() implies 0 <= #[trigger] starts[k]
            < observations.len() && opens_group(observations, starts[k]) by {
            if k < before.len() {
                assert(starts[k] == before[k]);
            }
        }
        assert forall|a: int, b: int| 0 <= a < b < starts.len() implies #[trigger] starts[a]
            < #[trigger] starts[b] by {
            assert(starts[a] == before[a]);
            if b < before.len() {
                assert(starts[b] == before[b]);
            }
        }
        assert forall|i: int|
            0 <= i < observations.len() && #[trigger] opens_group(
                observations,
                i,
            ) implies starts.contains(i) by {
            if i < last {
                assert(before.contains(i));
                let k = choose|k: int| 0 <= k < before.len() && before[k] == i;
                assert(starts[k] == i);
            } else {
                assert(starts[starts.len() - 1] == i);
            }
        }
    }
}

/// Consolidation gives exactly one unit for each group: no two units belong
/// to one group, and every observation belongs to the group of some unit.
pub proof fn lemma_one_unit_for_each_group(observations: Seq<Activity>)
    ensures
        forall|a: int, b: int|
            0 <= a < b < consolidated(observations).len() ==> !same_group(
                #[trigger] consolidated(observations)[a],
                #[trigger] consolidated(observations)[b],
            ),
        forall|i: int|
            0 <= i < observations.len() ==> exists|k: int|
                0 <= k < consolidated(observations).len() && same_group(
                    #[trigger] consolidated(observations)[k],
                    #[trigger] observations[i],
                ),
{
    let units = consolidated(observations);
    let starts = group_starts(observations);
    lemma_group_starts(observations);
    assert forall|a: int, b: int| 0 <= a < b < units.len() implies !same_group(
        #[trigger] units[a],
        #[trigger] units[b],
    ) by {
        assert(starts[a] < starts[b]);
        assert(opens_group(observations, starts[b]));
        assert(!same_group(observations[starts[a]], observations[starts[b]]));
    }
    assert forall|i: int| 0 <= i < observations.len() implies exists|k: int|
        0 <= k < units.len() && same_group(#[trigger] units[k], #[trigger] observations[i]) by {
        lemma_group_is_opened(observations, i);
        let f = choose|f: int|
            0 <= f <= i && opens_group(observations, f) && same_group(
                observations[f],
                observations[i],
            );
        assert(starts.contains(f));
        let k = choose|k: int| 0 <= k < starts.len() && starts[k] == f;
        assert(same_group(units[k], observations[i]));
    }
}

/// Every observation has a first of its group, at or before it.
proof fn lemma_group_is_opened(observations: Seq<Activity>, i: int)
    requires
        0 <= i < observations.len(),
    ensures
        exists|f: int|
            0 <= f <= i && opens_group(observations, f) && same_group(
                observations[f],
                observations[i],
            ),
    decreases i,
{
    if opens_group(observations, i) {
        assert(same_group(observations[i], observations[i]));
    } else {
        let j = choose|j: int| 0 <= j < i && same_group(observations[j], observations[i]);
        lemma_group_is_opened(observations, j);
        let f = choose|f: int|
            0 <= f <= j && opens_group(observations, f) && same_group(
                observations[f],
                observations[j],
            );
        assert(same_group(observations[f], observations[i]));
    }
}

/// The place of the unit of `units` that is in the group of `observation`.
fn position_of_group(units: &Vec<Activity>, observation: &Activity) -> (r: Option<usize>)
    ensures
        match r {
            Some(k) => k < units@.len() && same_group(units@[k as int], *observation),
            None => forall|k: int|
                0 <= k < units@.len() ==> !same_group(#[trigger] units@[k], *observation),
        },
{
    let mut k: usize = 0;
    while k < units.len()
        invariant
            k <= units@.len(),
            forall|m: int| 0 <= m < k ==> !same_group(#[trigger] units@[m], *observation),
        decreases units@.len() - k,
    {
        if units[k].app_name == observation.app_name && units[k].window_title
            == observation.window_title {
            return Some(k);
        }
        k = k + 1;
    }
    None
}

/// The sum of two durations, or the largest `u64` where the sum is larger.
fn capped_sum(a: u64, b: u64) -> (r: u64)
    ensures
        r == capped((a + b) as nat),
{
    let sum: u128 = a as u128 + b as u128;
    if sum > u64::MAX as u128 {
        u64::MAX
    } else {
        sum as u64
    }
}

/// Merges the observations of one fetch: one unit for each pair of
/// application and window title, in the order in which the pairs first
/// appear, with the time and text of the pair's first observation and the
/// seconds of all of them.
#[verifier::rlimit(40)]
pub fn consolidate_activities(activities: &[Activity]) -> (units: Vec<Activity>)
    ensures
        units@ == consolidated(activities@),
{
    let mut units: Vec<Activity> = Vec::new();
    let ghost mut firsts: Seq<int> = Seq::empty();
    let mut i: usize = 0;
    while i < activities.len()
        invariant
            i <= activities@.len(),
            firsts == group_starts(activities@.take(i as int)),
            units@.len() == firsts.len(),
            forall|k: int| 0 <= k < firsts.len() ==> 0 <= #[trigger] firsts[k] < i,
            forall|k: int|
                0 <= k < units@.len() ==> #[trigger] units@[k] == merged(
                    activities@.take(i as int),
                    firsts[k],
                ),
            forall|a: int, b: int|
                0 <= a < b < units@.len() ==> !same_group(#[trigger] units@[a], #[trigger] units@[b]),
            forall|j: int|
                0 <= j < i ==> exists|k: int|
                    0 <= k < units@.len() && same_group(
                        #[trigger] units@[k],
                        #[trigger] activities@[j],
                    ),
        decreases activities@.len() - i,
    {
        let ghost seen = activities@.take(i as int);
        let ghost next = activities@.take(i + 1);
        let ghost before = units@;
        let observation = &activities[i];
        proof {
            assert(next.drop_last() == seen);
            assert(next.last() == *observation);
            assert(next[i as int] == *observation);
            assert forall|j: int| 0 <= j < i implies next[j] == activities@[j] by {}
        }
        match position_of_group(&units, observation) {
            Some(k) => {
                let mut unit = units[k].clone();
                unit.duration_secs = capped_sum(unit.duration_secs, observation.duration_secs);
                units.set(k, unit);
                proof {
                    let first = firsts[k as int];
                    assert(before[k as int] == merged(seen, first));
                    assert(seen[first] == activities@[first]);
                    assert(same_group(next[first], next[i as int]));
                    assert(!opens_group(next, i as int));
                    assert forall|m: int| 0 <= m < units@.len() implies #[trigger] units@[m]
                        == merged(next, firsts[m]) by {
                        let f = firsts[m];
                        assert(before[m] == merged(seen, f));
                        assert(seen[f] == activities@[f] && next[f] == activities@[f]);
                        if m != k {
                            if m < k {
                                assert(!same_group(before[m], before[k as int]));
                            } else {
                                assert(!same_group(before[k as int], before[m]));
                            }
                            assert(!same_group(*observation, next[f]));
                        }
                    }
                    assert forall|a: int, b: int| 0 <= a < b < units@.len() implies !same_group(
                        #[trigger] units@[a],
                        #[trigger] units@[b],
                    ) by {
                        assert(!same_group(before[a], before[b]));
                    }
                    assert forall|j: int| 0 <= j < i + 1 implies exists|m: int|
                        0 <= m < units@.len() && same_group(
                            #[trigger] units@[m],
                            #[trigger] activities@[j],
                        ) by {
                        if j < i {
                            let m = choose|m: int|
                                0 <= m < before.len() && same_group(before[m], activities@[j]);
                            assert(same_group(units@[m], activities@[j]));
                        } else {
                            assert(same_group(units@[k as int], activities@[j]));
                        }
                    }
                }
            },
            None => {
                units.push(observation.clone());
                proof {
                    assert forall|j: int| 0 <= j < i implies !same_group(
                        #[trigger] next[j],
                        next[i as int],
                    ) by {
                        let m = choose|m: int|
                            0 <= m < before.len() && same_group(before[m], activities@[j]);
                        assert(!same_group(before[m], *observation));
                    }
                    assert(opens_group(next, i as int));
                    assert forall|j: int| 0 <= j < seen.len() implies !same_group(
                        #[trigger] seen[j],
                        *observation,
                    ) by {
                        assert(seen[j] == next[j]);
                    }
                    lemma_absent_group(seen, *observation);
                    firsts = firsts.push(i as int);
                    assert forall|m: int| 0 <= m < units@.len() implies #[trigger] units@[m]
                        == merged(next, firsts[m]) by {
                        if m < before.len() {
                            let f = firsts[m];
                            assert(before[m] == merged(seen, f));
                            assert(seen[f] == activities@[f] && next[f] == activities@[f]);
                            assert(!same_group(before[m], *observation));
                        }
                    }
                    assert forall|a: int, b: int| 0 <= a < b < units@.len() implies !same_group(
                        #[trigger] units@[a],
                        #[trigger] units@[b],
                    ) by {
                        if b < before.len() {
                            assert(!same_group(before[a], before[b]));
                        } else {
                            assert(!same_group(before[a], *observation));
                        }
                    }
                    assert forall|j: int| 0 <= j < i + 1 implies exists|m: int|
                        0 <= m < units@.len() && same_group(
                            #[trigger] units@[m],
                            #[trigger] activities@[j],
                        ) by {
                        if j < i {
                            let m = choose|m: int|
                                0 <= m < before.len() && same_group(before[m], activities@[j]);
                            assert(same_group(units@[m], activities@[j]));
                        } else {
                            assert(same_group(units@[before.len() as int], activities@[j]));
                        }
                    }
                }
            },
        }
        i = i + 1;
    }
    proof {
        assert(activities@.take(activities@.len() as int) =~= activities@);
        assert(units@ =~= consolidated(activities@));
    }
    units
}

} // verus!
