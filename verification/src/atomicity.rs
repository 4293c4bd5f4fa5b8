//! What installing and removing a policy does to the engine: all or nothing,
//! and never anything to the filters of others.

use crate::filter::{
    ConditionView, FilterView, FWPM_LAYER_ALE_AUTH_CONNECT_V4, FWPM_LAYER_ALE_AUTH_CONNECT_V6,
    MXC_PROVIDER_GUID, MXC_SUBLAYER_GUID,
};
use crate::ip::ip_literal;
use crate::policy::{
    default_filters, plan, policy_refusal, rule_filters, rules_filters, InstallStep,
    InstallationView, RemovalView, MAX_ACTIVE_POLICIES,
};
use crate::proto::{DefaultPolicy, PolicyId, RuleView};
use vstd::prelude::*;

verus! {

/// The filters in the engine, by their identifiers.
pub type Live = Map<u64, FilterView>;

/// An installation that has not begun.
pub open spec fn begun(id: PolicyId, plan: Seq<FilterView>) -> InstallationView {
    InstallationView { id, plan, installed: Seq::empty(), failure: None, undone: 0 }
}

/// One round with the engine. It gives every filter a fresh identifier, and
/// deletes a filter that it is told to delete or refuses to.
pub open spec fn round(a: (InstallationView, Live), b: (InstallationView, Live)) -> bool {
    match a.0.step() {
        InstallStep::Install => exists|rc: u32, filter_id: u64| #[trigger]
            install_round(a, b, rc, filter_id),
        InstallStep::Delete(filter_id) => b.0 == a.0.deleted() && (b.1 == a.1.remove(filter_id)
            || b.1 == a.1),
        _ => false,
    }
}

/// Whether the engine deletes in a round what it is told to delete.
pub open spec fn deletes(a: (InstallationView, Live), b: (InstallationView, Live)) -> bool {
    a.0.step() is Delete ==> b.1 == a.1.remove(a.0.step()->Delete_0)
}

/// Whether the engine deletes in every round what it is told to delete.
pub open spec fn all_deleted(trace: Seq<(InstallationView, Live)>) -> bool {
    forall|i: int| 0 <= i < trace.len() - 1 ==> #[trigger] deletes(trace[i], trace[i + 1])
}

/// A round in which the engine is asked to add the next filter of the plan and
/// answers with `rc`.
pub open spec fn install_round(
    a: (InstallationView, Live),
    b: (InstallationView, Live),
    rc: u32,
    filter_id: u64,
) -> bool {
    &&& b.0 == a.0.answered(rc, filter_id)
    &&& if rc == 0 {
        &&& !a.1.contains_key(filter_id)
        &&& b.1 == a.1.insert(filter_id, a.0.plan[a.0.installed.len() as int])
    } else {
        b.1 == a.1
    }
}

/// The rounds of an installation from its beginning.
pub open spec fn is_run(trace: Seq<(InstallationView, Live)>) -> bool {
    &&& trace.len() > 0
    &&& trace[0].0 == begun(trace[0].0.id, trace[0].0.plan)
    &&& forall|i: int| 0 <= i < trace.len() - 1 ==> #[trigger] round(trace[i], trace[i + 1])
}

/// Between two rounds the engine holds what it held before, the filters of the
/// plan that are installed and not yet to be deleted, and nothing that is not of
/// the plan.
pub open spec fn in_scope(before: Live, t: InstallationView, live: Live) -> bool {
    &&& t.wf()
    &&& forall|i: int, j: int|
        0 <= i < j < t.installed.len() ==> #[trigger] t.installed[i] != #[trigger] t.installed[j]
    &&& forall|i: int|
        0 <= i < t.installed.len() ==> !before.contains_key(#[trigger] t.installed[i])
    &&& forall|i: int|
        t.undone <= i < t.installed.len() ==> live.contains_key(#[trigger] t.installed[i])
            && live[t.installed[i]] == t.plan[i]
    &&& forall|k: u64| #[trigger]
        live.contains_key(k) ==> before.contains_key(k) || t.installed.contains(k)
    &&& forall|k: u64| #[trigger]
        before.contains_key(k) ==> live.contains_key(k) && live[k] == before[k]
}

/// Whether a filter was installed and is not yet to be deleted.
pub open spec fn is_own(t: InstallationView, k: u64) -> bool {
    exists|i: int| t.undone <= i < t.installed.len() && #[trigger] t.installed[i] == k
}

/// Whether the engine holds nothing besides what it held before but the filters
/// of the plan that are not yet to be deleted.
pub open spec fn is_clean(before: Live, t: InstallationView, live: Live) -> bool {
    forall|k: u64| #[trigger] live.contains_key(k) ==> before.contains_key(k) || is_own(t, k)
}

/// Every round keeps to the scope of the policy, whatever the engine answers.
pub proof fn law_round_keeps_scope(
    before: Live,
    a: (InstallationView, Live),
    b: (InstallationView, Live),
)
    requires
        in_scope(before, a.0, a.1),
        round(a, b),
    ensures
        in_scope(before, b.0, b.1),
        b.0.id == a.0.id,
        b.0.plan == a.0.plan,
{
    match a.0.step() {
        InstallStep::Install => {
            let (rc, filter_id) = choose|rc: u32, filter_id: u64| #[trigger]
                install_round(a, b, rc, filter_id);
            if rc == 0 {
                let n = a.0.installed.len() as int;
                assert(b.0.installed[n] == filter_id);
                assert forall|i: int| 0 <= i < n implies #[trigger] b.0.installed[i]
                    == a.0.installed[i] by {}
                assert(forall|i: int|
                    0 <= i < n ==> a.1.contains_key(#[trigger] a.0.installed[i]));
                assert forall|k: u64| #[trigger] b.1.contains_key(k) implies before.contains_key(k)
                    || b.0.installed.contains(k) by {
                    if k != filter_id {
                        assert(a.1.contains_key(k));
                        if a.0.installed.contains(k) {
                            let i = choose|i: int| 0 <= i < n && a.0.installed[i] == k;
                            assert(b.0.installed[i] == k);
                        }
                    }
                }
            }
        },
        InstallStep::Delete(filter_id) => {
            assert(filter_id == a.0.installed[a.0.undone as int]);
            assert forall|k: u64| #[trigger] b.1.contains_key(k) implies before.contains_key(k)
                || b.0.installed.contains(k) by {
                assert(a.1.contains_key(k));
            }
        },
        _ => {},
    }
}

proof fn lemma_round_clean(
    before: Live,
    a: (InstallationView, Live),
    b: (InstallationView, Live),
)
    requires
        in_scope(before, a.0, a.1),
        is_clean(before, a.0, a.1),
        round(a, b),
        deletes(a, b),
    ensures
        is_clean(before, b.0, b.1),
{
    match a.0.step() {
        InstallStep::Install => {
            let (rc, filter_id) = choose|rc: u32, filter_id: u64| #[trigger]
                install_round(a, b, rc, filter_id);
            assert forall|k: u64| #[trigger] b.1.contains_key(k) implies before.contains_key(k)
                || is_own(b.0, k) by {
                if rc == 0 && k == filter_id {
                    assert(b.0.installed[a.0.installed.len() as int] == k);
                } else {
                    assert(a.1.contains_key(k));
                    if is_own(a.0, k) {
                        let i = choose|i: int|
                            a.0.undone <= i < a.0.installed.len() && #[trigger] a.0.installed[i]
                                == k;
                        assert(b.0.installed[i] == k);
                    }
                }
            }
        },
        InstallStep::Delete(filter_id) => {
            assert forall|k: u64| #[trigger] b.1.contains_key(k) implies before.contains_key(k)
                || is_own(b.0, k) by {
                assert(a.1.contains_key(k));
                if is_own(a.0, k) {
                    let i = choose|i: int|
                        a.0.undone <= i < a.0.installed.len() && #[trigger] a.0.installed[i] == k;
                    assert(b.0.installed[i] == k);
                }
            }
        },
        _ => {},
    }
}

proof fn lemma_run_in_scope(trace: Seq<(InstallationView, Live)>)
    requires
        is_run(trace),
    ensures
        in_scope(trace[0].1, trace.last().0, trace.last().1),
        trace.last().0.id == trace[0].0.id,
        trace.last().0.plan == trace[0].0.plan,
    decreases trace.len(),
{
    if trace.len() > 1 {
        let init = trace.drop_last();
        assert forall|i: int| 0 <= i < init.len() - 1 implies #[trigger] round(
            init[i],
            init[i + 1],
        ) by {
            assert(round(trace[i], trace[i + 1]));
        }
        lemma_run_in_scope(init);
        assert(round(trace[trace.len() - 2], trace[trace.len() - 2 + 1]));
        law_round_keeps_scope(trace[0].1, init.last(), trace.last());
    }
}

proof fn lemma_run_clean(trace: Seq<(InstallationView, Live)>)
    requires
        is_run(trace),
        all_deleted(trace),
    ensures
        is_clean(trace[0].1, trace.last().0, trace.last().1),
    decreases trace.len(),
{
    if trace.len() > 1 {
        let init = trace.drop_last();
        assert forall|i: int| 0 <= i < init.len() - 1 implies #[trigger] round(
            init[i],
            init[i + 1],
        ) by {
            assert(round(trace[i], trace[i + 1]));
        }
        assert forall|i: int| 0 <= i < init.len() - 1 implies #[trigger] deletes(
            init[i],
            init[i + 1],
        ) by {
            assert(deletes(trace[i], trace[i + 1]));
        }
        lemma_run_in_scope(init);
        lemma_run_clean(init);
        assert(round(trace[trace.len() - 2], trace[trace.len() - 2 + 1]));
        assert(deletes(trace[trace.len() - 2], trace[trace.len() - 2 + 1]));
        lemma_round_clean(trace[0].1, init.last(), trace.last());
    }
}

/// Adding a policy is atomic. Where it is aborted, the engine holds what it
/// held before, provided that it deleted what it was told to delete. Where it is
/// committed, the engine holds every filter of the plan besides, each under its
/// own identifier, and nothing else.
pub proof fn law_installation_is_atomic(trace: Seq<(InstallationView, Live)>)
    requires
        is_run(trace),
    ensures
        ({
            let before = trace[0].1;
            let t = trace.last().0;
            let live = trace.last().1;
            &&& t.id == trace[0].0.id
            &&& t.plan == trace[0].0.plan
            &&& t.step() is Abort && all_deleted(trace) ==> live == before
            &&& t.step() is Commit ==> {
                &&& t.installed.len() == t.plan.len()
                &&& t.installed.no_duplicates()
                &&& forall|i: int|
                    0 <= i < t.plan.len() ==> live.contains_key(#[trigger] t.installed[i])
                        && live[t.installed[i]] == t.plan[i] && !before.contains_key(
                        t.installed[i],
                    )
                &&& live.remove_keys(t.installed.to_set()) == before
            }
        }),
{
    lemma_run_in_scope(trace);
    let before = trace[0].1;
    let t = trace.last().0;
    let live = trace.last().1;
    if t.step() is Abort && all_deleted(trace) {
        lemma_run_clean(trace);
        assert forall|k: u64| live.contains_key(k) == before.contains_key(k) by {
            if live.contains_key(k) {
                assert(before.contains_key(k) || is_own(t, k));
            }
        }
        assert(live =~= before);
    }
    if t.step() is Commit {
        let rest = live.remove_keys(t.installed.to_set());
        assert forall|k: u64| rest.contains_key(k) == before.contains_key(k) by {
            if rest.contains_key(k) {
                assert(live.contains_key(k));
                assert(!t.installed.to_set().contains(k));
            }
            if before.contains_key(k) {
                assert(live.contains_key(k));
                assert(!t.installed.to_set().contains(k)) by {
                    if t.installed.contains(k) {
                        let i = choose|i: int| 0 <= i < t.installed.len() && t.installed[i] == k;
                        assert(!before.contains_key(t.installed[i]));
                    }
                }
            }
        }
        assert(rest =~= before);
    }
}

/// How many rounds an installation can still take.
pub open spec fn rounds_left(t: InstallationView) -> int {
    2 * (t.plan.len() - t.installed.len()) + (t.installed.len() - t.undone) + if t.failure is None {
        1int
    } else {
        0
    }
}

/// An installation comes to an end: it takes at most two rounds for each
/// filter of its plan, and one.
pub proof fn law_installation_ends(trace: Seq<(InstallationView, Live)>)
    requires
        is_run(trace),
    ensures
        trace.len() - 1 <= 2 * trace[0].0.plan.len() + 1,
        trace.len() - 1 + rounds_left(trace.last().0) == 2 * trace[0].0.plan.len() + 1,
    decreases trace.len(),
{
    lemma_run_in_scope(trace);
    if trace.len() > 1 {
        let init = trace.drop_last();
        assert forall|i: int| 0 <= i < init.len() - 1 implies #[trigger] round(
            init[i],
            init[i + 1],
        ) by {
            assert(round(trace[i], trace[i + 1]));
        }
        law_installation_ends(init);
        assert(round(trace[trace.len() - 2], trace[trace.len() - 2 + 1]));
    }
}

/// A round of a removal in which the engine is asked to delete the next filter
/// and answers with `rc`. Only an answer of zero means that the filter is gone.
pub open spec fn delete_round(a: (RemovalView, Live), b: (RemovalView, Live), rc: u32) -> bool {
    &&& b.0 == a.0.answered(rc)
    &&& b.1 == (if rc == 0 {
        a.1.remove(a.0.step()->0)
    } else {
        a.1
    })
}

/// The rounds of a removal: each asks for the deletion of one filter.
pub open spec fn removal_round(a: (RemovalView, Live), b: (RemovalView, Live)) -> bool {
    a.0.step() is Some && exists|rc: u32| #[trigger] delete_round(a, b, rc)
}

/// The rounds of a removal from its beginning.
pub open spec fn is_removal_run(trace: Seq<(RemovalView, Live)>) -> bool {
    &&& trace.len() > 0
    &&& trace[0].0.next == 0
    &&& trace[0].0.removed == 0
    &&& forall|i: int| 0 <= i < trace.len() - 1 ==> #[trigger] removal_round(trace[i], trace[i + 1])
}

proof fn lemma_take_to_set(ids: Seq<u64>, n: int)
    requires
        0 <= n < ids.len(),
    ensures
        ids.take(n + 1).to_set() == ids.take(n).to_set().insert(ids[n]),
{
    let less = ids.take(n);
    let more = ids.take(n + 1);
    assert forall|k: u64|
        more.to_set().contains(k) == (less.to_set().contains(k) || k == ids[n]) by {
        if less.contains(k) {
            let i = choose|i: int| 0 <= i < less.len() && less[i] == k;
            assert(more[i] == k);
        }
        assert(more[n] == ids[n]);
        if more.contains(k) {
            let i = choose|i: int| 0 <= i < more.len() && more[i] == k;
            if i < n {
                assert(less[i] == k);
            }
        }
    }
    assert(more.to_set() =~= less.to_set().insert(ids[n]));
}

proof fn lemma_removal(trace: Seq<(RemovalView, Live)>)
    requires
        is_removal_run(trace),
    ensures
        ({
            let t = trace.last().0;
            let asked = t.ids.take(t.next as int).to_set();
            &&& t.ids == trace[0].0.ids
            &&& t.next == trace.len() - 1
            &&& t.removed <= t.next <= t.ids.len()
            &&& t.removed == t.next ==> trace.last().1 == trace[0].1.remove_keys(asked)
            &&& trace.last().1.remove_keys(asked) == trace[0].1.remove_keys(asked)
            &&& trace.last().1.submap_of(trace[0].1)
        }),
    decreases trace.len(),
{
    if trace.len() > 1 {
        let init = trace.drop_last();
        assert forall|i: int| 0 <= i < init.len() - 1 implies #[trigger] removal_round(
            init[i],
            init[i + 1],
        ) by {
            assert(removal_round(trace[i], trace[i + 1]));
        }
        lemma_removal(init);
        assert(removal_round(trace[trace.len() - 2], trace[trace.len() - 2 + 1]));
        let a = init.last();
        let b = trace.last();
        let rc = choose|rc: u32| #[trigger] delete_round(a, b, rc);
        let n = a.0.next as int;
        lemma_take_to_set(a.0.ids, n);
        let less = a.0.ids.take(n).to_set();
        let more = a.0.ids.take(n + 1).to_set();
        let before = trace[0].1;
        if b.0.removed == b.0.next {
            assert(rc == 0);
            assert(b.1 =~= before.remove_keys(more));
        }
        assert forall|k: u64| !more.contains(k) implies a.1.contains_key(k) == before.contains_key(
            k,
        ) && (before.contains_key(k) ==> a.1[k] == before[k]) by {
            assert(a.1.remove_keys(less).contains_key(k) == before.remove_keys(less).contains_key(
                k,
            ));
            if before.contains_key(k) {
                assert(a.1.remove_keys(less)[k] == before.remove_keys(less)[k]);
            }
        }
        assert(b.1.remove_keys(more) =~= before.remove_keys(more));
    } else {
        let t = trace[0].0;
        assert(t.ids.take(0).to_set() =~= Set::empty());
        assert(trace[0].1 =~= trace[0].1.remove_keys(Set::empty()));
    }
}

/// Removing a policy asks for the deletion of its filters, one by one, and
/// touches no others, whatever the engine answers.
pub proof fn law_removal_keeps_to_its_filters(trace: Seq<(RemovalView, Live)>)
    requires
        is_removal_run(trace),
        trace.last().0.step() is None,
    ensures
        trace.last().1.remove_keys(trace[0].0.ids.to_set()) == trace[0].1.remove_keys(
            trace[0].0.ids.to_set(),
        ),
        trace.last().1.submap_of(trace[0].1),
        trace.len() - 1 == trace[0].0.ids.len(),
{
    lemma_removal(trace);
    let t = trace.last().0;
    assert(t.ids.take(t.ids.len() as int) =~= t.ids);
}

/// Where every deletion succeeded, which is where a removal reports as many
/// filters as the policy has, removing the policy took its filters out of the
/// engine, all of them and no others.
pub proof fn law_removal_is_exact(trace: Seq<(RemovalView, Live)>)
    requires
        is_removal_run(trace),
        trace.last().0.step() is None,
        trace.last().0.removed == trace[0].0.ids.len(),
    ensures
        trace.last().1 == trace[0].1.remove_keys(trace[0].0.ids.to_set()),
{
    lemma_removal(trace);
    let t = trace.last().0;
    assert(t.ids.take(t.ids.len() as int) =~= t.ids);
}

/// How often the engine said that it deleted a filter.
pub open spec fn successes(answers: Seq<u32>) -> nat
    decreases answers.len(),
{
    if answers.len() == 0 {
        0
    } else {
        successes(answers.drop_last()) + if answers.last() == 0 {
            1nat
        } else {
            0
        }
    }
}

/// A removal after a list of answers.
pub open spec fn after_answers(t: RemovalView, answers: Seq<u32>) -> RemovalView
    decreases answers.len(),
{
    if answers.len() == 0 {
        t
    } else {
        after_answers(t, answers.drop_last()).answered(answers.last())
    }
}

/// What a removal reports is how many deletions the engine confirmed.
pub proof fn law_removal_counts_successes(ids: Seq<u64>, answers: Seq<u32>)
    ensures
        after_answers(RemovalView { ids, next: 0, removed: 0 }, answers) == (RemovalView {
            ids,
            next: answers.len(),
            removed: successes(answers),
        }),
    decreases answers.len(),
{
    if answers.len() > 0 {
        law_removal_counts_successes(ids, answers.drop_last());
    }
}

/// An operation on the active policies. An addition is finished before the next
/// operation begins.
pub enum PolicyChange {
    /// A policy is asked for under this identifier. If it is not refused, its
    /// installation is committed with these filters, or aborted.
    Add {
        id: u128,
        sddl: Seq<char>,
        converted: Option<Seq<u8>>,
        rules: Seq<RuleView>,
        committed: Option<Seq<u64>>,
    },
    /// A policy is removed.
    Remove(u128),
}

/// The active policies after an operation.
pub open spec fn changed(policies: Map<u128, Seq<u64>>, c: PolicyChange) -> Map<u128, Seq<u64>> {
    match c {
        PolicyChange::Add { id, sddl, converted, rules, committed } => if policy_refusal(
            policies.dom().len(),
            sddl,
            converted,
            rules,
        ) is None && committed is Some {
            policies.insert(id, committed->0)
        } else {
            policies
        },
        PolicyChange::Remove(id) => policies.remove(id),
    }
}

/// The active policies after a list of operations, from none.
pub open spec fn policies_after(changes: Seq<PolicyChange>) -> Map<u128, Seq<u64>>
    decreases changes.len(),
{
    if changes.len() == 0 {
        Map::empty()
    } else {
        changed(policies_after(changes.drop_last()), changes.last())
    }
}

/// However policies are added and removed, there are never more of them than
/// the limit.
pub proof fn law_limit_is_kept(changes: Seq<PolicyChange>)
    ensures
        policies_after(changes).dom().finite(),
        policies_after(changes).dom().len() <= MAX_ACTIVE_POLICIES,
    decreases changes.len(),
{
    if changes.len() > 0 {
        law_limit_is_kept(changes.drop_last());
        let before = policies_after(changes.drop_last());
        match changes.last() {
            PolicyChange::Add { id, sddl, converted, rules, committed } => {
                if committed is Some {
                    assert(before.insert(id, committed->0).dom() =~= before.dom().insert(id));
                }
            },
            PolicyChange::Remove(id) => {
                assert(before.remove(id).dom() =~= before.dom().remove(id));
            },
        }
    }
}

/// A policy that was added and is removed leaves the others as they were,
/// provided that its identifier was not in use.
pub proof fn law_remove_undoes_add(policies: Map<u128, Seq<u64>>, id: u128, ids: Seq<u64>)
    requires
        !policies.contains_key(id),
    ensures
        policies.insert(id, ids).remove(id) == policies,
        policies.insert(id, ids)[id] == ids,
{
    assert(policies.insert(id, ids).remove(id) =~= policies);
}

/// What holds between the active policies and the engine: every filter of a
/// policy is in the engine, and no filter belongs to two policies.
pub open spec fn in_step(policies: Map<u128, Seq<u64>>, live: Live) -> bool {
    &&& forall|p: u128, f: u64| #[trigger]
        owns(policies, p, f) ==> live.contains_key(f)
    &&& forall|p: u128, q: u128, f: u64|
        #![trigger owns(policies, p, f), owns(policies, q, f)]
        owns(policies, p, f) && owns(policies, q, f) ==> p == q
}

/// Whether a filter belongs to an active policy.
pub open spec fn owns(policies: Map<u128, Seq<u64>>, p: u128, f: u64) -> bool {
    policies.contains_key(p) && policies[p].contains(f)
}

/// Adding a policy keeps the active policies and the engine in step, whether it
/// is committed or aborted.
pub proof fn law_adding_keeps_in_step(
    policies: Map<u128, Seq<u64>>,
    trace: Seq<(InstallationView, Live)>,
)
    requires
        is_run(trace),
        in_step(policies, trace[0].1),
        !policies.contains_key(trace[0].0.id.0),
    ensures
        trace.last().0.step() is Abort ==> in_step(policies, trace.last().1),
        trace.last().0.step() is Commit ==> in_step(
            policies.insert(trace.last().0.id.0, trace.last().0.installed),
            trace.last().1,
        ),
{
    law_installation_is_atomic(trace);
    lemma_run_in_scope(trace);
    let before = trace[0].1;
    let t = trace.last().0;
    let live = trace.last().1;
    if t.step() is Commit {
        let after = policies.insert(t.id.0, t.installed);
        assert forall|p: u128, f: u64| #[trigger] owns(after, p, f) implies live.contains_key(f)
            && (p != t.id.0 ==> before.contains_key(f)) && (p == t.id.0 ==> !before.contains_key(
            f,
        )) by {
            if p == t.id.0 {
                let i = choose|i: int| 0 <= i < t.installed.len() && t.installed[i] == f;
                assert(live.contains_key(t.installed[i]));
            } else {
                assert(owns(policies, p, f));
                assert(before.contains_key(f));
            }
        }
        assert forall|p: u128, q: u128, f: u64|
            #![trigger owns(after, p, f), owns(after, q, f)]
            owns(after, p, f) && owns(after, q, f) implies p == q by {
            if p != t.id.0 && q != t.id.0 {
                assert(owns(policies, p, f) && owns(policies, q, f));
            }
        }
    }
}

/// Removing a policy keeps the active policies and the engine in step: the
/// filters of the others are all still there, whatever the engine answers.
pub proof fn law_removing_keeps_in_step(
    policies: Map<u128, Seq<u64>>,
    id: u128,
    trace: Seq<(RemovalView, Live)>,
)
    requires
        is_removal_run(trace),
        trace.last().0.step() is None,
        in_step(policies, trace[0].1),
        policies.contains_key(id),
        trace[0].0.ids == policies[id],
    ensures
        in_step(policies.remove(id), trace.last().1),
{
    law_removal_keeps_to_its_filters(trace);
    let live = trace.last().1;
    let after = policies.remove(id);
    let ids = policies[id].to_set();
    assert forall|p: u128, f: u64| #[trigger] owns(after, p, f) implies live.contains_key(f) by {
        assert(owns(policies, p, f));
        if ids.contains(f) {
            assert(owns(policies, id, f));
        }
        assert(trace[0].1.remove_keys(ids).contains_key(f));
        assert(live.remove_keys(ids).contains_key(f));
    }
    assert forall|p: u128, q: u128, f: u64|
        #![trigger owns(after, p, f), owns(after, q, f)]
        owns(after, p, f) && owns(after, q, f) implies p == q by {
        assert(owns(policies, p, f) && owns(policies, q, f));
    }
}

/// Removing what was added gives the engine back as it was, provided that every
/// deletion succeeded.
pub proof fn law_removal_undoes_installation(
    added: Seq<(InstallationView, Live)>,
    removed: Seq<(RemovalView, Live)>,
)
    requires
        is_run(added),
        added.last().0.step() is Commit,
        is_removal_run(removed),
        removed[0].0.ids == added.last().0.installed,
        removed[0].1 == added.last().1,
        removed.last().0.step() is None,
        removed.last().0.removed == removed[0].0.ids.len(),
    ensures
        removed.last().1 == added[0].1,
{
    law_installation_is_atomic(added);
    law_removal_is_exact(removed);
}

/// Whether the first condition of a filter ties it to a sandbox, in the sublayer
/// of the service and at one of the two layers.
pub open spec fn is_scoped(f: FilterView, sid: Seq<u8>) -> bool {
    &&& f.conditions.len() > 0
    &&& f.conditions[0] == ConditionView::PackageSid(sid)
    &&& f.provider == MXC_PROVIDER_GUID
    &&& f.sublayer == MXC_SUBLAYER_GUID
    &&& f.layer == FWPM_LAYER_ALE_AUTH_CONNECT_V4 || f.layer == FWPM_LAYER_ALE_AUTH_CONNECT_V6
}

/// How many filters a rule has: one where it names an address, two where it
/// speaks of all.
pub open spec fn rule_count(rule: RuleView) -> nat {
    if rule.address is Some && ip_literal(rule.address->0) is Some {
        1
    } else {
        2
    }
}

/// How many filters a list of rules has.
pub open spec fn rules_count(rules: Seq<RuleView>) -> nat
    decreases rules.len(),
{
    if rules.len() == 0 {
        0
    } else {
        rules_count(rules.drop_last()) + rule_count(rules.last())
    }
}

/// How many filters a default has: two where it blocks.
pub open spec fn default_count(default: DefaultPolicy) -> nat {
    match default {
        DefaultPolicy::Allow => 0,
        DefaultPolicy::Block => 2,
    }
}

proof fn lemma_rules_scoped(id: PolicyId, sid: Seq<u8>, rules: Seq<RuleView>)
    ensures
        forall|k: int|
            0 <= k < rules_filters(id, sid, rules).len() ==> is_scoped(
                #[trigger] rules_filters(id, sid, rules)[k],
                sid,
            ),
        rules_filters(id, sid, rules).len() == rules_count(rules),
    decreases rules.len(),
{
    if rules.len() > 0 {
        let head = rules_filters(id, sid, rules.drop_last());
        let tail = rule_filters(id, sid, rules.last());
        lemma_rules_scoped(id, sid, rules.drop_last());
        assert forall|k: int| 0 <= k < (head + tail).len() implies is_scoped(
            #[trigger] (head + tail)[k],
            sid,
        ) by {
            if k < head.len() {
                assert((head + tail)[k] == head[k]);
            } else {
                assert((head + tail)[k] == tail[k - head.len()]);
            }
        }
    }
}

/// Every filter of a policy is tied to the sandbox of the policy, and a policy
/// has two filters for a default that blocks, one for each rule on an address,
/// and two for each rule on all addresses.
pub proof fn law_every_filter_is_scoped(
    id: PolicyId,
    sid: Seq<u8>,
    default: DefaultPolicy,
    rules: Seq<RuleView>,
)
    ensures
        forall|k: int|
            0 <= k < plan(id, sid, default, rules).len() ==> is_scoped(
                #[trigger] plan(id, sid, default, rules)[k],
                sid,
            ),
        plan(id, sid, default, rules).len() == default_count(default) + rules_count(rules),
{
    lemma_rules_scoped(id, sid, rules);
    let head = default_filters(id, sid, default);
    let tail = rules_filters(id, sid, rules);
    assert forall|k: int| 0 <= k < (head + tail).len() implies is_scoped(
        #[trigger] (head + tail)[k],
        sid,
    ) by {
        if k >= head.len() {
            assert((head + tail)[k] == tail[k - head.len()]);
        }
    }
}

} // verus!
