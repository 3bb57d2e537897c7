//! The laws of the hybrid combinator: what its result holds, whatever the
//! detectors found.

use crate::guardrails::hybrid::{
    combined, effective_threshold, failure_violation, fresh_run, may_end_early, next_child,
    recorded, resolved_detectors, resolved_violations, run_over, HybridView, RunView,
};
use crate::guardrails::provider::{
    lemma_max_severity_concat, lemma_max_severity_is_maximum, max_severity, OutcomeView, Severity,
    ViolationView,
};
use vstd::prelude::*;

verus! {

/// The violations that outcome `i` contributes under `h`.
pub open spec fn contribution(h: HybridView, outcomes: Seq<OutcomeView>, i: int) -> Seq<ViolationView> {
    resolved_violations(outcomes[i], h.children[i], h.policy.fail_open)
}

/// The violations of the first `n` outcomes, concatenated in the listed
/// order.
pub open spec fn merged_violations(h: HybridView, outcomes: Seq<OutcomeView>, n: int) -> Seq<
    ViolationView,
>
    decreases n,
{
    if n <= 0 {
        Seq::empty()
    } else {
        merged_violations(h, outcomes, n - 1) + contribution(h, outcomes, n - 1)
    }
}

/// The detector ids of the first `n` outcomes, concatenated in the listed
/// order.
pub open spec fn merged_detectors(h: HybridView, outcomes: Seq<OutcomeView>, n: int) -> Seq<Seq<char>>
    decreases n,
{
    if n <= 0 {
        Seq::empty()
    } else {
        merged_detectors(h, outcomes, n - 1) + resolved_detectors(
            outcomes[n - 1],
            h.children[n - 1],
            h.policy.fail_open,
        )
    }
}

/// The number of violations that the first `n` outcomes contribute: the sum
/// of their counts.
pub open spec fn violation_total(h: HybridView, outcomes: Seq<OutcomeView>, n: int) -> nat
    decreases n,
{
    if n <= 0 {
        0
    } else {
        violation_total(h, outcomes, n - 1) + contribution(h, outcomes, n - 1).len()
    }
}

/// The run as it stands after `n` outcomes, none of which ended it.
pub open spec fn run_after(h: HybridView, outcomes: Seq<OutcomeView>, n: int) -> RunView {
    RunView {
        violations: merged_violations(h, outcomes, n),
        detectors: merged_detectors(h, outcomes, n),
        consulted: n as nat,
    }
}

proof fn lemma_run_over_merges(
    h: HybridView,
    outcomes: Seq<OutcomeView>,
    threshold: Severity,
    run: RunView,
    from: int,
)
    requires
        0 <= from <= outcomes.len(),
        run.consulted <= from,
        run.consulted <= h.children.len(),
        run.consulted == from || next_child(h, run, threshold) is None,
        run == run_after(h, outcomes, run.consulted as int),
    ensures
        ({
            let end = run_over(h, outcomes, threshold, run, from);
            &&& run.consulted <= end.consulted <= outcomes.len()
            &&& end.consulted <= h.children.len()
            &&& end.consulted == outcomes.len() || next_child(h, end, threshold) is None
            &&& end == run_after(h, outcomes, end.consulted as int)
        }),
    decreases outcomes.len() - from,
{
    if from < outcomes.len() {
        let next = recorded(h, run, outcomes[from], threshold);
        lemma_run_over_merges(h, outcomes, threshold, next, from + 1);
    }
}

/// Merging keeps every violation, in the order of consultation and without
/// removing duplicates: what a run has merged is the concatenation of what
/// each consulted detector contributed, so its length is the sum of their
/// counts. A run that cannot end early consults every detector for which
/// there is an outcome.
pub proof fn lemma_merge_keeps_every_violation(
    h: HybridView,
    outcomes: Seq<OutcomeView>,
    threshold: Severity,
)
    ensures
        ({
            let end = run_over(h, outcomes, threshold, fresh_run(), 0);
            let n = end.consulted as int;
            &&& n <= outcomes.len() && n <= h.children.len()
            &&& end.violations == merged_violations(h, outcomes, n)
            &&& end.detectors == merged_detectors(h, outcomes, n)
            &&& end.violations.len() == violation_total(h, outcomes, n)
            &&& forall|i: int|
                0 <= i < n ==> end.violations.subrange(
                    violation_total(h, outcomes, i) as int,
                    violation_total(h, outcomes, i + 1) as int,
                ) == #[trigger] contribution(h, outcomes, i)
            &&& !may_end_early(h.policy) ==> n == outcomes.len() || n == h.children.len()
        }),
{
    lemma_run_over_merges(h, outcomes, threshold, fresh_run(), 0);
    let end = run_over(h, outcomes, threshold, fresh_run(), 0);
    let n = end.consulted as int;
    lemma_merged_len(h, outcomes, n);
    assert forall|i: int| 0 <= i < n implies end.violations.subrange(
        violation_total(h, outcomes, i) as int,
        violation_total(h, outcomes, i + 1) as int,
    ) == #[trigger] contribution(h, outcomes, i) by {
        lemma_merged_block(h, outcomes, n, i);
    }
}

/// The merged violations are as many as the contributions together.
proof fn lemma_merged_len(h: HybridView, outcomes: Seq<OutcomeView>, n: int)
    requires
        0 <= n,
    ensures
        merged_violations(h, outcomes, n).len() == violation_total(h, outcomes, n),
    decreases n,
{
    if n > 0 {
        lemma_merged_len(h, outcomes, n - 1);
    }
}

/// Each contribution stands in the merged violations as a block of its own.
proof fn lemma_merged_block(h: HybridView, outcomes: Seq<OutcomeView>, n: int, i: int)
    requires
        0 <= i < n,
    ensures
        merged_violations(h, outcomes, n).subrange(
            violation_total(h, outcomes, i) as int,
            violation_total(h, outcomes, i + 1) as int,
        ) == contribution(h, outcomes, i),
    decreases n,
{
    let lo = violation_total(h, outcomes, i) as int;
    let hi = violation_total(h, outcomes, i + 1) as int;
    let prev = merged_violations(h, outcomes, n - 1);
    let last = contribution(h, outcomes, n - 1);
    let cur = merged_violations(h, outcomes, n);
    assert(cur == prev + last);
    lemma_merged_len(h, outcomes, n - 1);
    assert(hi == lo + contribution(h, outcomes, i).len());
    if i < n - 1 {
        lemma_merged_block(h, outcomes, n - 1, i);
        lemma_total_rises(h, outcomes, i + 1, n - 1);
        assert(hi <= prev.len());
        assert((prev + last).subrange(lo, hi) =~= prev.subrange(lo, hi));
    } else {
        assert(lo == prev.len());
        assert((prev + last).subrange(lo, hi) =~= last);
    }
}

proof fn lemma_total_rises(h: HybridView, outcomes: Seq<OutcomeView>, i: int, n: int)
    requires
        0 <= i <= n,
    ensures
        violation_total(h, outcomes, i) <= violation_total(h, outcomes, n),
    decreases n - i,
{
    if i < n {
        lemma_total_rises(h, outcomes, i, n - 1);
    }
}

/// No contribution is more severe than the merged violations it is part of.
proof fn lemma_merged_covers(h: HybridView, outcomes: Seq<OutcomeView>, n: int, i: int)
    requires
        0 <= i < n,
    ensures
        max_severity(contribution(h, outcomes, i)).rank() <= max_severity(
            merged_violations(h, outcomes, n),
        ).rank(),
    decreases n,
{
    lemma_max_severity_concat(merged_violations(h, outcomes, n - 1), contribution(h, outcomes, n - 1));
    if i < n - 1 {
        lemma_merged_covers(h, outcomes, n - 1, i);
    }
}

/// The merged violations stay below a threshold exactly if each
/// contribution does: to judge the merged set is to ask every detector to
/// pass on its own.
pub proof fn lemma_passes_iff_each_passes(
    h: HybridView,
    outcomes: Seq<OutcomeView>,
    n: int,
    threshold: Severity,
)
    requires
        0 <= n,
    ensures
        max_severity(merged_violations(h, outcomes, n)).rank() < threshold.rank() <==> (
        threshold.rank() > 0 && forall|i: int|
            0 <= i < n ==> max_severity(#[trigger] contribution(h, outcomes, i)).rank()
                < threshold.rank()),
    decreases n,
{
    if n > 0 {
        lemma_passes_iff_each_passes(h, outcomes, n - 1, threshold);
        lemma_max_severity_concat(
            merged_violations(h, outcomes, n - 1),
            contribution(h, outcomes, n - 1),
        );
        if max_severity(merged_violations(h, outcomes, n)).rank() < threshold.rank() {
            assert forall|i: int| 0 <= i < n implies max_severity(
                #[trigger] contribution(h, outcomes, i),
            ).rank() < threshold.rank() by {
                lemma_merged_covers(h, outcomes, n, i);
            }
        }
    }
}

/// Under fail-closed the failure of one detector forces a block: whatever
/// the aggregation mode, and whatever the other detectors found, the result
/// of the combinator does not pass.
pub proof fn lemma_fail_closed_failure_blocks(
    h: HybridView,
    outcomes: Seq<OutcomeView>,
    threshold: Severity,
    i: int,
)
    requires
        !h.policy.fail_open,
        0 <= i < h.children.len(),
        i < outcomes.len(),
        outcomes[i] is Err,
        combined(h, outcomes, threshold) is Some,
    ensures
        !combined(h, outcomes, threshold)->Some_0.passed,
{
    lemma_run_over_merges(h, outcomes, threshold, fresh_run(), 0);
    let end = run_over(h, outcomes, threshold, fresh_run(), 0);
    let n = end.consulted as int;
    if i < n {
        lemma_merged_covers(h, outcomes, n, i);
        let failure = failure_violation(h.children[i], outcomes[i]->Err_0);
        assert(contribution(h, outcomes, i) == seq![failure]);
        lemma_max_severity_is_maximum(seq![failure]);
        assert(seq![failure][0].severity == Severity::Critical);
    }
}

/// Whether two outcomes contribute the same, whichever detector they come
/// from.
pub open spec fn same_contribution(a: OutcomeView, b: OutcomeView, fail_open: bool) -> bool {
    forall|child: Seq<char>|
        #![trigger resolved_violations(a, child, fail_open)]
        #![trigger resolved_detectors(a, child, fail_open)]
        resolved_violations(a, child, fail_open) == resolved_violations(b, child, fail_open)
            && resolved_detectors(a, child, fail_open) == resolved_detectors(b, child, fail_open)
}

proof fn lemma_same_run(
    h: HybridView,
    first: Seq<OutcomeView>,
    second: Seq<OutcomeView>,
    threshold: Severity,
    run: RunView,
    from: int,
)
    requires
        first.len() == second.len(),
        forall|k: int|
            0 <= k < first.len() ==> same_contribution(
                #[trigger] first[k],
                second[k],
                h.policy.fail_open,
            ),
    ensures
        run_over(h, first, threshold, run, from) == run_over(h, second, threshold, run, from),
    decreases first.len() - from,
{
    if 0 <= from < first.len() {
        assert(same_contribution(first[from], second[from], h.policy.fail_open));
        let next = recorded(h, run, first[from], threshold);
        match next_child(h, run, threshold) {
            Some(i) => {
                let child = h.children[i as int];
                assert(resolved_violations(first[from], child, h.policy.fail_open)
                    == resolved_violations(second[from], child, h.policy.fail_open));
                assert(resolved_detectors(first[from], child, h.policy.fail_open)
                    == resolved_detectors(second[from], child, h.policy.fail_open));
            },
            None => {},
        }
        assert(next == recorded(h, run, second[from], threshold));
        lemma_same_run(h, first, second, threshold, next, from + 1);
    }
}

/// The result of the combinator depends on the outcomes only by what they
/// contribute.
pub proof fn lemma_result_follows_contributions(
    h: HybridView,
    first: Seq<OutcomeView>,
    second: Seq<OutcomeView>,
    threshold: Severity,
)
    requires
        first.len() == second.len(),
        forall|k: int|
            0 <= k < first.len() ==> same_contribution(
                #[trigger] first[k],
                second[k],
                h.policy.fail_open,
            ),
    ensures
        combined(h, first, threshold) == combined(h, second, threshold),
{
    lemma_same_run(h, first, second, threshold, fresh_run(), 0);
}

/// Under fail-open the failure of a detector is ignored: the result is the
/// one that the combinator gives when that detector finds nothing, so that
/// it depends on the other detectors alone. Which failure it was makes no
/// difference either.
pub proof fn lemma_fail_open_ignores_failure(
    h: HybridView,
    outcomes: Seq<OutcomeView>,
    threshold: Severity,
    i: int,
    other: OutcomeView,
)
    requires
        h.policy.fail_open,
        0 <= i < outcomes.len(),
        outcomes[i] is Err,
        other is Err || (other->Ok_0.violations.len() == 0 && other->Ok_0.detectors.len() == 0),
    ensures
        combined(h, outcomes, threshold) == combined(h, outcomes.update(i, other), threshold),
{
    let second = outcomes.update(i, other);
    assert forall|k: int| 0 <= k < outcomes.len() implies same_contribution(
        #[trigger] outcomes[k],
        second[k],
        h.policy.fail_open,
    ) by {
        if k == i {
            assert forall|child: Seq<char>|
                resolved_violations(outcomes[k], child, true) == resolved_violations(
                    second[k],
                    child,
                    true,
                ) && resolved_detectors(outcomes[k], child, true) == resolved_detectors(
                    second[k],
                    child,
                    true,
                ) by {
                assert(resolved_violations(second[k], child, true) =~= Seq::empty());
                assert(resolved_detectors(second[k], child, true) =~= Seq::empty());
            }
        }
    }
    lemma_result_follows_contributions(h, outcomes, second, threshold);
}

/// The result of a combinator is judged like any other: it passes exactly
/// if the greatest severity among its violations lies below the effective
/// threshold.
pub proof fn lemma_combined_is_judged(h: HybridView, outcomes: Seq<OutcomeView>, threshold: Severity)
    requires
        combined(h, outcomes, threshold) is Some,
    ensures
        ({
            let r = combined(h, outcomes, threshold)->Some_0;
            &&& r.severity == max_severity(r.violations)
            &&& r.passed == (max_severity(r.violations).rank() < effective_threshold(
                h.policy,
                threshold,
            ).rank())
        }),
{
}

/// Where there is an outcome for every detector, the run comes to its end
/// and the combinator has a result.
pub proof fn lemma_complete_run_has_result(
    h: HybridView,
    outcomes: Seq<OutcomeView>,
    threshold: Severity,
)
    requires
        outcomes.len() >= h.children.len(),
    ensures
        combined(h, outcomes, threshold) is Some,
{
    lemma_run_over_merges(h, outcomes, threshold, fresh_run(), 0);
}

} // verus!
