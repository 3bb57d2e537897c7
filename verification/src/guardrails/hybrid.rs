//! The hybrid combinator: a detector composed of other detectors under an
//! aggregation policy and an execution policy.
//!
//! A run of the combinator says which detector to consult next, takes the
//! outcome, and in the end judges what it has merged. A detector that failed
//! is resolved on the spot: under fail-closed it counts as a violation of the
//! highest severity, under fail-open as a detector that found nothing.
//!
//! A caller that reaches remote classifiers drives a run step by step, and
//! so consults no detector in vain. Where the replies of the classifiers are
//! at hand already, `GuardrailProvider::evaluate` evaluates a whole tree of
//! detectors in one call.

use crate::guardrails::gpt_oss_safeguard::{safeguard_outcome, GptOssSafeguardProvider};
use crate::guardrails::llama_guard::{guard_outcome, LlamaGuardProvider};
use crate::guardrails::llama_prompt_guard::{
    prompt_guard_outcome, LlamaPromptGuardProvider, LlamaPromptGuardResult,
};
use crate::guardrails::patterns::{evaluation, PatternDetector};
use crate::guardrails::provider::{
    aggregate_severity, judged, max_severity, outcome_view, string_views, violation_views,
    ClassifierRequest, ErrorKind, GptOssSafeguardResult, GuardrailError, GuardrailErrorView,
    GuardrailResult, GuardrailResultView, LlamaGuardResult, OutcomeView, Reply, Severity,
    Violation, ViolationView,
};
use vstd::prelude::*;

verus! {

/// How the results of several detectors are combined into one verdict.
#[derive(Debug, Clone, Copy, PartialEq, Eq, Hash, Structural)]
pub enum AggregationMode {
    /// Every detector must pass on its own, and every detector is consulted.
    All,
    /// The result passes unless a detector fails to pass; what follows the
    /// first such detector need not be consulted.
    Any,
    /// The result passes if the aggregate severity of the merged violations
    /// stays below the combinator's own cutoff.
    SeverityThreshold,
}

/// How the detectors are consulted.
#[derive(Debug, Clone, Copy, PartialEq, Eq, Hash, Structural)]
pub enum ExecutionMode {
    /// One after the other, in the listed order.
    Sequential,
    /// All at once; the outcomes are merged in the listed order.
    Parallel,
}

/// The policy of a hybrid combinator.
#[derive(Debug, Clone, Copy, PartialEq, Eq, Structural)]
pub struct HybridPolicy {
    pub aggregation: AggregationMode,
    pub execution: ExecutionMode,
    /// Whether a sequential run may end at the first point where the verdict
    /// is a block already.
    pub short_circuit: bool,
    /// Whether a detector that failed counts as one that found nothing. If
    /// not, it counts as a violation of the highest severity.
    pub fail_open: bool,
    /// The cutoff of the `SeverityThreshold` mode.
    pub cutoff: Severity,
}

/// The mathematical content of a `HybridGuardrail`: its id, the ids of its
/// detectors in the listed order, and its policy.
pub struct HybridView {
    pub id: Seq<char>,
    pub children: Seq<Seq<char>>,
    pub policy: HybridPolicy,
}

/// The mathematical content of a run: what has been merged so far, and how
/// many detectors have been consulted.
pub struct RunView {
    pub violations: Seq<ViolationView>,
    pub detectors: Seq<Seq<char>>,
    pub consulted: nat,
}

/// The violation that stands for a detector that failed, under fail-closed.
pub open spec fn failure_violation(child: Seq<char>, e: GuardrailErrorView) -> ViolationView {
    ViolationView {
        category: "detector_failure"@,
        severity: Severity::Critical,
        description: e.detail,
        source: child,
        raw: None,
    }
}

/// The violations that an outcome contributes.
pub open spec fn resolved_violations(outcome: OutcomeView, child: Seq<char>, fail_open: bool) -> Seq<
    ViolationView,
> {
    match outcome {
        Ok(result) => result.violations,
        Err(e) => if fail_open {
            Seq::empty()
        } else {
            seq![failure_violation(child, e)]
        },
    }
}

/// The detector ids that an outcome contributes.
pub open spec fn resolved_detectors(outcome: OutcomeView, child: Seq<char>, fail_open: bool) -> Seq<
    Seq<char>,
> {
    match outcome {
        Ok(result) => result.detectors,
        Err(e) => if fail_open {
            Seq::empty()
        } else {
            seq![child]
        },
    }
}

/// The threshold that the merged violations are judged against: the
/// combinator's own cutoff in the `SeverityThreshold` mode, and the
/// threshold of the evaluation otherwise.
pub open spec fn effective_threshold(policy: HybridPolicy, threshold: Severity) -> Severity {
    match policy.aggregation {
        AggregationMode::SeverityThreshold => policy.cutoff,
        _ => threshold,
    }
}

/// Whether the policy lets a run end before every detector is consulted.
pub open spec fn may_end_early(policy: HybridPolicy) -> bool {
    &&& policy.execution == ExecutionMode::Sequential
    &&& policy.short_circuit
    &&& policy.aggregation != AggregationMode::All
}

/// Whether a run has ended early: under a policy that allows it, a detector
/// has been consulted and what is merged is a block already.
pub open spec fn halted(h: HybridView, run: RunView, threshold: Severity) -> bool {
    &&& may_end_early(h.policy)
    &&& run.consulted > 0
    &&& max_severity(run.violations).rank() >= effective_threshold(h.policy, threshold).rank()
}

/// The position of the detector to consult next, or nothing when the run
/// is over.
pub open spec fn next_child(h: HybridView, run: RunView, threshold: Severity) -> Option<nat> {
    if run.consulted < h.children.len() && !halted(h, run, threshold) {
        Some(run.consulted)
    } else {
        None
    }
}

/// The run before any detector is consulted.
pub open spec fn fresh_run() -> RunView {
    RunView { violations: Seq::empty(), detectors: Seq::empty(), consulted: 0 }
}

/// The run after the outcome of the next detector is taken in: its
/// violations are appended to those merged so far. An outcome that comes
/// when the run is over changes nothing.
pub open spec fn recorded(h: HybridView, run: RunView, outcome: OutcomeView, threshold: Severity) -> RunView {
    match next_child(h, run, threshold) {
        Some(i) => RunView {
            violations: run.violations + resolved_violations(
                outcome,
                h.children[i as int],
                h.policy.fail_open,
            ),
            detectors: run.detectors + resolved_detectors(
                outcome,
                h.children[i as int],
                h.policy.fail_open,
            ),
            consulted: run.consulted + 1,
        },
        None => run,
    }
}

/// The verdict on a run that is over: the merged violations, judged against
/// the effective threshold. A run that is not over has no verdict.
pub open spec fn finished(h: HybridView, run: RunView, threshold: Severity) -> Option<GuardrailResultView> {
    if next_child(h, run, threshold) is None {
        Some(judged(run.violations, run.detectors, effective_threshold(h.policy, threshold)))
    } else {
        None
    }
}

/// The outcome of an evaluation that ends with `result`, or without one: an
/// evaluation that ends before its run is over fails, and never passes.
pub open spec fn outcome_or_timeout(result: Option<GuardrailResultView>) -> OutcomeView {
    match result {
        Some(view) => Ok(view),
        None => Err(
            GuardrailErrorView {
                kind: ErrorKind::EvaluationTimeout,
                detail: "the evaluation ended before every detector was consulted"@,
            },
        ),
    }
}

/// The run after the outcomes from position `from` on are taken in, one
/// after the other.
pub open spec fn run_over(
    h: HybridView,
    outcomes: Seq<OutcomeView>,
    threshold: Severity,
    run: RunView,
    from: int,
) -> RunView
    decreases outcomes.len() - from,
{
    if 0 <= from < outcomes.len() {
        run_over(h, outcomes, threshold, recorded(h, run, outcomes[from], threshold), from + 1)
    } else {
        run
    }
}

/// The result of combining the outcomes of the detectors, given in the
/// listed order; nothing where the outcomes end before the run is over.
pub open spec fn combined(h: HybridView, outcomes: Seq<OutcomeView>, threshold: Severity) -> Option<
    GuardrailResultView,
> {
    finished(h, run_over(h, outcomes, threshold, fresh_run(), 0), threshold)
}

/// The contents of a list of outcomes.
pub open spec fn outcome_views(outcomes: Seq<Result<GuardrailResult, GuardrailError>>) -> Seq<
    OutcomeView,
> {
    outcomes.map_values(|o: Result<GuardrailResult, GuardrailError>| outcome_view(o))
}

/// A detector: one of the closed set of kinds that the engine knows.
pub enum GuardrailProvider {
    Pattern(PatternDetector),
    LlamaGuard(LlamaGuardProvider),
    LlamaPromptGuard(LlamaPromptGuardProvider),
    GptOssSafeguard(GptOssSafeguardProvider),
    Hybrid(HybridGuardrail),
}

/// A detector composed of other detectors.
pub struct HybridGuardrail {
    id: String,
    children: Vec<GuardrailProvider>,
    policy: HybridPolicy,
}

/// The state of one evaluation of a hybrid combinator.
pub struct HybridRun {
    violations: Vec<Violation>,
    detectors: Vec<String>,
    consulted: usize,
}

impl GuardrailProvider {
    /// The id under which the detector reports.
    pub closed spec fn id_view(self) -> Seq<char> {
        match self {
            GuardrailProvider::Pattern(p) => p@.id,
            GuardrailProvider::LlamaGuard(p) => p@.id,
            GuardrailProvider::LlamaPromptGuard(p) => p@.id,
            GuardrailProvider::GptOssSafeguard(p) => p@.id,
            GuardrailProvider::Hybrid(h) => h.id@,
        }
    }

    /// The id under which the detector reports.
    pub fn id(&self) -> (r: &String)
        ensures
            r@ == self.id_view(),
    {
        match self {
            GuardrailProvider::Pattern(p) => p.id(),
            GuardrailProvider::LlamaGuard(p) => p.id(),
            GuardrailProvider::LlamaPromptGuard(p) => p.id(),
            GuardrailProvider::GptOssSafeguard(p) => p.id(),
            GuardrailProvider::Hybrid(h) => &h.id,
        }
    }

}

/// The ids of a list of detectors.
pub open spec fn provider_ids(children: Seq<GuardrailProvider>) -> Seq<Seq<char>> {
    children.map_values(|d: GuardrailProvider| d.id_view())
}

impl View for HybridGuardrail {
    type V = HybridView;

    closed spec fn view(&self) -> HybridView {
        HybridView { id: self.id@, children: provider_ids(self.children@), policy: self.policy }
    }
}

impl View for HybridRun {
    type V = RunView;

    closed spec fn view(&self) -> RunView {
        RunView {
            violations: violation_views(self.violations@),
            detectors: string_views(self.detectors@),
            consulted: self.consulted as nat,
        }
    }
}

/// Appends copies of `from` to `into`.
fn append_violations(into: &mut Vec<Violation>, from: &Vec<Violation>)
    ensures
        violation_views(final(into)@) == violation_views(old(into)@) + violation_views(from@),
{
    let mut i: usize = 0;
    while i < from.len()
        invariant
            i <= from.len(),
            violation_views(into@) == violation_views(old(into)@) + violation_views(
                from@.take(i as int),
            ),
        decreases from.len() - i,
    {
        let v = from[i].duplicate();
        proof {
            assert(violation_views(into@.push(v)) =~= violation_views(into@).push(v@));
            assert(violation_views(from@.take(i + 1)) =~= violation_views(from@.take(i as int)).push(
                from@[i as int]@,
            ));
        }
        into.push(v);
        i += 1;
    }
    assert(from@.take(from.len() as int) =~= from@);
}

/// Appends copies of `from` to `into`.
fn append_strings(into: &mut Vec<String>, from: &Vec<String>)
    ensures
        string_views(final(into)@) == string_views(old(into)@) + string_views(from@),
{
    let mut i: usize = 0;
    while i < from.len()
        invariant
            i <= from.len(),
            string_views(into@) == string_views(old(into)@) + string_views(from@.take(i as int)),
        decreases from.len() - i,
    {
        let s = from[i].clone();
        proof {
            assert(string_views(into@.push(s)) =~= string_views(into@).push(s@));
            assert(string_views(from@.take(i + 1)) =~= string_views(from@.take(i as int)).push(
                from@[i as int]@,
            ));
        }
        into.push(s);
        i += 1;
    }
    assert(from@.take(from.len() as int) =~= from@);
}

impl HybridRun {
    /// How many detectors have been consulted.
    pub fn consulted(&self) -> (r: usize)
        ensures
            r == self@.consulted,
    {
        self.consulted
    }
}

impl HybridGuardrail {
    /// The detectors of the combinator, in the listed order.
    pub closed spec fn parts(self) -> Seq<GuardrailProvider> {
        self.children@
    }

    /// The ids of the combinator's detectors are the ids of its parts.
    pub proof fn lemma_children_are_parts(self)
        ensures
            self@.children == provider_ids(self.parts()),
    {
    }

    /// Builds a combinator over `children`, which must not be empty.
    pub fn new(id: String, children: Vec<GuardrailProvider>, policy: HybridPolicy) -> (r: Result<
        HybridGuardrail,
        GuardrailError,
    >)
        ensures
            r is Ok <==> children@.len() > 0,
            r matches Ok(h) ==> h@ == (HybridView {
                id: id@,
                children: provider_ids(children@),
                policy,
            }) && h.parts() == children@,
            r matches Err(e) ==> e.kind == ErrorKind::ConfigurationInvalid,
    {
        if children.len() == 0 {
            return Err(
                GuardrailError::new(
                    ErrorKind::ConfigurationInvalid,
                    "a hybrid guardrail needs at least one detector",
                ),
            );
        }
        Ok(HybridGuardrail { id, children, policy })
    }

    /// The id under which the combinator reports.
    pub fn id(&self) -> (r: &String)
        ensures
            r@ == self@.id,
    {
        &self.id
    }

    /// The policy of the combinator.
    pub fn policy(&self) -> (r: HybridPolicy)
        ensures
            r == self@.policy,
    {
        self.policy
    }

    /// The number of detectors.
    pub fn child_count(&self) -> (r: usize)
        ensures
            r == self@.children.len(),
    {
        self.children.len()
    }

    /// The detector at position `i` of the listed order.
    pub fn child(&self, i: usize) -> (r: Option<&GuardrailProvider>)
        ensures
            r is Some <==> i < self@.children.len(),
            r matches Some(d) ==> *d == self.parts()[i as int] && d.id_view()
                == self@.children[i as int],
    {
        if i < self.children.len() {
            Some(&self.children[i])
        } else {
            None
        }
    }

    /// The threshold that the merged violations are judged against.
    pub fn threshold_for(&self, threshold: Severity) -> (r: Severity)
        ensures
            r == effective_threshold(self@.policy, threshold),
    {
        match self.policy.aggregation {
            AggregationMode::SeverityThreshold => self.policy.cutoff,
            _ => threshold,
        }
    }

    /// Begins an evaluation.
    pub fn start(&self) -> (run: HybridRun)
        ensures
            run@ == fresh_run(),
    {
        let run = HybridRun { violations: Vec::new(), detectors: Vec::new(), consulted: 0 };
        assert(run@.violations =~= Seq::empty());
        assert(run@.detectors =~= Seq::empty());
        run
    }

    /// The position of the detector to consult next, or nothing when the
    /// run is over.
    pub fn next(&self, run: &HybridRun, threshold: Severity) -> (r: Option<usize>)
        ensures
            match next_child(self@, run@, threshold) {
                Some(i) => r == Some(i as usize) && i < self@.children.len(),
                None => r is None,
            },
    {
        if run.consulted >= self.children.len() {
            return None;
        }
        let may_end_early = match self.policy.execution {
            ExecutionMode::Sequential => self.policy.short_circuit && match self.policy.aggregation {
                AggregationMode::All => false,
                _ => true,
            },
            ExecutionMode::Parallel => false,
        };
        if may_end_early && run.consulted > 0 {
            let so_far = aggregate_severity(&run.violations);
            if !so_far.is_below(self.threshold_for(threshold)) {
                return None;
            }
        }
        Some(run.consulted)
    }

    /// Takes in the outcome of the detector that `next` named: its
    /// violations are appended to those merged so far, and a failure is
    /// resolved by the policy. When the run is over, nothing changes.
    pub fn record(
        &self,
        run: &mut HybridRun,
        outcome: &Result<GuardrailResult, GuardrailError>,
        threshold: Severity,
    )
        ensures
            final(run)@ == recorded(self@, old(run)@, outcome_view(*outcome), threshold),
    {
        let i = match self.next(run, threshold) {
            Some(i) => i,
            None => {
                return;
            },
        };
        let ghost before = run@;
        let ghost child = self@.children[i as int];
        assert(child == self.children@[i as int].id_view());
        match outcome {
            Ok(result) => {
                append_violations(&mut run.violations, &result.violations);
                append_strings(&mut run.detectors, &result.detectors);
            },
            Err(e) => {
                if !self.policy.fail_open {
                    let source = self.children[i].id().clone();
                    let v = Violation {
                        category: "detector_failure".to_owned(),
                        severity: Severity::Critical,
                        description: e.detail.clone(),
                        source,
                        raw: None,
                    };
                    proof {
                        assert(v@ == failure_violation(child, e@));
                        assert(violation_views(run.violations@.push(v)) =~= violation_views(
                            run.violations@,
                        ) + seq![v@]);
                    }
                    run.violations.push(v);
                    let name = self.children[i].id().clone();
                    proof {
                        assert(string_views(run.detectors@.push(name)) =~= string_views(
                            run.detectors@,
                        ) + seq![child]);
                    }
                    run.detectors.push(name);
                } else {
                    proof {
                        assert(before.violations + Seq::<ViolationView>::empty() =~= before.violations);
                        assert(before.detectors + Seq::<Seq<char>>::empty() =~= before.detectors);
                    }
                }
            },
        }
        let count = self.children.len();
        assert(run.consulted == i && i < count);
        run.consulted = i + 1;
    }

    /// Ends an evaluation: judges what has been merged. A run that is not
    /// over, because a detector is still to be consulted, ends as a failure
    /// and never as a pass.
    pub fn finish(&self, run: HybridRun, threshold: Severity) -> (r: Result<
        GuardrailResult,
        GuardrailError,
    >)
        ensures
            outcome_view(r) == outcome_or_timeout(finished(self@, run@, threshold)),
    {
        match self.next(&run, threshold) {
            Some(_) => Err(
                GuardrailError::new(
                    ErrorKind::EvaluationTimeout,
                    "the evaluation ended before every detector was consulted",
                ),
            ),
            None => Ok(
                GuardrailResult::new(run.violations, run.detectors, self.threshold_for(threshold)),
            ),
        }
    }

    /// Combines the outcomes of the detectors, given in the listed order,
    /// into the result of the combinator. Outcomes beyond the end of the run
    /// are not read; outcomes that end before the run is over make the
    /// evaluation fail.
    pub fn combine(
        &self,
        outcomes: &Vec<Result<GuardrailResult, GuardrailError>>,
        threshold: Severity,
    ) -> (r: Result<GuardrailResult, GuardrailError>)
        ensures
            outcome_view(r) == outcome_or_timeout(
                combined(self@, outcome_views(outcomes@), threshold),
            ),
    {
        let mut run = self.start();
        let mut i: usize = 0;
        while i < outcomes.len()
            invariant
                i <= outcomes.len(),
                run_over(self@, outcome_views(outcomes@), threshold, run@, i as int) == run_over(
                    self@,
                    outcome_views(outcomes@),
                    threshold,
                    fresh_run(),
                    0,
                ),
            decreases outcomes.len() - i,
        {
            self.record(&mut run, &outcomes[i], threshold);
            i += 1;
        }
        self.finish(run, threshold)
    }
}

/// The reply of a remote classifier, by the kind of the classifier.
#[derive(Debug, Clone, PartialEq, Eq)]
pub enum ClassifierReply {
    LlamaGuard(Reply<LlamaGuardResult>),
    LlamaPromptGuard(Reply<LlamaPromptGuardResult>),
    GptOssSafeguard(Reply<GptOssSafeguardResult>),
}

/// The reply that came back for the detector with the id `id`.
#[derive(Debug, Clone, PartialEq, Eq)]
pub struct ProviderReply {
    pub id: String,
    pub reply: ClassifierReply,
}

/// The request of the detector with the id `id`.
#[derive(Debug, Clone, PartialEq, Eq)]
pub struct ProviderRequest {
    pub id: String,
    pub request: ClassifierRequest,
}

/// The mathematical content of a `ProviderRequest`.
pub struct ProviderRequestView {
    pub id: Seq<char>,
    pub endpoint: Seq<char>,
    pub model: Seq<char>,
    pub instructions: Seq<char>,
    pub text: Seq<char>,
    pub timeout_ms: u64,
}

impl View for ProviderRequest {
    type V = ProviderRequestView;

    open spec fn view(&self) -> ProviderRequestView {
        ProviderRequestView {
            id: self.id@,
            endpoint: self.request.endpoint@,
            model: self.request.model@,
            instructions: self.request.instructions@,
            text: self.request.text@,
            timeout_ms: self.request.timeout_ms,
        }
    }
}

/// The contents of a list of requests.
pub open spec fn request_views(requests: Seq<ProviderRequest>) -> Seq<ProviderRequestView> {
    requests.map_values(|r: ProviderRequest| r@)
}

/// Whether entry `i` is the first reply for the detector `id`.
pub open spec fn reply_at(replies: Seq<ProviderReply>, id: Seq<char>, i: int) -> bool {
    &&& 0 <= i < replies.len()
    &&& replies[i].id@ == id
    &&& forall|j: int| 0 <= j < i ==> (#[trigger] replies[j]).id@ != id
}

/// The position of the first reply for the detector `id`.
pub open spec fn reply_index(replies: Seq<ProviderReply>, id: Seq<char>) -> int {
    choose|i: int| reply_at(replies, id, i)
}

/// The reply for the detector `id`: the first that bears the id.
pub open spec fn reply_for(replies: Seq<ProviderReply>, id: Seq<char>) -> Option<ClassifierReply> {
    if exists|i: int| reply_at(replies, id, i) {
        Some(replies[reply_index(replies, id)].reply)
    } else {
        None
    }
}

/// The failure of a classifier for which no reply is at hand.
pub open spec fn no_reply() -> GuardrailErrorView {
    GuardrailErrorView {
        kind: ErrorKind::DetectorUnavailable,
        detail: "no reply from the classifier"@,
    }
}

/// The failure of a classifier whose reply is that of another kind.
pub open spec fn foreign_reply() -> GuardrailErrorView {
    GuardrailErrorView {
        kind: ErrorKind::DetectorResponseInvalid,
        detail: "the reply is that of another kind of classifier"@,
    }
}

/// The outcome of a detector for a text, given the replies of the remote
/// classifiers. A pattern detector evaluates the text itself; a classifier
/// detector interprets its reply, and fails where it has none; a hybrid
/// combines the outcomes of its detectors.
pub open spec fn outcome_of(
    d: GuardrailProvider,
    text: Seq<char>,
    threshold: Severity,
    replies: Seq<ProviderReply>,
) -> OutcomeView
    decreases d,
{
    match d {
        GuardrailProvider::Pattern(p) => Ok(evaluation(p@, text, threshold)),
        GuardrailProvider::LlamaGuard(p) => match reply_for(replies, p@.id) {
            Some(ClassifierReply::LlamaGuard(reply)) => guard_outcome(p@, reply, threshold),
            Some(_) => Err(foreign_reply()),
            None => Err(no_reply()),
        },
        GuardrailProvider::LlamaPromptGuard(p) => match reply_for(replies, p@.id) {
            Some(ClassifierReply::LlamaPromptGuard(reply)) => prompt_guard_outcome(
                p@,
                reply,
                threshold,
            ),
            Some(_) => Err(foreign_reply()),
            None => Err(no_reply()),
        },
        GuardrailProvider::GptOssSafeguard(p) => match reply_for(replies, p@.id) {
            Some(ClassifierReply::GptOssSafeguard(reply)) => safeguard_outcome(p@, reply, threshold),
            Some(_) => Err(foreign_reply()),
            None => Err(no_reply()),
        },
        GuardrailProvider::Hybrid(h) => outcome_or_timeout(
            combined(
                h@,
                outcomes_of(h.parts(), text, threshold, replies, h.parts().len() as int),
                threshold,
            ),
        ),
    }
}

/// The outcomes of the first `n` detectors of `ds`.
pub open spec fn outcomes_of(
    ds: Seq<GuardrailProvider>,
    text: Seq<char>,
    threshold: Severity,
    replies: Seq<ProviderReply>,
    n: int,
) -> Seq<OutcomeView>
    decreases ds, n,
{
    if n <= 0 || n > ds.len() {
        Seq::empty()
    } else {
        outcomes_of(ds, text, threshold, replies, n - 1).push(
            outcome_of(ds[n - 1], text, threshold, replies),
        )
    }
}

/// The request of one classifier.
pub open spec fn request_view(
    id: Seq<char>,
    endpoint: Seq<char>,
    model: Seq<char>,
    instructions: Seq<char>,
    text: Seq<char>,
    timeout_ms: u64,
) -> ProviderRequestView {
    ProviderRequestView { id, endpoint, model, instructions, text, timeout_ms }
}

/// The requests that a detector needs answered for a text: one for each
/// classifier under it, in the listed order.
pub open spec fn requests_of(d: GuardrailProvider, text: Seq<char>) -> Seq<ProviderRequestView>
    decreases d,
{
    match d {
        GuardrailProvider::Pattern(p) => Seq::empty(),
        GuardrailProvider::LlamaGuard(p) => seq![
            request_view(p@.id, p@.endpoint, p@.model, Seq::empty(), text, p@.timeout_ms),
        ],
        GuardrailProvider::LlamaPromptGuard(p) => seq![
            request_view(p@.id, p@.endpoint, p@.model, Seq::empty(), text, p@.timeout_ms),
        ],
        GuardrailProvider::GptOssSafeguard(p) => seq![
            request_view(p@.id, p@.endpoint, p@.model, p@.policy, text, p@.timeout_ms),
        ],
        GuardrailProvider::Hybrid(h) => requests_in(h.parts(), text, h.parts().len() as int),
    }
}

/// The requests of the first `n` detectors of `ds`.
pub open spec fn requests_in(ds: Seq<GuardrailProvider>, text: Seq<char>, n: int) -> Seq<
    ProviderRequestView,
>
    decreases ds, n,
{
    if n <= 0 || n > ds.len() {
        Seq::empty()
    } else {
        requests_in(ds, text, n - 1) + requests_of(ds[n - 1], text)
    }
}

/// The first reply for the detector `id`.
fn find_reply<'a>(replies: &'a Vec<ProviderReply>, id: &String) -> (r: Option<&'a ClassifierReply>)
    ensures
        match r {
            Some(reply) => reply_for(replies@, id@) == Some(*reply),
            None => reply_for(replies@, id@) is None,
        },
{
    let mut i: usize = 0;
    while i < replies.len()
        invariant
            i <= replies.len(),
            forall|j: int| 0 <= j < i ==> (#[trigger] replies@[j]).id@ != id@,
        decreases replies.len() - i,
    {
        if replies[i].id == *id {
            proof {
                assert(reply_at(replies@, id@, i as int));
                let c = reply_index(replies@, id@);
                assert(reply_at(replies@, id@, c));
                assert(c == i);
            }
            return Some(&replies[i].reply);
        }
        i += 1;
    }
    None
}

fn request_for(id: &String, request: ClassifierRequest) -> (r: Vec<ProviderRequest>)
    ensures
        request_views(r@) == seq![
            request_view(
                id@,
                request.endpoint@,
                request.model@,
                request.instructions@,
                request.text@,
                request.timeout_ms,
            ),
        ],
{
    let mut r: Vec<ProviderRequest> = Vec::new();
    r.push(ProviderRequest { id: id.clone(), request });
    assert(request_views(r@) =~= seq![r@[0]@]);
    r
}

impl GuardrailProvider {
    /// Evaluates `text`, given the replies of the remote classifiers. A
    /// classifier for which `replies` holds nothing is unavailable.
    pub fn evaluate(&self, text: &str, threshold: Severity, replies: &Vec<ProviderReply>) -> (r:
        Result<GuardrailResult, GuardrailError>)
        ensures
            outcome_view(r) == outcome_of(*self, text@, threshold, replies@),
        decreases self,
    {
        match self {
            GuardrailProvider::Pattern(p) => Ok(p.evaluate(text, threshold)),
            GuardrailProvider::LlamaGuard(p) => match find_reply(replies, p.id()) {
                Some(ClassifierReply::LlamaGuard(reply)) => p.interpret(reply, threshold),
                Some(_) => Err(
                    GuardrailError::new(
                        ErrorKind::DetectorResponseInvalid,
                        "the reply is that of another kind of classifier",
                    ),
                ),
                None => Err(
                    GuardrailError::new(
                        ErrorKind::DetectorUnavailable,
                        "no reply from the classifier",
                    ),
                ),
            },
            GuardrailProvider::LlamaPromptGuard(p) => match find_reply(replies, p.id()) {
                Some(ClassifierReply::LlamaPromptGuard(reply)) => p.interpret(reply, threshold),
                Some(_) => Err(
                    GuardrailError::new(
                        ErrorKind::DetectorResponseInvalid,
                        "the reply is that of another kind of classifier",
                    ),
                ),
                None => Err(
                    GuardrailError::new(
                        ErrorKind::DetectorUnavailable,
                        "no reply from the classifier",
                    ),
                ),
            },
            GuardrailProvider::GptOssSafeguard(p) => match find_reply(replies, p.id()) {
                Some(ClassifierReply::GptOssSafeguard(reply)) => p.interpret(reply, threshold),
                Some(_) => Err(
                    GuardrailError::new(
                        ErrorKind::DetectorResponseInvalid,
                        "the reply is that of another kind of classifier",
                    ),
                ),
                None => Err(
                    GuardrailError::new(
                        ErrorKind::DetectorUnavailable,
                        "no reply from the classifier",
                    ),
                ),
            },
            GuardrailProvider::Hybrid(h) => {
                let mut outcomes: Vec<Result<GuardrailResult, GuardrailError>> = Vec::new();
                let mut i: usize = 0;
                while i < h.children.len()
                    invariant
                        i <= h.children@.len(),
                        *self == GuardrailProvider::Hybrid(*h),
                        outcome_views(outcomes@) == outcomes_of(
                            h.children@,
                            text@,
                            threshold,
                            replies@,
                            i as int,
                        ),
                    decreases h.children.len() - i,
                {
                    proof {
                        vstd::std_specs::vec::axiom_vec_index_decreases(h.children, i as int);
                        assert(self->Hybrid_0 == *h);
                        assert(decreases_to!(*self => self->Hybrid_0));
                        assert(decreases_to!(*h => h.children));
                        assert(decreases_to!(h.children => h.children[i as int]));
                    }
                    let outcome = h.children[i].evaluate(text, threshold, replies);
                    proof {
                        assert(outcome_views(outcomes@.push(outcome)) =~= outcome_views(
                            outcomes@,
                        ).push(outcome_view(outcome)));
                    }
                    outcomes.push(outcome);
                    i += 1;
                }
                h.combine(&outcomes, threshold)
            },
        }
    }

    /// The requests that the detector needs answered for `text`: one for
    /// each classifier under it, in the listed order.
    pub fn requests(&self, text: &str) -> (r: Vec<ProviderRequest>)
        ensures
            request_views(r@) == requests_of(*self, text@),
        decreases self,
    {
        match self {
            GuardrailProvider::Pattern(_) => {
                let r: Vec<ProviderRequest> = Vec::new();
                assert(request_views(r@) =~= Seq::empty());
                r
            },
            GuardrailProvider::LlamaGuard(p) => request_for(p.id(), p.request(text)),
            GuardrailProvider::LlamaPromptGuard(p) => request_for(p.id(), p.request(text)),
            GuardrailProvider::GptOssSafeguard(p) => request_for(p.id(), p.request(text)),
            GuardrailProvider::Hybrid(h) => {
                let mut all: Vec<ProviderRequest> = Vec::new();
                assert(request_views(all@) =~= Seq::empty());
                let mut i: usize = 0;
                while i < h.children.len()
                    invariant
                        i <= h.children@.len(),
                        *self == GuardrailProvider::Hybrid(*h),
                        request_views(all@) == requests_in(h.children@, text@, i as int),
                    decreases h.children.len() - i,
                {
                    proof {
                        vstd::std_specs::vec::axiom_vec_index_decreases(h.children, i as int);
                        assert(self->Hybrid_0 == *h);
                        assert(decreases_to!(*self => self->Hybrid_0));
                        assert(decreases_to!(*h => h.children));
                        assert(decreases_to!(h.children => h.children[i as int]));
                    }
                    let mut more = h.children[i].requests(text);
                    proof {
                        assert(request_views(all@ + more@) =~= request_views(all@) + request_views(
                            more@,
                        ));
                    }
                    all.append(&mut more);
                    i += 1;
                }
                all
            },
        }
    }
}

} // verus!
