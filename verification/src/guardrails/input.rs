//! The input guardrail: it screens the assembled prompt before the model is
//! called.

use crate::guardrails::hybrid::{outcome_of, GuardrailProvider, ProviderReply};
use crate::guardrails::provider::{
    outcome_view, GuardrailError, GuardrailResult, GuardrailResultView, OutcomeView, Severity,
    Violation, ViolationView, violation_views,
};
use vstd::prelude::*;
use vstd::string::StringExecFns;

verus! {

/// What a guardrail decides about a text.
#[derive(Debug, Clone, PartialEq, Eq)]
pub enum Decision {
    /// The text may go on.
    Allow,
    /// The text is held back, for the given reason.
    Block(String),
    /// The guardrail itself failed, and its policy gives no verdict.
    Error(String),
}

/// The mathematical content of a `Decision`.
pub enum DecisionView {
    Allow,
    Block(Seq<char>),
    Error(Seq<char>),
}

impl View for Decision {
    type V = DecisionView;

    open spec fn view(&self) -> DecisionView {
        match *self {
            Decision::Allow => DecisionView::Allow,
            Decision::Block(reason) => DecisionView::Block(reason@),
            Decision::Error(detail) => DecisionView::Error(detail@),
        }
    }
}

/// How a guardrail turns the outcome of its detector into a decision.
#[derive(Debug, Clone, Copy, PartialEq, Eq, Structural)]
pub struct DecisionPolicy {
    /// Violations of this severity or above make a result fail.
    pub threshold: Severity,
    /// Whether a failure of the detector lets the text go on. If not, the
    /// failure is reported as an error.
    pub fail_open: bool,
    /// Whether a result that fails blocks the text. If not, the guardrail
    /// only observes: findings are left to be logged.
    pub enforce: bool,
}

/// What the settings of a guardrail may leave open. What is left open is
/// filled in from the defaults of the phase.
#[derive(Debug, Clone, Copy, PartialEq, Eq, Structural)]
pub struct InputGuardrailConfig {
    pub threshold: Option<Severity>,
    pub fail_open: Option<bool>,
    pub enforce: Option<bool>,
}

/// The policy of the input phase where the settings say nothing: strict, so
/// that unsafe input is stopped before any model budget is spent.
pub open spec fn input_defaults() -> DecisionPolicy {
    DecisionPolicy { threshold: Severity::Medium, fail_open: false, enforce: true }
}

/// The policy that `config` asks for, over the given defaults.
pub open spec fn policy_over(
    defaults: DecisionPolicy,
    threshold: Option<Severity>,
    fail_open: Option<bool>,
    enforce: Option<bool>,
) -> DecisionPolicy {
    DecisionPolicy {
        threshold: match threshold {
            Some(t) => t,
            None => defaults.threshold,
        },
        fail_open: match fail_open {
            Some(f) => f,
            None => defaults.fail_open,
        },
        enforce: match enforce {
            Some(e) => e,
            None => defaults.enforce,
        },
    }
}

/// Whether violation `i` is the first that has the severity `severity`.
pub open spec fn first_of_severity(violations: Seq<ViolationView>, severity: Severity, i: int) -> bool {
    &&& 0 <= i < violations.len()
    &&& violations[i].severity == severity
    &&& forall|j: int| 0 <= j < i ==> (#[trigger] violations[j]).severity != severity
}

/// The position of the first violation of the severity `severity`.
pub open spec fn position_of_severity(violations: Seq<ViolationView>, severity: Severity) -> int {
    choose|i: int| first_of_severity(violations, severity, i)
}

/// Why a result blocks: the category of the first violation that has the
/// result's aggregate severity, or no more than the bare fact where no
/// violation has it.
pub open spec fn block_reason(result: GuardrailResultView) -> Seq<char> {
    if exists|i: int| first_of_severity(result.violations, result.severity, i) {
        "blocked: "@ + result.violations[position_of_severity(
            result.violations,
            result.severity,
        )].category
    } else {
        "blocked"@
    }
}

/// The decision that a policy makes of an outcome. A result that passes is
/// allowed, and one that fails is blocked where the policy enforces. A
/// failure of the detector is allowed under fail-open and reported as an
/// error under fail-closed: it is never taken for a finding.
pub open spec fn decision(policy: DecisionPolicy, outcome: OutcomeView) -> DecisionView {
    match outcome {
        Ok(result) => if result.passed || !policy.enforce {
            DecisionView::Allow
        } else {
            DecisionView::Block(block_reason(result))
        },
        Err(e) => if policy.fail_open {
            DecisionView::Allow
        } else {
            DecisionView::Error(e.detail)
        },
    }
}

/// Fills in a policy from settings and defaults.
pub fn resolve_policy(
    defaults: DecisionPolicy,
    threshold: Option<Severity>,
    fail_open: Option<bool>,
    enforce: Option<bool>,
) -> (r: DecisionPolicy)
    ensures
        r == policy_over(defaults, threshold, fail_open, enforce),
{
    DecisionPolicy {
        threshold: match threshold {
            Some(t) => t,
            None => defaults.threshold,
        },
        fail_open: match fail_open {
            Some(f) => f,
            None => defaults.fail_open,
        },
        enforce: match enforce {
            Some(e) => e,
            None => defaults.enforce,
        },
    }
}

/// Says why a result blocks.
pub fn reason_for(result: &GuardrailResult) -> (r: String)
    ensures
        r@ == block_reason(result@),
{
    let mut i: usize = 0;
    while i < result.violations.len()
        invariant
            i <= result.violations.len(),
            forall|j: int|
                0 <= j < i ==> (#[trigger] result@.violations[j]).severity != result.severity,
        decreases result.violations.len() - i,
    {
        assert(result@.violations[i as int] == result.violations@[i as int]@);
        if result.violations[i].severity == result.severity {
            proof {
                assert(first_of_severity(result@.violations, result@.severity, i as int));
                let c = position_of_severity(result@.violations, result@.severity);
                assert(first_of_severity(result@.violations, result@.severity, c));
                assert(c == i);
            }
            let mut reason = String::from_str("blocked: ");
            reason.append(result.violations[i].category.as_str());
            return reason;
        }
        i += 1;
    }
    String::from_str("blocked")
}

/// Decides by `policy` on the outcome of a detector.
pub fn decide_by(policy: DecisionPolicy, outcome: &Result<GuardrailResult, GuardrailError>) -> (r:
    Decision)
    ensures
        r@ == decision(policy, outcome_view(*outcome)),
{
    match outcome {
        Ok(result) => {
            if result.passed || !policy.enforce {
                Decision::Allow
            } else {
                Decision::Block(reason_for(result))
            }
        },
        Err(e) => {
            if policy.fail_open {
                Decision::Allow
            } else {
                Decision::Error(e.detail.clone())
            }
        },
    }
}

/// A detector bound to the input phase and to a decision policy.
pub struct InputGuardrail {
    detector: GuardrailProvider,
    policy: DecisionPolicy,
}

impl InputGuardrail {
    /// The policy of the guardrail.
    pub closed spec fn policy_view(self) -> DecisionPolicy {
        self.policy
    }

    /// The detector of the guardrail.
    pub closed spec fn detector_part(self) -> GuardrailProvider {
        self.detector
    }

    /// The id of the detector of the guardrail.
    pub open spec fn detector_id(self) -> Seq<char> {
        self.detector_part().id_view()
    }

    /// Binds `detector` to the input phase. What `config` leaves open is
    /// taken from the defaults of the phase.
    pub fn new(detector: GuardrailProvider, config: InputGuardrailConfig) -> (r: InputGuardrail)
        ensures
            r.policy_view() == policy_over(
                input_defaults(),
                config.threshold,
                config.fail_open,
                config.enforce,
            ),
            r.detector_part() == detector,
    {
        let defaults = DecisionPolicy {
            threshold: Severity::Medium,
            fail_open: false,
            enforce: true,
        };
        InputGuardrail {
            detector,
            policy: resolve_policy(defaults, config.threshold, config.fail_open, config.enforce),
        }
    }

    /// The policy of the guardrail.
    pub fn policy(&self) -> (r: DecisionPolicy)
        ensures
            r == self.policy_view(),
    {
        self.policy
    }

    /// The threshold that the detector is to judge against.
    pub fn threshold(&self) -> (r: Severity)
        ensures
            r == self.policy_view().threshold,
    {
        self.policy.threshold
    }

    /// The detector of the guardrail.
    pub fn detector(&self) -> (r: &GuardrailProvider)
        ensures
            *r == self.detector_part(),
    {
        &self.detector
    }

    /// Evaluates the complete prompt with the detector of the guardrail, given
    /// the replies of the remote classifiers.
    pub fn evaluate(&self, text: &str, replies: &Vec<ProviderReply>) -> (r: Result<
        GuardrailResult,
        GuardrailError,
    >)
        ensures
            outcome_view(r) == outcome_of(
                self.detector_part(),
                text@,
                self.policy_view().threshold,
                replies@,
            ),
    {
        self.detector.evaluate(text, self.policy.threshold, replies)
    }

    /// Checks the complete prompt: evaluates it and decides on the outcome.
    pub fn check(&self, text: &str, replies: &Vec<ProviderReply>) -> (r: Decision)
        ensures
            r@ == decision(
                self.policy_view(),
                outcome_of(self.detector_part(), text@, self.policy_view().threshold, replies@),
            ),
    {
        let outcome = self.detector.evaluate(text, self.policy.threshold, replies);
        decide_by(self.policy, &outcome)
    }

    /// Decides on the outcome of the detector for the complete prompt.
    pub fn decide(&self, outcome: &Result<GuardrailResult, GuardrailError>) -> (r: Decision)
        ensures
            r@ == decision(self.policy_view(), outcome_view(*outcome)),
    {
        decide_by(self.policy, outcome)
    }
}

} // verus!
