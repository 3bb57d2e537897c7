//! The output guardrail: it screens the model's response before it goes
//! back to the caller.

use crate::guardrails::hybrid::{outcome_of, GuardrailProvider, ProviderReply};
use crate::guardrails::input::{
    decide_by, decision, policy_over, resolve_policy, Decision, DecisionPolicy,
};
use crate::guardrails::provider::{outcome_view, GuardrailError, GuardrailResult, Severity};
use vstd::prelude::*;

verus! {

/// What the settings of the output guardrail may leave open. What is left
/// open is filled in from the defaults of the phase.
#[derive(Debug, Clone, Copy, PartialEq, Eq, Structural)]
pub struct OutputGuardrailConfig {
    pub threshold: Option<Severity>,
    pub fail_open: Option<bool>,
    pub enforce: Option<bool>,
}

/// The policy of the output phase where the settings say nothing: soft. The
/// guardrail observes and does not block, and a failure of the detector
/// lets the response go on.
pub open spec fn output_defaults() -> DecisionPolicy {
    DecisionPolicy { threshold: Severity::High, fail_open: true, enforce: false }
}

/// A detector bound to the output phase and to a decision policy.
pub struct OutputGuardrail {
    detector: GuardrailProvider,
    policy: DecisionPolicy,
}

impl OutputGuardrail {
    /// The policy of the guardrail.
    pub closed spec fn policy_view(self) -> DecisionPolicy {
        self.policy
    }

    /// The detector of the guardrail.
    pub closed spec fn detector_part(self) -> GuardrailProvider {
        self.detector
    }

    /// The id of the detector of the guardrail.
    pub open spec fn detector_id(self) -> Seq<char> {
        self.detector_part().id_view()
    }

    /// Binds `detector` to the output phase. What `config` leaves open is
    /// taken from the defaults of the phase.
    pub fn new(detector: GuardrailProvider, config: OutputGuardrailConfig) -> (r: OutputGuardrail)
        ensures
            r.policy_view() == policy_over(
                output_defaults(),
                config.threshold,
                config.fail_open,
                config.enforce,
            ),
            r.detector_part() == detector,
    {
        let defaults = DecisionPolicy { threshold: Severity::High, fail_open: true, enforce: false };
        OutputGuardrail {
            detector,
            policy: resolve_policy(defaults, config.threshold, config.fail_open, config.enforce),
        }
    }

    /// The policy of the guardrail.
    pub fn policy(&self) -> (r: DecisionPolicy)
        ensures
            r == self.policy_view(),
    {
        self.policy
    }

    /// The threshold that the detector is to judge against.
    pub fn threshold(&self) -> (r: Severity)
        ensures
            r == self.policy_view().threshold,
    {
        self.policy.threshold
    }

    /// The detector of the guardrail.
    pub fn detector(&self) -> (r: &GuardrailProvider)
        ensures
            *r == self.detector_part(),
    {
        &self.detector
    }

    /// Evaluates the complete response with the detector of the guardrail, given
    /// the replies of the remote classifiers.
    pub fn evaluate(&self, text: &str, replies: &Vec<ProviderReply>) -> (r: Result<
        GuardrailResult,
        GuardrailError,
    >)
        ensures
            outcome_view(r) == outcome_of(
                self.detector_part(),
                text@,
                self.policy_view().threshold,
                replies@,
            ),
    {
        self.detector.evaluate(text, self.policy.threshold, replies)
    }

    /// Checks the complete response: evaluates it and decides on the outcome.
    pub fn check(&self, text: &str, replies: &Vec<ProviderReply>) -> (r: Decision)
        ensures
            r@ == decision(
                self.policy_view(),
                outcome_of(self.detector_part(), text@, self.policy_view().threshold, replies@),
            ),
    {
        let outcome = self.detector.evaluate(text, self.policy.threshold, replies);
        decide_by(self.policy, &outcome)
    }

    /// Decides on the outcome of the detector for the complete response.
    pub fn decide(&self, outcome: &Result<GuardrailResult, GuardrailError>) -> (r: Decision)
        ensures
            r@ == decision(self.policy_view(), outcome_view(*outcome)),
    {
        decide_by(self.policy, outcome)
    }
}

} // verus!
