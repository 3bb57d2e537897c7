//! The policy classifier: it judges a text against a written policy and
//! answers with a verdict and its rationale.

use crate::guardrails::provider::{
    answer_of, is_blank, judged, outcome_view, reply_failure, string_views, violation_views,
    ClassifierRequest, ErrorKind, GptOssSafeguardResult, GuardrailError, GuardrailResult,
    GuardrailResultView, OutcomeView, ProviderSpecificResult, RawView, Reply, Severity, Violation,
    ViolationView,
};
use vstd::prelude::*;

verus! {

/// The settings of the policy classifier.
#[derive(Debug, Clone, PartialEq, Eq)]
pub struct GptOssSafeguardConfig {
    /// The id under which the detector reports.
    pub id: String,
    pub endpoint: String,
    pub model: String,
    pub timeout_ms: u64,
    /// The policy that the classifier judges by.
    pub policy: String,
    /// The severity of a text that the classifier finds in violation.
    pub severity: Severity,
}

/// The mathematical content of a `GptOssSafeguardConfig`.
pub struct GptOssSafeguardConfigView {
    pub id: Seq<char>,
    pub endpoint: Seq<char>,
    pub model: Seq<char>,
    pub timeout_ms: u64,
    pub policy: Seq<char>,
    pub severity: Severity,
}

impl View for GptOssSafeguardConfig {
    type V = GptOssSafeguardConfigView;

    open spec fn view(&self) -> GptOssSafeguardConfigView {
        GptOssSafeguardConfigView {
            id: self.id@,
            endpoint: self.endpoint@,
            model: self.model@,
            timeout_ms: self.timeout_ms,
            policy: self.policy@,
            severity: self.severity,
        }
    }
}

impl GptOssSafeguardConfig {
    /// A copy with the same content.
    pub fn duplicate(&self) -> (r: GptOssSafeguardConfig)
        ensures
            r@ == self@,
    {
        GptOssSafeguardConfig {
            id: self.id.clone(),
            endpoint: self.endpoint.clone(),
            model: self.model.clone(),
            timeout_ms: self.timeout_ms,
            policy: self.policy.clone(),
            severity: self.severity,
        }
    }
}

/// Whether the settings can be used: the endpoint, the model and the policy
/// are given.
pub open spec fn safeguard_config_valid(c: GptOssSafeguardConfigView) -> bool {
    &&& c.endpoint.len() > 0
    &&& c.model.len() > 0
    &&& c.policy.len() > 0
}

/// The violations that a verdict comes to: one for a text in violation,
/// described by the classifier's rationale, and none otherwise.
pub open spec fn safeguard_findings(
    c: GptOssSafeguardConfigView,
    violation: bool,
    rationale: Seq<char>,
) -> Seq<ViolationView> {
    if violation {
        seq![
            ViolationView {
                category: "policy_violation"@,
                severity: c.severity,
                description: rationale,
                source: c.id,
                raw: Some(RawView::GptOssSafeguard { violation, rationale }),
            },
        ]
    } else {
        Seq::empty()
    }
}

/// What a reply comes to: the judged findings of an answer, and a failure
/// otherwise.
pub open spec fn safeguard_outcome(
    c: GptOssSafeguardConfigView,
    reply: Reply<GptOssSafeguardResult>,
    threshold: Severity,
) -> OutcomeView {
    match reply {
        Reply::Answer(raw) => Ok(
            judged(safeguard_findings(c, raw.violation, raw.rationale@), seq![c.id], threshold),
        ),
        _ => Err(reply_failure(reply)),
    }
}

/// The detector that adapts the policy classifier.
pub struct GptOssSafeguardProvider {
    config: GptOssSafeguardConfig,
}

impl View for GptOssSafeguardProvider {
    type V = GptOssSafeguardConfigView;

    closed spec fn view(&self) -> GptOssSafeguardConfigView {
        self.config@
    }
}

impl GptOssSafeguardProvider {
    #[verifier::type_invariant]
    spec fn valid(self) -> bool {
        safeguard_config_valid(self.config@)
    }

    /// Builds the detector, or rejects settings that cannot be used.
    pub fn new(config: GptOssSafeguardConfig) -> (r: Result<GptOssSafeguardProvider, GuardrailError>)
        ensures
            r is Ok <==> safeguard_config_valid(config@),
            r matches Ok(p) ==> p@ == config@,
            r matches Err(e) ==> e.kind == ErrorKind::ConfigurationInvalid,
    {
        if is_blank(&config.endpoint) {
            return Err(
                GuardrailError::new(ErrorKind::ConfigurationInvalid, "the policy classifier needs an endpoint"),
            );
        }
        if is_blank(&config.model) {
            return Err(
                GuardrailError::new(ErrorKind::ConfigurationInvalid, "the policy classifier needs a model"),
            );
        }
        if is_blank(&config.policy) {
            return Err(
                GuardrailError::new(ErrorKind::ConfigurationInvalid, "the policy classifier needs a policy"),
            );
        }
        Ok(GptOssSafeguardProvider { config })
    }

    /// The id under which the detector reports.
    pub fn id(&self) -> (r: &String)
        ensures
            r@ == self@.id,
    {
        &self.config.id
    }

    /// What to ask of the transport for `text`: the text, with the policy as
    /// instructions.
    pub fn request(&self, text: &str) -> (r: ClassifierRequest)
        ensures
            r.endpoint@ == self@.endpoint,
            r.model@ == self@.model,
            r.instructions@ == self@.policy,
            r.text@ == text@,
            r.timeout_ms == self@.timeout_ms,
    {
        ClassifierRequest {
            endpoint: self.config.endpoint.clone(),
            model: self.config.model.clone(),
            instructions: self.config.policy.clone(),
            text: text.to_owned(),
            timeout_ms: self.config.timeout_ms,
        }
    }

    /// Normalizes an answer: a text that the classifier finds in violation
    /// becomes exactly one violation of the configured severity.
    pub fn normalize(&self, raw: &GptOssSafeguardResult, threshold: Severity) -> (r: GuardrailResult)
        ensures
            r@ == judged(
                safeguard_findings(self@, raw.violation, raw.rationale@),
                seq![self@.id],
                threshold,
            ),
    {
        let mut violations: Vec<Violation> = Vec::new();
        let ghost verdict = raw.violation;
        let ghost rationale = raw.rationale@;
        if raw.violation {
            let v = Violation {
                category: "policy_violation".to_owned(),
                severity: self.config.severity,
                description: raw.rationale.clone(),
                source: self.config.id.clone(),
                raw: Some(
                    ProviderSpecificResult::GptOssSafeguard(
                        GptOssSafeguardResult {
                            violation: raw.violation,
                            rationale: raw.rationale.clone(),
                        },
                    ),
                ),
            };
            violations.push(v);
        }
        let mut detectors: Vec<String> = Vec::new();
        detectors.push(self.config.id.clone());
        proof {
            assert(violation_views(violations@) =~= safeguard_findings(self@, verdict, rationale));
            assert(string_views(detectors@) =~= seq![self@.id]);
        }
        GuardrailResult::new(violations, detectors, threshold)
    }

    /// Turns the reply to a request into the detector's outcome. A reply
    /// without an answer is a failure of the detector.
    pub fn interpret(&self, reply: &Reply<GptOssSafeguardResult>, threshold: Severity) -> (r: Result<
        GuardrailResult,
        GuardrailError,
    >)
        ensures
            outcome_view(r) == safeguard_outcome(self@, *reply, threshold),
    {
        match answer_of(reply) {
            Ok(raw) => Ok(self.normalize(raw, threshold)),
            Err(e) => Err(e),
        }
    }
}

} // verus!
