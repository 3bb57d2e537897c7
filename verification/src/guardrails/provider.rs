//! The result model shared by every detector: severities, violations,
//! provider-specific raw results and the normalized evaluation result.

use crate::guardrails::llama_guard::LlamaGuardCategory;
use crate::guardrails::llama_prompt_guard::LlamaPromptGuardResult;
use vstd::prelude::*;

verus! {

/// How serious a finding is. The scale is ordered from `Clear` (nothing found) to `Critical`.
#[derive(Clone, Copy, Debug, PartialEq, Eq, PartialOrd, Ord, Hash, Structural)]
pub enum Severity {
    Clear,
    Low,
    Medium,
    High,
    Critical,
}

impl Severity {
    /// Position on the scale: 0 for `Clear` up to 4 for `Critical`.
    pub open spec fn rank(self) -> nat {
        match self {
            Severity::Clear => 0,
            Severity::Low => 1,
            Severity::Medium => 2,
            Severity::High => 3,
            Severity::Critical => 4,
        }
    }

    /// The more severe of two severities.
    pub open spec fn join(self, other: Severity) -> Severity {
        if self.rank() >= other.rank() {
            self
        } else {
            other
        }
    }

    pub fn level(self) -> (r: u8)
        ensures
            r == self.rank(),
    {
        match self {
            Severity::Clear => 0,
            Severity::Low => 1,
            Severity::Medium => 2,
            Severity::High => 3,
            Severity::Critical => 4,
        }
    }

    /// The severity at a position of the scale, if there is one.
    pub fn from_level(level: u8) -> (r: Option<Severity>)
        ensures
            level <= 4 ==> r is Some && r->Some_0.rank() == level,
            level > 4 ==> r is None,
    {
        if level == 0 {
            Some(Severity::Clear)
        } else if level == 1 {
            Some(Severity::Low)
        } else if level == 2 {
            Some(Severity::Medium)
        } else if level == 3 {
            Some(Severity::High)
        } else if level == 4 {
            Some(Severity::Critical)
        } else {
            None
        }
    }

    /// Whether this severity lies strictly below `threshold`.
    pub fn is_below(self, threshold: Severity) -> (b: bool)
        ensures
            b == (self.rank() < threshold.rank()),
    {
        self.level() < threshold.level()
    }

    /// The more severe of `self` and `other`.
    pub fn higher_of(self, other: Severity) -> (r: Severity)
        ensures
            r == self.join(other),
    {
        if self.level() >= other.level() {
            self
        } else {
            other
        }
    }
}

/// What a pattern rule found: the rule by its position in the rule set, and
/// the phrase or expression that matched.
#[derive(Debug, Clone, PartialEq, Eq)]
pub struct PatternMatchResult {
    pub rule_index: usize,
    pub matched: String,
}

/// What the category classifier answered: the categories it flagged, in the
/// order of its answer. No category means that it found the text safe.
#[derive(Debug, Clone, PartialEq, Eq)]
pub struct LlamaGuardResult {
    pub categories: Vec<LlamaGuardCategory>,
}

/// What the policy classifier answered: its verdict and its rationale.
#[derive(Debug, Clone, PartialEq, Eq)]
pub struct GptOssSafeguardResult {
    pub violation: bool,
    pub rationale: String,
}

/// The raw result of one detector, kept with each violation for audit.
#[derive(Debug, Clone, PartialEq, Eq)]
pub enum ProviderSpecificResult {
    Pattern(PatternMatchResult),
    LlamaGuard(LlamaGuardResult),
    LlamaPromptGuard(LlamaPromptGuardResult),
    GptOssSafeguard(GptOssSafeguardResult),
}

/// The mathematical content of a `ProviderSpecificResult`.
pub enum RawView {
    Pattern { rule_index: usize, matched: Seq<char> },
    LlamaGuard { categories: Seq<LlamaGuardCategory> },
    LlamaPromptGuard { score: u32 },
    GptOssSafeguard { violation: bool, rationale: Seq<char> },
}

impl View for ProviderSpecificResult {
    type V = RawView;

    open spec fn view(&self) -> RawView {
        match *self {
            ProviderSpecificResult::Pattern(m) => RawView::Pattern {
                rule_index: m.rule_index,
                matched: m.matched@,
            },
            ProviderSpecificResult::LlamaGuard(g) => RawView::LlamaGuard {
                categories: g.categories@,
            },
            ProviderSpecificResult::LlamaPromptGuard(p) => RawView::LlamaPromptGuard {
                score: p.score,
            },
            ProviderSpecificResult::GptOssSafeguard(g) => RawView::GptOssSafeguard {
                violation: g.violation,
                rationale: g.rationale@,
            },
        }
    }
}

/// Copies a list of categories.
pub fn copy_categories(categories: &Vec<LlamaGuardCategory>) -> (r: Vec<LlamaGuardCategory>)
    ensures
        r@ == categories@,
{
    let mut r: Vec<LlamaGuardCategory> = Vec::new();
    let mut i: usize = 0;
    while i < categories.len()
        invariant
            i <= categories.len(),
            r@ == categories@.take(i as int),
        decreases categories.len() - i,
    {
        r.push(categories[i]);
        i += 1;
    }
    r
}

impl ProviderSpecificResult {
    /// A copy with the same content.
    pub fn duplicate(&self) -> (r: ProviderSpecificResult)
        ensures
            r@ == self@,
    {
        match self {
            ProviderSpecificResult::Pattern(m) => ProviderSpecificResult::Pattern(
                PatternMatchResult { rule_index: m.rule_index, matched: m.matched.clone() },
            ),
            ProviderSpecificResult::LlamaGuard(g) => ProviderSpecificResult::LlamaGuard(
                LlamaGuardResult { categories: copy_categories(&g.categories) },
            ),
            ProviderSpecificResult::LlamaPromptGuard(p) => ProviderSpecificResult::LlamaPromptGuard(
                LlamaPromptGuardResult { score: p.score },
            ),
            ProviderSpecificResult::GptOssSafeguard(g) => ProviderSpecificResult::GptOssSafeguard(
                GptOssSafeguardResult { violation: g.violation, rationale: g.rationale.clone() },
            ),
        }
    }
}

/// One normalized finding of a detector.
#[derive(Debug, Clone, PartialEq, Eq)]
pub struct Violation {
    /// The kind of finding, such as `prompt_injection`.
    pub category: String,
    pub severity: Severity,
    pub description: String,
    /// The id of the detector that made the finding.
    pub source: String,
    /// The raw result that the finding was normalized from.
    pub raw: Option<ProviderSpecificResult>,
}

/// The mathematical content of a `Violation`.
pub struct ViolationView {
    pub category: Seq<char>,
    pub severity: Severity,
    pub description: Seq<char>,
    pub source: Seq<char>,
    pub raw: Option<RawView>,
}

impl View for Violation {
    type V = ViolationView;

    open spec fn view(&self) -> ViolationView {
        ViolationView {
            category: self.category@,
            severity: self.severity,
            description: self.description@,
            source: self.source@,
            raw: match self.raw {
                Some(raw) => Some(raw@),
                None => None,
            },
        }
    }
}

impl Violation {
    /// A copy with the same content.
    pub fn duplicate(&self) -> (r: Violation)
        ensures
            r@ == self@,
    {
        Violation {
            category: self.category.clone(),
            severity: self.severity,
            description: self.description.clone(),
            source: self.source.clone(),
            raw: match &self.raw {
                Some(raw) => Some(raw.duplicate()),
                None => None,
            },
        }
    }
}

/// The contents of a list of violations.
pub open spec fn violation_views(vs: Seq<Violation>) -> Seq<ViolationView> {
    vs.map_values(|v: Violation| v@)
}

/// The contents of a list of strings.
pub open spec fn string_views(ss: Seq<String>) -> Seq<Seq<char>> {
    ss.map_values(|s: String| s@)
}

/// The aggregate severity of a sequence of violations: the greatest
/// severity among them, and `Clear` for the empty sequence.
pub open spec fn max_severity(vs: Seq<ViolationView>) -> Severity
    decreases vs.len(),
{
    if vs.len() == 0 {
        Severity::Clear
    } else {
        max_severity(vs.drop_last()).join(vs.last().severity)
    }
}

/// The aggregate severity is a maximum: no violation exceeds it, and where
/// there is a violation, one of them has it.
pub proof fn lemma_max_severity_is_maximum(vs: Seq<ViolationView>)
    ensures
        forall|i: int| 0 <= i < vs.len() ==> (#[trigger] vs[i]).severity.rank() <= max_severity(vs).rank(),
        vs.len() > 0 ==> exists|i: int| 0 <= i < vs.len() && (#[trigger] vs[i]).severity == max_severity(vs),
        vs.len() == 0 ==> max_severity(vs) == Severity::Clear,
    decreases vs.len(),
{
    if vs.len() > 0 {
        let init = vs.drop_last();
        lemma_max_severity_is_maximum(init);
        assert forall|i: int| 0 <= i < vs.len() implies (#[trigger] vs[i]).severity.rank()
            <= max_severity(vs).rank() by {
            if i < init.len() {
                assert(vs[i] == init[i]);
            }
        }
        if max_severity(vs) == vs.last().severity {
            assert(vs[vs.len() - 1].severity == max_severity(vs));
        } else {
            let i = choose|i: int| 0 <= i < init.len() && (#[trigger] init[i]).severity == max_severity(init);
            assert(vs[i] == init[i]);
        }
    }
}

/// The aggregate severity of a concatenation is the greater of the two
/// aggregates.
pub proof fn lemma_max_severity_concat(a: Seq<ViolationView>, b: Seq<ViolationView>)
    ensures
        max_severity(a + b) == max_severity(a).join(max_severity(b)),
    decreases b.len(),
{
    if b.len() == 0 {
        assert(a + b =~= a);
    } else {
        lemma_max_severity_concat(a, b.drop_last());
        assert((a + b).drop_last() =~= a + b.drop_last());
        assert((a + b).last() == b.last());
    }
}

/// The kinds of failure of the guardrail subsystem.
#[derive(Debug, Clone, Copy, PartialEq, Eq, Hash, Structural)]
pub enum ErrorKind {
    /// The configuration was rejected when the detectors were built.
    ConfigurationInvalid,
    /// The classifier endpoint could not be reached.
    DetectorUnavailable,
    /// The classifier's reply could not be understood.
    DetectorResponseInvalid,
    /// The evaluation did not finish in time, or was cancelled.
    EvaluationTimeout,
}

/// A failure of a detector or of the configuration, as opposed to a finding.
#[derive(Debug, Clone, PartialEq, Eq)]
pub struct GuardrailError {
    pub kind: ErrorKind,
    pub detail: String,
}

/// The mathematical content of a `GuardrailError`.
pub struct GuardrailErrorView {
    pub kind: ErrorKind,
    pub detail: Seq<char>,
}

impl View for GuardrailError {
    type V = GuardrailErrorView;

    open spec fn view(&self) -> GuardrailErrorView {
        GuardrailErrorView { kind: self.kind, detail: self.detail@ }
    }
}

/// What the evaluation of a detector comes to: a result, or a failure of
/// the detector.
pub type OutcomeView = Result<GuardrailResultView, GuardrailErrorView>;

/// The content of an outcome.
pub open spec fn outcome_view(outcome: Result<GuardrailResult, GuardrailError>) -> OutcomeView {
    match outcome {
        Ok(result) => Ok(result@),
        Err(e) => Err(e@),
    }
}

impl ErrorKind {
    /// A stable code for the kind, for logs and machine-readable output.
    pub fn code(&self) -> (r: &'static str)
        ensures
            r@ == self.code_text(),
    {
        match self {
            ErrorKind::ConfigurationInvalid => "CONFIGURATION_INVALID",
            ErrorKind::DetectorUnavailable => "DETECTOR_UNAVAILABLE",
            ErrorKind::DetectorResponseInvalid => "DETECTOR_RESPONSE_INVALID",
            ErrorKind::EvaluationTimeout => "EVALUATION_TIMEOUT",
        }
    }

    pub open spec fn code_text(self) -> Seq<char> {
        match self {
            ErrorKind::ConfigurationInvalid => "CONFIGURATION_INVALID"@,
            ErrorKind::DetectorUnavailable => "DETECTOR_UNAVAILABLE"@,
            ErrorKind::DetectorResponseInvalid => "DETECTOR_RESPONSE_INVALID"@,
            ErrorKind::EvaluationTimeout => "EVALUATION_TIMEOUT"@,
        }
    }
}

impl GuardrailError {
    pub fn new(kind: ErrorKind, detail: &str) -> (r: GuardrailError)
        ensures
            r.kind == kind,
            r.detail@ == detail@,
    {
        GuardrailError { kind, detail: detail.to_owned() }
    }
}

/// The normalized result of one evaluation.
#[derive(Debug, Clone, PartialEq, Eq)]
pub struct GuardrailResult {
    /// The violations, in the order in which they were detected.
    pub violations: Vec<Violation>,
    /// The aggregate severity: the greatest among the violations.
    pub severity: Severity,
    /// Whether the aggregate severity lies below the block threshold.
    pub passed: bool,
    /// The ids of the detectors that contributed, in order. A list, not a
    /// set: an id may occur more than once.
    pub detectors: Vec<String>,
}

/// The mathematical content of a `GuardrailResult`.
pub struct GuardrailResultView {
    pub violations: Seq<ViolationView>,
    pub severity: Severity,
    pub passed: bool,
    pub detectors: Seq<Seq<char>>,
}

impl View for GuardrailResult {
    type V = GuardrailResultView;

    open spec fn view(&self) -> GuardrailResultView {
        GuardrailResultView {
            violations: violation_views(self.violations@),
            severity: self.severity,
            passed: self.passed,
            detectors: string_views(self.detectors@),
        }
    }
}

/// The result that judges `violations` against `threshold`: the aggregate
/// severity is their maximum, and the result passes exactly if that lies
/// strictly below the threshold.
pub open spec fn judged(
    violations: Seq<ViolationView>,
    detectors: Seq<Seq<char>>,
    threshold: Severity,
) -> GuardrailResultView {
    GuardrailResultView {
        violations,
        severity: max_severity(violations),
        passed: max_severity(violations).rank() < threshold.rank(),
        detectors,
    }
}

/// The aggregate severity of a list of violations.
pub fn aggregate_severity(violations: &Vec<Violation>) -> (r: Severity)
    ensures
        r == max_severity(violation_views(violations@)),
{
    let mut r = Severity::Clear;
    let mut i: usize = 0;
    while i < violations.len()
        invariant
            i <= violations.len(),
            r == max_severity(violation_views(violations@.take(i as int))),
        decreases violations.len() - i,
    {
        proof {
            let next = violations@.take(i + 1);
            assert(violation_views(next).drop_last() =~= violation_views(violations@.take(i as int)));
            assert(violation_views(next).last() == violations@[i as int]@);
        }
        r = r.higher_of(violations[i].severity);
        i += 1;
    }
    assert(violations@.take(violations.len() as int) =~= violations@);
    r
}

impl GuardrailResult {
    /// Judges `violations` against the block threshold.
    pub fn new(violations: Vec<Violation>, detectors: Vec<String>, threshold: Severity) -> (r:
        GuardrailResult)
        ensures
            r@ == judged(violation_views(violations@), string_views(detectors@), threshold),
            r.severity == max_severity(violation_views(violations@)),
            r.passed == (max_severity(violation_views(violations@)).rank() < threshold.rank()),
            r.consistent(threshold),
            r.violations == violations,
            r.detectors == detectors,
    {
        let severity = aggregate_severity(&violations);
        let passed = severity.is_below(threshold);
        GuardrailResult { violations, severity, passed, detectors }
    }

    /// Whether the aggregate severity and the verdict of this result are
    /// those of its violations under `threshold`.
    pub open spec fn consistent(self, threshold: Severity) -> bool {
        self@ == judged(self@.violations, self@.detectors, threshold)
    }
}

/// A judged result passes exactly if the greatest severity among its
/// violations lies strictly below the threshold. Without violations the
/// severity is `Clear`, and the result passes unless the threshold is
/// `Clear` itself.
pub proof fn lemma_passed_iff_below_threshold(
    violations: Seq<ViolationView>,
    detectors: Seq<Seq<char>>,
    threshold: Severity,
)
    ensures
        judged(violations, detectors, threshold).severity == max_severity(violations),
        judged(violations, detectors, threshold).passed == (max_severity(violations).rank()
            < threshold.rank()),
        forall|i: int|
            0 <= i < violations.len() ==> (#[trigger] violations[i]).severity.rank() <= judged(
                violations,
                detectors,
                threshold,
            ).severity.rank(),
        violations.len() == 0 ==> judged(violations, detectors, threshold).severity
            == Severity::Clear && (judged(violations, detectors, threshold).passed <==> threshold
            != Severity::Clear),
{
    lemma_max_severity_is_maximum(violations);
}

/// What a classifier detector asks of the transport: the text to classify,
/// the endpoint, the model, and the time it grants.
#[derive(Debug, Clone, PartialEq, Eq)]
pub struct ClassifierRequest {
    pub endpoint: String,
    pub model: String,
    /// What the classifier is told besides the text, such as a policy.
    pub instructions: String,
    pub text: String,
    pub timeout_ms: u64,
}

/// What came back for a request: an answer in the classifier's own form, or
/// the way in which the request failed.
#[derive(Debug, Clone, PartialEq, Eq)]
pub enum Reply<T> {
    /// The classifier answered, and the answer was understood.
    Answer(T),
    /// The endpoint could not be reached, or it refused the request.
    Unreachable(String),
    /// The endpoint answered with something that is no answer.
    Malformed(String),
    /// No answer came in time, or the request was cancelled.
    TimedOut,
}

/// The failure that a reply without an answer stands for.
pub open spec fn reply_failure<T>(reply: Reply<T>) -> GuardrailErrorView {
    match reply {
        Reply::Answer(_) => GuardrailErrorView {
            kind: ErrorKind::DetectorResponseInvalid,
            detail: Seq::empty(),
        },
        Reply::Unreachable(detail) => GuardrailErrorView {
            kind: ErrorKind::DetectorUnavailable,
            detail: detail@,
        },
        Reply::Malformed(detail) => GuardrailErrorView {
            kind: ErrorKind::DetectorResponseInvalid,
            detail: detail@,
        },
        Reply::TimedOut => GuardrailErrorView {
            kind: ErrorKind::EvaluationTimeout,
            detail: "the classifier did not answer in time"@,
        },
    }
}

/// Tells the answer of a reply from its failure. A failure is reported as
/// it is: it is neither a pass nor a violation.
pub fn answer_of<T>(reply: &Reply<T>) -> (r: Result<&T, GuardrailError>)
    ensures
        match r {
            Ok(answer) => *reply == Reply::Answer(*answer),
            Err(e) => *reply !is Answer && e@ == reply_failure(*reply),
        },
{
    match reply {
        Reply::Answer(answer) => Ok(answer),
        Reply::Unreachable(detail) => Err(
            GuardrailError { kind: ErrorKind::DetectorUnavailable, detail: detail.clone() },
        ),
        Reply::Malformed(detail) => Err(
            GuardrailError { kind: ErrorKind::DetectorResponseInvalid, detail: detail.clone() },
        ),
        Reply::TimedOut => Err(
            GuardrailError::new(
                ErrorKind::EvaluationTimeout,
                "the classifier did not answer in time",
            ),
        ),
    }
}

/// Whether a text is empty.
pub fn is_blank(s: &String) -> (b: bool)
    ensures
        b == (s@.len() == 0),
{
    s.as_str().unicode_len() == 0
}

} // verus!
