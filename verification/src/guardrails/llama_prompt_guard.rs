//! The prompt-injection classifier: it scores how likely a text is an
//! attempt to override the model's instructions.

use crate::guardrails::provider::{
    answer_of, is_blank, judged, outcome_view, string_views, violation_views, ClassifierRequest, ErrorKind,
    GuardrailError, GuardrailErrorView, GuardrailResult, GuardrailResultView, OutcomeView,
    ProviderSpecificResult, RawView, Reply, Severity, Violation, ViolationView, reply_failure,
};
use vstd::prelude::*;

verus! {

/// The scale of scores: a score counts parts per million, so that
/// `SCORE_SCALE` stands for 1.0.
pub const SCORE_SCALE: u32 = 1_000_000;

/// What the injection classifier answered: its score.
#[derive(Debug, Clone, Copy, PartialEq, Eq)]
pub struct LlamaPromptGuardResult {
    pub score: u32,
}

/// One step of the function from scores to severities: scores from `from`
/// on have `severity`, up to where the next step begins.
#[derive(Debug, Clone, Copy, PartialEq, Eq)]
pub struct SeverityBand {
    pub from: u32,
    pub severity: Severity,
}

/// The severity of a score: that of the last band that begins at or below
/// the score, and `floor` where no band does.
pub open spec fn severity_for(floor: Severity, bands: Seq<SeverityBand>, score: u32) -> Severity
    decreases bands.len(),
{
    if bands.len() == 0 {
        floor
    } else if bands.last().from <= score {
        bands.last().severity
    } else {
        severity_for(floor, bands.drop_last(), score)
    }
}

/// Whether the bands begin at rising scores within the scale.
pub open spec fn bands_rise(bands: Seq<SeverityBand>) -> bool {
    &&& forall|i: int| 0 <= i < bands.len() ==> (#[trigger] bands[i]).from <= SCORE_SCALE
    &&& forall|i: int, j: int|
        0 <= i < j < bands.len() ==> (#[trigger] bands[i]).from < (#[trigger] bands[j]).from
}

/// With rising bands the mapping is a step function: from the start of a
/// band up to the start of the next, a score has the severity of that band.
pub proof fn lemma_severity_within_band(floor: Severity, bands: Seq<SeverityBand>, score: u32, i: int)
    requires
        bands_rise(bands),
        0 <= i < bands.len(),
        bands[i].from <= score,
        i + 1 < bands.len() ==> score < bands[i + 1].from,
    ensures
        severity_for(floor, bands, score) == bands[i].severity,
    decreases bands.len(),
{
    let last = bands.len() - 1;
    if i < last {
        let init = bands.drop_last();
        assert(bands[i + 1].from <= bands[last].from) by {
            if i + 1 < last {
                assert(bands[i + 1].from < bands[last].from);
            }
        }
        assert(bands_rise(init)) by {
            assert forall|k: int, l: int| 0 <= k < l < init.len() implies (#[trigger] init[k]).from
                < (#[trigger] init[l]).from by {
                assert(bands[k].from < bands[l].from);
            }
            assert forall|k: int| 0 <= k < init.len() implies (#[trigger] init[k]).from
                <= SCORE_SCALE by {
                assert(bands[k].from <= SCORE_SCALE);
            }
        }
        lemma_severity_within_band(floor, init, score, i);
    }
}

/// Below the first band a score has the floor severity.
pub proof fn lemma_severity_below_bands(floor: Severity, bands: Seq<SeverityBand>, score: u32)
    requires
        forall|i: int| 0 <= i < bands.len() ==> score < (#[trigger] bands[i]).from,
    ensures
        severity_for(floor, bands, score) == floor,
    decreases bands.len(),
{
    if bands.len() > 0 {
        let init = bands.drop_last();
        assert(score < bands[bands.len() - 1].from);
        assert forall|i: int| 0 <= i < init.len() implies score < (#[trigger] init[i]).from by {
            assert(score < bands[i].from);
        }
        lemma_severity_below_bands(floor, init, score);
    }
}

/// The settings of the injection classifier.
#[derive(Debug, Clone, PartialEq, Eq)]
pub struct LlamaPromptGuardConfig {
    /// The id under which the detector reports.
    pub id: String,
    pub endpoint: String,
    pub model: String,
    pub timeout_ms: u64,
    /// Scores at or above the cutoff are violations.
    pub cutoff: u32,
    /// The severity of a violation whose score lies below every band.
    pub floor: Severity,
    /// The steps from scores to severities.
    pub bands: Vec<SeverityBand>,
}

/// The mathematical content of a `LlamaPromptGuardConfig`.
pub struct LlamaPromptGuardConfigView {
    pub id: Seq<char>,
    pub endpoint: Seq<char>,
    pub model: Seq<char>,
    pub timeout_ms: u64,
    pub cutoff: u32,
    pub floor: Severity,
    pub bands: Seq<SeverityBand>,
}

impl View for LlamaPromptGuardConfig {
    type V = LlamaPromptGuardConfigView;

    open spec fn view(&self) -> LlamaPromptGuardConfigView {
        LlamaPromptGuardConfigView {
            id: self.id@,
            endpoint: self.endpoint@,
            model: self.model@,
            timeout_ms: self.timeout_ms,
            cutoff: self.cutoff,
            floor: self.floor,
            bands: self.bands@,
        }
    }
}

impl LlamaPromptGuardConfig {
    /// A copy with the same content.
    pub fn duplicate(&self) -> (r: LlamaPromptGuardConfig)
        ensures
            r@ == self@,
    {
        let mut bands: Vec<SeverityBand> = Vec::new();
        let mut i: usize = 0;
        while i < self.bands.len()
            invariant
                i <= self.bands.len(),
                bands@ == self.bands@.take(i as int),
            decreases self.bands.len() - i,
        {
            bands.push(self.bands[i]);
            i += 1;
        }
        assert(self.bands@.take(self.bands.len() as int) =~= self.bands@);
        LlamaPromptGuardConfig {
            id: self.id.clone(),
            endpoint: self.endpoint.clone(),
            model: self.model.clone(),
            timeout_ms: self.timeout_ms,
            cutoff: self.cutoff,
            floor: self.floor,
            bands,
        }
    }
}

/// Whether the settings can be used: the endpoint and the model are named,
/// the cutoff lies within the scale, and the bands rise.
pub open spec fn prompt_guard_config_valid(c: LlamaPromptGuardConfigView) -> bool {
    &&& c.endpoint.len() > 0
    &&& c.model.len() > 0
    &&& c.cutoff <= SCORE_SCALE
    &&& bands_rise(c.bands)
}

/// The violations that a score comes to: one where the score reaches the
/// cutoff, none below it.
pub open spec fn prompt_guard_findings(c: LlamaPromptGuardConfigView, score: u32) -> Seq<ViolationView> {
    if score >= c.cutoff {
        seq![
            ViolationView {
                category: "prompt_injection"@,
                severity: severity_for(c.floor, c.bands, score),
                description: "the injection score reaches the cutoff"@,
                source: c.id,
                raw: Some(RawView::LlamaPromptGuard { score }),
            },
        ]
    } else {
        Seq::empty()
    }
}

/// What a reply comes to: the judged findings of an answer within the
/// scale, and a failure otherwise.
pub open spec fn prompt_guard_outcome(
    c: LlamaPromptGuardConfigView,
    reply: Reply<LlamaPromptGuardResult>,
    threshold: Severity,
) -> OutcomeView {
    match reply {
        Reply::Answer(raw) => if raw.score <= SCORE_SCALE {
            Ok(judged(prompt_guard_findings(c, raw.score), seq![c.id], threshold))
        } else {
            Err(
                GuardrailErrorView {
                    kind: ErrorKind::DetectorResponseInvalid,
                    detail: "the score lies beyond the scale"@,
                },
            )
        },
        _ => Err(reply_failure(reply)),
    }
}

/// Whether the bands of `bands` rise within the scale.
pub fn check_bands(bands: &Vec<SeverityBand>) -> (b: bool)
    ensures
        b == bands_rise(bands@),
{
    let mut i: usize = 0;
    while i < bands.len()
        invariant
            i <= bands.len(),
            forall|k: int| 0 <= k < i ==> (#[trigger] bands@[k]).from <= SCORE_SCALE,
            forall|k: int, l: int|
                0 <= k < l < i ==> (#[trigger] bands@[k]).from < (#[trigger] bands@[l]).from,
        decreases bands.len() - i,
    {
        if bands[i].from > SCORE_SCALE {
            return false;
        }
        if i > 0 && bands[i - 1].from >= bands[i].from {
            return false;
        }
        proof {
            assert forall|k: int, l: int| 0 <= k < l < i + 1 implies (#[trigger] bands@[k]).from < (
            #[trigger] bands@[l]).from by {
                if l == i && k < i - 1 {
                    assert(bands@[k].from < bands@[i - 1].from);
                }
            }
        }
        i += 1;
    }
    true
}

/// The severity of a score under a step function.
pub fn score_severity(floor: Severity, bands: &Vec<SeverityBand>, score: u32) -> (r: Severity)
    ensures
        r == severity_for(floor, bands@, score),
{
    let mut n: usize = bands.len();
    assert(bands@.take(n as int) =~= bands@);
    while n > 0
        invariant
            n <= bands.len(),
            severity_for(floor, bands@, score) == severity_for(floor, bands@.take(n as int), score),
        decreases n,
    {
        if bands[n - 1].from <= score {
            return bands[n - 1].severity;
        }
        proof {
            assert(bands@.take(n as int).drop_last() =~= bands@.take(n - 1));
        }
        n -= 1;
    }
    floor
}

/// The detector that adapts the injection classifier.
pub struct LlamaPromptGuardProvider {
    config: LlamaPromptGuardConfig,
}

impl View for LlamaPromptGuardProvider {
    type V = LlamaPromptGuardConfigView;

    closed spec fn view(&self) -> LlamaPromptGuardConfigView {
        self.config@
    }
}

impl LlamaPromptGuardProvider {
    #[verifier::type_invariant]
    spec fn valid(self) -> bool {
        prompt_guard_config_valid(self.config@)
    }

    /// Builds the detector, or rejects settings that cannot be used.
    pub fn new(config: LlamaPromptGuardConfig) -> (r: Result<LlamaPromptGuardProvider, GuardrailError>)
        ensures
            r is Ok <==> prompt_guard_config_valid(config@),
            r matches Ok(p) ==> p@ == config@,
            r matches Err(e) ==> e.kind == ErrorKind::ConfigurationInvalid,
    {
        if is_blank(&config.endpoint) {
            return Err(
                GuardrailError::new(ErrorKind::ConfigurationInvalid, "the injection classifier needs an endpoint"),
            );
        }
        if is_blank(&config.model) {
            return Err(
                GuardrailError::new(ErrorKind::ConfigurationInvalid, "the injection classifier needs a model"),
            );
        }
        if config.cutoff > SCORE_SCALE {
            return Err(
                GuardrailError::new(ErrorKind::ConfigurationInvalid, "the cutoff lies beyond the scale of scores"),
            );
        }
        if !check_bands(&config.bands) {
            return Err(
                GuardrailError::new(ErrorKind::ConfigurationInvalid, "the severity bands do not rise within the scale"),
            );
        }
        Ok(LlamaPromptGuardProvider { config })
    }

    /// The id under which the detector reports.
    pub fn id(&self) -> (r: &String)
        ensures
            r@ == self@.id,
    {
        &self.config.id
    }

    /// What to ask of the transport for `text`.
    pub fn request(&self, text: &str) -> (r: ClassifierRequest)
        ensures
            r.endpoint@ == self@.endpoint,
            r.model@ == self@.model,
            r.instructions@ == Seq::<char>::empty(),
            r.text@ == text@,
            r.timeout_ms == self@.timeout_ms,
    {
        ClassifierRequest {
            endpoint: self.config.endpoint.clone(),
            model: self.config.model.clone(),
            instructions: String::new(),
            text: text.to_owned(),
            timeout_ms: self.config.timeout_ms,
        }
    }

    /// Normalizes a score: at or above the cutoff it becomes exactly one
    /// violation, whose severity the bands give.
    pub fn normalize(&self, raw: &LlamaPromptGuardResult, threshold: Severity) -> (r: GuardrailResult)
        ensures
            r@ == judged(prompt_guard_findings(self@, raw.score), seq![self@.id], threshold),
    {
        let mut violations: Vec<Violation> = Vec::new();
        if raw.score >= self.config.cutoff {
            let v = Violation {
                category: "prompt_injection".to_owned(),
                severity: score_severity(self.config.floor, &self.config.bands, raw.score),
                description: "the injection score reaches the cutoff".to_owned(),
                source: self.config.id.clone(),
                raw: Some(ProviderSpecificResult::LlamaPromptGuard(*raw)),
            };
            violations.push(v);
        }
        let mut detectors: Vec<String> = Vec::new();
        detectors.push(self.config.id.clone());
        proof {
            assert(violation_views(violations@) =~= prompt_guard_findings(self@, raw.score));
            assert(string_views(detectors@) =~= seq![self@.id]);
        }
        GuardrailResult::new(violations, detectors, threshold)
    }

    /// Turns the reply to a request into the detector's outcome. A reply
    /// without an answer, or with a score beyond the scale, is a failure of
    /// the detector.
    pub fn interpret(&self, reply: &Reply<LlamaPromptGuardResult>, threshold: Severity) -> (r: Result<
        GuardrailResult,
        GuardrailError,
    >)
        ensures
            outcome_view(r) == prompt_guard_outcome(self@, *reply, threshold),
    {
        match answer_of(reply) {
            Ok(raw) => {
                if raw.score <= SCORE_SCALE {
                    Ok(self.normalize(raw, threshold))
                } else {
                    Err(
                        GuardrailError::new(
                            ErrorKind::DetectorResponseInvalid,
                            "the score lies beyond the scale",
                        ),
                    )
                }
            },
            Err(e) => Err(e),
        }
    }
}

} // verus!
