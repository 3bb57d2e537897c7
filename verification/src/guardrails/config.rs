//! Configuration and factory: a declarative description of the guardrails
//! is checked here, once, and turned into detectors and guardrails. What is
//! wrong with a configuration is found when the guardrails are built, never
//! when a text is evaluated.

use crate::guardrails::gpt_oss_safeguard::{
    safeguard_config_valid, GptOssSafeguardConfig, GptOssSafeguardProvider,
};
use crate::guardrails::hybrid::{
    AggregationMode, ExecutionMode, GuardrailProvider, HybridGuardrail, HybridPolicy,
};
use crate::guardrails::input::{
    input_defaults, policy_over, InputGuardrail, InputGuardrailConfig,
};
use crate::guardrails::llama_guard::{guard_config_valid, LlamaGuardConfig, LlamaGuardProvider};
use crate::guardrails::llama_prompt_guard::{
    prompt_guard_config_valid, LlamaPromptGuardConfig, LlamaPromptGuardProvider,
};
use crate::guardrails::output::{output_defaults, OutputGuardrail, OutputGuardrailConfig};
use crate::guardrails::patterns::{
    copy_rules, needs_engine, rule_valid, rule_views, PatternDetector, PatternDetectorView,
    PatternRule,
};
use crate::guardrails::provider::{ErrorKind, GuardrailError, Severity};
use crate::text::{chars_of, same};
use vstd::prelude::*;

verus! {

/// The kinds of detector that a configuration can name.
#[derive(Debug, Clone, Copy, PartialEq, Eq, Hash, Structural)]
pub enum ProviderKind {
    Patterns,
    LlamaGuard,
    LlamaPromptGuard,
    GptOssSafeguard,
    Hybrid,
}

/// The kind of detector that a configuration means by `name`.
pub open spec fn provider_kind_named(name: Seq<char>) -> Option<ProviderKind> {
    if name == "patterns"@ {
        Some(ProviderKind::Patterns)
    } else if name == "llama_guard"@ {
        Some(ProviderKind::LlamaGuard)
    } else if name == "llama_prompt_guard"@ {
        Some(ProviderKind::LlamaPromptGuard)
    } else if name == "gpt_oss_safeguard"@ {
        Some(ProviderKind::GptOssSafeguard)
    } else if name == "hybrid"@ {
        Some(ProviderKind::Hybrid)
    } else {
        None
    }
}

/// The aggregation mode that a configuration means by `name`.
pub open spec fn aggregation_named(name: Seq<char>) -> Option<AggregationMode> {
    if name == "all"@ {
        Some(AggregationMode::All)
    } else if name == "any"@ {
        Some(AggregationMode::Any)
    } else if name == "severity_threshold"@ {
        Some(AggregationMode::SeverityThreshold)
    } else {
        None
    }
}

/// The execution mode that a configuration means by `name`.
pub open spec fn execution_named(name: Seq<char>) -> Option<ExecutionMode> {
    if name == "sequential"@ {
        Some(ExecutionMode::Sequential)
    } else if name == "parallel"@ {
        Some(ExecutionMode::Parallel)
    } else {
        None
    }
}

/// The severity that a configuration means by `name`.
pub open spec fn severity_named(name: Seq<char>) -> Option<Severity> {
    if name == "none"@ {
        Some(Severity::Clear)
    } else if name == "low"@ {
        Some(Severity::Low)
    } else if name == "medium"@ {
        Some(Severity::Medium)
    } else if name == "high"@ {
        Some(Severity::High)
    } else if name == "critical"@ {
        Some(Severity::Critical)
    } else {
        None
    }
}

/// Whether `name` is the word `word`.
fn is_word(name: &Vec<char>, word: &str) -> (b: bool)
    ensures
        b == (name@ == word@),
{
    let w = chars_of(word);
    same(name, &w)
}

fn unknown(what: &str) -> (e: GuardrailError)
    ensures
        e.kind == ErrorKind::ConfigurationInvalid,
        e.detail@ == what@,
{
    GuardrailError::new(ErrorKind::ConfigurationInvalid, what)
}

/// Reads the kind of a detector. A name that stands for no kind is a
/// configuration error.
pub fn parse_provider_kind(name: &str) -> (r: Result<ProviderKind, GuardrailError>)
    ensures
        match provider_kind_named(name@) {
            Some(kind) => r is Ok && r->Ok_0 == kind,
            None => r is Err && r->Err_0.kind == ErrorKind::ConfigurationInvalid,
        },
{
    let n = chars_of(name);
    if is_word(&n, "patterns") {
        Ok(ProviderKind::Patterns)
    } else if is_word(&n, "llama_guard") {
        Ok(ProviderKind::LlamaGuard)
    } else if is_word(&n, "llama_prompt_guard") {
        Ok(ProviderKind::LlamaPromptGuard)
    } else if is_word(&n, "gpt_oss_safeguard") {
        Ok(ProviderKind::GptOssSafeguard)
    } else if is_word(&n, "hybrid") {
        Ok(ProviderKind::Hybrid)
    } else {
        Err(unknown("unknown guardrail provider"))
    }
}

/// Reads an aggregation mode. A name that stands for none is a
/// configuration error.
pub fn parse_aggregation_mode(name: &str) -> (r: Result<AggregationMode, GuardrailError>)
    ensures
        match aggregation_named(name@) {
            Some(mode) => r is Ok && r->Ok_0 == mode,
            None => r is Err && r->Err_0.kind == ErrorKind::ConfigurationInvalid,
        },
{
    let n = chars_of(name);
    if is_word(&n, "all") {
        Ok(AggregationMode::All)
    } else if is_word(&n, "any") {
        Ok(AggregationMode::Any)
    } else if is_word(&n, "severity_threshold") {
        Ok(AggregationMode::SeverityThreshold)
    } else {
        Err(unknown("unknown aggregation mode"))
    }
}

/// Reads an execution mode. A name that stands for none is a configuration
/// error.
pub fn parse_execution_mode(name: &str) -> (r: Result<ExecutionMode, GuardrailError>)
    ensures
        match execution_named(name@) {
            Some(mode) => r is Ok && r->Ok_0 == mode,
            None => r is Err && r->Err_0.kind == ErrorKind::ConfigurationInvalid,
        },
{
    let n = chars_of(name);
    if is_word(&n, "sequential") {
        Ok(ExecutionMode::Sequential)
    } else if is_word(&n, "parallel") {
        Ok(ExecutionMode::Parallel)
    } else {
        Err(unknown("unknown execution mode"))
    }
}

/// Reads a severity. A name that stands for none is a configuration error.
pub fn parse_severity(name: &str) -> (r: Result<Severity, GuardrailError>)
    ensures
        match severity_named(name@) {
            Some(severity) => r is Ok && r->Ok_0 == severity,
            None => r is Err && r->Err_0.kind == ErrorKind::ConfigurationInvalid,
        },
{
    let n = chars_of(name);
    if is_word(&n, "none") {
        Ok(Severity::Clear)
    } else if is_word(&n, "low") {
        Ok(Severity::Low)
    } else if is_word(&n, "medium") {
        Ok(Severity::Medium)
    } else if is_word(&n, "high") {
        Ok(Severity::High)
    } else if is_word(&n, "critical") {
        Ok(Severity::Critical)
    } else {
        Err(unknown("unknown severity"))
    }
}

/// Reads a block threshold from its position on the severity scale. A
/// position beyond the scale is a configuration error, and so is the lowest
/// position: under a threshold of `Clear` nothing would ever pass.
pub fn parse_threshold(level: u8) -> (r: Result<Severity, GuardrailError>)
    ensures
        1 <= level <= 4 ==> r is Ok && r->Ok_0.rank() == level,
        !(1 <= level <= 4) ==> r is Err && r->Err_0.kind == ErrorKind::ConfigurationInvalid,
{
    if level == 0 {
        return Err(unknown("a block threshold of none would block everything"));
    }
    match Severity::from_level(level) {
        Some(severity) => Ok(severity),
        None => Err(unknown("the block threshold lies beyond the severity scale")),
    }
}

/// The declarative description of one detector.
pub enum GuardrailProviderConfig {
    Patterns { id: String, rules: Vec<PatternRule> },
    LlamaGuard(LlamaGuardConfig),
    LlamaPromptGuard(LlamaPromptGuardConfig),
    GptOssSafeguard(GptOssSafeguardConfig),
    Hybrid { id: String, providers: Vec<GuardrailProviderConfig>, policy: HybridPolicy },
}

/// The description of the input phase: the detector and the decision
/// policy.
pub struct InputSettings {
    pub provider: GuardrailProviderConfig,
    pub guardrail: InputGuardrailConfig,
}

/// The description of the output phase: the detector and the decision
/// policy.
pub struct OutputSettings {
    pub provider: GuardrailProviderConfig,
    pub guardrail: OutputGuardrailConfig,
}

/// The declarative description of the guardrails, phase by phase. A phase
/// without a description has no guardrail.
pub struct GuardrailConfig {
    pub input: Option<InputSettings>,
    pub output: Option<OutputSettings>,
}

/// The guardrails that a configuration describes.
pub struct Guardrails {
    pub input: Option<InputGuardrail>,
    pub output: Option<OutputGuardrail>,
}

/// Whether the description of a detector can be used: its own settings are
/// well formed, and so are those of every detector under it. A hybrid needs
/// at least one detector.
pub open spec fn provider_config_valid(c: GuardrailProviderConfig) -> bool
    decreases c,
{
    match c {
        GuardrailProviderConfig::Patterns { id, rules } => forall|i: int|
            0 <= i < rules@.len() ==> rule_valid(#[trigger] rules@[i]@),
        GuardrailProviderConfig::LlamaGuard(g) => guard_config_valid(g@),
        GuardrailProviderConfig::LlamaPromptGuard(p) => prompt_guard_config_valid(p@),
        GuardrailProviderConfig::GptOssSafeguard(g) => safeguard_config_valid(g@),
        GuardrailProviderConfig::Hybrid { id, providers, policy } => providers@.len() > 0
            && provider_configs_valid(providers@, providers@.len() as int),
    }
}

/// Whether the first `n` descriptions can be used.
pub open spec fn provider_configs_valid(cs: Seq<GuardrailProviderConfig>, n: int) -> bool
    decreases cs, n,
{
    n <= 0 || (n <= cs.len() && provider_config_valid(cs[n - 1]) && provider_configs_valid(
        cs,
        n - 1,
    ))
}

/// Whether no rule of the description, or of a description under it,
/// matches by a regular expression. Such a description is accepted or
/// rejected by what it says alone.
pub open spec fn provider_config_plain(c: GuardrailProviderConfig) -> bool
    decreases c,
{
    match c {
        GuardrailProviderConfig::Patterns { id, rules } => forall|i: int|
            0 <= i < rules@.len() ==> !needs_engine(#[trigger] rules@[i]@),
        GuardrailProviderConfig::Hybrid { id, providers, policy } => provider_configs_plain(
            providers@,
            providers@.len() as int,
        ),
        _ => true,
    }
}

/// Whether the first `n` descriptions are plain.
pub open spec fn provider_configs_plain(cs: Seq<GuardrailProviderConfig>, n: int) -> bool
    decreases cs, n,
{
    n <= 0 || (n <= cs.len() && provider_config_plain(cs[n - 1]) && provider_configs_plain(
        cs,
        n - 1,
    ))
}

/// Whether `d` is the detector that `c` describes: of the described kind,
/// with the described settings, and over the described detectors in the
/// listed order.
pub open spec fn describes(c: GuardrailProviderConfig, d: GuardrailProvider) -> bool
    decreases c,
{
    match c {
        GuardrailProviderConfig::Patterns { id, rules } => d matches GuardrailProvider::Pattern(p)
            && p@ == (PatternDetectorView { id: id@, rules: rule_views(rules@) }),
        GuardrailProviderConfig::LlamaGuard(g) => d matches GuardrailProvider::LlamaGuard(p) && p@
            == g@,
        GuardrailProviderConfig::LlamaPromptGuard(g) => d matches GuardrailProvider::LlamaPromptGuard(
            p,
        ) && p@ == g@,
        GuardrailProviderConfig::GptOssSafeguard(g) => d matches GuardrailProvider::GptOssSafeguard(
            p,
        ) && p@ == g@,
        GuardrailProviderConfig::Hybrid { id, providers, policy } => d matches GuardrailProvider::Hybrid(
            h,
        ) && h@.id == id@ && h@.policy == policy && h.parts().len() == providers@.len()
            && describes_all(providers@, h.parts(), providers@.len() as int),
    }
}

/// Whether the first `n` detectors of `ds` are those that the first `n`
/// descriptions of `cs` describe.
pub open spec fn describes_all(cs: Seq<GuardrailProviderConfig>, ds: Seq<GuardrailProvider>, n: int) -> bool
    decreases cs, n,
{
    n <= 0 || (n <= cs.len() && n <= ds.len() && describes(cs[n - 1], ds[n - 1]) && describes_all(
        cs,
        ds,
        n - 1,
    ))
}

proof fn lemma_configs_valid_each(cs: Seq<GuardrailProviderConfig>, n: int, k: int)
    requires
        provider_configs_valid(cs, n),
        0 <= k < n,
    ensures
        provider_config_valid(cs[k]),
    decreases n,
{
    if k < n - 1 {
        lemma_configs_valid_each(cs, n - 1, k);
    }
}

proof fn lemma_configs_plain_each(cs: Seq<GuardrailProviderConfig>, n: int, k: int)
    requires
        provider_configs_plain(cs, n),
        0 <= k < n,
    ensures
        provider_config_plain(cs[k]),
    decreases n,
{
    if k < n - 1 {
        lemma_configs_plain_each(cs, n - 1, k);
    }
}

proof fn lemma_describes_all_extends(
    cs: Seq<GuardrailProviderConfig>,
    ds: Seq<GuardrailProvider>,
    d: GuardrailProvider,
    n: int,
)
    requires
        describes_all(cs, ds, n),
        0 <= n <= ds.len(),
    ensures
        describes_all(cs, ds.push(d), n),
    decreases n,
{
    if n > 0 {
        lemma_describes_all_extends(cs, ds, d, n - 1);
        assert(ds.push(d)[n - 1] == ds[n - 1]);
    }
}

/// Builds the detector that `config` describes, and every detector under
/// it. A description that cannot be used is rejected, and so is one with a
/// regular expression that does not compile; a plain description that can
/// be used is always accepted.
pub fn create_guardrail_provider(config: &GuardrailProviderConfig) -> (r: Result<
    GuardrailProvider,
    GuardrailError,
>)
    ensures
        r is Ok ==> provider_config_valid(*config),
        provider_config_valid(*config) && provider_config_plain(*config) ==> r is Ok,
        r matches Ok(d) ==> describes(*config, d),
        r matches Err(e) ==> e.kind == ErrorKind::ConfigurationInvalid,
    decreases config,
{
    match config {
        GuardrailProviderConfig::Patterns { id, rules } => {
            let copied = copy_rules(rules);
            proof {
                if forall|i: int| 0 <= i < copied@.len() ==> rule_valid(#[trigger] copied@[i]@) {
                    assert forall|i: int| 0 <= i < rules@.len() implies rule_valid(
                        #[trigger] rules@[i]@,
                    ) by {
                        assert(rule_valid(copied@[i]@));
                    }
                }
                if provider_config_valid(*config) && provider_config_plain(*config) {
                    assert forall|i: int| 0 <= i < copied@.len() implies rule_valid(
                        #[trigger] copied@[i]@,
                    ) && !needs_engine(copied@[i]@) by {
                        assert(rule_valid(rules@[i]@));
                        assert(!needs_engine(rules@[i]@));
                    }
                }
            }
            match PatternDetector::new(id.clone(), copied) {
                Ok(p) => Ok(GuardrailProvider::Pattern(p)),
                Err(e) => Err(e),
            }
        },
        GuardrailProviderConfig::LlamaGuard(g) => {
            match LlamaGuardProvider::new(g.duplicate()) {
                Ok(p) => Ok(GuardrailProvider::LlamaGuard(p)),
                Err(e) => Err(e),
            }
        },
        GuardrailProviderConfig::LlamaPromptGuard(g) => {
            match LlamaPromptGuardProvider::new(g.duplicate()) {
                Ok(p) => Ok(GuardrailProvider::LlamaPromptGuard(p)),
                Err(e) => Err(e),
            }
        },
        GuardrailProviderConfig::GptOssSafeguard(g) => {
            match GptOssSafeguardProvider::new(g.duplicate()) {
                Ok(p) => Ok(GuardrailProvider::GptOssSafeguard(p)),
                Err(e) => Err(e),
            }
        },
        GuardrailProviderConfig::Hybrid { id, providers, policy } => {
            let mut children: Vec<GuardrailProvider> = Vec::new();
            let mut i: usize = 0;
            while i < providers.len()
                invariant
                    i <= providers@.len(),
                    children@.len() == i,
                    *config == (GuardrailProviderConfig::Hybrid {
                        id: *id,
                        providers: *providers,
                        policy: *policy,
                    }),
                    provider_configs_valid(providers@, i as int),
                    describes_all(providers@, children@, i as int),
                decreases providers.len() - i,
            {
                proof {
                    vstd::std_specs::vec::axiom_vec_index_decreases(*providers, i as int);
                    assert(config->providers == *providers);
                    assert(decreases_to!(*config => config->providers));
                    assert(decreases_to!(*providers => providers[i as int]));
                }
                match create_guardrail_provider(&providers[i]) {
                    Ok(d) => {
                        proof {
                            lemma_describes_all_extends(providers@, children@, d, i as int);
                            assert(children@.push(d)[i as int] == d);
                        }
                        children.push(d);
                    },
                    Err(e) => {
                        proof {
                            if provider_config_valid(*config) && provider_config_plain(*config) {
                                lemma_configs_valid_each(
                                    providers@,
                                    providers@.len() as int,
                                    i as int,
                                );
                                lemma_configs_plain_each(
                                    providers@,
                                    providers@.len() as int,
                                    i as int,
                                );
                            }
                        }
                        return Err(e);
                    },
                }
                i += 1;
            }
            match HybridGuardrail::new(id.clone(), children, *policy) {
                Ok(h) => Ok(GuardrailProvider::Hybrid(h)),
                Err(e) => Err(e),
            }
        },
    }
}

/// Whether the description of the input phase can be used: the threshold,
/// if one is given, is not `Clear`, and the detector is well described.
pub open spec fn input_settings_valid(s: InputSettings) -> bool {
    &&& s.guardrail.threshold != Some(Severity::Clear)
    &&& provider_config_valid(s.provider)
}

/// Whether the description of the output phase can be used.
pub open spec fn output_settings_valid(s: OutputSettings) -> bool {
    &&& s.guardrail.threshold != Some(Severity::Clear)
    &&& provider_config_valid(s.provider)
}

/// Builds the guardrail of the input phase.
pub fn create_input_guardrail(settings: &InputSettings) -> (r: Result<InputGuardrail, GuardrailError>)
    ensures
        r is Ok ==> input_settings_valid(*settings),
        input_settings_valid(*settings) && provider_config_plain(settings.provider) ==> r is Ok,
        r matches Ok(g) ==> describes(settings.provider, g.detector_part()) && g.policy_view()
            == policy_over(
            input_defaults(),
            settings.guardrail.threshold,
            settings.guardrail.fail_open,
            settings.guardrail.enforce,
        ),
        r matches Err(e) ==> e.kind == ErrorKind::ConfigurationInvalid,
{
    match settings.guardrail.threshold {
        Some(Severity::Clear) => {
            return Err(unknown("a block threshold of none would block everything"));
        },
        _ => {},
    }
    match create_guardrail_provider(&settings.provider) {
        Ok(d) => Ok(InputGuardrail::new(d, settings.guardrail)),
        Err(e) => Err(e),
    }
}

/// Builds the guardrail of the output phase.
pub fn create_output_guardrail(settings: &OutputSettings) -> (r: Result<
    OutputGuardrail,
    GuardrailError,
>)
    ensures
        r is Ok ==> output_settings_valid(*settings),
        output_settings_valid(*settings) && provider_config_plain(settings.provider) ==> r is Ok,
        r matches Ok(g) ==> describes(settings.provider, g.detector_part()) && g.policy_view()
            == policy_over(
            output_defaults(),
            settings.guardrail.threshold,
            settings.guardrail.fail_open,
            settings.guardrail.enforce,
        ),
        r matches Err(e) ==> e.kind == ErrorKind::ConfigurationInvalid,
{
    match settings.guardrail.threshold {
        Some(Severity::Clear) => {
            return Err(unknown("a block threshold of none would block everything"));
        },
        _ => {},
    }
    match create_guardrail_provider(&settings.provider) {
        Ok(d) => Ok(OutputGuardrail::new(d, settings.guardrail)),
        Err(e) => Err(e),
    }
}

/// Whether a configuration can be used: each phase that it describes is
/// well described.
pub open spec fn guardrail_config_valid(c: GuardrailConfig) -> bool {
    &&& c.input matches Some(s) ==> input_settings_valid(s)
    &&& c.output matches Some(s) ==> output_settings_valid(s)
}

/// Whether no rule of a configuration matches by a regular expression.
pub open spec fn guardrail_config_plain(c: GuardrailConfig) -> bool {
    &&& c.input matches Some(s) ==> provider_config_plain(s.provider)
    &&& c.output matches Some(s) ==> provider_config_plain(s.provider)
}

/// Builds the guardrails that a configuration describes, or rejects the
/// configuration.
pub fn create_guardrails(config: &GuardrailConfig) -> (r: Result<Guardrails, GuardrailError>)
    ensures
        r is Ok ==> guardrail_config_valid(*config),
        guardrail_config_valid(*config) && guardrail_config_plain(*config) ==> r is Ok,
        r matches Ok(g) ==> (g.input is Some <==> config.input is Some) && (g.output is Some
            <==> config.output is Some),
        r matches Ok(g) ==> (config.input matches Some(s) ==> describes(
            s.provider,
            g.input->Some_0.detector_part(),
        ) && g.input->Some_0.policy_view() == policy_over(
            input_defaults(),
            s.guardrail.threshold,
            s.guardrail.fail_open,
            s.guardrail.enforce,
        )),
        r matches Ok(g) ==> (config.output matches Some(s) ==> describes(
            s.provider,
            g.output->Some_0.detector_part(),
        ) && g.output->Some_0.policy_view() == policy_over(
            output_defaults(),
            s.guardrail.threshold,
            s.guardrail.fail_open,
            s.guardrail.enforce,
        )),
        r matches Err(e) ==> e.kind == ErrorKind::ConfigurationInvalid,
{
    let input = match &config.input {
        Some(settings) => match create_input_guardrail(settings) {
            Ok(g) => Some(g),
            Err(e) => {
                return Err(e);
            },
        },
        None => None,
    };
    let output = match &config.output {
        Some(settings) => match create_output_guardrail(settings) {
            Ok(g) => Some(g),
            Err(e) => {
                return Err(e);
            },
        },
        None => None,
    };
    Ok(Guardrails { input, output })
}

} // verus!
