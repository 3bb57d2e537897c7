use llm_guard::guardrails::gpt_oss_safeguard::{GptOssSafeguardConfig, GptOssSafeguardProvider};
use llm_guard::guardrails::llama_guard::{
    category_from_code, parse_answer, read_reply, severity_of, CategorySeverity,
    LlamaGuardCategory, LlamaGuardConfig, LlamaGuardProvider,
};
use llm_guard::text::{chars_of, trim};
use llm_guard::guardrails::llama_prompt_guard::{
    check_bands, score_severity, LlamaPromptGuardConfig, LlamaPromptGuardProvider,
    LlamaPromptGuardResult, SeverityBand, SCORE_SCALE,
};
use llm_guard::guardrails::provider::{
    answer_of, ErrorKind, GptOssSafeguardResult, LlamaGuardResult, ProviderSpecificResult, Reply,
    Severity,
};

fn bands() -> Vec<SeverityBand> {
    vec![
        SeverityBand { from: 500_000, severity: Severity::Medium },
        SeverityBand { from: 800_000, severity: Severity::High },
        SeverityBand { from: 990_000, severity: Severity::Critical },
    ]
}

fn prompt_guard_config() -> LlamaPromptGuardConfig {
    LlamaPromptGuardConfig {
        id: "prompt-guard".to_string(),
        endpoint: "http://localhost:8000/classify".to_string(),
        model: "llama-prompt-guard-2".to_string(),
        timeout_ms: 5_000,
        cutoff: 800_000,
        floor: Severity::Low,
        bands: bands(),
    }
}

fn guard_config() -> LlamaGuardConfig {
    LlamaGuardConfig {
        id: "llama-guard".to_string(),
        endpoint: "http://localhost:8000/chat".to_string(),
        model: "llama-guard-3".to_string(),
        timeout_ms: 5_000,
        default_severity: Severity::High,
        overrides: vec![
            CategorySeverity { category: LlamaGuardCategory::Hate, severity: Severity::Critical },
            CategorySeverity { category: LlamaGuardCategory::Privacy, severity: Severity::Low },
            CategorySeverity { category: LlamaGuardCategory::Hate, severity: Severity::Low },
        ],
    }
}

fn safeguard_config() -> GptOssSafeguardConfig {
    GptOssSafeguardConfig {
        id: "safeguard".to_string(),
        endpoint: "http://localhost:8000/chat".to_string(),
        model: "gpt-oss-safeguard-20b".to_string(),
        timeout_ms: 9_000,
        policy: "No medical advice.".to_string(),
        severity: Severity::High,
    }
}

#[test]
fn score_at_or_above_cutoff_is_exactly_one_violation() {
    let provider = LlamaPromptGuardProvider::new(prompt_guard_config()).unwrap();
    let above = provider.normalize(&LlamaPromptGuardResult { score: 950_000 }, Severity::Medium);
    assert_eq!(above.violations.len(), 1);
    assert_eq!(above.violations[0].category, "prompt_injection");
    assert_eq!(above.violations[0].severity, Severity::High);
    assert_eq!(above.violations[0].source, "prompt-guard");
    assert_eq!(above.violations[0].description, "the injection score reaches the cutoff");
    assert_eq!(
        above.violations[0].raw,
        Some(ProviderSpecificResult::LlamaPromptGuard(LlamaPromptGuardResult { score: 950_000 }))
    );
    assert!(!above.passed);
    assert_eq!(above.detectors, vec!["prompt-guard".to_string()]);
    let at = provider.normalize(&LlamaPromptGuardResult { score: 800_000 }, Severity::Critical);
    assert_eq!(at.violations.len(), 1);
    assert!(at.passed);
    let below = provider.normalize(&LlamaPromptGuardResult { score: 799_999 }, Severity::Low);
    assert!(below.violations.is_empty());
    assert!(below.passed);
    assert_eq!(below.severity, Severity::Clear);
}

#[test]
fn score_bands_form_a_step_function() {
    let bands = bands();
    assert_eq!(score_severity(Severity::Low, &bands, 0), Severity::Low);
    assert_eq!(score_severity(Severity::Low, &bands, 499_999), Severity::Low);
    assert_eq!(score_severity(Severity::Low, &bands, 500_000), Severity::Medium);
    assert_eq!(score_severity(Severity::Low, &bands, 799_999), Severity::Medium);
    assert_eq!(score_severity(Severity::Low, &bands, 800_000), Severity::High);
    assert_eq!(score_severity(Severity::Low, &bands, 989_999), Severity::High);
    assert_eq!(score_severity(Severity::Low, &bands, 990_000), Severity::Critical);
    assert_eq!(score_severity(Severity::Low, &bands, SCORE_SCALE), Severity::Critical);
    assert_eq!(score_severity(Severity::Medium, &vec![], 1), Severity::Medium);
    assert!(check_bands(&bands));
    assert!(check_bands(&vec![]));
    assert!(!check_bands(&vec![
        SeverityBand { from: 5, severity: Severity::Low },
        SeverityBand { from: 5, severity: Severity::High }
    ]));
    assert!(!check_bands(&vec![SeverityBand { from: SCORE_SCALE + 1, severity: Severity::Low }]));
}

#[test]
fn prompt_guard_replies_without_an_answer_are_failures() {
    let provider = LlamaPromptGuardProvider::new(prompt_guard_config()).unwrap();
    let ok = provider.interpret(&Reply::Answer(LlamaPromptGuardResult { score: 10 }), Severity::Low);
    assert!(ok.unwrap().passed);
    let beyond = provider
        .interpret(&Reply::Answer(LlamaPromptGuardResult { score: SCORE_SCALE + 1 }), Severity::Low)
        .unwrap_err();
    assert_eq!(beyond.kind, ErrorKind::DetectorResponseInvalid);
    assert_eq!(beyond.detail, "the score lies beyond the scale");
    let unreachable = provider
        .interpret(&Reply::Unreachable("connection refused".to_string()), Severity::Low)
        .unwrap_err();
    assert_eq!(unreachable.kind, ErrorKind::DetectorUnavailable);
    assert_eq!(unreachable.detail, "connection refused");
    let malformed =
        provider.interpret(&Reply::Malformed("missing field score".to_string()), Severity::Low).unwrap_err();
    assert_eq!(malformed.kind, ErrorKind::DetectorResponseInvalid);
    assert_eq!(malformed.detail, "missing field score");
    let timeout = provider.interpret(&Reply::TimedOut, Severity::Low).unwrap_err();
    assert_eq!(timeout.kind, ErrorKind::EvaluationTimeout);
    assert_eq!(timeout.detail, "the classifier did not answer in time");
    assert_eq!(ErrorKind::EvaluationTimeout.code(), "EVALUATION_TIMEOUT");
    assert_eq!(ErrorKind::ConfigurationInvalid.code(), "CONFIGURATION_INVALID");
    assert_eq!(ErrorKind::DetectorUnavailable.code(), "DETECTOR_UNAVAILABLE");
    assert_eq!(ErrorKind::DetectorResponseInvalid.code(), "DETECTOR_RESPONSE_INVALID");
}

#[test]
fn answer_of_tells_answers_from_failures() {
    let answer: Reply<u8> = Reply::Answer(3);
    assert_eq!(answer_of(&answer).unwrap(), &3);
    let failure: Reply<u8> = Reply::TimedOut;
    assert_eq!(answer_of(&failure).unwrap_err().kind, ErrorKind::EvaluationTimeout);
}

#[test]
fn prompt_guard_settings_are_checked() {
    let mut config = prompt_guard_config();
    config.endpoint = String::new();
    assert_eq!(
        LlamaPromptGuardProvider::new(config).err().unwrap().kind,
        ErrorKind::ConfigurationInvalid
    );
    let mut config = prompt_guard_config();
    config.model = String::new();
    assert!(LlamaPromptGuardProvider::new(config).is_err());
    let mut config = prompt_guard_config();
    config.cutoff = SCORE_SCALE + 1;
    assert!(LlamaPromptGuardProvider::new(config).is_err());
    let mut config = prompt_guard_config();
    config.cutoff = SCORE_SCALE;
    assert!(LlamaPromptGuardProvider::new(config).is_ok());
    let mut config = prompt_guard_config();
    config.bands.reverse();
    assert!(LlamaPromptGuardProvider::new(config).is_err());
    assert_eq!(prompt_guard_config().duplicate(), prompt_guard_config());
}

#[test]
fn classifier_requests_carry_text_and_target() {
    let provider = LlamaPromptGuardProvider::new(prompt_guard_config()).unwrap();
    let request = provider.request("some text");
    assert_eq!(request.endpoint, "http://localhost:8000/classify");
    assert_eq!(request.model, "llama-prompt-guard-2");
    assert_eq!(request.instructions, "");
    assert_eq!(request.text, "some text");
    assert_eq!(request.timeout_ms, 5_000);
    let safeguard = GptOssSafeguardProvider::new(safeguard_config()).unwrap();
    let request = safeguard.request("is this allowed");
    assert_eq!(request.instructions, "No medical advice.");
    assert_eq!(request.text, "is this allowed");
    assert_eq!(request.model, "gpt-oss-safeguard-20b");
    assert_eq!(request.timeout_ms, 9_000);
    let guard = LlamaGuardProvider::new(guard_config()).unwrap();
    let request = guard.request("t");
    assert_eq!(request.endpoint, "http://localhost:8000/chat");
    assert_eq!(request.instructions, "");
    assert_eq!(guard.id(), "llama-guard");
}

#[test]
fn each_flagged_category_is_one_violation() {
    let provider = LlamaGuardProvider::new(guard_config()).unwrap();
    let raw = LlamaGuardResult {
        categories: vec![
            LlamaGuardCategory::Privacy,
            LlamaGuardCategory::Hate,
            LlamaGuardCategory::Elections,
        ],
    };
    let result = provider.normalize(&raw, Severity::High);
    let found: Vec<(&str, Severity)> =
        result.violations.iter().map(|v| (v.category.as_str(), v.severity)).collect();
    assert_eq!(
        found,
        vec![
            ("privacy", Severity::Low),
            ("hate", Severity::Critical),
            ("elections", Severity::High)
        ]
    );
    for violation in &result.violations {
        assert_eq!(violation.raw, Some(ProviderSpecificResult::LlamaGuard(raw.clone())));
        assert_eq!(violation.source, "llama-guard");
        assert_eq!(violation.description, "flagged by the category classifier");
    }
    assert_eq!(result.severity, Severity::Critical);
    assert!(!result.passed);
    let safe = provider.normalize(&LlamaGuardResult { categories: vec![] }, Severity::Low);
    assert!(safe.violations.is_empty());
    assert!(safe.passed);
    let failed = provider.interpret(&Reply::Malformed("no verdict".to_string()), Severity::Low);
    assert_eq!(failed.unwrap_err().kind, ErrorKind::DetectorResponseInvalid);
    assert_eq!(provider.interpret(&Reply::Answer(raw.clone()), Severity::High).unwrap(), result);
}

#[test]
fn first_override_for_a_category_counts() {
    let config = guard_config();
    assert_eq!(severity_of(Severity::High, &config.overrides, LlamaGuardCategory::Hate), Severity::Critical);
    assert_eq!(severity_of(Severity::High, &config.overrides, LlamaGuardCategory::Privacy), Severity::Low);
    assert_eq!(severity_of(Severity::High, &config.overrides, LlamaGuardCategory::SelfHarm), Severity::High);
    assert_eq!(severity_of(Severity::Medium, &vec![], LlamaGuardCategory::Hate), Severity::Medium);
}

#[test]
fn category_codes_run_from_one_to_fourteen() {
    for n in 1u8..=14 {
        let category = LlamaGuardCategory::from_number(n).unwrap();
        assert_eq!(category.number(), n);
    }
    assert_eq!(LlamaGuardCategory::from_number(0), None);
    assert_eq!(LlamaGuardCategory::from_number(15), None);
    assert_eq!(LlamaGuardCategory::ViolentCrimes.number(), 1);
    assert_eq!(LlamaGuardCategory::CodeInterpreterAbuse.number(), 14);
    assert_eq!(LlamaGuardCategory::ChildExploitation.label(), "child_exploitation");
    assert_eq!(LlamaGuardCategory::Hate.label(), "hate");
}

#[test]
fn guard_settings_are_checked() {
    let mut config = guard_config();
    config.endpoint = String::new();
    assert_eq!(LlamaGuardProvider::new(config).err().unwrap().kind, ErrorKind::ConfigurationInvalid);
    let mut config = guard_config();
    config.model = String::new();
    assert!(LlamaGuardProvider::new(config).is_err());
    assert_eq!(guard_config().duplicate(), guard_config());
}

#[test]
fn a_violating_answer_of_the_policy_classifier_is_one_violation() {
    let provider = GptOssSafeguardProvider::new(safeguard_config()).unwrap();
    let raw = GptOssSafeguardResult { violation: true, rationale: "asks for a dosage".to_string() };
    let result = provider.normalize(&raw, Severity::Medium);
    assert_eq!(result.violations.len(), 1);
    assert_eq!(result.violations[0].category, "policy_violation");
    assert_eq!(result.violations[0].severity, Severity::High);
    assert_eq!(result.violations[0].description, "asks for a dosage");
    assert_eq!(result.violations[0].source, "safeguard");
    assert_eq!(result.violations[0].raw, Some(ProviderSpecificResult::GptOssSafeguard(raw.clone())));
    assert!(!result.passed);
    let fine = GptOssSafeguardResult { violation: false, rationale: "harmless".to_string() };
    let result = provider.interpret(&Reply::Answer(fine), Severity::Medium).unwrap();
    assert!(result.violations.is_empty());
    assert!(result.passed);
    let failed = provider.interpret(&Reply::Unreachable("503".to_string()), Severity::Medium);
    assert_eq!(failed.unwrap_err().kind, ErrorKind::DetectorUnavailable);
}

#[test]
fn safeguard_settings_are_checked() {
    for field in 0..3 {
        let mut config = safeguard_config();
        match field {
            0 => config.endpoint = String::new(),
            1 => config.model = String::new(),
            _ => config.policy = String::new(),
        }
        assert_eq!(
            GptOssSafeguardProvider::new(config).err().unwrap().kind,
            ErrorKind::ConfigurationInvalid
        );
    }
    assert_eq!(safeguard_config().duplicate(), safeguard_config());
}

#[test]
fn answers_of_the_category_classifier_are_read() {
    let categories = |text: &str| parse_answer(text).map(|r| r.categories);
    assert_eq!(categories("safe").unwrap(), vec![]);
    assert_eq!(categories("\n safe \n").unwrap(), vec![]);
    assert_eq!(
        categories("unsafe\nS1,S10").unwrap(),
        vec![LlamaGuardCategory::ViolentCrimes, LlamaGuardCategory::Hate]
    );
    assert_eq!(
        categories("  unsafe \r\n S14 , S2,S2 \n").unwrap(),
        vec![
            LlamaGuardCategory::CodeInterpreterAbuse,
            LlamaGuardCategory::NonViolentCrimes,
            LlamaGuardCategory::NonViolentCrimes
        ]
    );
    assert_eq!(categories("unsafe S7").unwrap(), vec![LlamaGuardCategory::Privacy]);
    let malformed = [
        "", "   ", "SAFE", "safe.", "safe\nS1", "unsafe", "unsafe\n", "unsafeS1", "unsafe\nS0",
        "unsafe\nS15", "unsafe\nS01", "unsafe\ns1", "unsafe\nS1,", "unsafe\n,S1", "unsafe\nS1,,S2",
        "unsafe\nS1 S2", "unsafe\nS1;S2", "maybe", "unsafe\nS1\nsafe",
    ];
    for text in malformed {
        let e = parse_answer(text).unwrap_err();
        assert_eq!(e.kind, ErrorKind::DetectorResponseInvalid, "{:?}", text);
        assert_eq!(e.detail, "the answer of the category classifier is not understood");
    }
}

#[test]
fn category_codes_are_read_exactly() {
    for n in 1u8..=14 {
        let category = LlamaGuardCategory::from_number(n).unwrap();
        assert_eq!(category.code(), format!("S{}", n));
        assert_eq!(category_from_code(&chars_of(category.code())), Some(category));
    }
    assert_eq!(category_from_code(&chars_of("S")), None);
    assert_eq!(category_from_code(&chars_of("S1 ")), None);
    assert_eq!(category_from_code(&chars_of("S100")), None);
    assert_eq!(trim(&chars_of(" \t a b \r\n")), chars_of("a b"));
    assert_eq!(trim(&chars_of("\n\n")), chars_of(""));
    assert_eq!(trim(&chars_of("")), chars_of(""));
    assert_eq!(trim(&chars_of("x")), chars_of("x"));
}

#[test]
fn replies_with_text_are_read_into_answers() {
    assert_eq!(
        read_reply(&Reply::Answer("unsafe\nS3".to_string())),
        Reply::Answer(LlamaGuardResult { categories: vec![LlamaGuardCategory::SexCrimes] })
    );
    assert_eq!(
        read_reply(&Reply::Answer("no idea".to_string())),
        Reply::Malformed("the answer of the category classifier is not understood".to_string())
    );
    assert_eq!(read_reply(&Reply::TimedOut), Reply::TimedOut);
    assert_eq!(
        read_reply(&Reply::Unreachable("down".to_string())),
        Reply::Unreachable("down".to_string())
    );
    assert_eq!(
        read_reply(&Reply::Malformed("empty body".to_string())),
        Reply::Malformed("empty body".to_string())
    );
}
