//! The category classifier: it flags hazard categories in a text.

use crate::guardrails::provider::{
    answer_of, copy_categories, is_blank, judged, outcome_view, reply_failure, string_views,
    violation_views, ClassifierRequest, ErrorKind, GuardrailError, GuardrailErrorView,
    GuardrailResult, GuardrailResultView, LlamaGuardResult, OutcomeView, ProviderSpecificResult,
    RawView, Reply, Severity, Violation, ViolationView,
};
use crate::text::{
    chars_of, find_char, first_at, has_prefix, is_space, char_is_space, position_of, same, slice,
    starts_with, trim, trimmed,
};
use vstd::prelude::*;

verus! {

/// The hazard categories that the classifier knows, by their codes `S1` to
/// `S14`.
#[derive(Debug, Clone, Copy, PartialEq, Eq, Hash, Structural)]
pub enum LlamaGuardCategory {
    ViolentCrimes,
    NonViolentCrimes,
    SexCrimes,
    ChildExploitation,
    Defamation,
    SpecializedAdvice,
    Privacy,
    IntellectualProperty,
    IndiscriminateWeapons,
    Hate,
    SelfHarm,
    SexualContent,
    Elections,
    CodeInterpreterAbuse,
}

impl LlamaGuardCategory {
    /// The number in the category's code: 1 for `S1` up to 14 for `S14`.
    pub open spec fn code_number(self) -> nat {
        match self {
            LlamaGuardCategory::ViolentCrimes => 1,
            LlamaGuardCategory::NonViolentCrimes => 2,
            LlamaGuardCategory::SexCrimes => 3,
            LlamaGuardCategory::ChildExploitation => 4,
            LlamaGuardCategory::Defamation => 5,
            LlamaGuardCategory::SpecializedAdvice => 6,
            LlamaGuardCategory::Privacy => 7,
            LlamaGuardCategory::IntellectualProperty => 8,
            LlamaGuardCategory::IndiscriminateWeapons => 9,
            LlamaGuardCategory::Hate => 10,
            LlamaGuardCategory::SelfHarm => 11,
            LlamaGuardCategory::SexualContent => 12,
            LlamaGuardCategory::Elections => 13,
            LlamaGuardCategory::CodeInterpreterAbuse => 14,
        }
    }

    /// The name under which a finding of the category is reported.
    pub open spec fn label_text(self) -> Seq<char> {
        match self {
            LlamaGuardCategory::ViolentCrimes => "violent_crimes"@,
            LlamaGuardCategory::NonViolentCrimes => "non_violent_crimes"@,
            LlamaGuardCategory::SexCrimes => "sex_crimes"@,
            LlamaGuardCategory::ChildExploitation => "child_exploitation"@,
            LlamaGuardCategory::Defamation => "defamation"@,
            LlamaGuardCategory::SpecializedAdvice => "specialized_advice"@,
            LlamaGuardCategory::Privacy => "privacy"@,
            LlamaGuardCategory::IntellectualProperty => "intellectual_property"@,
            LlamaGuardCategory::IndiscriminateWeapons => "indiscriminate_weapons"@,
            LlamaGuardCategory::Hate => "hate"@,
            LlamaGuardCategory::SelfHarm => "self_harm"@,
            LlamaGuardCategory::SexualContent => "sexual_content"@,
            LlamaGuardCategory::Elections => "elections"@,
            LlamaGuardCategory::CodeInterpreterAbuse => "code_interpreter_abuse"@,
        }
    }

    /// The number in the category's code.
    pub fn number(self) -> (r: u8)
        ensures
            r == self.code_number(),
            1 <= r <= 14,
    {
        match self {
            LlamaGuardCategory::ViolentCrimes => 1,
            LlamaGuardCategory::NonViolentCrimes => 2,
            LlamaGuardCategory::SexCrimes => 3,
            LlamaGuardCategory::ChildExploitation => 4,
            LlamaGuardCategory::Defamation => 5,
            LlamaGuardCategory::SpecializedAdvice => 6,
            LlamaGuardCategory::Privacy => 7,
            LlamaGuardCategory::IntellectualProperty => 8,
            LlamaGuardCategory::IndiscriminateWeapons => 9,
            LlamaGuardCategory::Hate => 10,
            LlamaGuardCategory::SelfHarm => 11,
            LlamaGuardCategory::SexualContent => 12,
            LlamaGuardCategory::Elections => 13,
            LlamaGuardCategory::CodeInterpreterAbuse => 14,
        }
    }

    /// The category with the code number `n`, if there is one.
    pub fn from_number(n: u8) -> (r: Option<LlamaGuardCategory>)
        ensures
            1 <= n <= 14 ==> r is Some && r->Some_0.code_number() == n,
            !(1 <= n <= 14) ==> r is None,
    {
        match n {
            1 => Some(LlamaGuardCategory::ViolentCrimes),
            2 => Some(LlamaGuardCategory::NonViolentCrimes),
            3 => Some(LlamaGuardCategory::SexCrimes),
            4 => Some(LlamaGuardCategory::ChildExploitation),
            5 => Some(LlamaGuardCategory::Defamation),
            6 => Some(LlamaGuardCategory::SpecializedAdvice),
            7 => Some(LlamaGuardCategory::Privacy),
            8 => Some(LlamaGuardCategory::IntellectualProperty),
            9 => Some(LlamaGuardCategory::IndiscriminateWeapons),
            10 => Some(LlamaGuardCategory::Hate),
            11 => Some(LlamaGuardCategory::SelfHarm),
            12 => Some(LlamaGuardCategory::SexualContent),
            13 => Some(LlamaGuardCategory::Elections),
            14 => Some(LlamaGuardCategory::CodeInterpreterAbuse),
            _ => None,
        }
    }

    /// The name under which a finding of the category is reported.
    pub fn label(self) -> (r: &'static str)
        ensures
            r@ == self.label_text(),
    {
        match self {
            LlamaGuardCategory::ViolentCrimes => "violent_crimes",
            LlamaGuardCategory::NonViolentCrimes => "non_violent_crimes",
            LlamaGuardCategory::SexCrimes => "sex_crimes",
            LlamaGuardCategory::ChildExploitation => "child_exploitation",
            LlamaGuardCategory::Defamation => "defamation",
            LlamaGuardCategory::SpecializedAdvice => "specialized_advice",
            LlamaGuardCategory::Privacy => "privacy",
            LlamaGuardCategory::IntellectualProperty => "intellectual_property",
            LlamaGuardCategory::IndiscriminateWeapons => "indiscriminate_weapons",
            LlamaGuardCategory::Hate => "hate",
            LlamaGuardCategory::SelfHarm => "self_harm",
            LlamaGuardCategory::SexualContent => "sexual_content",
            LlamaGuardCategory::Elections => "elections",
            LlamaGuardCategory::CodeInterpreterAbuse => "code_interpreter_abuse",
        }
    }
}

impl LlamaGuardCategory {
    /// The code by which the classifier names the category.
    pub open spec fn code_text(self) -> Seq<char> {
        match self {
            LlamaGuardCategory::ViolentCrimes => "S1"@,
            LlamaGuardCategory::NonViolentCrimes => "S2"@,
            LlamaGuardCategory::SexCrimes => "S3"@,
            LlamaGuardCategory::ChildExploitation => "S4"@,
            LlamaGuardCategory::Defamation => "S5"@,
            LlamaGuardCategory::SpecializedAdvice => "S6"@,
            LlamaGuardCategory::Privacy => "S7"@,
            LlamaGuardCategory::IntellectualProperty => "S8"@,
            LlamaGuardCategory::IndiscriminateWeapons => "S9"@,
            LlamaGuardCategory::Hate => "S10"@,
            LlamaGuardCategory::SelfHarm => "S11"@,
            LlamaGuardCategory::SexualContent => "S12"@,
            LlamaGuardCategory::Elections => "S13"@,
            LlamaGuardCategory::CodeInterpreterAbuse => "S14"@,
        }
    }

    /// The code by which the classifier names the category.
    pub fn code(self) -> (r: &'static str)
        ensures
            r@ == self.code_text(),
    {
        match self {
            LlamaGuardCategory::ViolentCrimes => "S1",
            LlamaGuardCategory::NonViolentCrimes => "S2",
            LlamaGuardCategory::SexCrimes => "S3",
            LlamaGuardCategory::ChildExploitation => "S4",
            LlamaGuardCategory::Defamation => "S5",
            LlamaGuardCategory::SpecializedAdvice => "S6",
            LlamaGuardCategory::Privacy => "S7",
            LlamaGuardCategory::IntellectualProperty => "S8",
            LlamaGuardCategory::IndiscriminateWeapons => "S9",
            LlamaGuardCategory::Hate => "S10",
            LlamaGuardCategory::SelfHarm => "S11",
            LlamaGuardCategory::SexualContent => "S12",
            LlamaGuardCategory::Elections => "S13",
            LlamaGuardCategory::CodeInterpreterAbuse => "S14",
        }
    }
}

/// The category that a code names, if it names one.
pub open spec fn category_coded(code: Seq<char>) -> Option<LlamaGuardCategory> {
    if code == "S1"@ {
        Some(LlamaGuardCategory::ViolentCrimes)
    } else if code == "S2"@ {
        Some(LlamaGuardCategory::NonViolentCrimes)
    } else if code == "S3"@ {
        Some(LlamaGuardCategory::SexCrimes)
    } else if code == "S4"@ {
        Some(LlamaGuardCategory::ChildExploitation)
    } else if code == "S5"@ {
        Some(LlamaGuardCategory::Defamation)
    } else if code == "S6"@ {
        Some(LlamaGuardCategory::SpecializedAdvice)
    } else if code == "S7"@ {
        Some(LlamaGuardCategory::Privacy)
    } else if code == "S8"@ {
        Some(LlamaGuardCategory::IntellectualProperty)
    } else if code == "S9"@ {
        Some(LlamaGuardCategory::IndiscriminateWeapons)
    } else if code == "S10"@ {
        Some(LlamaGuardCategory::Hate)
    } else if code == "S11"@ {
        Some(LlamaGuardCategory::SelfHarm)
    } else if code == "S12"@ {
        Some(LlamaGuardCategory::SexualContent)
    } else if code == "S13"@ {
        Some(LlamaGuardCategory::Elections)
    } else if code == "S14"@ {
        Some(LlamaGuardCategory::CodeInterpreterAbuse)
    } else {
        None
    }
}

/// Each category is the one that its code names.
pub proof fn lemma_code_names_category(c: LlamaGuardCategory)
    ensures
        category_coded(c.code_text()) == Some(c),
{
    reveal_strlit("S1");
    reveal_strlit("S2");
    reveal_strlit("S3");
    reveal_strlit("S4");
    reveal_strlit("S5");
    reveal_strlit("S6");
    reveal_strlit("S7");
    reveal_strlit("S8");
    reveal_strlit("S9");
    reveal_strlit("S10");
    reveal_strlit("S11");
    reveal_strlit("S12");
    reveal_strlit("S13");
    reveal_strlit("S14");
    assert("S1"@.len() == 2 && "S1"@[1] == '1');
    assert("S2"@.len() == 2 && "S2"@[1] == '2');
    assert("S3"@.len() == 2 && "S3"@[1] == '3');
    assert("S4"@.len() == 2 && "S4"@[1] == '4');
    assert("S5"@.len() == 2 && "S5"@[1] == '5');
    assert("S6"@.len() == 2 && "S6"@[1] == '6');
    assert("S7"@.len() == 2 && "S7"@[1] == '7');
    assert("S8"@.len() == 2 && "S8"@[1] == '8');
    assert("S9"@.len() == 2 && "S9"@[1] == '9');
    assert("S10"@.len() == 3 && "S10"@[2] == '0');
    assert("S11"@.len() == 3 && "S11"@[2] == '1');
    assert("S12"@.len() == 3 && "S12"@[2] == '2');
    assert("S13"@.len() == 3 && "S13"@[2] == '3');
    assert("S14"@.len() == 3 && "S14"@[2] == '4');
}

fn is_code(code: &Vec<char>, word: &str) -> (b: bool)
    ensures
        b == (code@ == word@),
{
    let w = chars_of(word);
    same(code, &w)
}

/// The category that a code names, if it names one.
pub fn category_from_code(code: &Vec<char>) -> (r: Option<LlamaGuardCategory>)
    ensures
        r == category_coded(code@),
{
    if is_code(code, "S1") {
        Some(LlamaGuardCategory::ViolentCrimes)
    } else if is_code(code, "S2") {
        Some(LlamaGuardCategory::NonViolentCrimes)
    } else if is_code(code, "S3") {
        Some(LlamaGuardCategory::SexCrimes)
    } else if is_code(code, "S4") {
        Some(LlamaGuardCategory::ChildExploitation)
    } else if is_code(code, "S5") {
        Some(LlamaGuardCategory::Defamation)
    } else if is_code(code, "S6") {
        Some(LlamaGuardCategory::SpecializedAdvice)
    } else if is_code(code, "S7") {
        Some(LlamaGuardCategory::Privacy)
    } else if is_code(code, "S8") {
        Some(LlamaGuardCategory::IntellectualProperty)
    } else if is_code(code, "S9") {
        Some(LlamaGuardCategory::IndiscriminateWeapons)
    } else if is_code(code, "S10") {
        Some(LlamaGuardCategory::Hate)
    } else if is_code(code, "S11") {
        Some(LlamaGuardCategory::SelfHarm)
    } else if is_code(code, "S12") {
        Some(LlamaGuardCategory::SexualContent)
    } else if is_code(code, "S13") {
        Some(LlamaGuardCategory::Elections)
    } else if is_code(code, "S14") {
        Some(LlamaGuardCategory::CodeInterpreterAbuse)
    } else {
        None
    }
}

/// The categories that a list of codes names: the codes are separated by
/// commas, white space around a code does not count, and every code must
/// name a category.
pub open spec fn coded_list(s: Seq<char>) -> Option<Seq<LlamaGuardCategory>>
    decreases s.len(),
{
    if exists|i: int| first_at(s, ',', i) {
        let i = position_of(s, ',');
        if 0 <= i < s.len() {
            match (category_coded(trimmed(s.take(i))), coded_list(s.skip(i + 1))) {
                (Some(c), Some(rest)) => Some(seq![c] + rest),
                _ => None,
            }
        } else {
            None
        }
    } else {
        match category_coded(trimmed(s)) {
            Some(c) => Some(seq![c]),
            None => None,
        }
    }
}

/// What the answer of the classifier says: no category where the answer is
/// `safe`, and the listed categories where it is `unsafe`, white space and
/// a list of codes. Any other answer says nothing.
pub open spec fn answer_categories(text: Seq<char>) -> Option<Seq<LlamaGuardCategory>> {
    let t = trimmed(text);
    if t == "safe"@ {
        Some(Seq::empty())
    } else if has_prefix(t, "unsafe"@) && t.len() > 6 && is_space(t[6]) {
        coded_list(t.skip(6))
    } else {
        None
    }
}

/// The categories found so far, followed by those that are still to come.
pub open spec fn followed_by(
    found: Seq<LlamaGuardCategory>,
    rest: Option<Seq<LlamaGuardCategory>>,
) -> Option<Seq<LlamaGuardCategory>> {
    match rest {
        Some(more) => Some(found + more),
        None => None,
    }
}

/// Reads a list of codes from position `from` of `s`.
fn read_codes(s: &Vec<char>, from: usize) -> (r: Option<Vec<LlamaGuardCategory>>)
    requires
        from <= s@.len(),
    ensures
        match coded_list(s@.skip(from as int)) {
            Some(categories) => r is Some && r->Some_0@ == categories,
            None => r is None,
        },
{
    let mut found: Vec<LlamaGuardCategory> = Vec::new();
    let mut pos: usize = from;
    proof {
        let all = coded_list(s@.skip(from as int));
        if all is Some {
            assert(found@ + all->Some_0 =~= all->Some_0);
        }
    }
    loop
        invariant
            from <= pos <= s@.len(),
            coded_list(s@.skip(from as int)) == followed_by(found@, coded_list(s@.skip(pos as int))),
        decreases s@.len() - pos,
    {
        let ghost rest = s@.skip(pos as int);
        match find_char(s, ',', pos) {
            Some(comma) => {
                let item = trim(&slice(s, pos, comma));
                proof {
                    assert(first_at(rest, ',', comma - pos));
                    let i = position_of(rest, ',');
                    assert(first_at(rest, ',', i));
                    assert(i == comma - pos);
                    assert(rest.take(i) =~= s@.subrange(pos as int, comma as int));
                    assert(rest.skip(i + 1) =~= s@.skip(comma + 1));
                }
                match category_from_code(&item) {
                    Some(c) => {
                        proof {
                            let more = coded_list(s@.skip(comma + 1));
                            if more is Some {
                                assert(found@ + (seq![c] + more->Some_0) =~= found@.push(c)
                                    + more->Some_0);
                            }
                        }
                        found.push(c);
                        let end = s.len();
                        assert(comma < end);
                        pos = comma + 1;
                    },
                    None => {
                        return None;
                    },
                }
            },
            None => {
                let item = trim(&slice(s, pos, s.len()));
                proof {
                    assert(rest =~= s@.subrange(pos as int, s@.len() as int));
                }
                match category_from_code(&item) {
                    Some(c) => {
                        proof {
                            assert(found@ + seq![c] =~= found@.push(c));
                        }
                        found.push(c);
                        return Some(found);
                    },
                    None => {
                        return None;
                    },
                }
            },
        }
    }
}

/// The failure of an answer that is not understood.
pub open spec fn answer_failure() -> GuardrailErrorView {
    GuardrailErrorView {
        kind: ErrorKind::DetectorResponseInvalid,
        detail: "the answer of the category classifier is not understood"@,
    }
}

/// Reads the answer of the classifier. An answer that is not of the
/// expected form is reported as such; it is never taken for `safe`.
pub fn parse_answer(text: &str) -> (r: Result<LlamaGuardResult, GuardrailError>)
    ensures
        match answer_categories(text@) {
            Some(categories) => r is Ok && r->Ok_0.categories@ == categories,
            None => r is Err && r->Err_0@ == answer_failure(),
        },
{
    let all = chars_of(text);
    let t = trim(&all);
    let safe = chars_of("safe");
    if same(&t, &safe) {
        let categories: Vec<LlamaGuardCategory> = Vec::new();
        return Ok(LlamaGuardResult { categories });
    }
    let marker = chars_of("unsafe");
    proof {
        reveal_strlit("unsafe");
    }
    if starts_with(&t, &marker) && t.len() > 6 && char_is_space(t[6]) {
        match read_codes(&t, 6) {
            Some(categories) => {
                return Ok(LlamaGuardResult { categories });
            },
            None => {},
        }
    }
    Err(
        GuardrailError::new(
            ErrorKind::DetectorResponseInvalid,
            "the answer of the category classifier is not understood",
        ),
    )
}


/// Reads the reply that carries the text of an answer. An answer that is
/// not understood makes the reply malformed; a reply without an answer
/// stays as it is.
pub fn read_reply(reply: &Reply<String>) -> (r: Reply<LlamaGuardResult>)
    ensures
        match *reply {
            Reply::Answer(text) => match answer_categories(text@) {
                Some(categories) => r matches Reply::Answer(raw) && raw.categories@ == categories,
                None => r matches Reply::Malformed(detail) && detail@ == answer_failure().detail,
            },
            Reply::Unreachable(detail) => r matches Reply::Unreachable(d) && d@ == detail@,
            Reply::Malformed(detail) => r matches Reply::Malformed(d) && d@ == detail@,
            Reply::TimedOut => r is TimedOut,
        },
{
    match reply {
        Reply::Answer(text) => match parse_answer(text.as_str()) {
            Ok(raw) => Reply::Answer(raw),
            Err(e) => Reply::Malformed(e.detail),
        },
        Reply::Unreachable(detail) => Reply::Unreachable(detail.clone()),
        Reply::Malformed(detail) => Reply::Malformed(detail.clone()),
        Reply::TimedOut => Reply::TimedOut,
    }
}

/// The severity that the settings give to one category.
#[derive(Debug, Clone, Copy, PartialEq, Eq)]
pub struct CategorySeverity {
    pub category: LlamaGuardCategory,
    pub severity: Severity,
}

/// The settings of the category classifier.
#[derive(Debug, Clone, PartialEq, Eq)]
pub struct LlamaGuardConfig {
    /// The id under which the detector reports.
    pub id: String,
    pub endpoint: String,
    pub model: String,
    pub timeout_ms: u64,
    /// The severity of a category that `overrides` does not name.
    pub default_severity: Severity,
    /// Severities of single categories. The first entry for a category
    /// counts.
    pub overrides: Vec<CategorySeverity>,
}

/// The mathematical content of a `LlamaGuardConfig`.
pub struct LlamaGuardConfigView {
    pub id: Seq<char>,
    pub endpoint: Seq<char>,
    pub model: Seq<char>,
    pub timeout_ms: u64,
    pub default_severity: Severity,
    pub overrides: Seq<CategorySeverity>,
}

impl View for LlamaGuardConfig {
    type V = LlamaGuardConfigView;

    open spec fn view(&self) -> LlamaGuardConfigView {
        LlamaGuardConfigView {
            id: self.id@,
            endpoint: self.endpoint@,
            model: self.model@,
            timeout_ms: self.timeout_ms,
            default_severity: self.default_severity,
            overrides: self.overrides@,
        }
    }
}

impl LlamaGuardConfig {
    /// A copy with the same content.
    pub fn duplicate(&self) -> (r: LlamaGuardConfig)
        ensures
            r@ == self@,
    {
        let mut overrides: Vec<CategorySeverity> = Vec::new();
        let mut i: usize = 0;
        while i < self.overrides.len()
            invariant
                i <= self.overrides.len(),
                overrides@ == self.overrides@.take(i as int),
            decreases self.overrides.len() - i,
        {
            overrides.push(self.overrides[i]);
            i += 1;
        }
        assert(self.overrides@.take(self.overrides.len() as int) =~= self.overrides@);
        LlamaGuardConfig {
            id: self.id.clone(),
            endpoint: self.endpoint.clone(),
            model: self.model.clone(),
            timeout_ms: self.timeout_ms,
            default_severity: self.default_severity,
            overrides,
        }
    }
}

/// Whether the settings can be used: the endpoint and the model are named.
pub open spec fn guard_config_valid(c: LlamaGuardConfigView) -> bool {
    &&& c.endpoint.len() > 0
    &&& c.model.len() > 0
}

/// The severity of a category: that of the first override that names it,
/// and the default where none does.
pub open spec fn category_severity(
    default_severity: Severity,
    overrides: Seq<CategorySeverity>,
    category: LlamaGuardCategory,
) -> Severity
    decreases overrides.len(),
{
    if overrides.len() == 0 {
        default_severity
    } else if overrides.first().category == category {
        overrides.first().severity
    } else {
        category_severity(default_severity, overrides.drop_first(), category)
    }
}

/// The violation for entry `i` of the flagged categories.
pub open spec fn guard_finding(
    c: LlamaGuardConfigView,
    categories: Seq<LlamaGuardCategory>,
    i: int,
) -> ViolationView {
    ViolationView {
        category: categories[i].label_text(),
        severity: category_severity(c.default_severity, c.overrides, categories[i]),
        description: "flagged by the category classifier"@,
        source: c.id,
        raw: Some(RawView::LlamaGuard { categories }),
    }
}

/// The violations that an answer comes to: one for each flagged category,
/// in the order of the answer.
pub open spec fn guard_findings(c: LlamaGuardConfigView, categories: Seq<LlamaGuardCategory>) -> Seq<
    ViolationView,
> {
    Seq::new(categories.len(), |i: int| guard_finding(c, categories, i))
}

/// What a reply comes to: the judged findings of an answer, and a failure
/// otherwise.
pub open spec fn guard_outcome(
    c: LlamaGuardConfigView,
    reply: Reply<LlamaGuardResult>,
    threshold: Severity,
) -> OutcomeView {
    match reply {
        Reply::Answer(raw) => Ok(judged(guard_findings(c, raw.categories@), seq![c.id], threshold)),
        _ => Err(reply_failure(reply)),
    }
}

/// The severity of a category under the settings.
pub fn severity_of(
    default_severity: Severity,
    overrides: &Vec<CategorySeverity>,
    category: LlamaGuardCategory,
) -> (r: Severity)
    ensures
        r == category_severity(default_severity, overrides@, category),
{
    let mut i: usize = 0;
    assert(overrides@.skip(0) =~= overrides@);
    while i < overrides.len()
        invariant
            i <= overrides.len(),
            category_severity(default_severity, overrides@, category) == category_severity(
                default_severity,
                overrides@.skip(i as int),
                category,
            ),
        decreases overrides.len() - i,
    {
        if overrides[i].category == category {
            return overrides[i].severity;
        }
        proof {
            assert(overrides@.skip(i as int).drop_first() =~= overrides@.skip(i + 1));
        }
        i += 1;
    }
    default_severity
}

/// The detector that adapts the category classifier.
pub struct LlamaGuardProvider {
    config: LlamaGuardConfig,
}

impl View for LlamaGuardProvider {
    type V = LlamaGuardConfigView;

    closed spec fn view(&self) -> LlamaGuardConfigView {
        self.config@
    }
}

impl LlamaGuardProvider {
    #[verifier::type_invariant]
    spec fn valid(self) -> bool {
        guard_config_valid(self.config@)
    }

    /// Builds the detector, or rejects settings that cannot be used.
    pub fn new(config: LlamaGuardConfig) -> (r: Result<LlamaGuardProvider, GuardrailError>)
        ensures
            r is Ok <==> guard_config_valid(config@),
            r matches Ok(p) ==> p@ == config@,
            r matches Err(e) ==> e.kind == ErrorKind::ConfigurationInvalid,
    {
        if is_blank(&config.endpoint) {
            return Err(
                GuardrailError::new(ErrorKind::ConfigurationInvalid, "the category classifier needs an endpoint"),
            );
        }
        if is_blank(&config.model) {
            return Err(
                GuardrailError::new(ErrorKind::ConfigurationInvalid, "the category classifier needs a model"),
            );
        }
        Ok(LlamaGuardProvider { config })
    }

    /// The id under which the detector reports.
    pub fn id(&self) -> (r: &String)
        ensures
            r@ == self@.id,
    {
        &self.config.id
    }

    /// What to ask of the transport for `text`.
    pub fn request(&self, text: &str) -> (r: ClassifierRequest)
        ensures
            r.endpoint@ == self@.endpoint,
            r.model@ == self@.model,
            r.instructions@ == Seq::<char>::empty(),
            r.text@ == text@,
            r.timeout_ms == self@.timeout_ms,
    {
        ClassifierRequest {
            endpoint: self.config.endpoint.clone(),
            model: self.config.model.clone(),
            instructions: String::new(),
            text: text.to_owned(),
            timeout_ms: self.config.timeout_ms,
        }
    }

    /// Normalizes an answer: each flagged category becomes one violation,
    /// in the order of the answer.
    pub fn normalize(&self, raw: &LlamaGuardResult, threshold: Severity) -> (r: GuardrailResult)
        ensures
            r@ == judged(guard_findings(self@, raw.categories@), seq![self@.id], threshold),
    {
        let mut violations: Vec<Violation> = Vec::new();
        let mut i: usize = 0;
        while i < raw.categories.len()
            invariant
                i <= raw.categories.len(),
                violation_views(violations@) == guard_findings(self@, raw.categories@).take(
                    i as int,
                ),
            decreases raw.categories.len() - i,
        {
            let category = raw.categories[i];
            let v = Violation {
                category: category.label().to_owned(),
                severity: severity_of(self.config.default_severity, &self.config.overrides, category),
                description: "flagged by the category classifier".to_owned(),
                source: self.config.id.clone(),
                raw: Some(
                    ProviderSpecificResult::LlamaGuard(
                        LlamaGuardResult { categories: copy_categories(&raw.categories) },
                    ),
                ),
            };
            proof {
                assert(v@ == guard_finding(self@, raw.categories@, i as int));
                assert(violation_views(violations@.push(v)) =~= violation_views(violations@).push(
                    v@,
                ));
                assert(violation_views(violations@).push(v@) =~= guard_findings(
                    self@,
                    raw.categories@,
                ).take(i + 1));
            }
            violations.push(v);
            i += 1;
        }
        let mut detectors: Vec<String> = Vec::new();
        detectors.push(self.config.id.clone());
        proof {
            assert(string_views(detectors@) =~= seq![self@.id]);
            assert(guard_findings(self@, raw.categories@).take(i as int) =~= guard_findings(
                self@,
                raw.categories@,
            ));
        }
        GuardrailResult::new(violations, detectors, threshold)
    }

    /// Turns the reply to a request into the detector's outcome. A reply
    /// without an answer is a failure of the detector.
    pub fn interpret(&self, reply: &Reply<LlamaGuardResult>, threshold: Severity) -> (r: Result<
        GuardrailResult,
        GuardrailError,
    >)
        ensures
            outcome_view(r) == guard_outcome(self@, *reply, threshold),
    {
        match answer_of(reply) {
            Ok(raw) => Ok(self.normalize(raw, threshold)),
            Err(e) => Err(e),
        }
    }
}

} // verus!
