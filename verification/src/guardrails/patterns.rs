//! The pattern detector: a local, deterministic, rule-based text matcher.
//!
//! A rule matches by a literal phrase, by a list of phrases or by a regular
//! expression. Each rule yields at most one violation per evaluation, and
//! the violations come in the order of the rules.

use crate::guardrails::provider::{
    judged, ErrorKind, GuardrailError, GuardrailResult, GuardrailResultView, PatternMatchResult,
    ProviderSpecificResult, RawView, Severity, Violation, ViolationView, violation_views,
};
use crate::text::{chars_of, contains, lowercase, occurs_in, to_lowercase};
use vstd::prelude::*;
use vstd::string::StringExecFns;

verus! {

/// A compiled regular expression of the `regex` crate.
#[verifier::external_type_specification]
#[verifier::external_body]
pub struct ExRegex(regex::Regex);

/// The error of the `regex` crate for an expression that does not compile.
#[verifier::external_type_specification]
#[verifier::external_body]
pub struct ExRegexError(regex::Error);

/// The expression that a compiled regular expression was compiled from.
pub uninterp spec fn regex_source(re: regex::Regex) -> Seq<char>;

/// Whether the expression `pattern` matches somewhere in `text`.
pub uninterp spec fn regex_matches(pattern: Seq<char>, text: Seq<char>) -> bool;

/// Calls `regex::Regex::new`. Nothing is claimed about which expressions
/// compile: that depends on the engine's size limit as well as on its
/// syntax. A compiled expression keeps the text it was compiled from, which
/// `Regex::as_str` gives back.
#[verifier::external_body]
fn compile_regex(pattern: &str) -> (r: Result<regex::Regex, regex::Error>)
    ensures
        r matches Ok(re) ==> regex_source(re) == pattern@,
{
    regex::Regex::new(pattern)
}

/// Calls `regex::Regex::is_match`, which says whether the expression matches
/// anywhere in the text. The answer depends on the expression and the text
/// alone.
#[verifier::external_body]
fn regex_is_match(re: &regex::Regex, text: &str) -> (b: bool)
    ensures
        b == regex_matches(regex_source(*re), text@),
{
    re.is_match(text)
}

/// How a rule matches.
#[derive(Debug, Clone, PartialEq, Eq)]
pub enum MatchRule {
    /// The phrase occurs in the text.
    Literal(String),
    /// The regular expression matches somewhere in the text.
    Regex(String),
    /// One of the phrases occurs in the text.
    WordList(Vec<String>),
}

/// The mathematical content of a `MatchRule`.
pub enum MatcherView {
    Literal(Seq<char>),
    Regex(Seq<char>),
    WordList(Seq<Seq<char>>),
}

impl View for MatchRule {
    type V = MatcherView;

    open spec fn view(&self) -> MatcherView {
        match *self {
            MatchRule::Literal(s) => MatcherView::Literal(s@),
            MatchRule::Regex(s) => MatcherView::Regex(s@),
            MatchRule::WordList(ws) => MatcherView::WordList(ws@.map_values(|w: String| w@)),
        }
    }
}

/// One rule of the pattern detector.
#[derive(Debug, Clone, PartialEq, Eq)]
pub struct PatternRule {
    pub category: String,
    pub severity: Severity,
    pub matcher: MatchRule,
    /// Whether upper and lower case differ for this rule.
    pub case_sensitive: bool,
}

/// The mathematical content of a `PatternRule`.
pub struct RuleView {
    pub category: Seq<char>,
    pub severity: Severity,
    pub matcher: MatcherView,
    pub case_sensitive: bool,
}

impl View for PatternRule {
    type V = RuleView;

    open spec fn view(&self) -> RuleView {
        RuleView {
            category: self.category@,
            severity: self.severity,
            matcher: self.matcher@,
            case_sensitive: self.case_sensitive,
        }
    }
}

/// Copies a list of strings.
pub fn copy_strings(list: &Vec<String>) -> (r: Vec<String>)
    ensures
        r@.map_values(|w: String| w@) == list@.map_values(|w: String| w@),
{
    let mut r: Vec<String> = Vec::new();
    let mut i: usize = 0;
    while i < list.len()
        invariant
            i <= list.len(),
            r@.len() == i,
            forall|k: int| 0 <= k < i ==> (#[trigger] r@[k])@ == list@[k]@,
        decreases list.len() - i,
    {
        r.push(list[i].clone());
        i += 1;
    }
    assert(r@.map_values(|w: String| w@) =~= list@.map_values(|w: String| w@));
    r
}

impl MatchRule {
    /// A copy with the same content.
    pub fn duplicate(&self) -> (r: MatchRule)
        ensures
            r@ == self@,
    {
        match self {
            MatchRule::Literal(s) => MatchRule::Literal(s.clone()),
            MatchRule::Regex(s) => MatchRule::Regex(s.clone()),
            MatchRule::WordList(ws) => MatchRule::WordList(copy_strings(ws)),
        }
    }
}

impl PatternRule {
    /// A copy with the same content.
    pub fn duplicate(&self) -> (r: PatternRule)
        ensures
            r@ == self@,
    {
        PatternRule {
            category: self.category.clone(),
            severity: self.severity,
            matcher: self.matcher.duplicate(),
            case_sensitive: self.case_sensitive,
        }
    }
}

/// Copies a list of rules.
pub fn copy_rules(rules: &Vec<PatternRule>) -> (r: Vec<PatternRule>)
    ensures
        rule_views(r@) == rule_views(rules@),
        r@.len() == rules@.len(),
        forall|k: int| 0 <= k < rules@.len() ==> (#[trigger] r@[k])@ == rules@[k]@,
{
    let mut r: Vec<PatternRule> = Vec::new();
    let mut i: usize = 0;
    while i < rules.len()
        invariant
            i <= rules.len(),
            r@.len() == i,
            forall|k: int| 0 <= k < i ==> (#[trigger] r@[k])@ == rules@[k]@,
        decreases rules.len() - i,
    {
        r.push(rules[i].duplicate());
        i += 1;
    }
    assert(rule_views(r@) =~= rule_views(rules@));
    r
}

/// The contents of a list of rules.
pub open spec fn rule_views(rules: Seq<PatternRule>) -> Seq<RuleView> {
    rules.map_values(|r: PatternRule| r@)
}

/// The form in which a phrase or a text is compared: as it is where case
/// counts, in lower case where it does not.
pub open spec fn fold_case(s: Seq<char>, case_sensitive: bool) -> Seq<char> {
    if case_sensitive {
        s
    } else {
        lowercase(s)
    }
}

/// The expression that is compiled for a rule: the rule's own where case
/// counts, and the same behind the flag `(?i)` where it does not.
pub open spec fn effective_pattern(pattern: Seq<char>, case_sensitive: bool) -> Seq<char> {
    if case_sensitive {
        pattern
    } else {
        "(?i)"@ + pattern
    }
}

/// Whether phrase `i` of `words` occurs in `text`.
pub open spec fn word_hit(words: Seq<Seq<char>>, text: Seq<char>, case_sensitive: bool, i: int) -> bool {
    &&& 0 <= i < words.len()
    &&& occurs_in(fold_case(text, case_sensitive), fold_case(words[i], case_sensitive))
}

/// Whether phrase `i` is the first of `words` that occurs in `text`.
pub open spec fn first_word_hit(
    words: Seq<Seq<char>>,
    text: Seq<char>,
    case_sensitive: bool,
    i: int,
) -> bool {
    &&& word_hit(words, text, case_sensitive, i)
    &&& forall|j: int| 0 <= j < i ==> !word_hit(words, text, case_sensitive, j)
}

/// The position of the first of `words` that occurs in `text`, where one
/// does.
pub open spec fn first_hit_index(words: Seq<Seq<char>>, text: Seq<char>, case_sensitive: bool) -> int {
    choose|i: int| first_word_hit(words, text, case_sensitive, i)
}

/// What a rule finds in a text: the phrase or expression that matched, or
/// nothing. Of a list of phrases it is the first that occurs.
pub open spec fn rule_match(rule: RuleView, text: Seq<char>) -> Option<Seq<char>> {
    match rule.matcher {
        MatcherView::Literal(phrase) => if occurs_in(
            fold_case(text, rule.case_sensitive),
            fold_case(phrase, rule.case_sensitive),
        ) {
            Some(phrase)
        } else {
            None
        },
        MatcherView::Regex(pattern) => if regex_matches(
            effective_pattern(pattern, rule.case_sensitive),
            text,
        ) {
            Some(pattern)
        } else {
            None
        },
        MatcherView::WordList(words) => if exists|i: int|
            word_hit(words, text, rule.case_sensitive, i) {
            Some(words[first_hit_index(words, text, rule.case_sensitive)])
        } else {
            None
        },
    }
}

/// A list of phrases finds its first phrase that occurs.
pub proof fn lemma_word_list_match(rule: RuleView, text: Seq<char>, i: int)
    requires
        rule.matcher is WordList,
        first_word_hit(rule.matcher->WordList_0, text, rule.case_sensitive, i),
    ensures
        rule_match(rule, text) == Some(rule.matcher->WordList_0[i]),
{
    let words = rule.matcher->WordList_0;
    let c = first_hit_index(words, text, rule.case_sensitive);
    assert(first_word_hit(words, text, rule.case_sensitive, c));
    assert(word_hit(words, text, rule.case_sensitive, i));
    assert(word_hit(words, text, rule.case_sensitive, c));
    assert(c == i);
}

/// What each rule finds in a text, rule by rule.
pub open spec fn hits_on(rules: Seq<RuleView>, text: Seq<char>) -> Seq<Option<Seq<char>>> {
    Seq::new(rules.len(), |i: int| rule_match(rules[i], text))
}

/// The content of a hit.
pub open spec fn hit_view(hit: Option<String>) -> Option<Seq<char>> {
    match hit {
        Some(s) => Some(s@),
        None => None,
    }
}

/// The contents of a list of hits.
pub open spec fn hit_views(hits: Seq<Option<String>>) -> Seq<Option<Seq<char>>> {
    hits.map_values(|h: Option<String>| hit_view(h))
}

/// Whether a rule can be used: it has a category, and something to match by.
/// `compiles` says whether the rule's expression compiles, where it has one.
pub open spec fn rule_usable(rule: RuleView, compiles: bool) -> bool {
    &&& rule.category.len() > 0
    &&& match rule.matcher {
        MatcherView::Literal(phrase) => phrase.len() > 0,
        MatcherView::Regex(pattern) => pattern.len() > 0 && compiles,
        MatcherView::WordList(words) => words.len() > 0 && forall|j: int|
            0 <= j < words.len() ==> (#[trigger] words[j]).len() > 0,
    }
}

/// Whether a rule is well formed, as far as the rule itself tells: whether
/// the expression of a regex rule compiles is for the regex engine to say.
pub open spec fn rule_valid(rule: RuleView) -> bool {
    rule_usable(rule, true)
}

/// Whether a rule matches by a regular expression, which has to compile
/// before the rule can be used.
pub open spec fn needs_engine(rule: RuleView) -> bool {
    rule.matcher is Regex
}

/// The mathematical content of a `PatternDetector`.
pub struct PatternDetectorView {
    pub id: Seq<char>,
    pub rules: Seq<RuleView>,
}

/// The violation that rule `index` yields when it matched `matched`.
pub open spec fn finding(rule: RuleView, id: Seq<char>, index: int, matched: Seq<char>) -> ViolationView {
    ViolationView {
        category: rule.category,
        severity: rule.severity,
        description: "pattern matched: "@ + matched,
        source: id,
        raw: Some(RawView::Pattern { rule_index: index as usize, matched }),
    }
}

/// The hit of rule `i`; a rule without an entry has none.
pub open spec fn hit_at(hits: Seq<Option<Seq<char>>>, i: int) -> Option<Seq<char>> {
    if 0 <= i < hits.len() {
        hits[i]
    } else {
        None
    }
}

/// The violations of the first `n` rules, given what each rule found: one
/// for each rule with a hit, in the order of the rules.
pub open spec fn reported(d: PatternDetectorView, hits: Seq<Option<Seq<char>>>, n: int) -> Seq<
    ViolationView,
>
    decreases n,
{
    if n <= 0 {
        Seq::empty()
    } else {
        match hit_at(hits, n - 1) {
            Some(matched) => reported(d, hits, n - 1).push(
                finding(d.rules[n - 1], d.id, n - 1, matched),
            ),
            None => reported(d, hits, n - 1),
        }
    }
}

/// The result of evaluating `text`.
pub open spec fn evaluation(d: PatternDetectorView, text: Seq<char>, threshold: Severity) -> GuardrailResultView {
    judged(reported(d, hits_on(d.rules, text), d.rules.len() as int), seq![d.id], threshold)
}

/// The rule that violation `k` of a report stems from.
pub open spec fn rule_of(v: ViolationView) -> int {
    match v.raw {
        Some(RawView::Pattern { rule_index, .. }) => rule_index as int,
        _ => -1,
    }
}

/// Each rule yields at most one violation, exactly when it has a hit, and
/// the violations stand in the order of the rules: the rules they stem from
/// rise strictly along the report.
pub proof fn lemma_reported_once_in_order(d: PatternDetectorView, hits: Seq<Option<Seq<char>>>, n: int)
    requires
        0 <= n <= d.rules.len(),
        n <= usize::MAX,
    ensures
        reported(d, hits, n).len() <= n,
        forall|k: int|
            0 <= k < reported(d, hits, n).len() ==> {
                let i = rule_of(#[trigger] reported(d, hits, n)[k]);
                &&& 0 <= i < n
                &&& hit_at(hits, i) is Some
                &&& reported(d, hits, n)[k] == finding(d.rules[i], d.id, i, hit_at(hits, i)->Some_0)
            },
        forall|k1: int, k2: int|
            0 <= k1 < k2 < reported(d, hits, n).len() ==> rule_of(
                #[trigger] reported(d, hits, n)[k1],
            ) < rule_of(#[trigger] reported(d, hits, n)[k2]),
        forall|i: int|
            0 <= i < n && hit_at(hits, i) is Some ==> exists|k: int|
                0 <= k < reported(d, hits, n).len() && rule_of(#[trigger] reported(d, hits, n)[k])
                    == i,
    decreases n,
{
    if n > 0 {
        lemma_reported_once_in_order(d, hits, n - 1);
        let prev = reported(d, hits, n - 1);
        let cur = reported(d, hits, n);
        match hit_at(hits, n - 1) {
            Some(matched) => {
                let last = finding(d.rules[n - 1], d.id, n - 1, matched);
                assert(cur == prev.push(last));
                assert(rule_of(last) == n - 1);
                assert forall|k: int| 0 <= k < cur.len() implies {
                    let i = rule_of(#[trigger] cur[k]);
                    &&& 0 <= i < n
                    &&& hit_at(hits, i) is Some
                    &&& cur[k] == finding(d.rules[i], d.id, i, hit_at(hits, i)->Some_0)
                } by {
                    if k < prev.len() {
                        assert(cur[k] == prev[k]);
                    }
                }
                assert forall|k1: int, k2: int| 0 <= k1 < k2 < cur.len() implies rule_of(
                    #[trigger] cur[k1],
                ) < rule_of(#[trigger] cur[k2]) by {
                    assert(cur[k1] == prev[k1]);
                    if k2 < prev.len() {
                        assert(cur[k2] == prev[k2]);
                    }
                }
                assert forall|i: int| 0 <= i < n && hit_at(hits, i) is Some implies exists|k: int|
                    0 <= k < cur.len() && rule_of(#[trigger] cur[k]) == i by {
                    if i < n - 1 {
                        let k = choose|k: int|
                            0 <= k < prev.len() && rule_of(#[trigger] prev[k]) == i;
                        assert(cur[k] == prev[k]);
                    } else {
                        assert(cur[cur.len() - 1] == last);
                    }
                }
            },
            None => {},
        }
    }
}

/// How a rule is matched when the detector runs: by the phrases in the form
/// in which they are compared, or by the compiled expression.
enum Matcher {
    Needles(Vec<Vec<char>>),
    Expression(regex::Regex),
}

/// Whether `m` is the matcher that was prepared for `rule`.
spec fn matcher_fits(rule: RuleView, m: Matcher) -> bool {
    match rule.matcher {
        MatcherView::Literal(phrase) => m matches Matcher::Needles(ns) && ns@.len() == 1 && ns@[0]@
            == fold_case(phrase, rule.case_sensitive),
        MatcherView::WordList(words) => m matches Matcher::Needles(ns) && ns@.len() == words.len()
            && forall|j: int|
            0 <= j < words.len() ==> (#[trigger] ns@[j])@ == fold_case(words[j], rule.case_sensitive),
        MatcherView::Regex(pattern) => m matches Matcher::Expression(re) && regex_source(re)
            == effective_pattern(pattern, rule.case_sensitive),
    }
}

/// A detector that matches text against an ordered set of rules.
pub struct PatternDetector {
    id: String,
    rules: Vec<PatternRule>,
    matchers: Vec<Matcher>,
}

impl View for PatternDetector {
    type V = PatternDetectorView;

    closed spec fn view(&self) -> PatternDetectorView {
        PatternDetectorView { id: self.id@, rules: rule_views(self.rules@) }
    }
}

/// Says why a rule cannot be used, or nothing if it can. `compiles` says
/// whether the rule's expression compiled; it is not read for other rules.
pub fn rule_problem(rule: &PatternRule, compiles: bool) -> (r: Option<&'static str>)
    ensures
        r is None <==> rule_usable(rule@, compiles),
{
    if rule.category.as_str().unicode_len() == 0 {
        return Some("a rule needs a category");
    }
    match &rule.matcher {
        MatchRule::Literal(phrase) => {
            if phrase.as_str().unicode_len() == 0 {
                return Some("a literal rule needs a phrase");
            }
        },
        MatchRule::Regex(pattern) => {
            if pattern.as_str().unicode_len() == 0 {
                return Some("a regex rule needs an expression");
            }
            if !compiles {
                return Some("the regular expression of a rule does not compile");
            }
        },
        MatchRule::WordList(words) => {
            if words.len() == 0 {
                return Some("a word-list rule needs a phrase");
            }
            let mut j: usize = 0;
            while j < words.len()
                invariant
                    j <= words.len(),
                    rule.matcher == MatchRule::WordList(*words),
                    forall|k: int| 0 <= k < j ==> (#[trigger] words@[k])@.len() > 0,
                decreases words.len() - j,
            {
                if words[j].as_str().unicode_len() == 0 {
                    assert(rule@.matcher->WordList_0[j as int] == words@[j as int]@);
                    return Some("a word-list rule has an empty phrase");
                }
                j += 1;
            }
            assert forall|k: int| 0 <= k < rule@.matcher->WordList_0.len() implies (
            #[trigger] rule@.matcher->WordList_0[k]).len() > 0 by {
                assert(rule@.matcher->WordList_0[k] == words@[k]@);
            }
        },
    }
    None
}

/// The form of `phrase` in which it is compared.
fn folded(phrase: &str, case_sensitive: bool) -> (r: Vec<char>)
    ensures
        r@ == fold_case(phrase@, case_sensitive),
{
    if case_sensitive {
        chars_of(phrase)
    } else {
        let lowered = to_lowercase(phrase);
        chars_of(lowered.as_str())
    }
}

/// Prepares the matcher of a rule, or says why the rule cannot be used.
fn prepare(rule: &PatternRule) -> (r: Result<Matcher, &'static str>)
    ensures
        r is Ok ==> rule_valid(rule@),
        rule_valid(rule@) && !needs_engine(rule@) ==> r is Ok,
        r matches Ok(m) ==> matcher_fits(rule@, m),
{
    match &rule.matcher {
        MatchRule::Literal(phrase) => {
            match rule_problem(rule, true) {
                Some(problem) => Err(problem),
                None => {
                    let mut needles: Vec<Vec<char>> = Vec::new();
                    needles.push(folded(phrase.as_str(), rule.case_sensitive));
                    Ok(Matcher::Needles(needles))
                },
            }
        },
        MatchRule::WordList(words) => {
            match rule_problem(rule, true) {
                Some(problem) => Err(problem),
                None => {
                    let mut needles: Vec<Vec<char>> = Vec::new();
                    let mut j: usize = 0;
                    while j < words.len()
                        invariant
                            j <= words.len(),
                            needles@.len() == j,
                            forall|k: int|
                                0 <= k < j ==> (#[trigger] needles@[k])@ == fold_case(
                                    words@[k]@,
                                    rule.case_sensitive,
                                ),
                        decreases words.len() - j,
                    {
                        needles.push(folded(words[j].as_str(), rule.case_sensitive));
                        j += 1;
                    }
                    Ok(Matcher::Needles(needles))
                },
            }
        },
        MatchRule::Regex(pattern) => {
            let compiled = if rule.case_sensitive {
                compile_regex(pattern.as_str())
            } else {
                let flagged = String::from_str("(?i)").concat(pattern.as_str());
                compile_regex(flagged.as_str())
            };
            match compiled {
                Ok(re) => match rule_problem(rule, true) {
                    Some(problem) => Err(problem),
                    None => Ok(Matcher::Expression(re)),
                },
                Err(_) => match rule_problem(rule, false) {
                    Some(problem) => Err(problem),
                    None => Err("the regular expression of a rule does not compile"),
                },
            }
        },
    }
}

impl PatternDetector {
    #[verifier::type_invariant]
    spec fn prepared(self) -> bool {
        &&& self.matchers@.len() == self.rules@.len()
        &&& forall|i: int|
            0 <= i < self.rules@.len() ==> matcher_fits(
                (#[trigger] self.rules@[i])@,
                self.matchers@[i],
            )
    }

    /// Builds a detector from its rules. A rule that is not well formed, or
    /// whose expression does not compile, is rejected here, so that
    /// evaluation cannot fail. Rules that are well formed and need no
    /// compiling are always accepted.
    pub fn new(id: String, rules: Vec<PatternRule>) -> (r: Result<PatternDetector, GuardrailError>)
        ensures
            r is Ok ==> forall|i: int| 0 <= i < rules@.len() ==> rule_valid(#[trigger] rules@[i]@),
            (forall|i: int|
                0 <= i < rules@.len() ==> rule_valid(#[trigger] rules@[i]@) && !needs_engine(
                    rules@[i]@,
                )) ==> r is Ok,
            r matches Ok(d) ==> d@ == (PatternDetectorView { id: id@, rules: rule_views(rules@) }),
            r matches Err(e) ==> e.kind == ErrorKind::ConfigurationInvalid,
    {
        let mut matchers: Vec<Matcher> = Vec::new();
        let mut i: usize = 0;
        while i < rules.len()
            invariant
                i <= rules.len(),
                matchers@.len() == i,
                forall|k: int| 0 <= k < i ==> rule_valid(#[trigger] rules@[k]@),
                forall|k: int| 0 <= k < i ==> matcher_fits((#[trigger] rules@[k])@, matchers@[k]),
            decreases rules.len() - i,
        {
            match prepare(&rules[i]) {
                Ok(m) => {
                    matchers.push(m);
                },
                Err(problem) => {
                    return Err(GuardrailError::new(ErrorKind::ConfigurationInvalid, problem));
                },
            }
            i += 1;
        }
        Ok(PatternDetector { id, rules, matchers })
    }

    /// The id under which the detector reports.
    pub fn id(&self) -> (r: &String)
        ensures
            r@ == self@.id,
    {
        &self.id
    }

    /// The number of rules.
    pub fn rule_count(&self) -> (r: usize)
        ensures
            r == self@.rules.len(),
    {
        self.rules.len()
    }

    /// What a list of phrases finds in `hay`: the first phrase whose needle
    /// occurs.
    fn word_list_hit(
        words: &Vec<String>,
        needles: &Vec<Vec<char>>,
        hay: &Vec<char>,
        Ghost(rule): Ghost<RuleView>,
        Ghost(text): Ghost<Seq<char>>,
    ) -> (r: Option<String>)
        requires
            rule.matcher == MatcherView::WordList(words@.map_values(|w: String| w@)),
            hay@ == fold_case(text, rule.case_sensitive),
            needles@.len() == words@.len(),
            forall|j: int|
                0 <= j < words@.len() ==> (#[trigger] needles@[j])@ == fold_case(
                    words@[j]@,
                    rule.case_sensitive,
                ),
        ensures
            hit_view(r) == rule_match(rule, text),
    {
        let ghost ws = words@.map_values(|w: String| w@);
        let mut j: usize = 0;
        while j < needles.len()
            invariant
                j <= needles@.len(),
                rule.matcher == MatcherView::WordList(ws),
                hay@ == fold_case(text, rule.case_sensitive),
                needles@.len() == words@.len(),
                ws == words@.map_values(|w: String| w@),
                forall|k: int|
                    0 <= k < words@.len() ==> (#[trigger] needles@[k])@ == fold_case(
                        words@[k]@,
                        rule.case_sensitive,
                    ),
                forall|k: int| 0 <= k < j ==> !word_hit(ws, text, rule.case_sensitive, k),
            decreases needles.len() - j,
        {
            if contains(hay, &needles[j]) {
                proof {
                    assert(first_word_hit(ws, text, rule.case_sensitive, j as int));
                    lemma_word_list_match(rule, text, j as int);
                }
                return Some(words[j].clone());
            }
            j += 1;
        }
        None
    }

    /// What rule `i` finds in a text, of which `plain` holds the characters
    /// and `lower` the characters in lower case.
    fn rule_hit(&self, i: usize, text: &str, plain: &Vec<char>, lower: &Vec<char>) -> (r: Option<
        String,
    >)
        requires
            i < self@.rules.len(),
            plain@ == text@,
            lower@ == lowercase(text@),
        ensures
            hit_view(r) == rule_match(self@.rules[i as int], text@),
    {
        proof {
            use_type_invariant(self);
            assert(matcher_fits(self.rules@[i as int]@, self.matchers@[i as int]));
        }
        let rule = &self.rules[i];
        let hay = if rule.case_sensitive {
            plain
        } else {
            lower
        };
        match &self.matchers[i] {
            Matcher::Needles(needles) => match &rule.matcher {
                MatchRule::Literal(phrase) => {
                    if contains(hay, &needles[0]) {
                        Some(phrase.clone())
                    } else {
                        None
                    }
                },
                MatchRule::WordList(words) => PatternDetector::word_list_hit(
                    words,
                    needles,
                    hay,
                    Ghost(rule@),
                    Ghost(text@),
                ),
                MatchRule::Regex(_) => None,
            },
            Matcher::Expression(re) => match &rule.matcher {
                MatchRule::Regex(pattern) => {
                    if regex_is_match(re, text) {
                        Some(pattern.clone())
                    } else {
                        None
                    }
                },
                _ => None,
            },
        }
    }

    /// What each rule finds in `text`.
    pub fn match_rules(&self, text: &str) -> (hits: Vec<Option<String>>)
        ensures
            hit_views(hits@) == hits_on(self@.rules, text@),
    {
        let plain = chars_of(text);
        let lowered = to_lowercase(text);
        let lower = chars_of(lowered.as_str());
        let mut hits: Vec<Option<String>> = Vec::new();
        let mut i: usize = 0;
        while i < self.rules.len()
            invariant
                i <= self@.rules.len(),
                self@.rules.len() == self.rules@.len(),
                plain@ == text@,
                lower@ == lowercase(text@),
                hit_views(hits@) == hits_on(self@.rules, text@).take(i as int),
            decreases self.rules.len() - i,
        {
            let hit = self.rule_hit(i, text, &plain, &lower);
            proof {
                assert(hit_views(hits@.push(hit)) =~= hit_views(hits@).push(hit_view(hit)));
                assert(hit_views(hits@).push(hit_view(hit)) =~= hits_on(self@.rules, text@).take(
                    i + 1,
                ));
            }
            hits.push(hit);
            i += 1;
        }
        assert(hits_on(self@.rules, text@).take(i as int) =~= hits_on(self@.rules, text@));
        hits
    }

    /// Turns what the rules found into the detector's result: one violation
    /// for each rule with a hit, in the order of the rules. A rule for which
    /// `hits` has no entry counts as without a hit.
    pub fn report(&self, hits: &Vec<Option<String>>, threshold: Severity) -> (r: GuardrailResult)
        ensures
            r@ == judged(
                reported(self@, hit_views(hits@), self@.rules.len() as int),
                seq![self@.id],
                threshold,
            ),
    {
        let mut violations: Vec<Violation> = Vec::new();
        let mut i: usize = 0;
        while i < self.rules.len()
            invariant
                i <= self.rules@.len(),
                violation_views(violations@) == reported(self@, hit_views(hits@), i as int),
            decreases self.rules.len() - i,
        {
            if i < hits.len() {
                match &hits[i] {
                    Some(matched) => {
                        let rule = &self.rules[i];
                        let mut description = String::from_str("pattern matched: ");
                        description.append(matched.as_str());
                        let v = Violation {
                            category: rule.category.clone(),
                            severity: rule.severity,
                            description,
                            source: self.id.clone(),
                            raw: Some(
                                ProviderSpecificResult::Pattern(
                                    PatternMatchResult { rule_index: i, matched: matched.clone() },
                                ),
                            ),
                        };
                        proof {
                            assert(hit_at(hit_views(hits@), i as int) == Some(matched@));
                            assert(v@ == finding(self@.rules[i as int], self@.id, i as int, matched@));
                            assert(violation_views(violations@.push(v)) =~= violation_views(
                                violations@,
                            ).push(v@));
                        }
                        violations.push(v);
                    },
                    None => {
                        assert(hit_at(hit_views(hits@), i as int) is None);
                    },
                }
            }
            i += 1;
        }
        let mut detectors: Vec<String> = Vec::new();
        detectors.push(self.id.clone());
        assert(crate::guardrails::provider::string_views(detectors@) =~= seq![self@.id]);
        GuardrailResult::new(violations, detectors, threshold)
    }

    /// Evaluates `text`: each rule that matches yields one violation,
    /// however often it matches, and the violations come in the order of
    /// the rules. The evaluation cannot fail.
    pub fn evaluate(&self, text: &str, threshold: Severity) -> (r: GuardrailResult)
        ensures
            r@ == evaluation(self@, text@, threshold),
    {
        let hits = self.match_rules(text);
        self.report(&hits, threshold)
    }
}

/// Evaluation is a function of the detector's configuration, the text and
/// the threshold: equal inputs give equal results.
pub proof fn lemma_evaluation_deterministic(
    d1: PatternDetectorView,
    d2: PatternDetectorView,
    text1: Seq<char>,
    text2: Seq<char>,
    threshold: Severity,
)
    requires
        d1 == d2,
        text1 == text2,
    ensures
        evaluation(d1, text1, threshold) == evaluation(d2, text2, threshold),
{
}

} // verus!
