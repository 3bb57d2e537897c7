//! Model registry with tokenizer characteristics and context limits.
//!
//! Provides model-specific token estimation and context window information.
//! The registry is a fixed table, kept sorted by model name.

use crate::text::{
    chars_of, has_prefix, lemma_lex_below_irreflexive, lemma_lex_below_transitive, lex_below,
    lowercase, parts_below, same, starts_with, to_lowercase, trim_end, trim_end_matches,
};
use vstd::prelude::*;

verus! {

/// Tokenizer family with specific encoding characteristics.
#[derive(Debug, Clone, Copy, PartialEq, Eq, Structural)]
pub enum TokenizerFamily {
    /// OpenAI GPT tokenizers.
    Gpt,
    /// Meta Llama tokenizers.
    Llama,
    /// Qwen tokenizers.
    Qwen,
    /// Mistral tokenizers.
    Mistral,
    /// Generic or unknown tokenizer.
    Generic,
}

impl TokenizerFamily {
    /// Average number of bytes per token, in tenths: 40 stands for 4.0.
    pub open spec fn tenths_per_token(self) -> nat {
        match self {
            TokenizerFamily::Gpt => 40,
            TokenizerFamily::Llama => 38,
            TokenizerFamily::Qwen => 37,
            TokenizerFamily::Mistral => 38,
            TokenizerFamily::Generic => 40,
        }
    }

    /// Average number of bytes per token, in tenths. These are empirical
    /// averages for English text.
    pub fn chars_per_token_tenths(&self) -> (r: u8)
        ensures
            r == self.tenths_per_token(),
    {
        match self {
            TokenizerFamily::Gpt => 40,
            TokenizerFamily::Llama => 38,
            TokenizerFamily::Qwen => 37,
            TokenizerFamily::Mistral => 38,
            TokenizerFamily::Generic => 40,
        }
    }
}

/// Model information for token estimation and validation.
#[derive(Debug, Clone, Copy)]
pub struct ModelInfo {
    /// Model name.
    pub name: &'static str,
    /// Tokenizer family.
    pub tokenizer: TokenizerFamily,
    /// Context window size: input and output tokens together.
    pub context_window: usize,
    /// Recommended bound on input tokens, which leaves room for output.
    pub max_input_tokens: Option<usize>,
    /// Provider or organization.
    pub provider: &'static str,
}

/// The number of tokens that `len` bytes come to when a token takes
/// `tenths` tenths of a byte on average: `len / (tenths / 10)`, rounded up.
pub open spec fn tokens_for(tenths: nat, len: nat) -> nat {
    ((10 * len + tenths - 1) / (tenths as int)) as nat
}

/// Whether `n` tokens of `tenths` tenths of a byte each hold `len` bytes.
pub open spec fn covers(n: nat, tenths: nat, len: nat) -> bool {
    n * tenths >= 10 * len
}

/// `tokens_for` is the ceiling of the quotient: the least count of tokens
/// whose bytes cover `len`.
pub proof fn lemma_tokens_for_is_ceiling(tenths: nat, len: nat)
    requires
        tenths > 0,
    ensures
        covers(tokens_for(tenths, len), tenths, len),
        forall|n: nat| #[trigger] covers(n, tenths, len) ==> tokens_for(tenths, len) <= n,
{
    let t = tenths as int;
    let x = 10 * len + tenths - 1;
    let q = x / t;
    assert(x == t * q + x % t && 0 <= x % t < t) by {
        vstd::arithmetic::div_mod::lemma_fundamental_div_mod(x, t);
        vstd::arithmetic::div_mod::lemma_mod_bound(x, t);
    }
    assert(q >= 0) by {
        vstd::arithmetic::div_mod::lemma_div_pos_is_pos(x, t);
    }
    assert(q * t == t * q) by (nonlinear_arith);
    assert forall|n: nat| #[trigger] covers(n, tenths, len) implies tokens_for(tenths, len) <= n by {
        if n < q {
            assert(n * t <= (q - 1) * t) by (nonlinear_arith)
                requires
                    n <= q - 1,
                    t > 0,
            ;
            assert((q - 1) * t == q * t - t) by (nonlinear_arith);
        }
    }
}

impl ModelInfo {
    /// Estimates the tokens of `text` from its length in bytes and the
    /// model's tokenizer family.
    pub fn estimate_tokens(&self, text: &str) -> (r: usize)
        ensures
            r == tokens_for(self.tokenizer.tenths_per_token(), utf8_len(text@)),
    {
        let len: usize = text.as_bytes().len();
        let tenths: u8 = self.tokenizer.chars_per_token_tenths();
        let t: u128 = tenths as u128;
        let x: u128 = (len as u128) * 10 + (t - 1);
        let q: u128 = x / t;
        assert(q <= len) by {
            if t == 40 {
                assert(x / 40 <= len);
            } else if t == 38 {
                assert(x / 38 <= len);
            } else {
                assert(x / 37 <= len);
            }
        }
        q as usize
    }
}

/// The length in bytes of the UTF-8 encoding of `s`.
pub open spec fn utf8_len(s: Seq<char>) -> nat {
    vstd::utf8::encode_utf8(s).len()
}

/// The registry: every known model, sorted by name.
pub open spec fn registry_entries() -> Seq<ModelInfo> {
    seq![
        ModelInfo {
            name: "gpt-3.5-turbo",
            tokenizer: TokenizerFamily::Gpt,
            context_window: 16385,
            max_input_tokens: Some(12288usize),
            provider: "OpenAI",
        },
        ModelInfo {
            name: "gpt-4",
            tokenizer: TokenizerFamily::Gpt,
            context_window: 8192,
            max_input_tokens: Some(6144usize),
            provider: "OpenAI",
        },
        ModelInfo {
            name: "gpt-4-turbo",
            tokenizer: TokenizerFamily::Gpt,
            context_window: 128000,
            max_input_tokens: Some(100000usize),
            provider: "OpenAI",
        },
        ModelInfo {
            name: "gpt-4o",
            tokenizer: TokenizerFamily::Gpt,
            context_window: 128000,
            max_input_tokens: Some(100000usize),
            provider: "OpenAI",
        },
        ModelInfo {
            name: "llama-3.1-405b",
            tokenizer: TokenizerFamily::Llama,
            context_window: 128000,
            max_input_tokens: Some(100000usize),
            provider: "Meta",
        },
        ModelInfo {
            name: "llama-3.1-70b",
            tokenizer: TokenizerFamily::Llama,
            context_window: 128000,
            max_input_tokens: Some(100000usize),
            provider: "Meta",
        },
        ModelInfo {
            name: "llama-3.1-8b",
            tokenizer: TokenizerFamily::Llama,
            context_window: 128000,
            max_input_tokens: Some(100000usize),
            provider: "Meta",
        },
        ModelInfo {
            name: "llama-3.2-1b",
            tokenizer: TokenizerFamily::Llama,
            context_window: 131072,
            max_input_tokens: Some(100000usize),
            provider: "Meta",
        },
        ModelInfo {
            name: "llama-3.2-3b",
            tokenizer: TokenizerFamily::Llama,
            context_window: 131072,
            max_input_tokens: Some(100000usize),
            provider: "Meta",
        },
        ModelInfo {
            name: "mistral-7b",
            tokenizer: TokenizerFamily::Mistral,
            context_window: 32768,
            max_input_tokens: Some(24576usize),
            provider: "Mistral AI",
        },
        ModelInfo {
            name: "mixtral-8x7b",
            tokenizer: TokenizerFamily::Mistral,
            context_window: 32768,
            max_input_tokens: Some(24576usize),
            provider: "Mistral AI",
        },
        ModelInfo {
            name: "qwen-2.5-72b",
            tokenizer: TokenizerFamily::Qwen,
            context_window: 131072,
            max_input_tokens: Some(100000usize),
            provider: "Alibaba",
        },
        ModelInfo {
            name: "qwen-2.5-7b",
            tokenizer: TokenizerFamily::Qwen,
            context_window: 131072,
            max_input_tokens: Some(100000usize),
            provider: "Alibaba",
        },
    ]
}

/// Builds the registry.
pub fn model_registry() -> (r: Vec<ModelInfo>)
    ensures
        r@ == registry_entries(),
{
    let gpt = TokenizerFamily::Gpt;
    let llama = TokenizerFamily::Llama;
    let qwen = TokenizerFamily::Qwen;
    let mistral = TokenizerFamily::Mistral;
    let r = vec![
        ModelInfo { name: "gpt-3.5-turbo", tokenizer: gpt, context_window: 16385, max_input_tokens: Some(12288), provider: "OpenAI" },
        ModelInfo { name: "gpt-4", tokenizer: gpt, context_window: 8192, max_input_tokens: Some(6144), provider: "OpenAI" },
        ModelInfo { name: "gpt-4-turbo", tokenizer: gpt, context_window: 128000, max_input_tokens: Some(100000), provider: "OpenAI" },
        ModelInfo { name: "gpt-4o", tokenizer: gpt, context_window: 128000, max_input_tokens: Some(100000), provider: "OpenAI" },
        ModelInfo { name: "llama-3.1-405b", tokenizer: llama, context_window: 128000, max_input_tokens: Some(100000), provider: "Meta" },
        ModelInfo { name: "llama-3.1-70b", tokenizer: llama, context_window: 128000, max_input_tokens: Some(100000), provider: "Meta" },
        ModelInfo { name: "llama-3.1-8b", tokenizer: llama, context_window: 128000, max_input_tokens: Some(100000), provider: "Meta" },
        ModelInfo { name: "llama-3.2-1b", tokenizer: llama, context_window: 131072, max_input_tokens: Some(100000), provider: "Meta" },
        ModelInfo { name: "llama-3.2-3b", tokenizer: llama, context_window: 131072, max_input_tokens: Some(100000), provider: "Meta" },
        ModelInfo { name: "mistral-7b", tokenizer: mistral, context_window: 32768, max_input_tokens: Some(24576), provider: "Mistral AI" },
        ModelInfo { name: "mixtral-8x7b", tokenizer: mistral, context_window: 32768, max_input_tokens: Some(24576), provider: "Mistral AI" },
        ModelInfo { name: "qwen-2.5-72b", tokenizer: qwen, context_window: 131072, max_input_tokens: Some(100000), provider: "Alibaba" },
        ModelInfo { name: "qwen-2.5-7b", tokenizer: qwen, context_window: 131072, max_input_tokens: Some(100000), provider: "Alibaba" },
    ];
    assert(r@ =~= registry_entries());
    r
}

/// Whether the names of `reg` rise strictly from each entry to every later
/// one. No name then occurs twice.
pub open spec fn sorted_by_name(reg: Seq<ModelInfo>) -> bool {
    forall|i: int, j: int|
        0 <= i < j < reg.len() ==> lex_below(#[trigger] reg[i].name@, #[trigger] reg[j].name@)
}

/// Whether the name of each entry lies below the name of the next.
pub open spec fn rising_by_name(reg: Seq<ModelInfo>) -> bool {
    forall|i: int| 0 <= i < reg.len() - 1 ==> lex_below(#[trigger] reg[i].name@, reg[i + 1].name@)
}

proof fn lemma_rising_pair(reg: Seq<ModelInfo>, i: int, j: int)
    requires
        rising_by_name(reg),
        0 <= i < j < reg.len(),
    ensures
        lex_below(reg[i].name@, reg[j].name@),
    decreases j - i,
{
    if j > i + 1 {
        lemma_rising_pair(reg, i, j - 1);
        assert(lex_below(reg[j - 1].name@, reg[j - 1 + 1].name@));
        lemma_lex_below_transitive(reg[i].name@, reg[j - 1].name@, reg[j].name@);
    }
}

/// A table whose names rise from each entry to the next is sorted.
pub proof fn lemma_rising_is_sorted(reg: Seq<ModelInfo>)
    requires
        rising_by_name(reg),
    ensures
        sorted_by_name(reg),
{
    assert forall|i: int, j: int| 0 <= i < j < reg.len() implies lex_below(
        #[trigger] reg[i].name@,
        #[trigger] reg[j].name@,
    ) by {
        lemma_rising_pair(reg, i, j);
    }
}

/// The registry is sorted by name.
pub proof fn lemma_registry_sorted()
    ensures
        sorted_by_name(registry_entries()),
        registry_entries().len() == 13,
{
    let r = registry_entries();
    reveal_strlit("gpt-3.5-turbo");
    reveal_strlit("gpt-4");
    reveal_strlit("gpt-4-turbo");
    reveal_strlit("gpt-4o");
    reveal_strlit("llama-3.1-405b");
    reveal_strlit("llama-3.1-70b");
    reveal_strlit("llama-3.1-8b");
    reveal_strlit("llama-3.2-1b");
    reveal_strlit("llama-3.2-3b");
    reveal_strlit("mistral-7b");
    reveal_strlit("mixtral-8x7b");
    reveal_strlit("qwen-2.5-72b");
    reveal_strlit("qwen-2.5-7b");
    lemma_parts(r[0].name@, r[1].name@, 4);
    lemma_parts(r[1].name@, r[2].name@, 5);
    lemma_parts(r[2].name@, r[3].name@, 5);
    lemma_parts(r[3].name@, r[4].name@, 0);
    lemma_parts(r[4].name@, r[5].name@, 10);
    lemma_parts(r[5].name@, r[6].name@, 10);
    lemma_parts(r[6].name@, r[7].name@, 8);
    lemma_parts(r[7].name@, r[8].name@, 10);
    lemma_parts(r[8].name@, r[9].name@, 0);
    lemma_parts(r[9].name@, r[10].name@, 2);
    lemma_parts(r[10].name@, r[11].name@, 0);
    lemma_parts(r[11].name@, r[12].name@, 10);
    assert(rising_by_name(r)) by {
        assert forall|i: int| 0 <= i < r.len() - 1 implies lex_below(
            #[trigger] r[i].name@,
            r[i + 1].name@,
        ) by {
            if i == 0 {
            } else if i == 1 {
            } else if i == 2 {
            } else if i == 3 {
            } else if i == 4 {
            } else if i == 5 {
            } else if i == 6 {
            } else if i == 7 {
            } else if i == 8 {
            } else if i == 9 {
            } else if i == 10 {
            } else {
                assert(i == 11);
            }
        }
    }
    lemma_rising_is_sorted(r);
}

/// Two sequences that agree on their first `at` characters, the first of
/// which ends there or goes on with a smaller character, are in order.
proof fn lemma_parts(a: Seq<char>, b: Seq<char>, at: int)
    requires
        0 <= at <= a.len(),
        at < b.len(),
        forall|i: int| 0 <= i < at ==> a[i] == b[i],
        at == a.len() || (a[at] as u32) < (b[at] as u32),
    ensures
        lex_below(a, b),
{
    assert(a.take(at) =~= b.take(at));
    assert(parts_below(a, b, at));
}

/// Whether entry `i` of `reg` bears `name`.
pub open spec fn named(reg: Seq<ModelInfo>, name: Seq<char>, i: int) -> bool {
    0 <= i < reg.len() && reg[i].name@ == name
}

/// The entry of `reg` that bears `name`, if there is one.
pub open spec fn entry_named(reg: Seq<ModelInfo>, name: Seq<char>) -> Option<ModelInfo> {
    if exists|i: int| named(reg, name, i) {
        Some(reg[choose|i: int| named(reg, name, i)])
    } else {
        None
    }
}

/// Whether `s` begins with the name of entry `i` of `reg`.
pub open spec fn prefix_at(reg: Seq<ModelInfo>, s: Seq<char>, i: int) -> bool {
    0 <= i < reg.len() && has_prefix(s, reg[i].name@)
}

/// Whether entry `i` has the longest name among the entries whose name `s`
/// begins with.
pub open spec fn longest_prefix_at(reg: Seq<ModelInfo>, s: Seq<char>, i: int) -> bool {
    &&& prefix_at(reg, s, i)
    &&& forall|j: int| prefix_at(reg, s, j) ==> reg[j].name@.len() <= reg[i].name@.len()
}

/// The entry with the longest name that `s` begins with, if there is one.
pub open spec fn longest_prefix_entry(reg: Seq<ModelInfo>, s: Seq<char>) -> Option<ModelInfo> {
    if exists|i: int| prefix_at(reg, s, i) {
        Some(reg[choose|i: int| longest_prefix_at(reg, s, i)])
    } else {
        None
    }
}

/// A normalized name without its trailing variant markers: `-instruct`,
/// then `-chat`, then `-turbo`, then `-preview`, each as often as it stands
/// at the end.
pub open spec fn strip_suffixes(s: Seq<char>) -> Seq<char> {
    trim_end(trim_end(trim_end(trim_end(s, "-instruct"@), "-chat"@), "-turbo"@), "-preview"@)
}

/// What a lookup of the normalized name `s` finds in `reg`: the entry of
/// that name; else the entry named by `s` without its variant markers; else
/// the entry with the longest name that `s` begins with.
pub open spec fn lookup(reg: Seq<ModelInfo>, s: Seq<char>) -> Option<ModelInfo> {
    if entry_named(reg, s) is Some {
        entry_named(reg, s)
    } else if entry_named(reg, strip_suffixes(s)) is Some {
        entry_named(reg, strip_suffixes(s))
    } else {
        longest_prefix_entry(reg, s)
    }
}

/// In a sorted table at most one entry bears a given name.
pub proof fn lemma_name_unique(reg: Seq<ModelInfo>, name: Seq<char>, i: int, j: int)
    requires
        sorted_by_name(reg),
        named(reg, name, i),
        named(reg, name, j),
    ensures
        i == j,
{
    lemma_lex_below_irreflexive(name);
    if i < j {
        assert(lex_below(reg[i].name@, reg[j].name@));
    } else if j < i {
        assert(lex_below(reg[j].name@, reg[i].name@));
    }
}

/// In a sorted table at most one entry has the longest matching name.
pub proof fn lemma_longest_prefix_unique(reg: Seq<ModelInfo>, s: Seq<char>, i: int, j: int)
    requires
        sorted_by_name(reg),
        longest_prefix_at(reg, s, i),
        longest_prefix_at(reg, s, j),
    ensures
        i == j,
{
    let a = reg[i].name@;
    let b = reg[j].name@;
    assert(a.len() == b.len());
    assert(a =~= b) by {
        assert(s.subrange(0, a.len() as int) == a);
        assert(s.subrange(0, b.len() as int) == b);
    }
    lemma_name_unique(reg, a, i, j);
}

fn position_named(reg: &Vec<ModelInfo>, name: &Vec<char>) -> (r: Option<usize>)
    ensures
        r matches Some(i) ==> named(reg@, name@, i as int),
        r is None ==> forall|i: int| !named(reg@, name@, i),
{
    let mut i: usize = 0;
    while i < reg.len()
        invariant
            i <= reg.len(),
            forall|j: int| 0 <= j < i ==> !named(reg@, name@, j),
        decreases reg.len() - i,
    {
        let entry_name = chars_of(reg[i].name);
        if same(&entry_name, name) {
            return Some(i);
        }
        i += 1;
    }
    None
}

fn position_longest_prefix(reg: &Vec<ModelInfo>, s: &Vec<char>) -> (r: Option<usize>)
    ensures
        r matches Some(i) ==> longest_prefix_at(reg@, s@, i as int),
        r is None ==> forall|i: int| !prefix_at(reg@, s@, i),
{
    let mut best: Option<usize> = None;
    let mut best_len: usize = 0;
    let mut i: usize = 0;
    while i < reg.len()
        invariant
            i <= reg.len(),
            best matches Some(b) ==> b < i && prefix_at(reg@, s@, b as int) && best_len
                == reg@[b as int].name@.len(),
            best matches Some(b) ==> forall|j: int|
                0 <= j < i && prefix_at(reg@, s@, j) ==> reg@[j].name@.len() <= best_len,
            best is None ==> forall|j: int| 0 <= j < i ==> !prefix_at(reg@, s@, j),
        decreases reg.len() - i,
    {
        let entry_name = chars_of(reg[i].name);
        if starts_with(s, &entry_name) {
            if best.is_none() || entry_name.len() > best_len {
                best = Some(i);
                best_len = entry_name.len();
            }
        }
        i += 1;
    }
    best
}

/// Looks up a model by its normalized (lower-case) name.
pub fn lookup_normalized(normalized: &str) -> (r: Option<ModelInfo>)
    ensures
        r == lookup(registry_entries(), normalized@),
{
    let reg = model_registry();
    let name = chars_of(normalized);
    proof {
        lemma_registry_sorted();
    }
    match position_named(&reg, &name) {
        Some(i) => {
            proof {
                let c = choose|k: int| named(reg@, name@, k);
                lemma_name_unique(reg@, name@, i as int, c);
            }
            return Some(reg[i]);
        },
        None => {},
    }
    let mut stripped = chars_of(normalized);
    trim_end_matches(&mut stripped, &chars_of("-instruct"));
    trim_end_matches(&mut stripped, &chars_of("-chat"));
    trim_end_matches(&mut stripped, &chars_of("-turbo"));
    trim_end_matches(&mut stripped, &chars_of("-preview"));
    assert(stripped@ == strip_suffixes(name@));
    match position_named(&reg, &stripped) {
        Some(i) => {
            proof {
                let c = choose|k: int| named(reg@, stripped@, k);
                lemma_name_unique(reg@, stripped@, i as int, c);
            }
            return Some(reg[i]);
        },
        None => {},
    }
    match position_longest_prefix(&reg, &name) {
        Some(i) => {
            proof {
                assert(prefix_at(reg@, name@, i as int));
                let c = choose|k: int| longest_prefix_at(reg@, name@, k);
                lemma_longest_prefix_unique(reg@, name@, i as int, c);
            }
            Some(reg[i])
        },
        None => None,
    }
}

/// Looks up model information by name.
///
/// The name is put in lower case first. An exact match wins; then a match
/// of the name without its variant markers (`llama-3.1-8b-instruct` finds
/// `llama-3.1-8b`); then the registered name that the given name begins
/// with, the longest if there are several.
pub fn lookup_model(name: &str) -> (r: Option<ModelInfo>)
    ensures
        r == lookup(registry_entries(), lowercase(name@)),
{
    let normalized = to_lowercase(name);
    lookup_normalized(normalized.as_str())
}

/// The names of all registered models, in ascending order.
pub fn list_models() -> (r: Vec<&'static str>)
    ensures
        r@.len() == registry_entries().len(),
        forall|i: int| 0 <= i < r@.len() ==> r@[i] == #[trigger] registry_entries()[i].name,
        forall|i: int, j: int| 0 <= i < j < r@.len() ==> lex_below(#[trigger] r@[i]@, #[trigger] r@[j]@),
{
    let reg = model_registry();
    let mut names: Vec<&'static str> = Vec::new();
    let mut i: usize = 0;
    while i < reg.len()
        invariant
            i <= reg.len(),
            reg@ == registry_entries(),
            names@.len() == i,
            forall|k: int| 0 <= k < i ==> names@[k] == #[trigger] reg@[k].name,
        decreases reg.len() - i,
    {
        names.push(reg[i].name);
        i += 1;
    }
    proof {
        lemma_registry_sorted();
        assert forall|i: int, j: int| 0 <= i < j < names@.len() implies lex_below(
            #[trigger] names@[i]@,
            #[trigger] names@[j]@,
        ) by {
            assert(names@[i] == reg@[i].name);
            assert(names@[j] == reg@[j].name);
            assert(lex_below(reg@[i].name@, reg@[j].name@));
        }
    }
    names
}

} // verus!
