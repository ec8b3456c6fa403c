//! Language-model configuration: message types, the registry of model
//! configurations with its default and fallback order, and key masking.
//!
//! The providers themselves (HTTP clients) live outside the library; the
//! registry decides which configuration exists, which one is the default
//! and in which order the configurations are tried.

use vstd::prelude::*;
use crate::platform::uuid_prefix8;
use crate::text::{
    byte_len, chars_of, chars_within, concat, owned, push_str, str_eq, string_from_chars,
    utf8_len,
};

verus! {

/// LLM provider type.
#[derive(Debug, Clone, Copy, PartialEq, Eq, Structural)]
pub enum ProviderType {
    OpenAI,
    Anthropic,
    Ollama,
}

impl ProviderType {
    /// The provider's name as configurations and ids spell it.
    pub open spec fn spec_name(self) -> Seq<char> {
        match self {
            ProviderType::OpenAI => "openai"@,
            ProviderType::Anthropic => "anthropic"@,
            ProviderType::Ollama => "ollama"@,
        }
    }

    /// The provider's lowercase name.
    pub fn name(&self) -> (r: &'static str)
        ensures
            r@ == self.spec_name(),
    {
        match self {
            ProviderType::OpenAI => "openai",
            ProviderType::Anthropic => "anthropic",
            ProviderType::Ollama => "ollama",
        }
    }

    /// The provider a lowercase name stands for.
    pub open spec fn spec_from_name(s: Seq<char>) -> Option<ProviderType> {
        if s == "openai"@ {
            Some(ProviderType::OpenAI)
        } else if s == "anthropic"@ {
            Some(ProviderType::Anthropic)
        } else if s == "ollama"@ {
            Some(ProviderType::Ollama)
        } else {
            None
        }
    }

    /// The provider a lowercase name stands for, if any.
    pub fn from_name(s: &str) -> (r: Option<ProviderType>)
        ensures
            r == ProviderType::spec_from_name(s@),
    {
        if str_eq(s, "openai") {
            Some(ProviderType::OpenAI)
        } else if str_eq(s, "anthropic") {
            Some(ProviderType::Anthropic)
        } else if str_eq(s, "ollama") {
            Some(ProviderType::Ollama)
        } else {
            None
        }
    }
}

/// Chat message role.
#[derive(Debug, Clone, Copy, PartialEq, Eq, Structural)]
pub enum MessageRole {
    System,
    User,
    Assistant,
}

/// A single chat message.
#[derive(Debug)]
pub struct ChatMessage {
    pub role: MessageRole,
    pub content: String,
}

impl ChatMessage {
    /// A message from the user.
    pub fn user(content: &str) -> (r: ChatMessage)
        ensures
            r.role == MessageRole::User,
            r.content@ == content@,
    {
        ChatMessage { role: MessageRole::User, content: owned(content) }
    }

    /// A message from the assistant.
    pub fn assistant(content: &str) -> (r: ChatMessage)
        ensures
            r.role == MessageRole::Assistant,
            r.content@ == content@,
    {
        ChatMessage { role: MessageRole::Assistant, content: owned(content) }
    }

    /// A system message.
    pub fn system(content: &str) -> (r: ChatMessage)
        ensures
            r.role == MessageRole::System,
            r.content@ == content@,
    {
        ChatMessage { role: MessageRole::System, content: owned(content) }
    }
}

/// Token usage of one completion.
#[derive(Debug)]
pub struct UsageInfo {
    pub prompt_tokens: u32,
    pub completion_tokens: u32,
    pub total_tokens: u32,
}

/// A chat completion.
#[derive(Debug)]
pub struct ChatResponse {
    pub content: String,
    pub model: String,
    pub usage: Option<UsageInfo>,
    pub finish_reason: Option<String>,
}

/// Result of a connection test.
#[derive(Debug)]
pub struct TestResult {
    pub success: bool,
    pub model: String,
    pub latency_ms: u64,
    pub message: String,
}

/// Errors of the LLM layer.
#[derive(Debug)]
pub enum LlmError {
    HttpError(String),
    ApiError { code: u16, message: String },
    ParseError(String),
    ProviderNotFound(String),
    ConfigError(String),
}

/// Default completion length in tokens.
pub fn default_max_tokens() -> (r: u32)
    ensures
        r == 4096,
{
    4096
}

/// Configurations are active unless stated otherwise.
pub fn default_true() -> (r: bool)
    ensures
        r,
{
    true
}

/// Whether a key can be shown masked: longer than eight bytes, with
/// character boundaries four bytes from each end (every ASCII key).
pub open spec fn maskable(key: Seq<char>) -> bool {
    utf8_len(key) <= 8 || (utf8_len(key.take(chars_within(key, 4) as int)) == 4 && exists|k: int|
        0 <= k <= key.len() && #[trigger] utf8_len(key.skip(k)) == 4)
}

/// Number of characters at the end of `key` that make up its last four
/// bytes.
pub open spec fn tail_chars(key: Seq<char>) -> int {
    choose|k: int| 0 <= k <= key.len() && #[trigger] utf8_len(key.skip(k)) == 4
}

/// A key as it is shown: `****` up to eight bytes, else its first and last
/// four bytes around `...`.
pub open spec fn masked(key: Seq<char>) -> Seq<char> {
    if utf8_len(key) <= 8 {
        "****"@
    } else {
        key.take(chars_within(key, 4) as int) + "..."@ + key.skip(tail_chars(key))
    }
}

proof fn lemma_skip_len_decreasing(s: Seq<char>, i: int, j: int)
    requires
        0 <= i <= j <= s.len(),
    ensures
        utf8_len(s.skip(j)) <= utf8_len(s.skip(i)),
        i < j ==> utf8_len(s.skip(j)) < utf8_len(s.skip(i)),
    decreases j - i,
{
    if i < j {
        assert(s.skip(i).drop_first() =~= s.skip(i + 1));
        assert(utf8_len(s.skip(i)) == crate::text::utf8_width(s.skip(i)[0]) + utf8_len(s.skip(i + 1)));
        lemma_skip_len_decreasing(s, i + 1, j);
    }
}

/// Whether `mask_key` can show a key (see `maskable`): the test to make
/// before calling it.
pub fn key_maskable(key: &str) -> (r: bool)
    ensures
        r == maskable(key@),
{
    if byte_len(key) <= 8 {
        return true;
    }
    let cs = chars_of(key);
    let head = crate::text::prefix_within(&cs, 4);
    let head_str = string_from_chars(crate::text::slice_chars(&cs, 0, head).as_slice());
    proof {
        assert(cs@.subrange(0, head as int) =~= key@.take(head as int));
    }
    if byte_len(head_str.as_str()) != 4 {
        return false;
    }
    let mut k: usize = cs.len();
    let mut tail: usize = 0;
    assert(cs@.skip(k as int) =~= Seq::<char>::empty());
    while tail < 4 && k > 0
        invariant
            k <= cs.len(),
            cs@ == key@,
            tail == utf8_len(cs@.skip(k as int)),
            k == cs.len() || utf8_len(cs@.skip(k + 1)) < 4,
        decreases k,
    {
        proof {
            assert(cs@.skip(k - 1).drop_first() =~= cs@.skip(k as int));
            assert(cs@.skip(k - 1)[0] == cs@[k - 1]);
        }
        tail = tail + crate::text::char_width(cs[k - 1]);
        k = k - 1;
    }
    if tail == 4 {
        assert(utf8_len(key@.skip(k as int)) == 4);
        true
    } else {
        proof {
            assert(cs@.skip(0) =~= cs@);
            assert(tail > 4);
            assert forall|t: int| 0 <= t <= key@.len() implies #[trigger] utf8_len(key@.skip(t)) != 4 by {
                if t > k {
                    lemma_skip_len_decreasing(key@, k as int + 1, t);
                } else if t < k {
                    lemma_skip_len_decreasing(key@, t, k as int);
                }
            }
        }
        false
    }
}

/// Masks an API key for display.
pub fn mask_key(key: &str) -> (r: String)
    requires
        maskable(key@),
    ensures
        r@ == masked(key@),
{
    if byte_len(key) <= 8 {
        return owned("****");
    }
    let cs = chars_of(key);
    let head = crate::text::prefix_within(&cs, 4);
    // find the start of the last four bytes
    let mut k: usize = cs.len();
    let mut tail: usize = 0;
    assert(cs@.skip(k as int) =~= Seq::<char>::empty());
    while tail < 4 && k > 0
        invariant
            k <= cs.len(),
            cs@ == key@,
            tail == utf8_len(cs@.skip(k as int)),
            k == cs.len() || utf8_len(cs@.skip(k + 1)) < 4,
            maskable(key@),
            utf8_len(key@) > 8,
        decreases k,
    {
        proof {
            assert(cs@.skip(k - 1).drop_first() =~= cs@.skip(k as int));
            assert(cs@.skip(k - 1)[0] == cs@[k - 1]);
        }
        tail = tail + crate::text::char_width(cs[k - 1]);
        k = k - 1;
    }
    proof {
        let t = tail_chars(key@);
        assert(0 <= t <= key@.len() && utf8_len(key@.skip(t)) == 4);
        if k > t {
            lemma_skip_len_decreasing(key@, t, k as int);
        } else if k < t {
            lemma_skip_len_decreasing(key@, k as int + 1, t);
        }
        assert(k == t);
    }
    let mut out = crate::text::slice_chars(&cs, 0, head);
    out.push('.');
    out.push('.');
    out.push('.');
    let rest = crate::text::slice_chars(&cs, k, cs.len());
    let ghost before = out@;
    let mut i: usize = 0;
    while i < rest.len()
        invariant
            i <= rest.len(),
            out@ == before + rest@.take(i as int),
        decreases rest.len() - i,
    {
        out.push(rest[i]);
        assert(rest@.take(i + 1) =~= rest@.take(i as int).push(rest@[i as int]));
        i = i + 1;
    }
    proof {
        reveal_strlit("...");
        assert(rest@.take(rest.len() as int) =~= rest@);
        assert(cs@.subrange(k as int, cs.len() as int) =~= key@.skip(k as int));
        assert(cs@.subrange(0, head as int) =~= key@.take(head as int));
        assert(out@ =~= key@.take(head as int) + "..."@ + key@.skip(k as int));
    }
    string_from_chars(out.as_slice())
}

// ── Configuration registry ───────────────────────────────────────────

/// A stored model configuration (its sampling parameters are kept by the
/// caller under the same id).
#[derive(Debug)]
pub struct LlmConfig {
    pub id: String,
    pub name: String,
    pub provider: ProviderType,
    pub base_url: String,
    pub api_key: String,
    pub model: String,
    pub is_default: bool,
    pub is_active: bool,
}

/// The mathematical content of an `LlmConfig`.
pub struct ConfigView {
    pub id: Seq<char>,
    pub name: Seq<char>,
    pub provider: ProviderType,
    pub base_url: Seq<char>,
    pub api_key: Seq<char>,
    pub model: Seq<char>,
    pub is_default: bool,
    pub is_active: bool,
}

impl View for LlmConfig {
    type V = ConfigView;

    open spec fn view(&self) -> ConfigView {
        ConfigView {
            id: self.id@,
            name: self.name@,
            provider: self.provider,
            base_url: self.base_url@,
            api_key: self.api_key@,
            model: self.model@,
            is_default: self.is_default,
            is_active: self.is_active,
        }
    }
}

impl LlmConfig {
    /// A copy holding the same values.
    pub fn copy(&self) -> (r: LlmConfig)
        ensures
            r@ == self@,
    {
        LlmConfig {
            id: self.id.clone(),
            name: self.name.clone(),
            provider: self.provider,
            base_url: self.base_url.clone(),
            api_key: self.api_key.clone(),
            model: self.model.clone(),
            is_default: self.is_default,
            is_active: self.is_active,
        }
    }
}

/// Request to create or update a configuration.
#[derive(Debug)]
pub struct LlmConfigRequest {
    pub name: String,
    pub provider: ProviderType,
    pub base_url: String,
    pub api_key: String,
    pub model: String,
    pub is_default: bool,
    pub is_active: bool,
}

/// Status of one configured model.
#[derive(Debug)]
pub struct ModelStatus {
    pub id: String,
    pub name: String,
    pub provider_type: ProviderType,
    pub model: String,
    pub is_default: bool,
    pub is_active: bool,
    pub is_connected: bool,
}

/// Status of the whole registry.
#[derive(Debug)]
pub struct LlmStatus {
    pub total_configs: u32,
    pub active_configs: u32,
    pub connected_count: u32,
    pub models: Vec<ModelStatus>,
}

/// The configuration a request describes, under `id` with the given
/// default flag.
pub open spec fn from_request(
    id: Seq<char>,
    name: Seq<char>,
    provider: ProviderType,
    base_url: Seq<char>,
    api_key: Seq<char>,
    model: Seq<char>,
    is_default: bool,
    is_active: bool,
) -> ConfigView {
    ConfigView { id, name, provider, base_url, api_key, model, is_default, is_active }
}

/// Every configuration with its default flag cleared.
pub open spec fn undefaulted(cs: Seq<ConfigView>) -> Seq<ConfigView> {
    cs.map_values(|c: ConfigView| not_default(c))
}

/// Index of the configuration stored under `id`.
pub open spec fn index_of(cs: Seq<ConfigView>, id: Seq<char>) -> Option<int> {
    if exists|i: int| 0 <= i < cs.len() && (#[trigger] cs[i]).id == id {
        Some(choose|i: int| 0 <= i < cs.len() && (#[trigger] cs[i]).id == id)
    } else {
        None
    }
}

/// Ids of the active configurations, in order, whose default flag is `d`.
pub open spec fn active_ids(cs: Seq<ConfigView>, d: bool) -> Seq<Seq<char>>
    decreases cs.len(),
{
    if cs.len() == 0 {
        Seq::empty()
    } else {
        let rest = active_ids(cs.drop_last(), d);
        if cs.last().is_active && cs.last().is_default == d {
            rest.push(cs.last().id)
        } else {
            rest
        }
    }
}

/// The fallback chain: the active configurations, the default first.
pub open spec fn chain_of(cs: Seq<ConfigView>) -> Seq<Seq<char>> {
    active_ids(cs, true) + active_ids(cs, false)
}

/// Number of configurations marked default.
pub open spec fn default_count(cs: Seq<ConfigView>) -> nat
    decreases cs.len(),
{
    if cs.len() == 0 {
        0
    } else {
        default_count(cs.drop_last()) + if cs.last().is_default {
            1nat
        } else {
            0nat
        }
    }
}

/// Number of active configurations.
pub open spec fn active_count(cs: Seq<ConfigView>) -> nat
    decreases cs.len(),
{
    if cs.len() == 0 {
        0
    } else {
        active_count(cs.drop_last()) + if cs.last().is_active {
            1nat
        } else {
            0nat
        }
    }
}

/// A configuration as listed: its key masked.
pub open spec fn with_masked_key(c: ConfigView) -> ConfigView {
    ConfigView { api_key: masked(c.api_key), ..c }
}

/// A configuration that is not the default.
pub open spec fn not_default(c: ConfigView) -> ConfigView {
    ConfigView { is_default: false, ..c }
}

/// Message of an unknown configuration.
pub open spec fn config_not_found(id: Seq<char>) -> Seq<char> {
    "config not found: "@ + id
}

/// The model configurations, in the order they were created.
pub struct LlmRegistry {
    configs: Vec<LlmConfig>,
}

impl View for LlmRegistry {
    type V = Seq<ConfigView>;

    closed spec fn view(&self) -> Seq<ConfigView> {
        self.configs@.map_values(|c: LlmConfig| c@)
    }
}

proof fn lemma_default_count_undefaulted(cs: Seq<ConfigView>)
    ensures
        default_count(undefaulted(cs)) == 0,
        undefaulted(cs).len() == cs.len(),
    decreases cs.len(),
{
    if cs.len() > 0 {
        assert(undefaulted(cs).drop_last() =~= undefaulted(cs.drop_last()));
        lemma_default_count_undefaulted(cs.drop_last());
    }
}

proof fn lemma_default_count_push(cs: Seq<ConfigView>, c: ConfigView)
    ensures
        default_count(cs.push(c)) == default_count(cs) + if c.is_default { 1nat } else { 0nat },
{
    assert(cs.push(c).drop_last() =~= cs);
}

proof fn lemma_default_count_update(cs: Seq<ConfigView>, i: int, c: ConfigView)
    requires
        0 <= i < cs.len(),
    ensures
        default_count(cs.update(i, c)) + (if cs[i].is_default { 1nat } else { 0nat })
            == default_count(cs) + (if c.is_default { 1nat } else { 0nat }),
    decreases cs.len(),
{
    if i == cs.len() - 1 {
        assert(cs.update(i, c).drop_last() =~= cs.drop_last());
    } else {
        assert(cs.update(i, c).drop_last() =~= cs.drop_last().update(i, c));
        lemma_default_count_update(cs.drop_last(), i, c);
    }
}

proof fn lemma_default_count_remove(cs: Seq<ConfigView>, i: int)
    requires
        0 <= i < cs.len(),
    ensures
        default_count(cs.remove(i)) + (if cs[i].is_default { 1nat } else { 0nat })
            == default_count(cs),
    decreases cs.len(),
{
    if i == cs.len() - 1 {
        assert(cs.remove(i) =~= cs.drop_last());
    } else {
        assert(cs.remove(i).drop_last() =~= cs.drop_last().remove(i));
        lemma_default_count_remove(cs.drop_last(), i);
    }
}

proof fn lemma_default_count_zero(cs: Seq<ConfigView>, i: int)
    requires
        default_count(cs) == 0,
        0 <= i < cs.len(),
    ensures
        !cs[i].is_default,
    decreases cs.len(),
{
    if i < cs.len() - 1 {
        lemma_default_count_zero(cs.drop_last(), i);
    }
}

impl LlmRegistry {
    /// The registry's invariant: ids are distinct and at most one
    /// configuration is the default.
    pub open spec fn wf(&self) -> bool {
        &&& forall|i: int, j: int|
            0 <= i < j < self@.len() ==> (#[trigger] self@[i]).id != (#[trigger] self@[j]).id
        &&& default_count(self@) <= 1
    }

    /// An empty registry.
    pub fn new() -> (r: LlmRegistry)
        ensures
            r.wf(),
            r@ == Seq::<ConfigView>::empty(),
    {
        let r = LlmRegistry { configs: Vec::new() };
        assert(r@ =~= Seq::<ConfigView>::empty());
        r
    }

    fn find(&self, id: &str) -> (r: Option<usize>)
        requires
            self.wf(),
        ensures
            match r {
                Some(i) => i < self@.len() && self@[i as int].id == id@ && index_of(self@, id@)
                    == Some(i as int),
                None => index_of(self@, id@) is None,
            },
    {
        let mut i: usize = 0;
        while i < self.configs.len()
            invariant
                i <= self.configs.len(),
                self.wf(),
                forall|j: int| 0 <= j < i ==> (#[trigger] self@[j]).id != id@,
            decreases self.configs.len() - i,
        {
            assert(self@[i as int] == self.configs@[i as int]@);
            if str_eq(self.configs[i].id.as_str(), id) {
                proof {
                    let c = choose|j: int| 0 <= j < self@.len() && (#[trigger] self@[j]).id == id@;
                    if c != i {
                        if c < i {
                            assert(self@[c].id != self@[i as int].id);
                        } else {
                            assert(self@[i as int].id != self@[c].id);
                        }
                    }
                }
                return Some(i);
            }
            i = i + 1;
        }
        proof {
            if exists|j: int| 0 <= j < self@.len() && (#[trigger] self@[j]).id == id@ {
                let c = choose|j: int| 0 <= j < self@.len() && (#[trigger] self@[j]).id == id@;
                assert(self@[c].id != id@);
            }
        }
        None
    }

    /// The configuration stored under `id`.
    pub fn get_config(&self, id: &str) -> (r: Option<LlmConfig>)
        requires
            self.wf(),
        ensures
            match index_of(self@, id@) {
                Some(i) => r matches Some(c) && c@ == self@[i],
                None => r is None,
            },
    {
        match self.find(id) {
            Some(i) => Some(self.configs[i].copy()),
            None => None,
        }
    }

    /// Every configuration, in creation order, with its key masked.
    pub fn list_configs(&self) -> (r: Vec<LlmConfig>)
        requires
            forall|i: int| 0 <= i < self@.len() ==> maskable(#[trigger] self@[i].api_key),
        ensures
            r.len() == self@.len(),
            forall|i: int|
                0 <= i < r.len() ==> (#[trigger] r[i])@ == with_masked_key(self@[i]),
    {
        let mut out: Vec<LlmConfig> = Vec::new();
        let mut i: usize = 0;
        while i < self.configs.len()
            invariant
                i <= self.configs.len(),
                out.len() == i,
                forall|j: int| 0 <= j < self@.len() ==> maskable(#[trigger] self@[j].api_key),
                forall|j: int|
                    0 <= j < i ==> (#[trigger] out[j])@ == with_masked_key(self@[j]),
            decreases self.configs.len() - i,
        {
            assert(self@[i as int] == self.configs@[i as int]@);
            assert(maskable(self@[i as int].api_key));
            let mut c = self.configs[i].copy();
            c.api_key = mask_key(self.configs[i].api_key.as_str());
            out.push(c);
            i = i + 1;
        }
        out
    }

    fn clear_defaults(&mut self)
        requires
            old(self).wf(),
        ensures
            final(self)@ == undefaulted(old(self)@),
            final(self).wf(),
    {
        let mut i: usize = 0;
        while i < self.configs.len()
            invariant
                i <= self.configs.len(),
                self.configs.len() == old(self).configs.len(),
                forall|j: int|
                    0 <= j < i ==> (#[trigger] self.configs@[j])@ == not_default(old(self).configs@[j]@),
                forall|j: int|
                    i <= j < self.configs.len() ==> (#[trigger] self.configs@[j]) == old(
                        self,
                    ).configs@[j],
            decreases self.configs.len() - i,
        {
            let mut c = self.configs[i].copy();
            c.is_default = false;
            self.configs.set(i, c);
            i = i + 1;
        }
        proof {
            assert(self@ =~= undefaulted(old(self)@));
            lemma_default_count_undefaulted(old(self)@);
            assert forall|a: int, b: int| 0 <= a < b < self@.len() implies (#[trigger] self@[a]).id
                != (#[trigger] self@[b]).id by {
                assert(old(self)@[a].id != old(self)@[b].id);
            }
        }
    }

    /// Creates a configuration under a fresh id (`provider-` and eight hex
    /// digits). It becomes the default when the request asks for it (every
    /// other configuration then stops being the default) or when it is the
    /// first one.
    pub fn create_config(&mut self, req: LlmConfigRequest) -> (r: Result<LlmConfig, LlmError>)
        requires
            old(self).wf(),
        ensures
            final(self).wf(),
            r matches Ok(c) && {
                let before = if req.is_default { undefaulted(old(self)@) } else { old(self)@ };
                let d = req.is_default || old(self)@.len() == 0;
                &&& c@ == from_request(
                    c@.id,
                    req.name@,
                    req.provider,
                    req.base_url@,
                    req.api_key@,
                    req.model@,
                    d,
                    req.is_active,
                )
                &&& c@.id.len() == req.provider.spec_name().len() + 9
                &&& c@.id.take(req.provider.spec_name().len() + 1int) == req.provider.spec_name()
                    + "-"@
                &&& match index_of(before, c@.id) {
                    Some(i) => final(self)@ == before.update(i, c@),
                    None => final(self)@ == before.push(c@),
                }
            },
    {
        let suffix = uuid_prefix8();
        let id = concat(concat(req.provider.name(), "-").as_str(), suffix.as_str());
        let was_empty = self.configs.len() == 0;
        let is_default = if req.is_default {
            self.clear_defaults();
            true
        } else {
            was_empty
        };
        let ghost before = self@;
        let config = LlmConfig {
            id,
            name: req.name,
            provider: req.provider,
            base_url: req.base_url,
            api_key: req.api_key,
            model: req.model,
            is_default,
            is_active: req.is_active,
        };
        let out = config.copy();
        proof {
            reveal_strlit("-");
            let pre = req.provider.spec_name() + "-"@;
            assert(out@.id == pre + suffix@);
            assert((pre + suffix@).take(pre.len() as int) =~= pre);
            if !req.is_default && !was_empty {
                assert(default_count(before) <= 1);
            }
        }
        match self.find(config.id.as_str()) {
            Some(i) => {
                let ghost old_c = self@[i as int];
                self.configs.set(i, config);
                proof {
                    assert(self@ =~= before.update(i as int, out@));
                    lemma_default_count_update(before, i as int, out@);
                    if is_default && req.is_default {
                        lemma_default_count_undefaulted(old(self)@);
                    }
                    if is_default && !req.is_default {
                        assert(before.len() == 0);
                    }
                    assert forall|a: int, b: int| 0 <= a < b < self@.len() implies (
                    #[trigger] self@[a]).id != (#[trigger] self@[b]).id by {
                        assert(before[a].id != before[b].id);
                    }
                }
            },
            None => {
                self.configs.push(config);
                proof {
                    assert(self@ =~= before.push(out@));
                    lemma_default_count_push(before, out@);
                    if is_default && req.is_default {
                        lemma_default_count_undefaulted(old(self)@);
                    }
                    if is_default && !req.is_default {
                        assert(before.len() == 0);
                    }
                    assert forall|a: int, b: int| 0 <= a < b < self@.len() implies (
                    #[trigger] self@[a]).id != (#[trigger] self@[b]).id by {
                        if b < before.len() {
                            assert(before[a].id != before[b].id);
                        } else {
                            assert(before[a].id != out@.id);
                        }
                    }
                }
            },
        }
        Ok(out)
    }

    /// Updates the configuration stored under `id` with every field of the
    /// request. A request for the default first clears every default flag,
    /// also when `id` turns out to be unknown.
    pub fn update_config(&mut self, id: &str, req: LlmConfigRequest) -> (r: Result<
        LlmConfig,
        LlmError,
    >)
        requires
            old(self).wf(),
        ensures
            final(self).wf(),
            ({
                let before = if req.is_default { undefaulted(old(self)@) } else { old(self)@ };
                match index_of(old(self)@, id@) {
                    Some(i) => {
                        let c = from_request(
                            id@,
                            req.name@,
                            req.provider,
                            req.base_url@,
                            req.api_key@,
                            req.model@,
                            req.is_default,
                            req.is_active,
                        );
                        &&& r matches Ok(x) && x@ == c
                        &&& final(self)@ == before.update(i, c)
                    },
                    None => {
                        &&& r matches Err(LlmError::ConfigError(m)) && m@ == config_not_found(id@)
                        &&& final(self)@ == before
                    },
                }
            }),
    {
        if req.is_default {
            self.clear_defaults();
        }
        let ghost before = self@;
        proof {
            if req.is_default {
                assert forall|j: int| 0 <= j < before.len() implies (#[trigger] before[j]).id
                    == old(self)@[j].id by {}
                assert(index_of(before, id@) == index_of(old(self)@, id@)) by {
                    if exists|i: int| 0 <= i < before.len() && (#[trigger] before[i]).id == id@ {
                        let c = choose|i: int| 0 <= i < before.len() && (#[trigger] before[i]).id == id@;
                        assert(old(self)@[c].id == id@);
                    }
                    if exists|i: int| 0 <= i < old(self)@.len() && (#[trigger] old(self)@[i]).id == id@ {
                        let c = choose|i: int| 0 <= i < old(self)@.len() && (#[trigger] old(self)@[i]).id == id@;
                        assert(before[c].id == id@);
                    }
                }
            }
        }
        match self.find(id) {
            Some(i) => {
                let config = LlmConfig {
                    id: owned(id),
                    name: req.name,
                    provider: req.provider,
                    base_url: req.base_url,
                    api_key: req.api_key,
                    model: req.model,
                    is_default: req.is_default,
                    is_active: req.is_active,
                };
                let out = config.copy();
                self.configs.set(i, config);
                proof {
                    assert(self@ =~= before.update(i as int, out@));
                    lemma_default_count_update(before, i as int, out@);
                    if req.is_default {
                        lemma_default_count_undefaulted(old(self)@);
                    }
                    assert forall|a: int, b: int| 0 <= a < b < self@.len() implies (
                    #[trigger] self@[a]).id != (#[trigger] self@[b]).id by {
                        assert(before[a].id != before[b].id);
                    }
                }
                Ok(out)
            },
            None => Err(LlmError::ConfigError(concat("config not found: ", id))),
        }
    }

    /// Deletes the configuration stored under `id`.
    pub fn delete_config(&mut self, id: &str) -> (r: Result<(), LlmError>)
        requires
            old(self).wf(),
        ensures
            final(self).wf(),
            match index_of(old(self)@, id@) {
                Some(i) => r is Ok && final(self)@ == old(self)@.remove(i),
                None => r matches Err(LlmError::ConfigError(m)) && m@ == config_not_found(id@)
                    && final(self)@ == old(self)@,
            },
    {
        match self.find(id) {
            Some(i) => {
                let ghost before = self@;
                self.configs.remove(i);
                proof {
                    assert(self@ =~= before.remove(i as int));
                    lemma_default_count_remove(before, i as int);
                    assert forall|a: int, b: int| 0 <= a < b < self@.len() implies (
                    #[trigger] self@[a]).id != (#[trigger] self@[b]).id by {
                        if a < i {
                            if b < i {
                                assert(before[a].id != before[b].id);
                            } else {
                                assert(before[a].id != before[b + 1].id);
                            }
                        } else {
                            assert(before[a + 1].id != before[b + 1].id);
                        }
                    }
                }
                Ok(())
            },
            None => Err(LlmError::ConfigError(concat("config not found: ", id))),
        }
    }

    fn collect_active(&self, d: bool, out: &mut Vec<String>)
        ensures
            final(out)@.map_values(|s: String| s@) == old(out)@.map_values(|s: String| s@)
                + active_ids(self@, d),
    {
        let ghost start = out@.map_values(|s: String| s@);
        let mut i: usize = 0;
        while i < self.configs.len()
            invariant
                i <= self.configs.len(),
                out@.map_values(|s: String| s@) == start + active_ids(self@.take(i as int), d),
            decreases self.configs.len() - i,
        {
            let ghost before = out@.map_values(|s: String| s@);
            assert(self@.take(i + 1).drop_last() =~= self@.take(i as int));
            assert(self@.take(i + 1).last() == self.configs@[i as int]@);
            let c = &self.configs[i];
            if c.is_active && c.is_default == d {
                out.push(c.id.clone());
                assert(out@.map_values(|s: String| s@) =~= before.push(c.id@));
            }
            i = i + 1;
        }
        assert(self@.take(self.configs.len() as int) =~= self@);
    }

    /// The order in which configurations are tried: the active ones, the
    /// default first, the others in creation order.
    pub fn fallback_chain(&self) -> (r: Vec<String>)
        ensures
            r@.map_values(|s: String| s@) == chain_of(self@),
    {
        let mut out: Vec<String> = Vec::new();
        assert(out@.map_values(|s: String| s@) =~= Seq::<Seq<char>>::empty());
        self.collect_active(true, &mut out);
        self.collect_active(false, &mut out);
        out
    }

    /// Status of every configuration (each has its provider connected).
    pub fn status(&self) -> (r: LlmStatus)
        requires
            self@.len() <= u32::MAX,
        ensures
            r.total_configs == self@.len(),
            r.active_configs == active_count(self@),
            r.connected_count == self@.len(),
            r.models.len() == self@.len(),
            forall|i: int|
                0 <= i < r.models.len() ==> {
                    let m = #[trigger] r.models[i];
                    let c = self@[i];
                    &&& m.id@ == c.id
                    &&& m.name@ == c.name
                    &&& m.provider_type == c.provider
                    &&& m.model@ == c.model
                    &&& m.is_default == c.is_default
                    &&& m.is_active == c.is_active
                    &&& m.is_connected
                },
    {
        let mut models: Vec<ModelStatus> = Vec::new();
        let mut active: u32 = 0;
        let mut i: usize = 0;
        while i < self.configs.len()
            invariant
                i <= self.configs.len(),
                self@.len() <= u32::MAX,
                models.len() == i,
                active == active_count(self@.take(i as int)),
                active <= i,
                forall|j: int|
                    0 <= j < i ==> {
                        let m = #[trigger] models[j];
                        let c = self@[j];
                        &&& m.id@ == c.id
                        &&& m.name@ == c.name
                        &&& m.provider_type == c.provider
                        &&& m.model@ == c.model
                        &&& m.is_default == c.is_default
                        &&& m.is_active == c.is_active
                        &&& m.is_connected
                    },
            decreases self.configs.len() - i,
        {
            assert(self@.take(i + 1).drop_last() =~= self@.take(i as int));
            assert(self@.take(i + 1).last() == self.configs@[i as int]@);
            assert(self@[i as int] == self.configs@[i as int]@);
            let c = &self.configs[i];
            if c.is_active {
                active = active + 1;
            }
            models.push(ModelStatus {
                id: c.id.clone(),
                name: c.name.clone(),
                provider_type: c.provider,
                model: c.model.clone(),
                is_default: c.is_default,
                is_active: c.is_active,
                is_connected: true,
            });
            i = i + 1;
        }
        assert(self@.take(self.configs.len() as int) =~= self@);
        let n = self.configs.len() as u32;
        LlmStatus { total_configs: n, active_configs: active, connected_count: n, models }
    }
}



// ── Laws ────────────────────────────────────────────────────────────────

proof fn lemma_two_defaults(cs: Seq<ConfigView>, i: int, j: int)
    requires
        0 <= i < j < cs.len(),
        cs[i].is_default,
        cs[j].is_default,
    ensures
        default_count(cs) >= 2,
    decreases cs.len(),
{
    if j < cs.len() - 1 {
        lemma_two_defaults(cs.drop_last(), i, j);
    } else {
        lemma_one_default(cs.drop_last(), i);
    }
}

proof fn lemma_one_default(cs: Seq<ConfigView>, i: int)
    requires
        0 <= i < cs.len(),
        cs[i].is_default,
    ensures
        default_count(cs) >= 1,
    decreases cs.len(),
{
    if i < cs.len() - 1 {
        lemma_one_default(cs.drop_last(), i);
    }
}

/// At most one configuration is the default: whatever sequence of
/// creations, updates and deletions built the registry, two configurations
/// marked default are the same one.
pub proof fn law_single_default(reg: &LlmRegistry, i: int, j: int)
    requires
        reg.wf(),
        0 <= i < reg@.len(),
        0 <= j < reg@.len(),
        reg@[i].is_default,
        reg@[j].is_default,
    ensures
        i == j,
{
    if i < j {
        lemma_two_defaults(reg@, i, j);
    } else if j < i {
        lemma_two_defaults(reg@, j, i);
    }
}

/// Some active configuration with default flag `d` has the id `id`.
pub open spec fn active_with(cs: Seq<ConfigView>, id: Seq<char>, d: bool) -> bool {
    exists|i: int| 0 <= i < cs.len() && (#[trigger] cs[i]).is_active && cs[i].is_default == d && cs[i].id == id
}

/// Some active configuration has the id `id`.
pub open spec fn active_id(cs: Seq<ConfigView>, id: Seq<char>) -> bool {
    exists|i: int| 0 <= i < cs.len() && (#[trigger] cs[i]).is_active && cs[i].id == id
}

proof fn lemma_active_ids(cs: Seq<ConfigView>, d: bool)
    ensures
        forall|k: int| 0 <= k < active_ids(cs, d).len() ==> active_with(cs, #[trigger] active_ids(cs, d)[k], d),
        forall|i: int|
            0 <= i < cs.len() && (#[trigger] cs[i]).is_active && cs[i].is_default == d ==> active_ids(
                cs,
                d,
            ).contains(cs[i].id),
    decreases cs.len(),
{
    if cs.len() > 0 {
        let rest = cs.drop_last();
        lemma_active_ids(rest, d);
        let last = cs.last();
        let pushed = last.is_active && last.is_default == d;
        assert(active_ids(cs, d) == if pushed { active_ids(rest, d).push(last.id) } else { active_ids(rest, d) });
        assert forall|k: int| 0 <= k < active_ids(cs, d).len() implies active_with(cs, #[trigger] active_ids(cs, d)[k], d) by {
            if k < active_ids(rest, d).len() {
                assert(active_ids(cs, d)[k] == active_ids(rest, d)[k]);
                assert(active_with(rest, active_ids(rest, d)[k], d));
                let i = choose|i: int|
                    0 <= i < rest.len() && (#[trigger] rest[i]).is_active && rest[i].is_default == d
                        && rest[i].id == active_ids(rest, d)[k];
                assert(cs[i] == rest[i]);
            } else {
                let j = cs.len() - 1;
                assert(cs[j] == last);
            }
        }
        assert forall|i: int| 0 <= i < cs.len() && (#[trigger] cs[i]).is_active && cs[i].is_default == d implies active_ids(cs, d).contains(cs[i].id) by {
            if i < cs.len() - 1 {
                assert(rest[i] == cs[i]);
                assert(active_ids(rest, d).contains(cs[i].id));
                let k = choose|k: int| 0 <= k < active_ids(rest, d).len() && active_ids(rest, d)[k] == cs[i].id;
                assert(active_ids(cs, d)[k] == active_ids(rest, d)[k]);
            } else {
                assert(active_ids(cs, d)[active_ids(cs, d).len() - 1] == cs.last().id);
            }
        }
    }
}

/// The fallback chain holds exactly the active configurations: every id in
/// it names an active configuration, every active configuration is in it,
/// and the defaults come before all others.
pub proof fn law_fallback_chain(cs: Seq<ConfigView>)
    ensures
        forall|k: int| 0 <= k < chain_of(cs).len() ==> active_id(cs, #[trigger] chain_of(cs)[k]),
        forall|i: int| 0 <= i < cs.len() && (#[trigger] cs[i]).is_active ==> chain_of(cs).contains(cs[i].id),
        forall|k: int|
            0 <= k < active_ids(cs, true).len() ==> active_with(cs, #[trigger] chain_of(cs)[k], true),
{
    lemma_active_ids(cs, true);
    lemma_active_ids(cs, false);
    let nt = active_ids(cs, true).len();
    assert forall|k: int| 0 <= k < chain_of(cs).len() implies active_id(cs, #[trigger] chain_of(cs)[k]) by {
        if k < nt {
            assert(chain_of(cs)[k] == active_ids(cs, true)[k]);
            assert(active_with(cs, active_ids(cs, true)[k], true));
            let i = choose|i: int| 0 <= i < cs.len() && (#[trigger] cs[i]).is_active && cs[i].is_default == true && cs[i].id == active_ids(cs, true)[k];
            assert(cs[i].id == chain_of(cs)[k]);
        } else {
            assert(chain_of(cs)[k] == active_ids(cs, false)[k - nt]);
            assert(active_with(cs, active_ids(cs, false)[k - nt], false));
            let i = choose|i: int| 0 <= i < cs.len() && (#[trigger] cs[i]).is_active && cs[i].is_default == false && cs[i].id == active_ids(cs, false)[k - nt];
            assert(cs[i].id == chain_of(cs)[k]);
        }
    }
    assert forall|i: int| 0 <= i < cs.len() && (#[trigger] cs[i]).is_active implies chain_of(cs).contains(cs[i].id) by {
        if cs[i].is_default {
            assert(active_ids(cs, true).contains(cs[i].id));
            let k = choose|k: int| 0 <= k < active_ids(cs, true).len() && active_ids(cs, true)[k] == cs[i].id;
            assert(chain_of(cs)[k] == active_ids(cs, true)[k]);
        } else {
            assert(active_ids(cs, false).contains(cs[i].id));
            let k = choose|k: int| 0 <= k < active_ids(cs, false).len() && active_ids(cs, false)[k] == cs[i].id;
            assert(chain_of(cs)[k + nt] == active_ids(cs, false)[k]);
        }
    }
    assert forall|k: int| 0 <= k < nt implies active_with(cs, #[trigger] chain_of(cs)[k], true) by {
        assert(chain_of(cs)[k] == active_ids(cs, true)[k]);
        assert(active_with(cs, active_ids(cs, true)[k], true));
    }
}


// ── Model discovery ─────────────────────────────────────────────────────

/// `s` without trailing `/` characters.
pub open spec fn without_trailing_slashes(s: Seq<char>) -> Seq<char>
    decreases s.len(),
{
    if s.len() > 0 && s.last() == '/' {
        without_trailing_slashes(s.drop_last())
    } else {
        s
    }
}

/// A base URL without its trailing slashes.
pub fn trim_base_url(s: &str) -> (r: String)
    ensures
        r@ == without_trailing_slashes(s@),
{
    let cs = chars_of(s);
    let mut n: usize = cs.len();
    assert(cs@.take(n as int) =~= cs@);
    while n > 0 && cs[n - 1] == '/'
        invariant
            n <= cs.len(),
            cs@ == s@,
            without_trailing_slashes(s@) == without_trailing_slashes(cs@.take(n as int)),
        decreases n,
    {
        assert(cs@.take(n as int).drop_last() =~= cs@.take(n - 1));
        n = n - 1;
    }
    string_from_chars(crate::text::slice_chars(&cs, 0, n).as_slice())
}

/// The message of a successful model lookup: how many models are offered,
/// and why they are fallbacks when the server's own list could not be had.
pub open spec fn lookup_message(count: nat, errors: Seq<Seq<char>>) -> Seq<char> {
    if errors.len() == 0 {
        "✅ 连接成功 — "@ + crate::text::dec(count) + " 个模型可用"@
    } else {
        "✅ 连接成功 ("@ + crate::text::dec(count) + " 个备选模型。获取列表: "@ + crate::text::join(errors, "; "@) + ")"@
    }
}

/// The message shown when the model lookup reached the server.
pub fn lookup_message_text(count: usize, errors: &Vec<String>) -> (r: String)
    ensures
        r@ == lookup_message(count as nat, crate::text::views(errors@)),
{
    if errors.len() == 0 {
        let mut s = owned("✅ 连接成功 — ");
        push_str(&mut s, crate::text::decimal(count as u64).as_str());
        push_str(&mut s, " 个模型可用");
        s
    } else {
        let mut s = owned("✅ 连接成功 (");
        push_str(&mut s, crate::text::decimal(count as u64).as_str());
        push_str(&mut s, " 个备选模型。获取列表: ");
        let joined = crate::text::join_strings(errors, "; ");
        push_str(&mut s, joined.as_str());
        push_str(&mut s, ")");
        s
    }
}

/// Whether a test chat answer shows the server reachable: 200, or 400
/// (the test model may be unknown, but the server answered).
pub fn chat_probe_reachable(status: u16) -> (r: bool)
    ensures
        r == (status == 200 || status == 400),
{
    status == 200 || status == 400
}

/// The model names offered for a server that does not list its own, by
/// what its URL names: DeepSeek's, OpenAI's or Ollama's, none for an
/// Anthropic URL, else a mixed list.
pub open spec fn known_for(base: Seq<char>) -> Seq<Seq<char>> {
    if crate::text::contains(base, "deepseek"@) {
        seq!["deepseek-chat"@, "deepseek-reasoner"@]
    } else if crate::text::contains(base, "openai"@) {
        seq!["gpt-4o"@, "gpt-4-turbo"@, "gpt-4"@, "gpt-3.5-turbo"@]
    } else if crate::text::contains(base, "anthropic"@) {
        Seq::empty()
    } else if crate::text::contains(base, "ollama"@) || crate::text::contains(base, "11434"@) {
        seq!["llama3"@, "mistral"@, "gemma3"@, "qwen3"@]
    } else {
        seq!["deepseek-chat"@, "deepseek-reasoner"@, "gpt-4o"@, "gpt-3.5-turbo"@]
    }
}

/// The model names offered for a server that does not list its own.
pub fn known_models(base: &str) -> (r: Vec<String>)
    ensures
        crate::text::views(r@) == known_for(base@),
{
    if crate::text::str_contains(base, "deepseek") {
        let names = ["deepseek-chat", "deepseek-reasoner"];
        assert(crate::text::str_views(names@) =~= seq!["deepseek-chat"@, "deepseek-reasoner"@]);
        crate::text::owned_all(&names)
    } else if crate::text::str_contains(base, "openai") {
        let names = ["gpt-4o", "gpt-4-turbo", "gpt-4", "gpt-3.5-turbo"];
        assert(crate::text::str_views(names@) =~= seq!["gpt-4o"@, "gpt-4-turbo"@, "gpt-4"@, "gpt-3.5-turbo"@]);
        crate::text::owned_all(&names)
    } else if crate::text::str_contains(base, "anthropic") {
        let r: Vec<String> = Vec::new();
        assert(crate::text::views(r@) =~= Seq::<Seq<char>>::empty());
        r
    } else if crate::text::str_contains(base, "ollama") || crate::text::str_contains(base, "11434") {
        let names = ["llama3", "mistral", "gemma3", "qwen3"];
        assert(crate::text::str_views(names@) =~= seq!["llama3"@, "mistral"@, "gemma3"@, "qwen3"@]);
        crate::text::owned_all(&names)
    } else {
        let names = ["deepseek-chat", "deepseek-reasoner", "gpt-4o", "gpt-3.5-turbo"];
        assert(crate::text::str_views(names@) =~= seq![
            "deepseek-chat"@,
            "deepseek-reasoner"@,
            "gpt-4o"@,
            "gpt-3.5-turbo"@,
        ]);
        crate::text::owned_all(&names)
    }
}

/// What a model lookup ends with: whether the server was reached, the
/// models offered, the message (the success message when reached, else
/// the errors joined with "; ") and where the models came from.
pub open spec fn lookup_outcome(models: Seq<Seq<char>>, errors: Seq<Seq<char>>, connected: bool) -> (
    bool,
    Seq<Seq<char>>,
    Seq<char>,
    Seq<char>,
) {
    if connected {
        (true, models, lookup_message(models.len(), errors), if errors.len() == 0 {
            "api"@
        } else {
            "known"@
        })
    } else {
        (false, models, crate::text::join(errors, "; "@), "known_fallback"@)
    }
}

/// The outcome of a model lookup.
pub struct LookupResult {
    /// Whether the server was reached.
    pub ok: bool,
    pub models: Vec<String>,
    /// The success message, or the errors joined with "; ".
    pub message: String,
    /// "api" (the server's own list), "known" (reached, but the list is a
    /// fallback) or "known_fallback" (not reached).
    pub source: &'static str,
}

impl View for LookupResult {
    type V = (bool, Seq<Seq<char>>, Seq<char>, Seq<char>);

    open spec fn view(&self) -> Self::V {
        (self.ok, crate::text::views(self.models@), self.message@, self.source@)
    }
}

/// What a model lookup asks for next.
pub enum LookupStep {
    /// Send the test chat request (model "deepseek-chat", one message "hi",
    /// five tokens at most) to `{base}/chat/completions`.
    ProbeChat,
    /// The lookup is over.
    Finish(LookupResult),
}

/// A model lookup against an OpenAI-compatible server: first its `/models`
/// list; when that gives no names, a test chat request tells whether the
/// server is reachable at all, and the names known for its URL are offered.
/// The caller sends the requests and hands back what came of them.
pub struct ModelLookup {
    base: String,
    models: Vec<String>,
    errors: Vec<String>,
}

impl ModelLookup {
    /// The server's base URL, without trailing slashes.
    pub closed spec fn base(&self) -> Seq<char> {
        self.base@
    }

    /// The model names found so far.
    pub closed spec fn found(&self) -> Seq<Seq<char>> {
        crate::text::views(self.models@)
    }

    /// The errors met so far, in order.
    pub closed spec fn errors(&self) -> Seq<Seq<char>> {
        crate::text::views(self.errors@)
    }

    /// A lookup for `base_url` (trailing slashes dropped); `None` when
    /// nothing is left of it. The caller then asks `{base}/models`.
    pub fn start(base_url: &str) -> (r: Option<ModelLookup>)
        ensures
            match r {
                Some(l) => l.base() == without_trailing_slashes(base_url@) && l.base().len() > 0 && l.found()
                    == Seq::<Seq<char>>::empty() && l.errors() == Seq::<Seq<char>>::empty(),
                None => without_trailing_slashes(base_url@).len() == 0,
            },
    {
        let base = trim_base_url(base_url);
        if chars_of(base.as_str()).len() == 0 {
            return None;
        }
        let l = ModelLookup { base, models: Vec::new(), errors: Vec::new() };
        assert(l.found() =~= Seq::<Seq<char>>::empty());
        assert(l.errors() =~= Seq::<Seq<char>>::empty());
        Some(l)
    }

    /// The server's base URL.
    pub fn base_url(&self) -> (r: &str)
        ensures
            r@ == self.base(),
    {
        self.base.as_str()
    }

    fn note(&mut self, e: String)
        ensures
            final(self).base() == old(self).base(),
            final(self).found() == old(self).found(),
            final(self).errors() == old(self).errors().push(e@),
    {
        let ghost before = self.errors();
        self.errors.push(e);
        assert(self.errors() =~= before.push(e@));
    }

    fn finish(&mut self, connected: bool) -> (r: LookupResult)
        ensures
            final(self).base() == old(self).base(),
            final(self).errors() == old(self).errors(),
            final(self).found() == if old(self).found().len() == 0 {
                known_for(old(self).base())
            } else {
                old(self).found()
            },
            r@ == lookup_outcome(final(self).found(), old(self).errors(), connected),
    {
        if self.models.len() == 0 {
            self.models = known_models(self.base.as_str());
        }
        let models = crate::text::clone_strings(&self.models);
        if connected {
            let message = lookup_message_text(self.models.len(), &self.errors);
            let source = if self.errors.len() == 0 {
                "api"
            } else {
                "known"
            };
            LookupResult { ok: true, models, message, source }
        } else {
            let message = crate::text::join_strings(&self.errors, "; ");
            LookupResult { ok: false, models, message, source: "known_fallback" }
        }
    }

    /// `/models` answered: with a success status, the `id`s of its `data`
    /// list are the models (`ids` is empty when the body could not be
    /// read). With some, the lookup is over; else "/models returned 0
    /// models" is noted and the test chat comes next.
    pub fn models_listed(&mut self, success: bool, ids: Vec<String>) -> (r: LookupStep)
        ensures
            final(self).base() == old(self).base(),
            success && ids@.len() > 0 ==> final(self).found() == crate::text::views(ids@) && final(self).errors()
                == old(self).errors(),
            success && ids@.len() > 0 ==> (r matches LookupStep::Finish(res) && res@ == lookup_outcome(
                crate::text::views(ids@),
                old(self).errors(),
                true,
            )),
            !(success && ids@.len() > 0) ==> final(self).found() == old(self).found() && final(self).errors()
                == old(self).errors().push("/models returned 0 models"@) && r is ProbeChat,
    {
        if success && ids.len() > 0 {
            self.models = ids;
            LookupStep::Finish(self.finish(true))
        } else {
            self.note(owned("/models returned 0 models"));
            LookupStep::ProbeChat
        }
    }

    /// `/models` could not be reached: the error is noted and the test chat
    /// comes next.
    pub fn models_unreachable(&mut self, error: &str) -> (r: LookupStep)
        ensures
            final(self).base() == old(self).base(),
            final(self).found() == old(self).found(),
            final(self).errors() == old(self).errors().push("/models: "@ + error@),
            r is ProbeChat,
    {
        self.note(concat("/models: ", error));
        LookupStep::ProbeChat
    }

    /// The test chat answered with `status` (`body_head`: the first 100
    /// bytes of its body). 200 and 400 show the server reachable; a 400 is
    /// noted with the body, any other status with its number. The lookup
    /// is over, with the known names when none were found.
    pub fn chat_answered(&mut self, status: u16, body_head: &str) -> (r: LookupResult)
        ensures
            final(self).base() == old(self).base(),
            final(self).errors() == if status == 400 {
                old(self).errors().push("chat test: HTTP 400 "@ + body_head@)
            } else if status == 200 {
                old(self).errors()
            } else {
                old(self).errors().push("chat test HTTP "@ + crate::text::dec(status as nat))
            },
            final(self).found() == if old(self).found().len() == 0 {
                known_for(old(self).base())
            } else {
                old(self).found()
            },
            r@ == lookup_outcome(final(self).found(), final(self).errors(), status == 200 || status == 400),
    {
        if status == 400 {
            self.note(concat("chat test: HTTP 400 ", body_head));
        } else if status != 200 {
            let mut e = owned("chat test HTTP ");
            push_str(&mut e, crate::text::decimal(status as u64).as_str());
            self.note(e);
        }
        let reached = chat_probe_reachable(status);
        self.finish(reached)
    }

    /// The test chat could not be sent: the error is noted, the server
    /// counts as unreachable, and the known names are offered when none
    /// were found.
    pub fn chat_unreachable(&mut self, error: &str) -> (r: LookupResult)
        ensures
            final(self).base() == old(self).base(),
            final(self).errors() == old(self).errors().push("chat test: "@ + error@),
            final(self).found() == if old(self).found().len() == 0 {
                known_for(old(self).base())
            } else {
                old(self).found()
            },
            r@ == lookup_outcome(final(self).found(), final(self).errors(), false),
    {
        self.note(concat("chat test: ", error));
        self.finish(false)
    }
}

} // verus!
