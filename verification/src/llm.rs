//! Provider settings, credential handling and the neutral request and response
//! shapes of the LLM agents. Network calls to the provider stay with the application.

use vstd::prelude::*;

use crate::repository::AiRepositoryError;
use crate::text::{concat_str, has_control, spec_has_control, spec_trim, str_eq, trim};

verus! {

pub const DEFAULT_QUALIFIED_SCORE: u8 = 70;

pub const DEFAULT_EXCELLENT_SCORE: u8 = 80;

pub const DEFAULT_TRANSITION_AUTO_APPLY_SCORE: u8 = 8;

pub const MAX_AGENT_TURNS: u8 = 3;

pub fn default_qualified_score() -> (r: u8)
    ensures
        r == DEFAULT_QUALIFIED_SCORE,
{
    DEFAULT_QUALIFIED_SCORE
}

pub fn default_excellent_score() -> (r: u8)
    ensures
        r == DEFAULT_EXCELLENT_SCORE,
{
    DEFAULT_EXCELLENT_SCORE
}

pub fn default_transition_auto_apply_score() -> (r: u8)
    ensures
        r == DEFAULT_TRANSITION_AUTO_APPLY_SCORE,
{
    DEFAULT_TRANSITION_AUTO_APPLY_SCORE
}

#[derive(Debug, Clone, PartialEq, Eq)]
pub enum LlmError {
    InvalidConfiguration(String),
    Credential,
    Temporary,
    InvalidResponse,
    Cancelled,
    Provider,
    Repository(AiRepositoryError),
}

impl LlmError {
    /// The message shown for the error.
    pub open spec fn spec_message(&self) -> Seq<char> {
        match self {
            LlmError::InvalidConfiguration(m) => "配置无效："@ + m@,
            LlmError::Credential => "凭据不可用"@,
            LlmError::Temporary => "Provider 暂时不可用"@,
            LlmError::InvalidResponse => "Provider 返回结构无法校验"@,
            LlmError::Cancelled => "请求已取消"@,
            LlmError::Provider => "Provider 请求失败"@,
            LlmError::Repository(e) => "数据错误："@ + e.spec_message(),
        }
    }

    pub fn message(&self) -> (r: String)
        ensures
            r@ == self.spec_message(),
    {
        match self {
            LlmError::InvalidConfiguration(m) => concat_str("配置无效：", m.as_str()),
            LlmError::Credential => String::from_str("凭据不可用"),
            LlmError::Temporary => String::from_str("Provider 暂时不可用"),
            LlmError::InvalidResponse => String::from_str("Provider 返回结构无法校验"),
            LlmError::Cancelled => String::from_str("请求已取消"),
            LlmError::Provider => String::from_str("Provider 请求失败"),
            LlmError::Repository(e) => {
                let m = e.message();
                concat_str("数据错误：", m.as_str())
            },
        }
    }
}

#[derive(Debug, Clone, PartialEq, Eq)]
pub struct LlmProviderSettings {
    pub provider: String,
    pub model_id: String,
    pub timeout_ms: u64,
    pub prompt_version: String,
    pub qualified_score: u8,
    pub excellent_score: u8,
    pub transition_auto_apply_score: u8,
    pub key_configured: bool,
    pub updated_at: Option<String>,
}

impl LlmProviderSettings {
    /// The settings of a fresh installation.
    pub fn default_settings() -> (r: LlmProviderSettings)
        ensures
            r.provider@ == "deepseek"@,
            r.model_id@ == "deepseek-chat"@,
            r.timeout_ms == 30000,
            r.prompt_version@ == "highlight-v1"@,
            r.qualified_score == DEFAULT_QUALIFIED_SCORE,
            r.excellent_score == DEFAULT_EXCELLENT_SCORE,
            r.transition_auto_apply_score == DEFAULT_TRANSITION_AUTO_APPLY_SCORE,
            !r.key_configured,
            r.updated_at is None,
    {
        LlmProviderSettings {
            provider: String::from_str("deepseek"),
            model_id: String::from_str("deepseek-chat"),
            timeout_ms: 30000,
            prompt_version: String::from_str("highlight-v1"),
            qualified_score: DEFAULT_QUALIFIED_SCORE,
            excellent_score: DEFAULT_EXCELLENT_SCORE,
            transition_auto_apply_score: DEFAULT_TRANSITION_AUTO_APPLY_SCORE,
            key_configured: false,
            updated_at: None,
        }
    }

    /// The first rule the settings break, with its message, checked in order.
    pub open spec fn spec_violation(&self) -> Option<Seq<char>> {
        if self.provider@ != "deepseek"@ {
            Some("当前版本只支持 DeepSeek Provider"@)
        } else if spec_trim(self.model_id@).len() == 0 || self.model_id@.len() > 128 {
            Some("模型标识不能为空且不能超过 128 个字符"@)
        } else if !(1000 <= self.timeout_ms && self.timeout_ms <= 120000) {
            Some("请求超时必须在 1 秒到 120 秒之间"@)
        } else if self.qualified_score > 100 || self.excellent_score > 100 {
            Some("合格片段和优秀片段阈值必须在 0 到 100 之间"@)
        } else if self.excellent_score < self.qualified_score {
            Some("优秀片段阈值不能低于合格片段阈值"@)
        } else if self.transition_auto_apply_score > 10 {
            Some("转场自动应用阈值必须在 0 到 10 之间"@)
        } else {
            None
        }
    }

    /// The request timeout must lie between one and 120 seconds: settings
    /// whose provider and model are accepted fail on the timeout, with its
    /// message, exactly when it lies outside that range; and settings that
    /// pass have such a timeout.
    pub proof fn lemma_timeout_is_bounded(&self)
        ensures
            self.spec_violation() is None ==> 1000 <= self.timeout_ms <= 120000,
            (self.provider@ == "deepseek"@ && spec_trim(self.model_id@).len() > 0
                && self.model_id@.len() <= 128) ==> ((self.timeout_ms < 1000 || self.timeout_ms
                > 120000) <==> self.spec_violation() == Some("请求超时必须在 1 秒到 120 秒之间"@)),
    {
        reveal_strlit("请求超时必须在 1 秒到 120 秒之间");
        reveal_strlit("合格片段和优秀片段阈值必须在 0 到 100 之间");
        reveal_strlit("优秀片段阈值不能低于合格片段阈值");
        reveal_strlit("转场自动应用阈值必须在 0 到 10 之间");
        let t = "请求超时必须在 1 秒到 120 秒之间"@;
        assert(t[0] == '请');
        assert("合格片段和优秀片段阈值必须在 0 到 100 之间"@[0] != t[0]);
        assert("优秀片段阈值不能低于合格片段阈值"@[0] != t[0]);
        assert("转场自动应用阈值必须在 0 到 10 之间"@[0] != t[0]);
    }

    pub fn validate(&self) -> (r: Result<(), LlmError>)
        ensures
            match self.spec_violation() {
                None => r is Ok,
                Some(m) => r matches Err(LlmError::InvalidConfiguration(e)) && e@ == m,
            },
    {
        if !str_eq(self.provider.as_str(), "deepseek") {
            return Err(
                LlmError::InvalidConfiguration(String::from_str("当前版本只支持 DeepSeek Provider")),
            );
        }
        let trimmed = trim(self.model_id.as_str());
        if trimmed.unicode_len() == 0 || self.model_id.unicode_len() > 128 {
            return Err(
                LlmError::InvalidConfiguration(
                    String::from_str("模型标识不能为空且不能超过 128 个字符"),
                ),
            );
        }
        if !(1000 <= self.timeout_ms && self.timeout_ms <= 120000) {
            return Err(
                LlmError::InvalidConfiguration(String::from_str("请求超时必须在 1 秒到 120 秒之间")),
            );
        }
        if self.qualified_score > 100 || self.excellent_score > 100 {
            return Err(
                LlmError::InvalidConfiguration(
                    String::from_str("合格片段和优秀片段阈值必须在 0 到 100 之间"),
                ),
            );
        }
        if self.excellent_score < self.qualified_score {
            return Err(
                LlmError::InvalidConfiguration(String::from_str("优秀片段阈值不能低于合格片段阈值")),
            );
        }
        if self.transition_auto_apply_score > 10 {
            return Err(
                LlmError::InvalidConfiguration(
                    String::from_str("转场自动应用阈值必须在 0 到 10 之间"),
                ),
            );
        }
        Ok(())
    }
}

/// The defaults pass their own validation.
pub proof fn lemma_default_settings_are_valid(s: LlmProviderSettings)
    requires
        s.provider@ == "deepseek"@,
        s.model_id@ == "deepseek-chat"@,
        s.timeout_ms == 30000,
        s.qualified_score == DEFAULT_QUALIFIED_SCORE,
        s.excellent_score == DEFAULT_EXCELLENT_SCORE,
        s.transition_auto_apply_score == DEFAULT_TRANSITION_AUTO_APPLY_SCORE,
    ensures
        s.spec_violation() is None,
{
    reveal_strlit("deepseek-chat");
    assert(s.model_id@.len() == 13);
    assert(s.model_id@[0] == 'd');
    assert(!crate::text::spec_is_whitespace(s.model_id@[0]));
    assert(s.model_id@.len() > 0 && !crate::text::spec_is_whitespace(s.model_id@[0]));
    assert(crate::text::spec_trim_start(s.model_id@) == s.model_id@);
    assert(s.model_id@.last() == 't');
    assert(spec_trim(s.model_id@) == s.model_id@);
}

#[derive(Debug, Clone, Copy, PartialEq, Eq, Structural)]
pub enum CredentialError {
    Unavailable,
    Invalid,
    Operation,
}

/// An API key is kept trimmed; it must be non-empty, at most 512 characters and free of control characters.
pub open spec fn spec_key_ok(value: Seq<char>) -> bool {
    let v = spec_trim(value);
    v.len() > 0 && v.len() <= 512 && !spec_has_control(v)
}

pub fn validate_key(value: &str) -> (r: Result<(), CredentialError>)
    ensures
        r is Ok <==> spec_key_ok(value@),
        r is Err ==> r == Err::<(), CredentialError>(CredentialError::Invalid),
{
    let value = trim(value);
    if value.unicode_len() == 0 || value.unicode_len() > 512 || has_control(value.as_str()) {
        return Err(CredentialError::Invalid);
    }
    Ok(())
}

/// A place that keeps the provider's API key.
pub trait CredentialStore {
    spec fn stored_key(&self) -> Option<Seq<char>>;

    fn get(&self) -> (r: Result<Option<String>, CredentialError>)
        ensures
            r matches Ok(v) ==> crate::text::opt_view(v) == self.stored_key(),
    ;

    fn set(&mut self, value: &str) -> (r: Result<(), CredentialError>)
        ensures
            !spec_key_ok(value@) ==> r == Err::<(), CredentialError>(CredentialError::Invalid),
            r is Ok ==> final(self).stored_key() == Some(spec_trim(value@)),
            r is Err ==> final(self).stored_key() == old(self).stored_key(),
    ;

    fn clear(&mut self) -> (r: Result<(), CredentialError>)
        ensures
            r is Ok ==> final(self).stored_key() is None,
            r is Err ==> final(self).stored_key() == old(self).stored_key(),
    ;
}

/// A credential store in memory.
#[derive(Default)]
pub struct MemoryCredentialStore {
    value: Option<String>,
}

impl MemoryCredentialStore {
    pub fn new() -> (r: Self)
        ensures
            r.stored_key() is None,
    {
        MemoryCredentialStore { value: None }
    }
}

impl CredentialStore for MemoryCredentialStore {
    closed spec fn stored_key(&self) -> Option<Seq<char>> {
        crate::text::opt_view(self.value)
    }

    fn get(&self) -> (r: Result<Option<String>, CredentialError>)
        ensures
            r matches Ok(v) && crate::text::opt_view(v) == self.stored_key(),
    {
        Ok(crate::text::clone_opt(&self.value))
    }

    fn set(&mut self, value: &str) -> (r: Result<(), CredentialError>) {
        let ghost original = value@;
        let value = trim(value);
        proof {
            crate::text::lemma_trim_idempotent(original);
        }
        validate_key(value.as_str())?;
        self.value = Some(value);
        Ok(())
    }

    fn clear(&mut self) -> (r: Result<(), CredentialError>)
        ensures
            r is Ok,
            final(self).stored_key() is None,
    {
        self.value = None;
        Ok(())
    }
}

#[derive(Debug, Clone, PartialEq, Eq)]
pub struct ProviderDiagnostic {
    pub ok: bool,
    pub category: String,
    pub message: String,
}

#[derive(Debug, Clone, PartialEq, Eq)]
pub struct CandidateAgentRequest {
    pub prompt: String,
}

#[derive(Debug, Clone, PartialEq, Eq)]
pub struct RankingAgentRequest {
    pub prompt: String,
}

#[derive(Debug, Clone, PartialEq, Eq)]
pub struct TransitionAgentRequest {
    pub prompt: String,
}

#[derive(Debug, Clone, PartialEq, Eq)]
pub struct TransitionScoreRequest {
    pub prompt: String,
}

#[derive(Debug, Clone, PartialEq, Eq)]
pub struct SubtitleCorrectionRequest {
    pub prompt: String,
}

#[derive(Debug, Clone, PartialEq, Eq)]
pub struct TransitionAgentCandidate {
    pub asset_key: String,
    pub asset_version: i64,
}

#[derive(Debug, Clone, PartialEq, Eq)]
pub struct TransitionAgentMatch {
    pub boundary_id: i64,
    pub candidates: Vec<TransitionAgentCandidate>,
    pub none: bool,
    pub reason: String,
}

#[derive(Debug, Clone, PartialEq, Eq)]
pub struct TransitionAgentOutput {
    pub matches: Vec<TransitionAgentMatch>,
    pub token_usage: u64,
}

#[derive(Debug, Clone, PartialEq, Eq)]
pub struct SubtitleCorrectionItem {
    pub index: u32,
    pub text: String,
}

#[derive(Debug, Clone, PartialEq, Eq)]
pub struct SubtitleCorrectionOutput {
    pub corrections: Vec<SubtitleCorrectionItem>,
    pub token_usage: u64,
}

/// How a structured extraction from the provider failed: no data, data that
/// did not deserialize, or a failed completion with the provider's HTTP
/// status when it answered.
#[derive(Debug, Clone, Copy, PartialEq, Eq, Structural)]
pub enum ExtractionFailure {
    NoData,
    Deserialization,
    Completion { status: Option<u16> },
}

/// An HTTP status worth trying again: timeouts, conflicts, too early, rate
/// limits and server errors.
pub open spec fn spec_temporary_status(status: u16) -> bool {
    status == 408 || status == 409 || status == 425 || status == 429 || (500 <= status <= 599)
}

/// The error an extraction failure becomes: unusable data is an invalid
/// response; rejected credentials are a credential error; a temporary status
/// is temporary; anything else is a provider failure.
pub fn map_extraction_error(failure: ExtractionFailure) -> (r: LlmError)
    ensures
        failure is NoData || failure is Deserialization ==> r == LlmError::InvalidResponse,
        failure matches ExtractionFailure::Completion { status } ==> r == (match status {
            Some(s) => if s == 401 || s == 403 {
                LlmError::Credential
            } else if spec_temporary_status(s) {
                LlmError::Temporary
            } else {
                LlmError::Provider
            },
            None => LlmError::Provider,
        }),
{
    match failure {
        ExtractionFailure::NoData | ExtractionFailure::Deserialization => LlmError::InvalidResponse,
        ExtractionFailure::Completion { status } => match status {
            Some(s) => {
                if s == 401 || s == 403 {
                    LlmError::Credential
                } else if s == 408 || s == 409 || s == 425 || s == 429 || (500 <= s && s <= 599) {
                    LlmError::Temporary
                } else {
                    LlmError::Provider
                }
            },
            None => LlmError::Provider,
        },
    }
}

/// The stored provider settings, as read from their table.
#[derive(Debug, Clone, PartialEq, Eq)]
pub struct LlmProviderSettingsRow {
    pub provider: String,
    pub model_id: String,
    pub timeout_ms: i64,
    pub prompt_version: String,
    pub qualified_score: i64,
    pub excellent_score: i64,
    pub transition_auto_apply_score: i64,
    pub updated_at: String,
}

/// The settings a stored row holds, its numbers taken as they are.
pub open spec fn spec_settings_of(w: LlmProviderSettingsRow, key_configured: bool) -> LlmProviderSettings {
    LlmProviderSettings {
        provider: w.provider,
        model_id: w.model_id,
        timeout_ms: w.timeout_ms as u64,
        prompt_version: w.prompt_version,
        qualified_score: w.qualified_score as u8,
        excellent_score: w.excellent_score as u8,
        transition_auto_apply_score: w.transition_auto_apply_score as u8,
        key_configured,
        updated_at: Some(w.updated_at),
    }
}

pub open spec fn spec_config_error(e: LlmError, m: Seq<char>) -> bool {
    e matches LlmError::InvalidConfiguration(s) && s@ == m
}

/// The settings in effect: the defaults when nothing is stored; otherwise the
/// stored ones, whose numbers must fit their types and which must pass
/// validation. Whether a key is configured comes from the credential store.
pub fn settings_from_row(row: Option<LlmProviderSettingsRow>, key_configured: bool) -> (r: Result<
    LlmProviderSettings,
    LlmError,
>)
    ensures
        row is None ==> (r matches Ok(s) && s.provider@ == "deepseek"@ && s.model_id@ == "deepseek-chat"@
            && s.timeout_ms == 30000 && s.prompt_version@ == "highlight-v1"@ && s.qualified_score
            == DEFAULT_QUALIFIED_SCORE && s.excellent_score == DEFAULT_EXCELLENT_SCORE
            && s.transition_auto_apply_score == DEFAULT_TRANSITION_AUTO_APPLY_SCORE && s.key_configured
            == key_configured && s.updated_at is None),
        row matches Some(w) && w.timeout_ms < 0 ==> (r matches Err(e) && spec_config_error(e, "超时参数无效"@)),
        row matches Some(w) && w.timeout_ms >= 0 && !(0 <= w.qualified_score <= 255) ==> (r matches Err(e)
            && spec_config_error(e, "合格片段阈值无效"@)),
        row matches Some(w) && w.timeout_ms >= 0 && 0 <= w.qualified_score <= 255 && !(0 <= w.excellent_score
            <= 255) ==> (r matches Err(e) && spec_config_error(e, "优秀片段阈值无效"@)),
        row matches Some(w) && w.timeout_ms >= 0 && 0 <= w.qualified_score <= 255 && 0 <= w.excellent_score
            <= 255 && !(0 <= w.transition_auto_apply_score <= 255) ==> (r matches Err(e) && spec_config_error(
            e,
            "转场自动应用阈值无效"@,
        )),
        row is Some && row->0.timeout_ms >= 0 && 0 <= row->0.qualified_score <= 255 && 0
            <= row->0.excellent_score <= 255 && 0 <= row->0.transition_auto_apply_score <= 255 ==> match spec_settings_of(
            row->0,
            key_configured,
        ).spec_violation() {
            None => r == Ok::<LlmProviderSettings, LlmError>(spec_settings_of(row->0, key_configured)),
            Some(m) => r matches Err(e) && spec_config_error(e, m),
        },
{
    let w = match row {
        None => {
            let mut defaults = LlmProviderSettings::default_settings();
            defaults.key_configured = key_configured;
            return Ok(defaults);
        },
        Some(w) => w,
    };
    if w.timeout_ms < 0 {
        return Err(LlmError::InvalidConfiguration(String::from_str("超时参数无效")));
    }
    if w.qualified_score < 0 || w.qualified_score > 255 {
        return Err(LlmError::InvalidConfiguration(String::from_str("合格片段阈值无效")));
    }
    if w.excellent_score < 0 || w.excellent_score > 255 {
        return Err(LlmError::InvalidConfiguration(String::from_str("优秀片段阈值无效")));
    }
    if w.transition_auto_apply_score < 0 || w.transition_auto_apply_score > 255 {
        return Err(LlmError::InvalidConfiguration(String::from_str("转场自动应用阈值无效")));
    }
    let settings = LlmProviderSettings {
        provider: w.provider,
        model_id: w.model_id,
        timeout_ms: w.timeout_ms as u64,
        prompt_version: w.prompt_version,
        qualified_score: w.qualified_score as u8,
        excellent_score: w.excellent_score as u8,
        transition_auto_apply_score: w.transition_auto_apply_score as u8,
        key_configured,
        updated_at: Some(w.updated_at),
    };
    match settings.validate() {
        Ok(()) => Ok(settings),
        Err(e) => Err(e),
    }
}

} // verus!
