//! Client activation decisions: which business codes lock the client, when a
//! locally stored authorization still counts as active, and what the
//! front end is shown. Network calls, the clock and the database stay with the caller.

use vstd::prelude::*;

use crate::activation_secret::{
    secrets_view, same_secrets, ActivationSecretError, ActivationSecretStore, ActivationSecrets,
};
use crate::text::{
    concat_str, eq_ignore_ascii_case, from_chars, has_control, saturating_add_i64, spec_byte_len,
    spec_eq_ignore_ascii_case, spec_has_control, spec_saturating_add_i64, spec_trim, str_eq,
    to_chars, trim,
};

verus! {

/// What the front end learns of the activation: never the full device id, code or token.
#[derive(Debug, Clone, PartialEq, Eq)]
pub struct ActivationStateView {
    pub configured: bool,
    pub active: bool,
    pub status: String,
    pub message: Option<String>,
    pub device_id_hint: String,
    pub last_heartbeat_at: Option<String>,
    pub next_heartbeat_at: Option<String>,
}

#[derive(Debug, Clone, Copy, PartialEq, Eq, Structural)]
pub enum HeartbeatOutcome {
    Active,
    Retrying,
    Revoked,
    ContractError,
    Missing,
}

/// The persisted activation record (without secrets).
#[derive(Debug, Clone, PartialEq, Eq)]
pub struct ClientActivationRecord {
    pub device_id_hint: String,
    pub expire_at: Option<i64>,
    pub grace_sec: Option<i64>,
    pub server_time_offset_sec: i64,
    pub state: String,
    pub allow_custom_api_key: bool,
    pub last_heartbeat_at: Option<String>,
    pub next_heartbeat_at: Option<String>,
    pub last_error: Option<String>,
    pub updated_at: String,
}

/// A failed call to the licensing API, as far as the decisions here read it:
/// the business code when the server answered with one, and a message safe to show.
#[derive(Debug, Clone, PartialEq, Eq)]
pub enum ApiError {
    Business { code: i64, message: String },
    Unavailable { message: String },
}

impl ApiError {
    pub open spec fn spec_code(&self) -> Option<i64> {
        match self {
            ApiError::Business { code, .. } => Some(*code),
            ApiError::Unavailable { .. } => None,
        }
    }

    pub open spec fn spec_safe_message(&self) -> Seq<char> {
        match self {
            ApiError::Business { message, .. } => message@,
            ApiError::Unavailable { message } => message@,
        }
    }

    pub fn code(&self) -> (r: Option<i64>)
        ensures
            r == self.spec_code(),
    {
        match self {
            ApiError::Business { code, .. } => Some(*code),
            ApiError::Unavailable { .. } => None,
        }
    }

    pub fn safe_message(&self) -> (r: String)
        ensures
            r@ == self.spec_safe_message(),
    {
        match self {
            ApiError::Business { message, .. } => message.clone(),
            ApiError::Unavailable { message } => message.clone(),
        }
    }
}

/// How the client reacts to a failed activation or heartbeat.
#[derive(Debug, Clone, Copy, PartialEq, Eq, Structural)]
pub enum HeartbeatErrorDisposition {
    Contract,
    Reactivate,
    Retry,
}

/// The server's recording limit as last applied; starts from a positive default.
pub struct ServerRecordingLimit {
    current: usize,
}

impl ServerRecordingLimit {
    pub closed spec fn spec_current(&self) -> usize {
        self.current
    }

    pub fn with_default(default_limit: usize) -> (r: Self)
        requires
            default_limit > 0,
        ensures
            r.spec_current() == default_limit,
    {
        ServerRecordingLimit { current: default_limit }
    }

    pub fn current(&self) -> (r: usize)
        ensures
            r == self.spec_current(),
    {
        self.current
    }

    /// Takes a limit sent by the server when it is a positive count; ignores anything else.
    pub fn apply(&mut self, value: Option<i64>, source: &str) -> (r: Option<usize>)
        ensures
            match value {
                Some(v) if 0 < v && v <= usize::MAX => r == Some(v as usize)
                    && final(self).spec_current() == v as usize,
                _ => r is None && final(self).spec_current() == old(self).spec_current(),
            },
    {
        let _ = source;
        let value = match value {
            Some(v) => v,
            None => return None,
        };
        if value <= 0 || value as i128 > usize::MAX as i128 {
            return None;
        }
        let accepted = value as usize;
        self.current = accepted;
        Some(accepted)
    }
}

/// A code is accepted once trimmed when it has 4 to 128 UTF-8 bytes and no control character.
pub open spec fn spec_activation_code_ok(trimmed: Seq<char>) -> bool {
    4 <= spec_byte_len(trimmed) as usize <= 128 && !spec_has_control(trimmed)
}

pub fn normalize_activation_code(code: &str) -> (r: Result<String, String>)
    ensures
        match r {
            Ok(c) => spec_activation_code_ok(spec_trim(code@)) && c@ == spec_trim(code@),
            Err(m) => !spec_activation_code_ok(spec_trim(code@)) && m@ == "请输入有效的激活码"@,
        },
{
    let code = trim(code);
    let len = code.as_str().len();
    if len < 4 || len > 128 || has_control(code.as_str()) {
        return Err(String::from_str("请输入有效的激活码"));
    }
    Ok(code)
}

/// The record states under which the client may keep working offline.
pub open spec fn spec_state_is_live(state: Seq<char>) -> bool {
    state == "active"@ || state == "retrying"@
}

/// The secrets hold a non-empty offline token.
pub open spec fn spec_has_token(secrets: Option<ActivationSecrets>) -> bool {
    match secrets {
        Some(s) => match s.token {
            Some(t) => t@.len() > 0,
            None => false,
        },
        None => false,
    }
}

/// A stored authorization is valid at local time `now` while the record is live,
/// a token is present, and the server-adjusted time has not passed the expiry
/// plus the (non-negative) grace period.
pub open spec fn spec_valid_local_authorization(
    record: ClientActivationRecord,
    secrets: Option<ActivationSecrets>,
    now: i64,
) -> bool {
    &&& spec_state_is_live(record.state@)
    &&& spec_has_token(secrets)
    &&& record.expire_at is Some
    &&& record.grace_sec is Some
    &&& spec_saturating_add_i64(now, record.server_time_offset_sec) <= spec_saturating_add_i64(
        record.expire_at->0,
        if record.grace_sec->0 < 0 {
            0
        } else {
            record.grace_sec->0
        },
    )
}

fn state_is_live(state: &str) -> (r: bool)
    ensures
        r == spec_state_is_live(state@),
{
    str_eq(state, "active") || str_eq(state, "retrying")
}

fn has_token(secrets: Option<&ActivationSecrets>) -> (r: bool)
    ensures
        r == spec_has_token(
            match secrets {
                Some(s) => Some(*s),
                None => None,
            },
        ),
{
    match secrets {
        Some(s) => match &s.token {
            Some(t) => t.unicode_len() > 0,
            None => false,
        },
        None => false,
    }
}

pub fn record_has_valid_local_authorization(
    record: &ClientActivationRecord,
    secrets: Option<&ActivationSecrets>,
    local_now_timestamp: i64,
) -> (r: bool)
    ensures
        r == spec_valid_local_authorization(
            *record,
            match secrets {
                Some(s) => Some(*s),
                None => None,
            },
            local_now_timestamp,
        ),
{
    if !state_is_live(record.state.as_str()) || !has_token(secrets) {
        return false;
    }
    let (expire_at, grace_sec) = match (record.expire_at, record.grace_sec) {
        (Some(e), Some(g)) => (e, g),
        _ => return false,
    };
    let server_now = saturating_add_i64(local_now_timestamp, record.server_time_offset_sec);
    let grace = if grace_sec < 0 {
        0
    } else {
        grace_sec
    };
    let valid_until = saturating_add_i64(expire_at, grace);
    server_now <= valid_until
}

/// A validity at some time carries over to every earlier time.
pub proof fn lemma_valid_authorization_is_monotone(
    record: ClientActivationRecord,
    secrets: Option<ActivationSecrets>,
    earlier: i64,
    later: i64,
)
    requires
        earlier <= later,
        spec_valid_local_authorization(record, secrets, later),
    ensures
        spec_valid_local_authorization(record, secrets, earlier),
{
}

/// Only `active` or `retrying` records with a non-empty token can ever be valid.
pub proof fn lemma_valid_authorization_needs_live_state_and_token(
    record: ClientActivationRecord,
    secrets: Option<ActivationSecrets>,
    now: i64,
)
    requires
        spec_valid_local_authorization(record, secrets, now),
    ensures
        spec_state_is_live(record.state@),
        spec_has_token(secrets),
{
}

/// The last eight characters of a device id behind an ellipsis; a short id gets a fixed label.
pub open spec fn spec_device_hint(device_id: Seq<char>) -> Seq<char> {
    if device_id.len() <= 8 {
        "…本地设备"@
    } else {
        "…"@ + device_id.subrange(device_id.len() - 8, device_id.len() as int)
    }
}

pub fn device_hint(device_id: &str) -> (r: String)
    ensures
        r@ == spec_device_hint(device_id@),
{
    let chars = to_chars(device_id);
    if chars.len() <= 8 {
        return String::from_str("…本地设备");
    }
    let mut suffix: Vec<char> = Vec::new();
    let mut i: usize = chars.len() - 8;
    while i < chars.len()
        invariant
            chars@ == device_id@,
            chars@.len() > 8,
            chars@.len() - 8 <= i <= chars@.len(),
            suffix@ == chars@.subrange(chars@.len() - 8, i as int),
        decreases chars.len() - i,
    {
        suffix.push(chars[i]);
        i += 1;
        assert(suffix@ =~= chars@.subrange(chars@.len() - 8, i as int));
    }
    let tail = from_chars(suffix.as_slice());
    concat_str("…", tail.as_str())
}

/// The user-facing message for a revocation reason sent by the server.
pub open spec fn spec_reason_message(reason: Seq<char>) -> Seq<char> {
    if reason == "disabled"@ {
        "激活码已停用，请联系管理员"@
    } else if reason == "expired"@ {
        "激活码已过期，请续费后重新激活"@
    } else if reason == "unbound"@ {
        "设备绑定已重置，请重新激活"@
    } else {
        "授权已失效，请重新激活"@
    }
}

pub fn reason_message(reason: &str) -> (r: String)
    ensures
        r@ == spec_reason_message(reason@),
{
    if str_eq(reason, "disabled") {
        String::from_str("激活码已停用，请联系管理员")
    } else if str_eq(reason, "expired") {
        String::from_str("激活码已过期，请续费后重新激活")
    } else if str_eq(reason, "unbound") {
        String::from_str("设备绑定已重置，请重新激活")
    } else {
        String::from_str("授权已失效，请重新激活")
    }
}

/// A heartbeat demands reactivation when the server flags a revocation or
/// reports any state other than `ACTIVE` (ASCII case and surrounding whitespace ignored).
pub open spec fn spec_heartbeat_requires_reactivation(revoked: bool, state: Seq<char>) -> bool {
    revoked || !spec_eq_ignore_ascii_case(spec_trim(state), "ACTIVE"@)
}

pub fn heartbeat_requires_reactivation(revoked: bool, state: &str) -> (r: bool)
    ensures
        r == spec_heartbeat_requires_reactivation(revoked, state@),
{
    let trimmed = trim(state);
    revoked || !eq_ignore_ascii_case(trimmed.as_str(), "ACTIVE")
}

/// Codes 9101 to 9105 report a protocol mismatch that one retry may clear.
pub open spec fn spec_protocol_code(code: i64) -> bool {
    9101 <= code <= 9105
}

/// The documented matrix for heartbeat failures.
pub open spec fn spec_heartbeat_error_disposition(code: Option<i64>, retried: bool) -> HeartbeatErrorDisposition {
    match code {
        Some(c) => if c == 1001 || c == 2001 {
            HeartbeatErrorDisposition::Contract
        } else if (1002 <= c <= 1006) || (2002 <= c <= 2004) {
            HeartbeatErrorDisposition::Reactivate
        } else if spec_protocol_code(c) && retried {
            HeartbeatErrorDisposition::Reactivate
        } else {
            HeartbeatErrorDisposition::Retry
        },
        None => HeartbeatErrorDisposition::Retry,
    }
}

/// The documented matrix for activation failures.
pub open spec fn spec_activation_error_disposition(code: Option<i64>, retried: bool) -> HeartbeatErrorDisposition {
    match code {
        Some(c) => if (1001 <= c <= 1006) || (2001 <= c <= 2004) {
            HeartbeatErrorDisposition::Reactivate
        } else if spec_protocol_code(c) && retried {
            HeartbeatErrorDisposition::Reactivate
        } else {
            HeartbeatErrorDisposition::Retry
        },
        None => HeartbeatErrorDisposition::Retry,
    }
}

pub fn heartbeat_error_disposition(error: &ApiError, protocol_already_retried: bool) -> (r:
    HeartbeatErrorDisposition)
    ensures
        r == spec_heartbeat_error_disposition(error.spec_code(), protocol_already_retried),
{
    match error.code() {
        Some(c) => {
            if c == 1001 || c == 2001 {
                HeartbeatErrorDisposition::Contract
            } else if (1002 <= c && c <= 1006) || (2002 <= c && c <= 2004) {
                HeartbeatErrorDisposition::Reactivate
            } else if 9101 <= c && c <= 9105 && protocol_already_retried {
                HeartbeatErrorDisposition::Reactivate
            } else {
                HeartbeatErrorDisposition::Retry
            }
        },
        None => HeartbeatErrorDisposition::Retry,
    }
}

pub fn activation_error_disposition(error: &ApiError, protocol_already_retried: bool) -> (r:
    HeartbeatErrorDisposition)
    ensures
        r == spec_activation_error_disposition(error.spec_code(), protocol_already_retried),
{
    match error.code() {
        Some(c) => {
            if (1001 <= c && c <= 1006) || (2001 <= c && c <= 2004) {
                HeartbeatErrorDisposition::Reactivate
            } else if 9101 <= c && c <= 9105 && protocol_already_retried {
                HeartbeatErrorDisposition::Reactivate
            } else {
                HeartbeatErrorDisposition::Retry
            }
        },
        None => HeartbeatErrorDisposition::Retry,
    }
}

/// Whether an API failure means the authorization is gone for good.
pub fn api_error_is_revocation(error: &ApiError) -> (r: bool)
    ensures
        r == (spec_heartbeat_error_disposition(error.spec_code(), true)
            == HeartbeatErrorDisposition::Reactivate),
{
    heartbeat_error_disposition(error, true) == HeartbeatErrorDisposition::Reactivate
}

/// A protocol error that survives its one retry always ends in reactivation,
/// for heartbeats and activations alike.
pub proof fn lemma_retried_protocol_errors_reactivate(code: i64)
    requires
        spec_protocol_code(code),
    ensures
        spec_heartbeat_error_disposition(Some(code), true) == HeartbeatErrorDisposition::Reactivate,
        spec_activation_error_disposition(Some(code), true) == HeartbeatErrorDisposition::Reactivate,
        spec_heartbeat_error_disposition(Some(code), false) == HeartbeatErrorDisposition::Retry,
        spec_activation_error_disposition(Some(code), false) == HeartbeatErrorDisposition::Retry,
{
}

/// Activation never reports a contract error: whatever a heartbeat treats as a
/// contract error, an activation treats as a reason to reactivate.
pub proof fn lemma_activation_never_contract(code: Option<i64>, retried: bool)
    ensures
        spec_activation_error_disposition(code, retried) != HeartbeatErrorDisposition::Contract,
        spec_heartbeat_error_disposition(code, retried) == HeartbeatErrorDisposition::Contract
            ==> spec_activation_error_disposition(code, retried)
            == HeartbeatErrorDisposition::Reactivate,
{
}

/// The text appended to a contract error's message.
pub open spec fn spec_contract_hint() -> Seq<char> {
    "；客户端已发送标准和兼容请求头，请确认 Nginx 已启用 underscores_in_headers on"@
}

/// The record state, message and whether to delete the stored secrets for a failure.
pub fn error_state(error: &ApiError, disposition: HeartbeatErrorDisposition) -> (r: (
    &'static str,
    String,
    bool,
))
    ensures
        match disposition {
            HeartbeatErrorDisposition::Contract => r.0@ == "contract_error"@ && r.1@
                == error.spec_safe_message() + spec_contract_hint() && r.2,
            HeartbeatErrorDisposition::Reactivate => r.0@ == "invalid"@ && r.1@
                == error.spec_safe_message() && r.2,
            HeartbeatErrorDisposition::Retry => r.0@ == "retrying"@ && r.1@
                == error.spec_safe_message() && !r.2,
        },
{
    match disposition {
        HeartbeatErrorDisposition::Contract => {
            let message = error.safe_message();
            (
                "contract_error",
                concat_str(
                    message.as_str(),
                    "；客户端已发送标准和兼容请求头，请确认 Nginx 已启用 underscores_in_headers on",
                ),
                true,
            )
        },
        HeartbeatErrorDisposition::Reactivate => ("invalid", error.safe_message(), true),
        HeartbeatErrorDisposition::Retry => ("retrying", error.safe_message(), false),
    }
}

} // verus!

verus! {

/// The message for a stored authorization that outlived its expiry and grace period.
pub open spec fn spec_locally_expired_message() -> Seq<char> {
    "本地授权已超过有效期和离线宽限期，请重新输入激活码"@
}

/// Whether a live record with a token has nevertheless run out at `now`.
pub open spec fn spec_locally_expired(
    record: ClientActivationRecord,
    secrets: Option<ActivationSecrets>,
    now: i64,
) -> bool {
    spec_state_is_live(record.state@) && spec_has_token(secrets) && !spec_valid_local_authorization(
        record,
        secrets,
        now,
    )
}

pub open spec fn opt_ref_secrets(secrets: Option<&ActivationSecrets>) -> Option<ActivationSecrets> {
    match secrets {
        Some(s) => Some(*s),
        None => None,
    }
}

/// The summary shown to the front end, at local time `local_now_timestamp`.
pub fn state_from_record(
    record: Option<&ClientActivationRecord>,
    secrets: Option<&ActivationSecrets>,
    device_id: &str,
    credential_error: Option<&str>,
    local_now_timestamp: i64,
) -> (r: ActivationStateView)
    ensures
        match credential_error {
            Some(m) => {
                &&& r.configured == record is Some
                &&& !r.active
                &&& r.status@ == "invalid"@
                &&& crate::text::opt_view(r.message) == Some(m@)
                &&& r.device_id_hint@ == match record {
                    Some(rec) => rec.device_id_hint@,
                    None => spec_device_hint(device_id@),
                }
                &&& crate::text::opt_view(r.last_heartbeat_at) == match record {
                    Some(rec) => crate::text::opt_view(rec.last_heartbeat_at),
                    None => None,
                }
                &&& r.next_heartbeat_at is None
            },
            None => match record {
                None => {
                    &&& !r.configured
                    &&& !r.active
                    &&& r.status@ == "missing"@
                    &&& crate::text::opt_view(r.message) == Some("请输入激活码后继续使用"@)
                    &&& r.device_id_hint@ == spec_device_hint(device_id@)
                    &&& r.last_heartbeat_at is None
                    &&& r.next_heartbeat_at is None
                },
                Some(rec) => {
                    let s = opt_ref_secrets(secrets);
                    let expired = spec_locally_expired(*rec, s, local_now_timestamp);
                    &&& r.configured
                    &&& r.active == spec_valid_local_authorization(*rec, s, local_now_timestamp)
                    &&& r.status@ == if expired {
                        "invalid"@
                    } else {
                        rec.state@
                    }
                    &&& crate::text::opt_view(r.message) == if expired {
                        Some(spec_locally_expired_message())
                    } else {
                        crate::text::opt_view(rec.last_error)
                    }
                    &&& r.device_id_hint == rec.device_id_hint
                    &&& r.last_heartbeat_at == rec.last_heartbeat_at
                    &&& r.next_heartbeat_at == rec.next_heartbeat_at
                },
            },
        },
{
    if let Some(message) = credential_error {
        return ActivationStateView {
            configured: record.is_some(),
            active: false,
            status: String::from_str("invalid"),
            message: Some(String::from_str(message)),
            device_id_hint: match record {
                Some(rec) => rec.device_id_hint.clone(),
                None => device_hint(device_id),
            },
            last_heartbeat_at: match record {
                Some(rec) => crate::text::clone_opt(&rec.last_heartbeat_at),
                None => None,
            },
            next_heartbeat_at: None,
        };
    }
    let record = match record {
        Some(rec) => rec,
        None => {
            return ActivationStateView {
                configured: false,
                active: false,
                status: String::from_str("missing"),
                message: Some(String::from_str("请输入激活码后继续使用")),
                device_id_hint: device_hint(device_id),
                last_heartbeat_at: None,
                next_heartbeat_at: None,
            };
        },
    };
    let active = record_has_valid_local_authorization(record, secrets, local_now_timestamp);
    let locally_expired = state_is_live(record.state.as_str()) && has_token(secrets) && !active;
    ActivationStateView {
        configured: true,
        active,
        status: if locally_expired {
            String::from_str("invalid")
        } else {
            record.state.clone()
        },
        message: if locally_expired {
            Some(String::from_str("本地授权已超过有效期和离线宽限期，请重新输入激活码"))
        } else {
            crate::text::clone_opt(&record.last_error)
        },
        device_id_hint: record.device_id_hint.clone(),
        last_heartbeat_at: crate::text::clone_opt(&record.last_heartbeat_at),
        next_heartbeat_at: crate::text::clone_opt(&record.next_heartbeat_at),
    }
}

/// The front end sees an active authorization only for a live record with a
/// token inside its validity window; a revoked (or any other non-live) record never shows as active.
pub proof fn lemma_active_view_needs_valid_authorization(
    record: ClientActivationRecord,
    secrets: Option<ActivationSecrets>,
    now: i64,
)
    requires
        !spec_state_is_live(record.state@) || !spec_has_token(secrets),
    ensures
        !spec_valid_local_authorization(record, secrets, now),
        !spec_locally_expired(record, secrets, now),
{
}

} // verus!

verus! {

/// What loading (and, when needed, migrating) the secrets produced.
pub struct LoadedActivationSecrets {
    pub secrets: Option<ActivationSecrets>,
    pub migration_device_id: Option<String>,
    pub credential_error: Option<String>,
    /// The caller must mark the legacy record as migrated in the database.
    pub finalize_migration: bool,
}

pub open spec fn opt_secrets_view(s: Option<ActivationSecrets>) -> Option<
    (Seq<char>, Seq<char>, Option<Seq<char>>),
> {
    match s {
        Some(x) => Some(secrets_view(x)),
        None => None,
    }
}

pub open spec fn spec_msg_unreadable() -> Seq<char> {
    "无法读取系统安全凭据，请检查系统权限后重新激活"@
}

pub open spec fn spec_msg_legacy_invalid() -> Seq<char> {
    "旧版授权凭据内容无效，请重新输入激活码"@
}

pub open spec fn spec_msg_mismatch() -> Seq<char> {
    "系统安全凭据与旧版授权记录不一致，请重新激活"@
}

pub open spec fn spec_msg_migrate_failed() -> Seq<char> {
    "无法迁移旧版授权凭据到系统安全存储，请检查系统权限"@
}

pub open spec fn spec_msg_readback_failed() -> Seq<char> {
    "旧版授权凭据迁移回读校验失败，请重试"@
}

/// What to do once the store has answered the first `load`.
pub enum MigrationStep {
    /// The store could not be read.
    Unreadable,
    /// Nothing is left to migrate: use these secrets and mark the migration done.
    Finalize(Option<ActivationSecrets>),
    /// The legacy record fails validation: keep what the store holds.
    LegacyInvalid(Option<ActivationSecrets>),
    /// The store already holds different secrets than the legacy record.
    Mismatch(ActivationSecrets),
    /// The store is empty: write the legacy secrets into it.
    StoreLegacy,
}

/// The step that follows the first `load`, for each answer it can give.
pub fn migration_after_load(
    legacy: Option<ActivationSecrets>,
    loaded: Result<Option<ActivationSecrets>, ActivationSecretError>,
) -> (r: MigrationStep)
    ensures
        match loaded {
            Err(_) => r is Unreadable,
            Ok(stored) => match legacy {
                None => r matches MigrationStep::Finalize(s) && s == stored,
                Some(l) => if !l.valid() {
                    r matches MigrationStep::LegacyInvalid(s) && s == stored
                } else {
                    match stored {
                        Some(s) => if secrets_view(s) == secrets_view(l) {
                            r matches MigrationStep::Finalize(x) && x == Some(l)
                        } else {
                            r matches MigrationStep::Mismatch(x) && x == s
                        },
                        None => r is StoreLegacy,
                    }
                },
            },
        },
{
    let stored = match loaded {
        Ok(stored) => stored,
        Err(_) => {
            return MigrationStep::Unreadable;
        },
    };
    let legacy = match legacy {
        Some(l) => l,
        None => {
            return MigrationStep::Finalize(stored);
        },
    };
    if legacy.validate().is_err() {
        return MigrationStep::LegacyInvalid(stored);
    }
    match stored {
        Some(stored) => {
            if same_secrets(&stored, &legacy) {
                MigrationStep::Finalize(Some(legacy))
            } else {
                MigrationStep::Mismatch(stored)
            }
        },
        None => MigrationStep::StoreLegacy,
    }
}

/// The outcome of writing the legacy secrets (`stored`) and reading them back
/// (`readback`): the migration is done only when the readback holds exactly them.
pub fn migration_after_readback(
    legacy: &ActivationSecrets,
    stored: Result<(), ActivationSecretError>,
    readback: Result<Option<ActivationSecrets>, ActivationSecretError>,
) -> (r: LoadedActivationSecrets)
    ensures
        !r.finalize_migration ==> r.migration_device_id == Some(legacy.device_id),
        r.finalize_migration ==> r.migration_device_id is None && r.credential_error is None,
        stored is Err ==> {
            &&& !r.finalize_migration
            &&& r.secrets is None
            &&& crate::text::opt_view(r.credential_error) == Some(spec_msg_migrate_failed())
        },
        stored is Ok ==> match readback {
            Ok(Some(p)) => if secrets_view(p) == secrets_view(*legacy) {
                r.finalize_migration && r.secrets == Some(p)
            } else {
                &&& !r.finalize_migration
                &&& r.secrets is None
                &&& crate::text::opt_view(r.credential_error) == Some(spec_msg_readback_failed())
            },
            _ => {
                &&& !r.finalize_migration
                &&& r.secrets is None
                &&& crate::text::opt_view(r.credential_error) == Some(spec_msg_readback_failed())
            },
        },
{
    if stored.is_err() {
        return LoadedActivationSecrets {
            secrets: None,
            migration_device_id: Some(legacy.device_id.clone()),
            credential_error: Some(
                String::from_str("无法迁移旧版授权凭据到系统安全存储，请检查系统权限"),
            ),
            finalize_migration: false,
        };
    }
    match readback {
        Ok(Some(persisted)) => {
            if same_secrets(&persisted, legacy) {
                return LoadedActivationSecrets {
                    secrets: Some(persisted),
                    migration_device_id: None,
                    credential_error: None,
                    finalize_migration: true,
                };
            }
        },
        _ => {},
    }
    LoadedActivationSecrets {
        secrets: None,
        migration_device_id: Some(legacy.device_id.clone()),
        credential_error: Some(String::from_str("旧版授权凭据迁移回读校验失败，请重试")),
        finalize_migration: false,
    }
}

/// Loads the secrets from the store and moves secrets kept by an older version
/// (`legacy`, read from the database by the caller) into it, checking every write by reading it back.
pub fn load_and_migrate_secrets<S: ActivationSecretStore>(
    legacy: Option<ActivationSecrets>,
    secret_store: &mut S,
) -> (r: LoadedActivationSecrets)
    ensures
        r.credential_error is None <==> r.finalize_migration,
        r.finalize_migration ==> {
            &&& r.migration_device_id is None
            &&& opt_secrets_view(r.secrets) == final(secret_store).stored()
            &&& match legacy {
                Some(l) => opt_secrets_view(r.secrets) == Some(secrets_view(l)),
                None => true,
            }
        },
        !r.finalize_migration ==> match legacy {
            Some(l) => r.migration_device_id == Some(l.device_id),
            None => r.migration_device_id is None,
        },
        r.secrets matches Some(s) ==> s.valid(),
        match legacy {
            None => {
                &&& final(secret_store).stored() == old(secret_store).stored()
                &&& (r.finalize_migration || (r.secrets is None && crate::text::opt_view(
                    r.credential_error,
                ) == Some(spec_msg_unreadable())))
            },
            Some(l) => {
                let unreadable = r.secrets is None && crate::text::opt_view(r.credential_error)
                    == Some(spec_msg_unreadable());
                if !l.valid() {
                    &&& final(secret_store).stored() == old(secret_store).stored()
                    &&& (unreadable || (crate::text::opt_view(r.credential_error) == Some(
                        spec_msg_legacy_invalid(),
                    ) && opt_secrets_view(r.secrets) == old(secret_store).stored()))
                } else if old(secret_store).stored() is Some {
                    &&& final(secret_store).stored() == old(secret_store).stored()
                    &&& if old(secret_store).stored() == Some(secrets_view(l)) {
                        unreadable || r.finalize_migration
                    } else {
                        unreadable || (crate::text::opt_view(r.credential_error) == Some(
                            spec_msg_mismatch(),
                        ) && opt_secrets_view(r.secrets) == old(secret_store).stored())
                    }
                } else {
                    ||| (unreadable && final(secret_store).stored() is None)
                    ||| (r.secrets is None && crate::text::opt_view(r.credential_error) == Some(
                        spec_msg_migrate_failed(),
                    ) && final(secret_store).stored() is None)
                    ||| (r.secrets is None && crate::text::opt_view(r.credential_error) == Some(
                        spec_msg_readback_failed(),
                    ) && final(secret_store).stored() == Some(secrets_view(l)))
                    ||| r.finalize_migration
                }
            },
        },
{
    let device_id = match &legacy {
        Some(l) => Some(l.device_id.clone()),
        None => None,
    };
    let legacy_copy = match &legacy {
        Some(l) => Some(l.duplicate()),
        None => None,
    };
    let loaded = secret_store.load();
    match migration_after_load(legacy_copy, loaded) {
        MigrationStep::Unreadable => LoadedActivationSecrets {
            secrets: None,
            migration_device_id: device_id,
            credential_error: Some(
                String::from_str("无法读取系统安全凭据，请检查系统权限后重新激活"),
            ),
            finalize_migration: false,
        },
        MigrationStep::Finalize(secrets) => LoadedActivationSecrets {
            secrets,
            migration_device_id: None,
            credential_error: None,
            finalize_migration: true,
        },
        MigrationStep::LegacyInvalid(secrets) => LoadedActivationSecrets {
            secrets,
            migration_device_id: device_id,
            credential_error: Some(String::from_str("旧版授权凭据内容无效，请重新输入激活码")),
            finalize_migration: false,
        },
        MigrationStep::Mismatch(stored) => LoadedActivationSecrets {
            secrets: Some(stored),
            migration_device_id: device_id,
            credential_error: Some(
                String::from_str("系统安全凭据与旧版授权记录不一致，请重新激活"),
            ),
            finalize_migration: false,
        },
        MigrationStep::StoreLegacy => match legacy {
            Some(l) => {
                let stored = secret_store.store(&l);
                let readback = secret_store.load();
                migration_after_readback(&l, stored, readback)
            },
            None => {
                proof {
                    assert(false);
                }
                LoadedActivationSecrets {
                    secrets: None,
                    migration_device_id: None,
                    credential_error: None,
                    finalize_migration: true,
                }
            },
        },
    }
}

} // verus!

verus! {

/// Whether a failed call is worth one more try under the same protocol: the
/// server answered with a protocol-mismatch code.
pub fn needs_protocol_retry(error: &ApiError) -> (r: bool)
    ensures
        r == (error.spec_code() matches Some(c) && spec_protocol_code(c)),
{
    match error.code() {
        Some(c) => 9101 <= c && c <= 9105,
        None => false,
    }
}

/// What a heartbeat does before calling the server.
#[derive(Debug, Clone, Copy, PartialEq, Eq, Structural)]
pub enum HeartbeatPrecheck {
    /// There is no record or no secret: nothing to renew.
    Missing,
    /// The stored authorization ran out: lock the client and delete the secret.
    Expired,
    /// Ask the server.
    Proceed,
}

pub fn heartbeat_precheck(
    record: Option<&ClientActivationRecord>,
    secrets: Option<&ActivationSecrets>,
    local_now_timestamp: i64,
) -> (r: HeartbeatPrecheck)
    ensures
        (record is None || secrets is None) ==> r == HeartbeatPrecheck::Missing,
        record matches Some(rec) ==> (secrets is Some ==> r == (if spec_valid_local_authorization(
            *rec,
            opt_ref_secrets(secrets),
            local_now_timestamp,
        ) {
            HeartbeatPrecheck::Proceed
        } else {
            HeartbeatPrecheck::Expired
        })),
{
    match (record, secrets) {
        (Some(rec), Some(_)) => {
            if record_has_valid_local_authorization(rec, secrets, local_now_timestamp) {
                HeartbeatPrecheck::Proceed
            } else {
                HeartbeatPrecheck::Expired
            }
        },
        _ => HeartbeatPrecheck::Missing,
    }
}

/// The outcome a heartbeat reports for a failure with this disposition.
pub fn heartbeat_failure_outcome(disposition: HeartbeatErrorDisposition) -> (r: HeartbeatOutcome)
    ensures
        disposition == HeartbeatErrorDisposition::Contract ==> r == HeartbeatOutcome::ContractError,
        disposition == HeartbeatErrorDisposition::Reactivate ==> r == HeartbeatOutcome::Revoked,
        disposition == HeartbeatErrorDisposition::Retry ==> r == HeartbeatOutcome::Retrying,
{
    match disposition {
        HeartbeatErrorDisposition::Contract => HeartbeatOutcome::ContractError,
        HeartbeatErrorDisposition::Reactivate => HeartbeatOutcome::Revoked,
        HeartbeatErrorDisposition::Retry => HeartbeatOutcome::Retrying,
    }
}

/// How the client is locked: the record state, the message, and whether the stored secret goes.
#[derive(Debug, Clone, PartialEq, Eq)]
pub struct AuthorizationLock {
    pub state: &'static str,
    pub message: String,
    pub delete_secret: bool,
}

/// The lock for a stored authorization past its expiry and grace period.
pub fn expired_lock() -> (r: AuthorizationLock)
    ensures
        r.state@ == "invalid"@,
        r.message@ == spec_locally_expired_message(),
        r.delete_secret,
{
    AuthorizationLock {
        state: "invalid",
        message: String::from_str("本地授权已超过有效期和离线宽限期，请重新输入激活码"),
        delete_secret: true,
    }
}

/// The lock for a heartbeat that demands reactivation, with the server's reason.
pub fn revocation_lock(reason: &str) -> (r: AuthorizationLock)
    ensures
        r.state@ == "revoked"@,
        r.message@ == spec_reason_message(reason@),
        r.delete_secret,
{
    AuthorizationLock { state: "revoked", message: reason_message(reason), delete_secret: true }
}

/// The lock for a renewed token that could not be stored; the old secret stays.
pub fn credential_update_lock() -> (r: AuthorizationLock)
    ensures
        r.state@ == "invalid"@,
        r.message@ == "无法更新系统安全凭据，请重新激活"@,
        !r.delete_secret,
{
    AuthorizationLock {
        state: "invalid",
        message: String::from_str("无法更新系统安全凭据，请重新激活"),
        delete_secret: false,
    }
}

/// The lock for a failed call, from its disposition.
pub fn failure_lock(error: &ApiError, disposition: HeartbeatErrorDisposition) -> (r: AuthorizationLock)
    ensures
        match disposition {
            HeartbeatErrorDisposition::Contract => r.state@ == "contract_error"@ && r.message@
                == error.spec_safe_message() + spec_contract_hint() && r.delete_secret,
            HeartbeatErrorDisposition::Reactivate => r.state@ == "invalid"@ && r.message@
                == error.spec_safe_message() && r.delete_secret,
            HeartbeatErrorDisposition::Retry => r.state@ == "retrying"@ && r.message@
                == error.spec_safe_message() && !r.delete_secret,
        },
{
    let (state, message, delete_secret) = error_state(error, disposition);
    AuthorizationLock { state, message, delete_secret }
}

/// The record after the client is locked at `now`: the lock's state and
/// message, the heartbeat time, and a next attempt only when retrying.
pub fn locked_record(
    record: ClientActivationRecord,
    lock: &AuthorizationLock,
    now: String,
    retry_at: String,
) -> (r: ClientActivationRecord)
    ensures
        r.state@ == lock.state@,
        r.last_error == Some(lock.message),
        crate::text::opt_view(r.last_heartbeat_at) == Some(now@),
        lock.state@ == "retrying"@ ==> crate::text::opt_view(r.next_heartbeat_at) == Some(retry_at@),
        lock.state@ != "retrying"@ ==> r.next_heartbeat_at is None,
        r.updated_at@ == now@,
        r.device_id_hint == record.device_id_hint,
        r.expire_at == record.expire_at,
        r.grace_sec == record.grace_sec,
        r.server_time_offset_sec == record.server_time_offset_sec,
        r.allow_custom_api_key == record.allow_custom_api_key,
{
    let retrying = str_eq(lock.state, "retrying");
    let updated_at = now.clone();
    ClientActivationRecord {
        device_id_hint: record.device_id_hint,
        expire_at: record.expire_at,
        grace_sec: record.grace_sec,
        server_time_offset_sec: record.server_time_offset_sec,
        state: String::from_str(lock.state),
        allow_custom_api_key: record.allow_custom_api_key,
        last_heartbeat_at: Some(now),
        next_heartbeat_at: if retrying {
            Some(retry_at)
        } else {
            None
        },
        last_error: Some(lock.message.clone()),
        updated_at,
    }
}

/// The record after a successful heartbeat at `now_timestamp`: the server's
/// expiry and grace period where it sent them, the server clock offset,
/// whether a custom key is allowed (the server sends 1), active, no error,
/// and the next heartbeat at `next_at`.
pub fn active_record_from_heartbeat(
    record: ClientActivationRecord,
    expire_at: Option<i64>,
    grace_sec: Option<i64>,
    server_time: i64,
    allow_custom_api_key: Option<i64>,
    now_timestamp: i64,
    now: String,
    next_at: String,
) -> (r: ClientActivationRecord)
    requires
        i64::MIN <= server_time - now_timestamp <= i64::MAX,
    ensures
        r.expire_at == (if expire_at is Some {
            expire_at
        } else {
            record.expire_at
        }),
        r.grace_sec == (if grace_sec is Some {
            grace_sec
        } else {
            record.grace_sec
        }),
        r.server_time_offset_sec == server_time - now_timestamp,
        r.allow_custom_api_key == (allow_custom_api_key == Some(1i64)),
        r.state@ == "active"@,
        r.last_error is None,
        crate::text::opt_view(r.last_heartbeat_at) == Some(now@),
        crate::text::opt_view(r.next_heartbeat_at) == Some(next_at@),
        r.updated_at@ == now@,
        r.device_id_hint == record.device_id_hint,
{
    let updated_at = now.clone();
    ClientActivationRecord {
        device_id_hint: record.device_id_hint,
        expire_at: match expire_at {
            Some(e) => Some(e),
            None => record.expire_at,
        },
        grace_sec: match grace_sec {
            Some(g) => Some(g),
            None => record.grace_sec,
        },
        server_time_offset_sec: server_time - now_timestamp,
        state: String::from_str("active"),
        allow_custom_api_key: match allow_custom_api_key {
            Some(v) => v == 1,
            None => false,
        },
        last_heartbeat_at: Some(now),
        next_heartbeat_at: Some(next_at),
        last_error: None,
        updated_at,
    }
}

/// The record of a device that was never activated.
pub fn empty_activation_record(device_id: &str, now: String) -> (r: ClientActivationRecord)
    ensures
        r.device_id_hint@ == spec_device_hint(device_id@),
        r.expire_at is None,
        r.grace_sec is None,
        r.server_time_offset_sec == 0,
        r.state@ == "missing"@,
        !r.allow_custom_api_key,
        r.last_heartbeat_at is None,
        r.next_heartbeat_at is None,
        r.last_error is None,
        r.updated_at@ == now@,
{
    ClientActivationRecord {
        device_id_hint: device_hint(device_id),
        expire_at: None,
        grace_sec: None,
        server_time_offset_sec: 0,
        state: String::from_str("missing"),
        allow_custom_api_key: false,
        last_heartbeat_at: None,
        next_heartbeat_at: None,
        last_error: None,
        updated_at: now,
    }
}

/// The record written while an accepted code is being verified by a first heartbeat.
pub fn verifying_record(device_id: &str, expire_at: i64, grace_sec: i64, now: String) -> (r:
    ClientActivationRecord)
    ensures
        r.device_id_hint@ == spec_device_hint(device_id@),
        r.expire_at == Some(expire_at),
        r.grace_sec == Some(grace_sec),
        r.server_time_offset_sec == 0,
        r.state@ == "verifying"@,
        !r.allow_custom_api_key,
        r.last_heartbeat_at is None,
        r.next_heartbeat_at is None,
        crate::text::opt_view(r.last_error) == Some("激活码已接受，正在验证授权状态"@),
        r.updated_at@ == now@,
{
    ClientActivationRecord {
        device_id_hint: device_hint(device_id),
        expire_at: Some(expire_at),
        grace_sec: Some(grace_sec),
        server_time_offset_sec: 0,
        state: String::from_str("verifying"),
        allow_custom_api_key: false,
        last_heartbeat_at: None,
        next_heartbeat_at: None,
        last_error: Some(String::from_str("激活码已接受，正在验证授权状态")),
        updated_at: now,
    }
}

/// The record left after the activation is cleared; the message says whether
/// the stored secret could be deleted.
pub fn cleared_record(device_id: &str, now: String, secret_deleted: bool) -> (r:
    ClientActivationRecord)
    ensures
        r.device_id_hint@ == spec_device_hint(device_id@),
        r.expire_at is None,
        r.grace_sec is None,
        r.state@ == "invalid"@,
        !r.allow_custom_api_key,
        r.last_heartbeat_at is None,
        r.next_heartbeat_at is None,
        secret_deleted ==> crate::text::opt_view(r.last_error) == Some("请输入激活码后继续使用"@),
        !secret_deleted ==> crate::text::opt_view(r.last_error) == Some(
            "无法清除系统安全凭据，请重新提交激活码覆盖旧凭据"@,
        ),
        r.updated_at@ == now@,
{
    ClientActivationRecord {
        device_id_hint: device_hint(device_id),
        expire_at: None,
        grace_sec: None,
        server_time_offset_sec: 0,
        state: String::from_str("invalid"),
        allow_custom_api_key: false,
        last_heartbeat_at: None,
        next_heartbeat_at: None,
        last_error: Some(
            if secret_deleted {
                String::from_str("请输入激活码后继续使用")
            } else {
                String::from_str("无法清除系统安全凭据，请重新提交激活码覆盖旧凭据")
            },
        ),
        updated_at: now,
    }
}

/// A stored secret must read back exactly as written.
pub fn check_secret_readback(persisted: &Option<ActivationSecrets>, written: &ActivationSecrets) -> (r:
    Result<(), String>)
    ensures
        opt_secrets_view(*persisted) == Some(secrets_view(*written)) ==> r is Ok,
        opt_secrets_view(*persisted) != Some(secrets_view(*written)) ==> (r matches Err(m) && m@
            == "系统安全凭据回读校验失败，请重试"@),
{
    let same = match persisted {
        Some(p) => same_secrets(p, written),
        None => false,
    };
    if same {
        Ok(())
    } else {
        Err(String::from_str("系统安全凭据回读校验失败，请重试"))
    }
}

pub open spec fn spec_credentials_available(
    record: Option<&ClientActivationRecord>,
    secrets: Option<&ActivationSecrets>,
    now: i64,
) -> bool {
    match record {
        Some(rec) => secrets is Some && spec_valid_local_authorization(*rec, opt_ref_secrets(secrets), now),
        None => false,
    }
}

/// The device id and code for background services, only while the stored
/// authorization is valid at `local_now_timestamp`.
pub fn credentials(
    record: Option<&ClientActivationRecord>,
    secrets: Option<&ActivationSecrets>,
    local_now_timestamp: i64,
) -> (r: Option<(String, String)>)
    ensures
        spec_credentials_available(record, secrets, local_now_timestamp) ==> (r matches Some(p)
            && p.0@ == secrets->0.device_id@ && p.1@ == secrets->0.activate_code@),
        !spec_credentials_available(record, secrets, local_now_timestamp) ==> r is None,
{
    match (record, secrets) {
        (Some(rec), Some(s)) => {
            if record_has_valid_local_authorization(rec, secrets, local_now_timestamp) {
                Some((s.device_id.clone(), s.activate_code.clone()))
            } else {
                None
            }
        },
        _ => None,
    }
}

/// Transition materials may be synced only under a heartbeat that reports
/// an `ACTIVE` state (ASCII case ignored) and no revocation.
pub fn catalog_sync_allowed(revoked: bool, state: &str) -> (r: Result<(), String>)
    ensures
        !revoked && spec_eq_ignore_ascii_case(state@, "ACTIVE"@) ==> r is Ok,
        !(!revoked && spec_eq_ignore_ascii_case(state@, "ACTIVE"@)) ==> (r matches Err(m) && m@
            == "当前激活状态不允许同步转场素材"@),
{
    if revoked || !eq_ignore_ascii_case(state, "ACTIVE") {
        Err(String::from_str("当前激活状态不允许同步转场素材"))
    } else {
        Ok(())
    }
}

/// The environment variables that contribute to the device id, in order.
pub open spec fn spec_device_env_key(k: int) -> Seq<char> {
    if k == 0 {
        "HOSTNAME"@
    } else if k == 1 {
        "COMPUTERNAME"@
    } else if k == 2 {
        "USER"@
    } else {
        "USERNAME"@
    }
}

/// The bytes hashed into the device id: a version tag, the app data directory,
/// and `\0KEY=value` for each of the variables that is set.
pub open spec fn spec_device_id_input(app_data_dir: Seq<char>, env: Seq<Option<Seq<char>>>) -> Seq<u8>
    decreases env.len(),
{
    if env.len() == 0 {
        vstd::utf8::encode_utf8("dy-screen-device-v1\0"@) + vstd::utf8::encode_utf8(app_data_dir)
    } else {
        let k = env.len() - 1;
        spec_device_id_input(app_data_dir, env.drop_last()) + match env.last() {
            Some(v) => vstd::utf8::encode_utf8("\0"@) + vstd::utf8::encode_utf8(spec_device_env_key(k))
                + vstd::utf8::encode_utf8("="@) + vstd::utf8::encode_utf8(v),
            None => Seq::empty(),
        }
    }
}

/// `DY-` and the first 24 hex digits of the SHA-256 of the device bytes.
/// `env_values` are the values of `HOSTNAME`, `COMPUTERNAME`, `USER` and
/// `USERNAME`, in that order, as the caller read them.
pub fn stable_device_id(app_data_dir: &str, env_values: &[Option<String>]) -> (r: String)
    requires
        env_values@.len() == 4,
    ensures
        r@ == "DY-"@ + crate::digest::spec_hex(
            crate::digest::spec_sha256(
                spec_device_id_input(app_data_dir@, env_values@.map_values(|v: Option<String>| crate::text::opt_view(v))),
            ),
        ).take(24),
{
    let ghost env = env_values@.map_values(|v: Option<String>| crate::text::opt_view(v));
    let mut bytes: Vec<u8> = Vec::new();
    crate::digest::push_bytes(&mut bytes, "dy-screen-device-v1\0");
    crate::digest::push_bytes(&mut bytes, app_data_dir);
    assert(env.take(0) =~= Seq::<Option<Seq<char>>>::empty());
    let keys = ["HOSTNAME", "COMPUTERNAME", "USER", "USERNAME"];
    let mut k: usize = 0;
    while k < 4
        invariant
            k <= 4,
            env_values@.len() == 4,
            env == env_values@.map_values(|v: Option<String>| crate::text::opt_view(v)),
            keys@ == seq!["HOSTNAME", "COMPUTERNAME", "USER", "USERNAME"],
            bytes@ == spec_device_id_input(app_data_dir@, env.take(k as int)),
        decreases 4 - k,
    {
        assert(env.take(k + 1).drop_last() =~= env.take(k as int));
        assert(keys@[k as int]@ == spec_device_env_key(k as int));
        match &env_values[k] {
            Some(value) => {
                crate::digest::push_bytes(&mut bytes, "\0");
                crate::digest::push_bytes(&mut bytes, keys[k]);
                crate::digest::push_bytes(&mut bytes, "=");
                crate::digest::push_bytes(&mut bytes, value.as_str());
                assert(bytes@ =~= spec_device_id_input(app_data_dir@, env.take(k + 1)));
            },
            None => {
                assert(bytes@ =~= spec_device_id_input(app_data_dir@, env.take(k + 1)));
            },
        }
        k += 1;
    }
    assert(env.take(4) =~= env);
    let digest = crate::digest::sha256(bytes.as_slice());
    let hex = crate::digest::hex_encode(digest.as_slice());
    proof {
        crate::digest::lemma_hex_len(digest@);
    }
    let hex_chars = to_chars(hex.as_str());
    let short = from_chars(&hex_chars.as_slice()[0..24]);
    assert(hex_chars@.subrange(0, 24) =~= hex@.take(24));
    concat_str("DY-", short.as_str())
}

} // verus!
