//! One-click conservative correction of a clip project's subtitles: batching
//! of the targets, checking of the provider's answer, and the run fingerprint.

use vstd::prelude::*;

use crate::llm::{LlmError, SubtitleCorrectionOutput};
use crate::repository::{AiRepositoryError, ClipTextCorrectionTarget, ClipTextCorrectionUpdate};
use crate::text::{
    collapse_whitespace, graphemes, spec_collapse_whitespace, spec_graphemes, spec_trim, strings_view,
};

verus! {

pub const CLIP_TEXT_CORRECTION_PROMPT_VERSION: &'static str = "clip-text-correction-v1";

/// The most characters sent in one batch.
pub const MAX_BATCH_CHARS: usize = 6000;

#[derive(Debug, Clone, PartialEq, Eq)]
pub enum ClipTextCorrectionError {
    NoEligibleSubtitles,
    Credential,
    InvalidResponse,
    Llm(LlmError),
    Repository(AiRepositoryError),
}

/// Grouping targets left to right: the closed batches, the open batch and its character count.
pub open spec fn spec_batch_state(targets: Seq<ClipTextCorrectionTarget>, maximum: nat) -> (
    Seq<Seq<ClipTextCorrectionTarget>>,
    Seq<ClipTextCorrectionTarget>,
    nat,
)
    decreases targets.len(),
{
    if targets.len() == 0 {
        (Seq::empty(), Seq::empty(), 0)
    } else {
        let (batches, current, chars) = spec_batch_state(targets.drop_last(), maximum);
        let t = targets.last();
        let n = t.text@.len();
        let grown = if chars + n > usize::MAX {
            usize::MAX as nat
        } else {
            chars + n
        };
        if current.len() > 0 && grown > maximum {
            (batches.push(current), seq![t], if n > usize::MAX {
                usize::MAX as nat
            } else {
                n
            })
        } else {
            (batches, current.push(t), grown)
        }
    }
}

/// The batches: consecutive runs of targets, a new run starting whenever adding
/// the next target would push a non-empty run over `maximum` characters.
pub open spec fn spec_batches(targets: Seq<ClipTextCorrectionTarget>, maximum: nat) -> Seq<
    Seq<ClipTextCorrectionTarget>,
> {
    let (batches, current, _) = spec_batch_state(targets, maximum);
    if current.len() > 0 {
        batches.push(current)
    } else {
        batches
    }
}

pub open spec fn spec_concat_batches(batches: Seq<Seq<ClipTextCorrectionTarget>>) -> Seq<
    ClipTextCorrectionTarget,
>
    decreases batches.len(),
{
    if batches.len() == 0 {
        Seq::empty()
    } else {
        spec_concat_batches(batches.drop_last()) + batches.last()
    }
}

pub open spec fn spec_chars(batch: Seq<ClipTextCorrectionTarget>) -> nat
    decreases batch.len(),
{
    if batch.len() == 0 {
        0
    } else {
        spec_chars(batch.drop_last()) + batch.last().text@.len()
    }
}

proof fn lemma_concat_push(batches: Seq<Seq<ClipTextCorrectionTarget>>, b: Seq<ClipTextCorrectionTarget>)
    ensures
        spec_concat_batches(batches.push(b)) == spec_concat_batches(batches) + b,
{
    assert(batches.push(b).drop_last() =~= batches);
}

/// A character count as the batching loop keeps it: saturated at `usize::MAX`.
pub open spec fn spec_saturated(n: nat) -> nat {
    if n > usize::MAX {
        usize::MAX as nat
    } else {
        n
    }
}

proof fn lemma_chars_push(batch: Seq<ClipTextCorrectionTarget>, t: ClipTextCorrectionTarget)
    ensures
        spec_chars(batch.push(t)) == spec_chars(batch) + t.text@.len(),
{
    assert(batch.push(t).drop_last() =~= batch);
}

proof fn lemma_batch_state(targets: Seq<ClipTextCorrectionTarget>, maximum: nat)
    ensures
        ({
            let (batches, current, chars) = spec_batch_state(targets, maximum);
            &&& spec_concat_batches(batches) + current == targets
            &&& forall|i: int| 0 <= i < batches.len() ==> (#[trigger] batches[i]).len() > 0
            &&& forall|i: int|
                0 <= i < batches.len() ==> (#[trigger] batches[i]).len() == 1 || spec_saturated(
                    spec_chars(batches[i]),
                ) <= maximum
            &&& (current.len() == 0 ==> chars == 0)
            &&& chars == spec_saturated(spec_chars(current))
            &&& (current.len() > 1 ==> chars <= maximum)
        }),
    decreases targets.len(),
{
    if targets.len() > 0 {
        let prefix = targets.drop_last();
        lemma_batch_state(prefix, maximum);
        let (batches, current, chars) = spec_batch_state(prefix, maximum);
        let t = targets.last();
        let n = t.text@.len();
        let grown = if chars + n > usize::MAX {
            usize::MAX as nat
        } else {
            chars + n
        };
        assert(prefix.push(t) =~= targets);
        lemma_chars_push(current, t);
        if current.len() > 0 && grown > maximum {
            lemma_concat_push(batches, current);
            assert(spec_concat_batches(batches.push(current)) + seq![t] =~= targets);
            lemma_chars_push(Seq::<ClipTextCorrectionTarget>::empty(), t);
            assert(Seq::<ClipTextCorrectionTarget>::empty().push(t) =~= seq![t]);
            let nb = batches.push(current);
            assert forall|i: int| 0 <= i < nb.len() implies (#[trigger] nb[i]).len() == 1
                || spec_saturated(spec_chars(nb[i])) <= maximum by {
                if i < batches.len() {
                    assert(nb[i] == batches[i]);
                }
            }
        } else {
            assert((spec_concat_batches(batches) + current).push(t) =~= spec_concat_batches(
                batches,
            ) + current.push(t));
            if current.len() == 0 {
                assert(current =~= Seq::<ClipTextCorrectionTarget>::empty());
            }
        }
    }
}

/// Batching keeps every target exactly once and in order, never produces an
/// empty batch, and keeps every batch of several targets within `maximum` characters.
pub proof fn lemma_batches_preserve_targets(targets: Seq<ClipTextCorrectionTarget>, maximum: nat)
    requires
        maximum < usize::MAX,
    ensures
        spec_concat_batches(spec_batches(targets, maximum)) == targets,
        forall|i: int|
            0 <= i < spec_batches(targets, maximum).len() ==> (#[trigger] spec_batches(
                targets,
                maximum,
            )[i]).len() > 0,
        forall|i: int|
            0 <= i < spec_batches(targets, maximum).len() ==> (#[trigger] spec_batches(
                targets,
                maximum,
            )[i]).len() == 1 || spec_chars(spec_batches(targets, maximum)[i]) <= maximum,
{
    lemma_batch_state(targets, maximum);
    let (batches, current, chars) = spec_batch_state(targets, maximum);
    let out = spec_batches(targets, maximum);
    if current.len() > 0 {
        lemma_concat_push(batches, current);
        assert(out == batches.push(current));
        assert forall|i: int| 0 <= i < out.len() implies (#[trigger] out[i]).len() > 0 by {
            if i < batches.len() {
                assert(out[i] == batches[i]);
            }
        }
        assert forall|i: int| 0 <= i < out.len() implies (#[trigger] out[i]).len() == 1
            || spec_chars(out[i]) <= maximum by {
            if i < batches.len() {
                assert(out[i] == batches[i]);
            }
        }
    } else {
        assert(spec_concat_batches(batches) + current =~= spec_concat_batches(batches));
    }
}

proof fn lemma_batch_state_closes(targets: Seq<ClipTextCorrectionTarget>, maximum: nat)
    ensures
        ({
            let (batches, current, chars) = spec_batch_state(targets, maximum);
            &&& (batches.len() > 0 ==> current.len() > 0)
            &&& forall|i: int|
                0 <= i < batches.len() - 1 ==> spec_chars(#[trigger] batches[i]) + batches[i
                    + 1][0].text@.len() > maximum
            &&& (batches.len() > 0 ==> spec_chars(batches.last()) + current[0].text@.len()
                > maximum)
        }),
    decreases targets.len(),
{
    if targets.len() > 0 {
        let prefix = targets.drop_last();
        lemma_batch_state_closes(prefix, maximum);
        lemma_batch_state(prefix, maximum);
        let (batches, current, chars) = spec_batch_state(prefix, maximum);
        let t = targets.last();
        let n = t.text@.len();
        let grown = if chars + n > usize::MAX {
            usize::MAX as nat
        } else {
            chars + n
        };
        assert(prefix.push(t) =~= targets);
        if current.len() > 0 && grown > maximum {
            let nb = batches.push(current);
            assert(spec_chars(current) + n > maximum);
            assert forall|i: int|
                0 <= i < nb.len() - 1 implies spec_chars(#[trigger] nb[i]) + nb[i
                + 1][0].text@.len() > maximum by {
                if i < batches.len() - 1 {
                    assert(nb[i] == batches[i] && nb[i + 1] == batches[i + 1]);
                } else {
                    assert(nb[i] == batches.last() && nb[i + 1] == current);
                }
            }
            assert(seq![t][0] == t);
        } else {
            if current.len() > 0 {
                assert(current.push(t)[0] == current[0]);
            }
        }
    }
}

/// A batch closes only when it is full: every batch but the last, together
/// with the first target of the next batch, would be over `maximum` characters.
pub proof fn lemma_batches_close_only_when_full(targets: Seq<ClipTextCorrectionTarget>, maximum: nat)
    ensures
        forall|i: int|
            0 <= i < spec_batches(targets, maximum).len() - 1 ==> spec_chars(
                #[trigger] spec_batches(targets, maximum)[i],
            ) + spec_batches(targets, maximum)[i + 1][0].text@.len() > maximum,
{
    lemma_batch_state_closes(targets, maximum);
    let (batches, current, chars) = spec_batch_state(targets, maximum);
    let out = spec_batches(targets, maximum);
    if current.len() > 0 {
        assert forall|i: int|
            0 <= i < out.len() - 1 implies spec_chars(#[trigger] out[i]) + out[i
            + 1][0].text@.len() > maximum by {
            if i < batches.len() - 1 {
                assert(out[i] == batches[i] && out[i + 1] == batches[i + 1]);
            } else {
                assert(out[i] == batches.last() && out[i + 1] == current);
            }
        }
    }
}

pub fn batch_targets(targets: &[ClipTextCorrectionTarget], maximum_chars: usize) -> (r: Vec<
    Vec<ClipTextCorrectionTarget>,
>)
    ensures
        r@.map_values(|b: Vec<ClipTextCorrectionTarget>| b@) == spec_batches(
            targets@,
            maximum_chars as nat,
        ),
{
    let ghost m = maximum_chars as nat;
    let mut batches: Vec<Vec<ClipTextCorrectionTarget>> = Vec::new();
    let mut current: Vec<ClipTextCorrectionTarget> = Vec::new();
    let mut current_chars: usize = 0;
    let mut i: usize = 0;
    assert(targets@.take(0) =~= Seq::<ClipTextCorrectionTarget>::empty());
    while i < targets.len()
        invariant
            i <= targets@.len(),
            m == maximum_chars as nat,
            ({
                let (bs, cur, chars) = spec_batch_state(targets@.take(i as int), m);
                &&& batches@.map_values(|b: Vec<ClipTextCorrectionTarget>| b@) == bs
                &&& current@ == cur
                &&& current_chars as nat == chars
            }),
        decreases targets.len() - i,
    {
        assert(targets@.take(i + 1).drop_last() =~= targets@.take(i as int));
        assert(targets@.take(i + 1).last() == targets@[i as int]);
        let target = &targets[i];
        let chars = target.text.unicode_len();
        if current.len() > 0 && current_chars.saturating_add(chars) > maximum_chars {
            let ghost before = batches@;
            let closed = current;
            batches.push(closed);
            assert(batches@.map_values(|b: Vec<ClipTextCorrectionTarget>| b@) =~= before.map_values(
                |b: Vec<ClipTextCorrectionTarget>| b@,
            ).push(closed@));
            current = Vec::new();
            current_chars = 0;
        }
        current.push(target.duplicate());
        current_chars = current_chars.saturating_add(chars);
        i += 1;
    }
    assert(targets@.take(targets@.len() as int) =~= targets@);
    if current.len() > 0 {
        let ghost before = batches@;
        let ghost cur = current@;
        batches.push(current);
        assert(batches@.map_values(|b: Vec<ClipTextCorrectionTarget>| b@) =~= before.map_values(
            |b: Vec<ClipTextCorrectionTarget>| b@,
        ).push(cur));
    }
    batches
}

/// A corrected text is accepted with its whitespace runs collapsed, when it has
/// no bare control character and, collapsed, is neither empty nor over 500 graphemes.
pub open spec fn spec_corrected_text_ok(value: Seq<char>) -> bool {
    !crate::repository::spec_has_bare_control(value) && spec_collapse_whitespace(value).len() > 0
        && spec_graphemes(spec_collapse_whitespace(value)).len() <= 500
}

pub fn validate_corrected_text(value: &str) -> (r: Result<String, ClipTextCorrectionError>)
    ensures
        spec_corrected_text_ok(value@) ==> (r matches Ok(t) && t@ == spec_collapse_whitespace(value@)),
        !spec_corrected_text_ok(value@) ==> r == Err::<String, ClipTextCorrectionError>(
            ClipTextCorrectionError::InvalidResponse,
        ),
{
    if crate::repository::has_bare_control(value) {
        return Err(ClipTextCorrectionError::InvalidResponse);
    }
    let normalized = collapse_whitespace(value);
    if normalized.unicode_len() == 0 {
        return Err(ClipTextCorrectionError::InvalidResponse);
    }
    let clusters = graphemes(normalized.as_str());
    if clusters.len() > 500 {
        return Err(ClipTextCorrectionError::InvalidResponse);
    }
    Ok(normalized)
}

/// The provider's answer is usable when it has exactly one correction per
/// input, numbered `0, 1, ...` in order, each with an acceptable text.
pub open spec fn spec_correction_output_ok(output: SubtitleCorrectionOutput, expected_len: nat) -> bool {
    output.corrections@.len() == expected_len && forall|i: int|
        0 <= i < output.corrections@.len() ==> (#[trigger] output.corrections@[i]).index == i
            && spec_corrected_text_ok(output.corrections@[i].text@)
}

pub fn validate_correction_output(output: &SubtitleCorrectionOutput, expected_len: usize) -> (r: Result<
    Vec<String>,
    ClipTextCorrectionError,
>)
    ensures
        spec_correction_output_ok(*output, expected_len as nat) ==> (r matches Ok(v) && v@.len()
            == expected_len && forall|i: int|
            0 <= i < v@.len() ==> (#[trigger] v@[i])@ == spec_collapse_whitespace(
                output.corrections@[i].text@,
            )),
        !spec_correction_output_ok(*output, expected_len as nat) ==> r == Err::<
            Vec<String>,
            ClipTextCorrectionError,
        >(ClipTextCorrectionError::InvalidResponse),
{
    if output.corrections.len() != expected_len {
        return Err(ClipTextCorrectionError::InvalidResponse);
    }
    let mut corrected: Vec<String> = Vec::new();
    let mut i: usize = 0;
    while i < output.corrections.len()
        invariant
            i <= output.corrections@.len(),
            output.corrections@.len() == expected_len,
            corrected@.len() == i,
            forall|k: int|
                0 <= k < i ==> (#[trigger] output.corrections@[k]).index == k
                    && spec_corrected_text_ok(output.corrections@[k].text@),
            forall|k: int|
                0 <= k < i ==> (#[trigger] corrected@[k])@ == spec_collapse_whitespace(
                    output.corrections@[k].text@,
                ),
        decreases output.corrections.len() - i,
    {
        let item = &output.corrections[i];
        if item.index as usize != i {
            return Err(ClipTextCorrectionError::InvalidResponse);
        }
        let text = validate_corrected_text(item.text.as_str())?;
        corrected.push(text);
        i += 1;
    }
    Ok(corrected)
}

/// The bytes that identify a correction run: the prompt version, then for each
/// target its id and byte length (little endian) and its text.
pub open spec fn spec_fingerprint_input(targets: Seq<ClipTextCorrectionTarget>) -> Seq<u8>
    decreases targets.len(),
{
    if targets.len() == 0 {
        vstd::utf8::encode_utf8("clip-text-correction-v1"@)
    } else {
        let t = targets.last();
        spec_fingerprint_input(targets.drop_last()) + crate::digest::spec_le_bytes(
            (t.subtitle_id as u64) as nat,
            8,
        ) + crate::digest::spec_le_bytes(
            (crate::text::spec_byte_len(t.text@) as usize as u64) as nat,
            8,
        ) + vstd::utf8::encode_utf8(t.text@)
    }
}

/// The hex SHA-256 of the run's identifying bytes.
pub fn correction_fingerprint(targets: &[ClipTextCorrectionTarget]) -> (r: String)
    ensures
        r@ == crate::digest::spec_hex(crate::digest::spec_sha256(spec_fingerprint_input(targets@))),
{
    let mut bytes: Vec<u8> = Vec::new();
    crate::digest::push_bytes(&mut bytes, CLIP_TEXT_CORRECTION_PROMPT_VERSION);
    assert(bytes@ =~= vstd::utf8::encode_utf8("clip-text-correction-v1"@));
    let mut i: usize = 0;
    assert(targets@.take(0) =~= Seq::<ClipTextCorrectionTarget>::empty());
    while i < targets.len()
        invariant
            i <= targets@.len(),
            bytes@ == spec_fingerprint_input(targets@.take(i as int)),
        decreases targets.len() - i,
    {
        assert(targets@.take(i + 1).drop_last() =~= targets@.take(i as int));
        assert(targets@.take(i + 1).last() == targets@[i as int]);
        let target = &targets[i];
        crate::digest::push_le_u64(&mut bytes, target.subtitle_id as u64);
        let len = crate::text::byte_len(target.text.as_str());
        crate::digest::push_le_u64(&mut bytes, len as u64);
        crate::digest::push_bytes(&mut bytes, target.text.as_str());
        i += 1;
    }
    assert(targets@.take(targets@.len() as int) =~= targets@);
    let digest = crate::digest::sha256(bytes.as_slice());
    crate::digest::hex_encode(digest.as_slice())
}

impl ClipTextCorrectionError {
    pub open spec fn spec_message(&self) -> Seq<char> {
        match self {
            ClipTextCorrectionError::NoEligibleSubtitles => "当前工程没有可一键纠错的字幕"@,
            ClipTextCorrectionError::Credential => "DeepSeek Key 尚未配置"@,
            ClipTextCorrectionError::InvalidResponse => "LLM 返回的文本纠错结果无效"@,
            ClipTextCorrectionError::Llm(e) => e.spec_message(),
            ClipTextCorrectionError::Repository(e) => e.spec_message(),
        }
    }

    pub fn message(&self) -> (r: String)
        ensures
            r@ == self.spec_message(),
    {
        match self {
            ClipTextCorrectionError::NoEligibleSubtitles => String::from_str("当前工程没有可一键纠错的字幕"),
            ClipTextCorrectionError::Credential => String::from_str("DeepSeek Key 尚未配置"),
            ClipTextCorrectionError::InvalidResponse => String::from_str("LLM 返回的文本纠错结果无效"),
            ClipTextCorrectionError::Llm(e) => e.message(),
            ClipTextCorrectionError::Repository(e) => e.message(),
        }
    }
}

/// The key is usable when it is stored and not blank.
pub fn require_api_key(key: Option<String>) -> (r: Result<String, ClipTextCorrectionError>)
    ensures
        (key matches Some(k) && spec_trim(k@).len() > 0) ==> r == Ok::<String, ClipTextCorrectionError>(key->0),
        !(key matches Some(k) && spec_trim(k@).len() > 0) ==> r == Err::<String, ClipTextCorrectionError>(
            ClipTextCorrectionError::Credential,
        ),
{
    match key {
        Some(k) => {
            let trimmed = crate::text::trim(k.as_str());
            if trimmed.unicode_len() > 0 {
                Ok(k)
            } else {
                Err(ClipTextCorrectionError::Credential)
            }
        },
        None => Err(ClipTextCorrectionError::Credential),
    }
}

/// What `serde_json::to_string` gives for a list of strings: always their JSON array.
pub open spec fn spec_json_text_list(items: Seq<Seq<char>>) -> Option<Seq<char>> {
    Some(crate::json::spec_json_list(items))
}

pub open spec fn opt_string_view(o: Option<String>) -> Option<Seq<char>> {
    crate::text::opt_view(o)
}

/// Calls `serde_json::to_string` on a list of strings. Its contract claims
/// that the call succeeds (a string never fails to serialize and writing to a
/// `Vec` never fails) and gives the compact JSON array that `spec_json_list`
/// describes, as `serde_json`'s serializer, compact formatter and escape table
/// write it.
#[verifier::external_body]
fn json_text_list(items: &[String]) -> (r: Option<String>)
    ensures
        opt_string_view(r) == spec_json_text_list(strings_view(items@)),
{
    serde_json::to_string(items).ok()
}

/// The instruction that precedes the texts of a batch.
pub open spec fn spec_prompt_prefix() -> Seq<char> {
    "纠正以下 ASR 文本数组。只修正错别字、同音错词、明显识别错误和标点；保持原意、语气、专名、数字、条目数量和顺序，不润色、不改写、不合并或拆分。corrections 必须为与输入等长的 index + text 数组，index 从 0 连续递增。输入文本数组："@
}

pub open spec fn spec_batch_texts(batch: Seq<ClipTextCorrectionTarget>) -> Seq<Seq<char>> {
    batch.map_values(|t: ClipTextCorrectionTarget| t.text@)
}

/// The next thing a correction run does.
#[derive(Debug, Clone, Copy, PartialEq, Eq, Structural)]
pub enum CorrectionStep {
    /// Close the run as cancelled.
    Cancel,
    /// Send the current batch to the provider.
    CorrectBatch,
    /// Every batch was answered: apply the corrections.
    Apply,
}

/// The prompt for a batch: the instruction and the batch's texts as a JSON array.
pub fn batch_prompt(batch: &[ClipTextCorrectionTarget]) -> (r: Result<String, ClipTextCorrectionError>)
    ensures
        spec_json_text_list(spec_batch_texts(batch@)) matches Some(payload) ==> (r matches Ok(p) && p@
            == spec_prompt_prefix() + payload),
        spec_json_text_list(spec_batch_texts(batch@)) is None ==> r == Err::<String, ClipTextCorrectionError>(
            ClipTextCorrectionError::InvalidResponse,
        ),
{
    let mut texts: Vec<String> = Vec::new();
    let mut i: usize = 0;
    while i < batch.len()
        invariant
            i <= batch@.len(),
            strings_view(texts@) == spec_batch_texts(batch@.take(i as int)),
        decreases batch.len() - i,
    {
        let ghost before = strings_view(texts@);
        texts.push(batch[i].text.clone());
        assert(strings_view(texts@) =~= before.push(batch@[i as int].text@));
        assert(spec_batch_texts(batch@.take(i + 1)) =~= spec_batch_texts(batch@.take(i as int)).push(batch@[i as int].text@));
        i += 1;
    }
    assert(batch@.take(batch@.len() as int) =~= batch@);
    match json_text_list(texts.as_slice()) {
        Some(payload) => {
            let mut prompt = String::from_str(
                "纠正以下 ASR 文本数组。只修正错别字、同音错词、明显识别错误和标点；保持原意、语气、专名、数字、条目数量和顺序，不润色、不改写、不合并或拆分。corrections 必须为与输入等长的 index + text 数组，index 从 0 连续递增。输入文本数组：",
            );
            prompt.append(payload.as_str());
            Ok(prompt)
        },
        None => Err(ClipTextCorrectionError::InvalidResponse),
    }
}

/// How a run is closed in the run log.
#[derive(Debug, Clone, PartialEq, Eq)]
pub struct CorrectionRunFinish {
    pub status: &'static str,
    pub stage: &'static str,
    pub processed: usize,
    pub changed: usize,
    pub unchanged: usize,
    pub completed_batches: usize,
    pub token_usage: u64,
    pub error: Option<(&'static str, String)>,
}

/// A correction run between provider calls: its batches, how many are done,
/// the targets processed, the tokens used and the updates collected.
pub struct CorrectionRun {
    batches: Vec<Vec<ClipTextCorrectionTarget>>,
    next_batch: usize,
    processed: usize,
    token_usage: u64,
    updates: Vec<ClipTextCorrectionUpdate>,
}

pub open spec fn spec_batches_view(b: Seq<Vec<ClipTextCorrectionTarget>>) -> Seq<Seq<ClipTextCorrectionTarget>> {
    b.map_values(|v: Vec<ClipTextCorrectionTarget>| v@)
}

impl CorrectionRun {
    pub closed spec fn spec_batches(&self) -> Seq<Seq<ClipTextCorrectionTarget>> {
        spec_batches_view(self.batches@)
    }

    pub closed spec fn spec_next_batch(&self) -> nat {
        self.next_batch as nat
    }

    pub closed spec fn spec_processed(&self) -> nat {
        self.processed as nat
    }

    pub closed spec fn spec_token_usage(&self) -> u64 {
        self.token_usage
    }

    pub closed spec fn spec_updates(&self) -> Seq<ClipTextCorrectionUpdate> {
        self.updates@
    }

    /// The run's state is consistent: the done batches are a prefix, the
    /// processed count and the updates are theirs.
    pub closed spec fn wf(&self) -> bool {
        &&& self.next_batch <= self.batches@.len()
        &&& self.processed == spec_concat_batches(spec_batches_view(self.batches@).take(self.next_batch as int)).len()
        &&& self.updates@.len() == self.processed
        &&& forall|k: int| 0 <= k < self.processed ==> {
            let t = #[trigger] spec_concat_batches(spec_batches_view(self.batches@).take(self.next_batch as int))[k];
            &&& self.updates@[k].subtitle_id == t.subtitle_id
            &&& self.updates@[k].expected_text == t.text
        }
    }

    /// Starts a run over the targets of a plan, batched by at most 6000
    /// characters; a plan without targets has nothing to correct.
    pub fn start(targets: &[ClipTextCorrectionTarget]) -> (r: Result<CorrectionRun, ClipTextCorrectionError>)
        ensures
            targets@.len() == 0 ==> r == Err::<CorrectionRun, ClipTextCorrectionError>(
                ClipTextCorrectionError::NoEligibleSubtitles,
            ),
            targets@.len() > 0 ==> (r matches Ok(run) && run.wf() && run.spec_batches() == spec_batches(
                targets@,
                MAX_BATCH_CHARS as nat,
            ) && run.spec_next_batch() == 0 && run.spec_processed() == 0 && run.spec_token_usage() == 0),
    {
        if targets.len() == 0 {
            return Err(ClipTextCorrectionError::NoEligibleSubtitles);
        }
        let batches = batch_targets(targets, MAX_BATCH_CHARS);
        let run = CorrectionRun { batches, next_batch: 0, processed: 0, token_usage: 0, updates: Vec::new() };
        proof {
            assert(spec_batches_view(run.batches@) =~= spec_batches(targets@, MAX_BATCH_CHARS as nat));
            assert(spec_batches_view(run.batches@).take(0) =~= Seq::<Seq<ClipTextCorrectionTarget>>::empty());
        }
        Ok(run)
    }

    pub fn total_batches(&self) -> (r: usize)
        ensures
            r == self.spec_batches().len(),
    {
        self.batches.len()
    }

    pub fn completed_batches(&self) -> (r: usize)
        ensures
            r == self.spec_next_batch(),
    {
        self.next_batch
    }

    pub fn processed(&self) -> (r: usize)
        ensures
            r == self.spec_processed(),
    {
        self.processed
    }

    pub fn token_usage(&self) -> (r: u64)
        ensures
            r == self.spec_token_usage(),
    {
        self.token_usage
    }

    /// The batch to send next, if any is left.
    /// What the run does next: stop when cancelled, otherwise correct the
    /// next batch, and apply the corrections only once every batch is done.
    pub fn next_step(&self, cancelled: bool) -> (r: CorrectionStep)
        ensures
            cancelled ==> r is Cancel,
            !cancelled && self.spec_next_batch() < self.spec_batches().len() ==> r is CorrectBatch,
            r is Apply <==> (!cancelled && self.spec_next_batch() >= self.spec_batches().len()),
    {
        if cancelled {
            CorrectionStep::Cancel
        } else if self.next_batch < self.batches.len() {
            CorrectionStep::CorrectBatch
        } else {
            CorrectionStep::Apply
        }
    }

    pub fn current_batch(&self) -> (r: Option<&[ClipTextCorrectionTarget]>)
        ensures
            self.spec_next_batch() < self.spec_batches().len() ==> (r matches Some(b) && b@
                == self.spec_batches()[self.spec_next_batch() as int]),
            self.spec_next_batch() >= self.spec_batches().len() ==> r is None,
    {
        if self.next_batch < self.batches.len() {
            Some(self.batches[self.next_batch].as_slice())
        } else {
            None
        }
    }

    /// Takes the provider's answer for the current batch. A usable answer adds
    /// one update per target and moves to the next batch; otherwise the run
    /// is to be closed as the returned record says. The tokens count either way.
    pub fn record_batch(&mut self, output: &SubtitleCorrectionOutput) -> (r: Result<(), CorrectionRunFinish>)
        requires
            old(self).wf(),
            old(self).spec_next_batch() < old(self).spec_batches().len(),
        ensures
            final(self).wf(),
            final(self).spec_batches() == old(self).spec_batches(),
            final(self).spec_token_usage() == crate::text::spec_saturating_add_u64(
                old(self).spec_token_usage(),
                output.token_usage,
            ),
            spec_correction_output_ok(*output, old(self).spec_batches()[old(self).spec_next_batch() as int].len())
                ==> ({
                let batch = old(self).spec_batches()[old(self).spec_next_batch() as int];
                &&& r is Ok
                &&& final(self).spec_next_batch() == old(self).spec_next_batch() + 1
                &&& final(self).spec_processed() == old(self).spec_processed() + batch.len()
                &&& forall|k: int| 0 <= k < old(self).spec_processed() ==> #[trigger] final(self).spec_updates()[k]
                    == old(self).spec_updates()[k]
                &&& forall|k: int|
                    0 <= k < batch.len() ==> (#[trigger] final(self).spec_updates()[old(self).spec_processed() + k]).corrected_text@
                        == spec_collapse_whitespace(output.corrections@[k].text@)
            }),
            !spec_correction_output_ok(*output, old(self).spec_batches()[old(self).spec_next_batch() as int].len())
                ==> ({
                &&& final(self).spec_next_batch() == old(self).spec_next_batch()
                &&& final(self).spec_processed() == old(self).spec_processed()
                &&& final(self).spec_updates() == old(self).spec_updates()
                &&& r matches Err(f) && f.status@ == "failed"@ && f.stage@ == "validation_failed"@
                    && f.processed == old(self).spec_processed() && f.changed == 0 && f.unchanged == 0
                    && f.completed_batches == old(self).spec_next_batch() && f.token_usage
                    == final(self).spec_token_usage() && (f.error matches Some((code, message)) && code@
                    == "clip_text_correction_invalid_response"@ && message@
                    == "LLM 返回的文本纠错结果无效"@)
            }),
    {
        self.token_usage = self.token_usage.saturating_add(output.token_usage);
        let index = self.next_batch;
        let expected = self.batches[index].len();
        match validate_correction_output(output, expected) {
            Ok(corrected) => {
                let ghost before = self.updates@;
                let ghost done = spec_concat_batches(spec_batches_view(self.batches@).take(index as int));
                let ghost batch = spec_batches_view(self.batches@)[index as int];
                let ghost all_batches = self.batches@;
                let ghost tokens = self.token_usage;
                let ghost processed0 = self.processed;
                let total = self.batches.len();
                let mut k: usize = 0;
                while k < expected
                    invariant
                        self.batches@ == all_batches,
                        total == self.batches@.len(),
                        self.token_usage == tokens,
                        self.next_batch == index,
                        self.processed == processed0,
                        k <= expected,
                        expected == batch.len(),
                        index < self.batches@.len(),
                        batch == self.batches@[index as int]@,
                        corrected@.len() == expected,
                        forall|q: int| 0 <= q < expected ==> (#[trigger] corrected@[q])@ == spec_collapse_whitespace(output.corrections@[q].text@),
                        self.updates@.len() == before.len() + k,
                        forall|q: int| 0 <= q < before.len() ==> #[trigger] self.updates@[q] == before[q],
                        forall|q: int| 0 <= q < k ==> {
                            let u = #[trigger] self.updates@[before.len() + q];
                            &&& u.subtitle_id == batch[q].subtitle_id
                            &&& u.expected_text == batch[q].text
                            &&& u.corrected_text@ == spec_collapse_whitespace(output.corrections@[q].text@)
                        },
                    decreases expected - k,
                {
                    let target = &self.batches[index][k];
                    self.updates.push(
                        ClipTextCorrectionUpdate {
                            subtitle_id: target.subtitle_id,
                            expected_text: target.text.clone(),
                            corrected_text: corrected[k].clone(),
                        },
                    );
                    k += 1;
                }
                proof {
                    let bv = spec_batches_view(self.batches@);
                    assert(bv.take(index + 1).drop_last() =~= bv.take(index as int));
                    assert(bv.take(index + 1).last() == batch);
                    let now = spec_concat_batches(bv.take(index + 1));
                    assert(now == done + batch);
                    assert forall|q: int| 0 <= q < now.len() implies {
                        let t = #[trigger] now[q];
                        &&& self.updates@[q].subtitle_id == t.subtitle_id
                        &&& self.updates@[q].expected_text == t.text
                    } by {
                        if q >= done.len() {
                            assert(now[q] == batch[q - done.len()]);
                            assert(self.updates@[before.len() + (q - done.len())] == self.updates@[q]);
                        } else {
                            assert(now[q] == done[q]);
                        }
                    }
                }
                self.processed = self.updates.len();
                self.next_batch = index + 1;
                Ok(())
            },
            Err(_) => {
                Err(
                    CorrectionRunFinish {
                        status: "failed",
                        stage: "validation_failed",
                        processed: self.processed,
                        changed: 0,
                        unchanged: 0,
                        completed_batches: self.next_batch,
                        token_usage: self.token_usage,
                        error: Some(("clip_text_correction_invalid_response", String::from_str("LLM 返回的文本纠错结果无效"))),
                    },
                )
            },
        }
    }

    /// The updates collected, one per processed target, in order.
    pub fn updates(&self) -> (r: &[ClipTextCorrectionUpdate])
        ensures
            r@ == self.spec_updates(),
    {
        self.updates.as_slice()
    }

    /// The record of a run the provider failed in: cancelled when the run was
    /// cancelled meanwhile, failed otherwise.
    pub fn provider_failure(&self, error: &ClipTextCorrectionError, cancelled: bool) -> (r: CorrectionRunFinish)
        ensures
            r.status@ == (if cancelled { "cancelled"@ } else { "failed"@ }),
            r.stage@ == (if cancelled { "cancelled"@ } else { "failed"@ }),
            r.processed == self.spec_processed(),
            r.changed == 0 && r.unchanged == 0,
            r.completed_batches == self.spec_next_batch(),
            r.token_usage == self.spec_token_usage(),
            r.error matches Some((code, message)) && code@ == "clip_text_correction_provider_failed"@ && message@
                == error.spec_message(),
    {
        let status = if cancelled {
            "cancelled"
        } else {
            "failed"
        };
        CorrectionRunFinish {
            status,
            stage: status,
            processed: self.processed,
            changed: 0,
            unchanged: 0,
            completed_batches: self.next_batch,
            token_usage: self.token_usage,
            error: Some(("clip_text_correction_provider_failed", error.message())),
        }
    }

    /// The record of a run cancelled before the current batch (or before saving).
    pub fn cancellation(&self) -> (r: CorrectionRunFinish)
        ensures
            r.status@ == "cancelled"@ && r.stage@ == "cancelled"@,
            r.processed == self.spec_processed(),
            r.changed == 0 && r.unchanged == 0,
            r.completed_batches == self.spec_next_batch(),
            r.token_usage == self.spec_token_usage(),
            r.error matches Some((code, message)) && code@ == "clip_text_correction_cancelled"@ && message@
                == "请求已取消"@,
    {
        CorrectionRunFinish {
            status: "cancelled",
            stage: "cancelled",
            processed: self.processed,
            changed: 0,
            unchanged: 0,
            completed_batches: self.next_batch,
            token_usage: self.token_usage,
            error: Some(("clip_text_correction_cancelled", String::from_str("请求已取消"))),
        }
    }

    /// The record of a run whose corrections could not be saved.
    pub fn saving_failure(&self, error: &AiRepositoryError) -> (r: CorrectionRunFinish)
        ensures
            r.status@ == "failed"@ && r.stage@ == "saving_failed"@,
            r.processed == self.spec_processed(),
            r.changed == 0 && r.unchanged == 0,
            r.completed_batches == self.spec_batches().len(),
            r.token_usage == self.spec_token_usage(),
            r.error matches Some((code, message)) && code@ == "clip_text_correction_commit_failed"@ && message@
                == error.spec_message(),
    {
        CorrectionRunFinish {
            status: "failed",
            stage: "saving_failed",
            processed: self.processed,
            changed: 0,
            unchanged: 0,
            completed_batches: self.batches.len(),
            token_usage: self.token_usage,
            error: Some(("clip_text_correction_commit_failed", error.message())),
        }
    }

    /// The record of a completed run in which `changed` subtitles changed.
    pub fn completion(&self, changed: usize) -> (r: CorrectionRunFinish)
        ensures
            r.status@ == "completed"@ && r.stage@ == "completed"@,
            r.processed == self.spec_processed(),
            r.changed == changed,
            r.unchanged == (if self.spec_processed() >= changed { self.spec_processed() - changed } else { 0 }),
            r.completed_batches == self.spec_batches().len(),
            r.token_usage == self.spec_token_usage(),
            r.error is None,
    {
        CorrectionRunFinish {
            status: "completed",
            stage: "completed",
            processed: self.processed,
            changed,
            unchanged: self.processed.saturating_sub(changed),
            completed_batches: self.batches.len(),
            token_usage: self.token_usage,
            error: None,
        }
    }
}

/// Once every batch is recorded, the updates cover exactly the plan's targets,
/// in order: one update per target, carrying its id and current text.
pub proof fn lemma_finished_run_updates_every_target(run: CorrectionRun, targets: Seq<ClipTextCorrectionTarget>)
    requires
        run.wf(),
        run.spec_batches() == spec_batches(targets, MAX_BATCH_CHARS as nat),
        run.spec_next_batch() == run.spec_batches().len(),
    ensures
        run.spec_updates().len() == targets.len(),
        forall|k: int|
            0 <= k < targets.len() ==> (#[trigger] run.spec_updates()[k]).subtitle_id == targets[k].subtitle_id
                && run.spec_updates()[k].expected_text == targets[k].text,
{
    lemma_batches_preserve_targets(targets, MAX_BATCH_CHARS as nat);
    let b = run.spec_batches();
    assert(b.take(b.len() as int) =~= b);
}

} // verus!
