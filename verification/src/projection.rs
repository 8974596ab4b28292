//! Read-only projections of a project's immutable transcripts for the UI, for
//! copying and for the TXT export, none of which reveals a source path.

use vstd::prelude::*;

use crate::domain::{AiInputSourceKind, AiInputStatus, AiProject, AiProjectInput, TranscriptSegment};
use crate::repository::AiRepositoryError;
use crate::text::{
    concat_str, decimal_int, decimal_padded, from_chars, join, push_string,
    saturating_add_i64, spec_decimal_int, spec_decimal_padded, spec_join, spec_saturating_add_i64,
    spec_trim, strings_view, to_chars, trim,
};

verus! {

#[derive(Debug, Clone, PartialEq, Eq)]
pub enum AiProjectionError {
    Repository(AiRepositoryError),
    InputNotFound,
    Serialization,
}

impl AiProjectionError {
    pub open spec fn spec_message(&self) -> Seq<char> {
        match self {
            AiProjectionError::Repository(e) => e.spec_message(),
            AiProjectionError::InputNotFound => "找不到项目输入"@,
            AiProjectionError::Serialization => "无法生成转写 JSON"@,
        }
    }

    pub fn message(&self) -> (r: String)
        ensures
            r@ == self.spec_message(),
    {
        match self {
            AiProjectionError::Repository(e) => e.message(),
            AiProjectionError::InputNotFound => String::from_str("找不到项目输入"),
            AiProjectionError::Serialization => String::from_str("无法生成转写 JSON"),
        }
    }
}

/// One segment placed on the project timeline; the confidence is kept as `f32` bits.
#[derive(Debug, Clone, PartialEq, Eq)]
pub struct AiTranscriptSegmentProjection {
    pub stable_segment_id: String,
    pub input_id: i64,
    pub video_id: Option<i64>,
    pub source_start_ms: u64,
    pub source_end_ms: u64,
    pub project_start_ms: Option<u64>,
    pub project_end_ms: Option<u64>,
    pub raw_text: String,
    pub normalized_text: String,
    pub confidence_bits: Option<u32>,
}

#[derive(Debug, Clone, PartialEq, Eq)]
pub struct AiTranscriptInputProjection {
    pub input_id: i64,
    pub position: i64,
    pub source_kind: AiInputSourceKind,
    pub video_id: Option<i64>,
    pub display_name: String,
    pub duration_ms: Option<u64>,
    pub project_offset_ms: Option<u64>,
    pub status: AiInputStatus,
    pub progress_percent: u8,
    pub error_code: Option<String>,
    pub error_message: Option<String>,
    /// The hole a failed, cancelled or skipped input without text leaves on the project timeline.
    pub gap_duration_ms: Option<u64>,
    pub segments: Vec<AiTranscriptSegmentProjection>,
}

#[derive(Debug, Clone, PartialEq, Eq)]
pub struct AiTranscriptProjection {
    pub project: AiProject,
    pub inputs: Vec<AiTranscriptInputProjection>,
}

pub open spec fn spec_is_separator(c: char) -> bool {
    c == '/' || c == '\\'
}

/// What follows the last `/` or `\\`, or the whole value.
pub open spec fn spec_last_component(s: Seq<char>) -> Seq<char>
    decreases s.len(),
{
    if s.len() == 0 {
        s
    } else if spec_is_separator(s.last()) {
        Seq::empty()
    } else {
        spec_last_component(s.drop_last()).push(s.last())
    }
}

pub open spec fn spec_flatten_line_break(c: char) -> char {
    if c == '\r' || c == '\n' {
        ' '
    } else {
        c
    }
}

/// The file name of a path, on any platform, on one line.
pub open spec fn spec_safe_display_name(value: Seq<char>) -> Seq<char> {
    spec_last_component(value).map_values(|c: char| spec_flatten_line_break(c))
}

/// `value` with every carriage return and line feed turned into a space.
pub fn flatten_line_breaks(value: &str) -> (r: String)
    ensures
        r@ == value@.map_values(|c: char| spec_flatten_line_break(c)),
{
    let chars = to_chars(value);
    let mut out: Vec<char> = Vec::new();
    let mut i: usize = 0;
    while i < chars.len()
        invariant
            i <= chars@.len(),
            chars@ == value@,
            out@ == value@.take(i as int).map_values(|c: char| spec_flatten_line_break(c)),
        decreases chars.len() - i,
    {
        let c = chars[i];
        if c == '\r' || c == '\n' {
            out.push(' ');
        } else {
            out.push(c);
        }
        assert(value@.take(i + 1).map_values(|c: char| spec_flatten_line_break(c)) =~= value@.take(i as int).map_values(|c: char| spec_flatten_line_break(c)).push(spec_flatten_line_break(c)));
        i += 1;
    }
    assert(value@.take(chars@.len() as int) =~= value@);
    from_chars(out.as_slice())
}

proof fn lemma_last_component_from(s: Seq<char>, k: int)
    requires
        0 <= k <= s.len(),
        forall|j: int| k <= j < s.len() ==> !spec_is_separator(#[trigger] s[j]),
        k == 0 || spec_is_separator(s[k - 1]),
    ensures
        spec_last_component(s) == s.skip(k),
    decreases s.len(),
{
    if s.len() > k {
        lemma_last_component_from(s.drop_last(), k);
        assert(s.drop_last().skip(k).push(s.last()) =~= s.skip(k));
    } else if s.len() > 0 {
        assert(s.skip(k) =~= Seq::<char>::empty());
    }
}

/// The file name of a path (after the last `/` or `\\`) with line breaks turned into spaces.
pub fn safe_display_name(value: &str) -> (r: String)
    ensures
        r@ == spec_safe_display_name(value@),
{
    let chars = to_chars(value);
    let mut k = chars.len();
    let mut found = false;
    while !found && k > 0
        invariant
            k <= chars@.len(),
            chars@ == value@,
            forall|j: int| k <= j < chars@.len() ==> !spec_is_separator(#[trigger] chars@[j]),
            found ==> k > 0 && spec_is_separator(chars@[k - 1]),
        decreases k + if found {
            0int
        } else {
            1int
        },
    {
        if chars[k - 1] == '/' || chars[k - 1] == '\\' {
            found = true;
        } else {
            k -= 1;
        }
    }
    proof {
        lemma_last_component_from(value@, k as int);
    }
    let mut out: Vec<char> = Vec::new();
    let mut i = k;
    while i < chars.len()
        invariant
            k <= i <= chars@.len(),
            chars@ == value@,
            out@ == value@.subrange(k as int, i as int).map_values(|c: char| spec_flatten_line_break(c)),
        decreases chars.len() - i,
    {
        let c = chars[i];
        if c == '\r' || c == '\n' {
            out.push(' ');
        } else {
            out.push(c);
        }
        assert(value@.subrange(k as int, i + 1).map_values(|c: char| spec_flatten_line_break(c)) =~= value@.subrange(k as int, i as int).map_values(|c: char| spec_flatten_line_break(c)).push(spec_flatten_line_break(c)));
        i += 1;
    }
    assert(value@.subrange(k as int, chars@.len() as int) =~= value@.skip(k as int));
    from_chars(out.as_slice())
}

/// `mm:ss.mmm`, or `hh:mm:ss.mmm` from one hour on; each field zero-padded.
pub open spec fn spec_format_timestamp(ms: nat) -> Seq<char> {
    let hours = ms / 3_600_000;
    let minutes = (ms / 60_000) % 60;
    let seconds = (ms / 1_000) % 60;
    let millis = ms % 1_000;
    let tail = spec_decimal_padded(minutes, 2) + ":"@ + spec_decimal_padded(seconds, 2) + "."@
        + spec_decimal_padded(millis, 3);
    if hours > 0 {
        spec_decimal_padded(hours, 2) + ":"@ + tail
    } else {
        tail
    }
}

pub fn format_timestamp(milliseconds: u64) -> (r: String)
    ensures
        r@ == spec_format_timestamp(milliseconds as nat),
{
    let hours = milliseconds / 3_600_000;
    let minutes = (milliseconds / 60_000) % 60;
    let seconds = (milliseconds / 1_000) % 60;
    let millis = milliseconds % 1_000;
    let mut tail = decimal_padded(minutes, 2);
    tail.append(":");
    let s = decimal_padded(seconds, 2);
    tail.append(s.as_str());
    tail.append(".");
    let m = decimal_padded(millis, 3);
    tail.append(m.as_str());
    if hours > 0 {
        let mut r = decimal_padded(hours, 2);
        r.append(":");
        r.append(tail.as_str());
        r
    } else {
        tail
    }
}

pub open spec fn spec_offset_add(offset: Option<u64>, v: u64) -> Option<u64> {
    match offset {
        Some(o) => Some(
            if o + v > u64::MAX {
                u64::MAX
            } else {
                (o + v) as u64
            },
        ),
        None => None,
    }
}

fn offset_add(offset: Option<u64>, v: u64) -> (r: Option<u64>)
    ensures
        r == spec_offset_add(offset, v),
{
    match offset {
        Some(o) => Some(o.saturating_add(v)),
        None => None,
    }
}

/// The projection of `segment` of `input`.
pub open spec fn spec_segment_projection_is(
    out: AiTranscriptSegmentProjection,
    input: AiProjectInput,
    segment: TranscriptSegment,
) -> bool {
    &&& out.stable_segment_id == segment.id
    &&& out.input_id == input.id
    &&& out.video_id == input.video_id
    &&& out.source_start_ms == segment.source_start_ms
    &&& out.source_end_ms == segment.source_end_ms
    &&& out.project_start_ms == spec_offset_add(input.project_offset_ms, segment.source_start_ms)
    &&& out.project_end_ms == spec_offset_add(input.project_offset_ms, segment.source_end_ms)
    &&& out.raw_text == segment.raw_text
    &&& out.normalized_text == segment.normalized_text
    &&& out.confidence_bits == segment.confidence_bits
}

/// Places a segment on the project timeline through the input's offset.
pub fn project_segment(input: &AiProjectInput, segment: TranscriptSegment) -> (r:
    AiTranscriptSegmentProjection)
    ensures
        spec_segment_projection_is(r, *input, segment),
{
    AiTranscriptSegmentProjection {
        stable_segment_id: segment.id,
        input_id: input.id,
        video_id: input.video_id,
        source_start_ms: segment.source_start_ms,
        source_end_ms: segment.source_end_ms,
        project_start_ms: offset_add(input.project_offset_ms, segment.source_start_ms),
        project_end_ms: offset_add(input.project_offset_ms, segment.source_end_ms),
        raw_text: segment.raw_text,
        normalized_text: segment.normalized_text,
        confidence_bits: segment.confidence_bits,
    }
}

/// An input that ended without text keeps its duration as a gap on the timeline.
pub open spec fn spec_gap(input: AiProjectInput, segment_count: nat) -> Option<u64> {
    if segment_count == 0 && (input.status is Failed || input.status is Cancelled
        || input.status is Skipped) {
        input.duration_ms
    } else {
        None
    }
}

/// The projection of `input` with its stored `segments`.
pub open spec fn spec_input_projection_is(
    out: AiTranscriptInputProjection,
    input: AiProjectInput,
    segments: Seq<TranscriptSegment>,
) -> bool {
    &&& out.input_id == input.id
    &&& out.position == input.position
    &&& out.source_kind == input.source_kind
    &&& out.video_id == input.video_id
    &&& out.display_name@ == spec_safe_display_name(input.display_name@)
    &&& out.duration_ms == input.duration_ms
    &&& out.project_offset_ms == input.project_offset_ms
    &&& out.status == input.status
    &&& out.progress_percent == input.progress_percent
    &&& out.error_code == input.last_error_code
    &&& out.error_message == input.last_error_message
    &&& out.gap_duration_ms == spec_gap(input, segments.len())
    &&& out.segments@.len() == segments.len()
    &&& forall|j: int|
        0 <= j < segments.len() ==> spec_segment_projection_is(
            #[trigger] out.segments@[j],
            input,
            segments[j],
        )
}

fn project_input(input: AiProjectInput, segments: Vec<TranscriptSegment>) -> (r:
    AiTranscriptInputProjection)
    ensures
        spec_input_projection_is(r, input, segments@),
{
    let count = segments.len();
    let mut projected: Vec<AiTranscriptSegmentProjection> = Vec::new();
    let mut i: usize = 0;
    while i < segments.len()
        invariant
            i <= segments@.len(),
            projected@.len() == i,
            forall|j: int|
                0 <= j < i ==> spec_segment_projection_is(
                    #[trigger] projected@[j],
                    input,
                    segments@[j],
                ),
        decreases segments.len() - i,
    {
        let segment = TranscriptSegment {
            id: segments[i].id.clone(),
            artifact_id: segments[i].artifact_id,
            ordinal: segments[i].ordinal,
            source_start_ms: segments[i].source_start_ms,
            source_end_ms: segments[i].source_end_ms,
            raw_text: segments[i].raw_text.clone(),
            normalized_text: segments[i].normalized_text.clone(),
            confidence_bits: segments[i].confidence_bits,
        };
        projected.push(project_segment(&input, segment));
        i += 1;
    }
    let ended_without_text = match input.status {
        AiInputStatus::Failed | AiInputStatus::Cancelled | AiInputStatus::Skipped => true,
        _ => false,
    };
    let gap_duration_ms = if count == 0 && ended_without_text {
        input.duration_ms
    } else {
        None
    };
    AiTranscriptInputProjection {
        input_id: input.id,
        position: input.position,
        source_kind: input.source_kind,
        video_id: input.video_id,
        display_name: safe_display_name(input.display_name.as_str()),
        duration_ms: input.duration_ms,
        project_offset_ms: input.project_offset_ms,
        status: input.status,
        progress_percent: input.progress_percent,
        error_code: input.last_error_code,
        error_message: input.last_error_message,
        gap_duration_ms,
        segments: projected,
    }
}

/// The trimmed normalized texts of the segments that are not blank.
pub open spec fn spec_trimmed_texts(segments: Seq<AiTranscriptSegmentProjection>) -> Seq<Seq<char>>
    decreases segments.len(),
{
    if segments.len() == 0 {
        Seq::empty()
    } else {
        let rest = spec_trimmed_texts(segments.drop_last());
        let t = spec_trim(segments.last().normalized_text@);
        if t.len() == 0 {
            rest
        } else {
            rest.push(t)
        }
    }
}

/// An input's text: its non-blank segment texts, trimmed, one per line.
pub open spec fn spec_input_text(input: AiTranscriptInputProjection) -> Seq<char> {
    spec_join(spec_trimmed_texts(input.segments@), "\n"@)
}

fn trimmed_texts(segments: &[AiTranscriptSegmentProjection]) -> (r: Vec<String>)
    ensures
        strings_view(r@) == spec_trimmed_texts(segments@),
{
    let mut out: Vec<String> = Vec::new();
    let mut i: usize = 0;
    while i < segments.len()
        invariant
            i <= segments@.len(),
            strings_view(out@) == spec_trimmed_texts(segments@.take(i as int)),
        decreases segments.len() - i,
    {
        assert(segments@.take(i + 1).drop_last() =~= segments@.take(i as int));
        let t = trim(segments[i].normalized_text.as_str());
        if t.unicode_len() != 0 {
            push_string(&mut out, t);
        }
        i += 1;
    }
    assert(segments@.take(segments@.len() as int) =~= segments@);
    out
}

fn input_text(input: &AiTranscriptInputProjection) -> (r: String)
    ensures
        r@ == spec_input_text(*input),
{
    let texts = trimmed_texts(input.segments.as_slice());
    join(&texts, "\n")
}

/// The segments of all inputs, in order.
pub open spec fn spec_all_segments(inputs: Seq<AiTranscriptInputProjection>) -> Seq<
    AiTranscriptSegmentProjection,
>
    decreases inputs.len(),
{
    if inputs.len() == 0 {
        Seq::empty()
    } else {
        spec_all_segments(inputs.drop_last()) + inputs.last().segments@
    }
}

/// The block of an input in the copied project text.
pub open spec fn spec_project_block(input: AiTranscriptInputProjection) -> Seq<char> {
    let text = spec_input_text(input);
    "【"@ + input.display_name@ + "】\n"@ + if text.len() == 0 {
        "（无可用转写）"@
    } else {
        text
    }
}

/// The TXT lines of an input: a header, then its segments with their times, or
/// the reason it has none, then an empty line.
pub open spec fn spec_input_lines(input: AiTranscriptInputProjection) -> Seq<Seq<char>> {
    seq![
        "=== 视频 "@ + spec_decimal_int(spec_saturating_add_i64(input.position, 1) as int) + "："@
            + input.display_name@ + " ==="@,
    ] + (if input.segments@.len() == 0 {
        seq![
            "（无可用转写："@ + match input.error_message {
                Some(m) => m@,
                None => "没有检测到有效文本"@,
            } + "）"@,
        ]
    } else {
        input.segments@.map_values(
            |s: AiTranscriptSegmentProjection|
                "["@ + spec_format_timestamp(s.source_start_ms as nat) + " - "@
                    + spec_format_timestamp(s.source_end_ms as nat) + "] "@ + spec_trim(
                    s.normalized_text@,
                ),
        )
    }) + seq![Seq::<char>::empty()]
}

pub open spec fn spec_inputs_lines(inputs: Seq<AiTranscriptInputProjection>) -> Seq<Seq<char>>
    decreases inputs.len(),
{
    if inputs.len() == 0 {
        Seq::empty()
    } else {
        spec_inputs_lines(inputs.drop_last()) + spec_input_lines(inputs.last())
    }
}

pub open spec fn spec_txt(p: AiTranscriptProjection) -> Seq<char> {
    spec_join(
        seq!["项目："@ + p.project.name@, Seq::<char>::empty()] + spec_inputs_lines(p.inputs@),
        "\n"@,
    )
}

fn segment_line(s: &AiTranscriptSegmentProjection) -> (r: String)
    ensures
        r@ == "["@ + spec_format_timestamp(s.source_start_ms as nat) + " - "@
            + spec_format_timestamp(s.source_end_ms as nat) + "] "@ + spec_trim(
            s.normalized_text@,
        ),
{
    let mut line = String::from_str("[");
    let start = format_timestamp(s.source_start_ms);
    line.append(start.as_str());
    line.append(" - ");
    let end = format_timestamp(s.source_end_ms);
    line.append(end.as_str());
    line.append("] ");
    let text = trim(s.normalized_text.as_str());
    line.append(text.as_str());
    line
}

fn push_input_lines(lines: &mut Vec<String>, input: &AiTranscriptInputProjection)
    ensures
        strings_view(final(lines)@) == strings_view(old(lines)@) + spec_input_lines(*input),
{
    let ghost start = strings_view(lines@);
    let mut header = String::from_str("=== 视频 ");
    let number = decimal_int(saturating_add_i64(input.position, 1));
    header.append(number.as_str());
    header.append("：");
    header.append(input.display_name.as_str());
    header.append(" ===");
    push_string(lines, header);
    let ghost after_header = strings_view(lines@);
    if input.segments.len() == 0 {
        let mut line = String::from_str("（无可用转写：");
        match &input.error_message {
            Some(m) => line.append(m.as_str()),
            None => line.append("没有检测到有效文本"),
        }
        line.append("）");
        push_string(lines, line);
    } else {
        let mut i: usize = 0;
        while i < input.segments.len()
            invariant
                i <= input.segments@.len(),
                strings_view(lines@) == after_header + input.segments@.take(i as int).map_values(
                    |s: AiTranscriptSegmentProjection|
                        "["@ + spec_format_timestamp(s.source_start_ms as nat) + " - "@
                            + spec_format_timestamp(s.source_end_ms as nat) + "] "@ + spec_trim(
                            s.normalized_text@,
                        ),
                ),
            decreases input.segments.len() - i,
        {
            let line = segment_line(&input.segments[i]);
            push_string(lines, line);
            assert(input.segments@.take(i + 1).map_values(
                |s: AiTranscriptSegmentProjection|
                    "["@ + spec_format_timestamp(s.source_start_ms as nat) + " - "@
                        + spec_format_timestamp(s.source_end_ms as nat) + "] "@ + spec_trim(
                        s.normalized_text@,
                    ),
            ) =~= input.segments@.take(i as int).map_values(
                |s: AiTranscriptSegmentProjection|
                    "["@ + spec_format_timestamp(s.source_start_ms as nat) + " - "@
                        + spec_format_timestamp(s.source_end_ms as nat) + "] "@ + spec_trim(
                        s.normalized_text@,
                    ),
            ).push(
                "["@ + spec_format_timestamp(input.segments@[i as int].source_start_ms as nat)
                    + " - "@ + spec_format_timestamp(input.segments@[i as int].source_end_ms as nat)
                    + "] "@ + spec_trim(input.segments@[i as int].normalized_text@),
            ));
            i += 1;
        }
        assert(input.segments@.take(input.segments@.len() as int) =~= input.segments@);
    }
    push_string(lines, String::new());
    assert(strings_view(lines@) =~= start + spec_input_lines(*input));
}

impl AiTranscriptProjection {
    /// The projection of a project from its inputs, each with its stored segments.
    pub fn from_parts(project: AiProject, parts: Vec<(AiProjectInput, Vec<TranscriptSegment>)>) -> (r:
        AiTranscriptProjection)
        ensures
            r.project == project,
            r.inputs@.len() == parts@.len(),
            forall|k: int|
                0 <= k < parts@.len() ==> spec_input_projection_is(
                    #[trigger] r.inputs@[k],
                    parts@[k].0,
                    parts@[k].1@,
                ),
    {
        let mut inputs: Vec<AiTranscriptInputProjection> = Vec::new();
        let mut rest = parts;
        let ghost all = rest@;
        let mut reversed: Vec<(AiProjectInput, Vec<TranscriptSegment>)> = Vec::new();
        while rest.len() > 0
            invariant
                reversed@.len() + rest@.len() == all.len(),
                rest@ == all.take(rest@.len() as int),
                forall|j: int|
                    0 <= j < reversed@.len() ==> #[trigger] reversed@[j] == all[all.len() - 1 - j],
            decreases rest.len(),
        {
            let part = rest.pop().unwrap();
            assert(rest@ =~= all.take(rest@.len() as int));
            reversed.push(part);
        }
        while reversed.len() > 0
            invariant
                inputs@.len() + reversed@.len() == all.len(),
                forall|j: int|
                    0 <= j < reversed@.len() ==> #[trigger] reversed@[j] == all[all.len() - 1 - j],
                forall|k: int|
                    0 <= k < inputs@.len() ==> spec_input_projection_is(
                        #[trigger] inputs@[k],
                        all[k].0,
                        all[k].1@,
                    ),
            decreases reversed.len(),
        {
            let (input, segments) = reversed.pop().unwrap();
            inputs.push(project_input(input, segments));
        }
        AiTranscriptProjection { project, inputs }
    }

    /// The text of one input, or `InputNotFound`.
    pub fn copy_input_text(&self, input_id: i64) -> (r: Result<String, AiProjectionError>)
        ensures
            (exists|k: int| 0 <= k < self.inputs@.len() && #[trigger] self.inputs@[k].input_id == input_id)
                ==> (r matches Ok(t) && exists|k: int|
                0 <= k < self.inputs@.len() && #[trigger] self.inputs@[k].input_id == input_id && (
                forall|j: int| 0 <= j < k ==> self.inputs@[j].input_id != input_id) && t@
                == spec_input_text(self.inputs@[k])),
            !(exists|k: int| 0 <= k < self.inputs@.len() && #[trigger] self.inputs@[k].input_id == input_id)
                ==> r == Err::<String, AiProjectionError>(AiProjectionError::InputNotFound),
    {
        let mut i: usize = 0;
        while i < self.inputs.len()
            invariant
                i <= self.inputs@.len(),
                forall|j: int| 0 <= j < i ==> (#[trigger] self.inputs@[j]).input_id != input_id,
            decreases self.inputs.len() - i,
        {
            if self.inputs[i].input_id == input_id {
                let t = input_text(&self.inputs[i]);
                assert(self.inputs@[i as int].input_id == input_id);
                return Ok(t);
            }
            i += 1;
        }
        Err(AiProjectionError::InputNotFound)
    }

    /// The normalized text of the first segment with that stable id, or `InputNotFound`.
    pub fn copy_segment_text(&self, stable_segment_id: &str) -> (r: Result<String, AiProjectionError>)
        ensures
            ({
                let all = spec_all_segments(self.inputs@);
                &&& (exists|k: int| 0 <= k < all.len() && (#[trigger] all[k]).stable_segment_id@ == stable_segment_id@)
                    ==> (r matches Ok(t) && exists|k: int|
                    0 <= k < all.len() && (#[trigger] all[k]).stable_segment_id@ == stable_segment_id@ && (
                    forall|j: int| 0 <= j < k ==> all[j].stable_segment_id@ != stable_segment_id@)
                    && t == all[k].normalized_text)
                &&& !(exists|k: int| 0 <= k < all.len() && (#[trigger] all[k]).stable_segment_id@ == stable_segment_id@)
                    ==> r == Err::<String, AiProjectionError>(AiProjectionError::InputNotFound)
            }),
    {
        let ghost all = spec_all_segments(self.inputs@);
        let mut i: usize = 0;
        while i < self.inputs.len()
            invariant
                i <= self.inputs@.len(),
                all == spec_all_segments(self.inputs@),
                forall|j: int|
                    0 <= j < spec_all_segments(self.inputs@.take(i as int)).len() ==> (
                    #[trigger] spec_all_segments(self.inputs@.take(i as int))[j]).stable_segment_id@
                        != stable_segment_id@,
            decreases self.inputs.len() - i,
        {
            let ghost done = spec_all_segments(self.inputs@.take(i as int));
            proof {
                assert(self.inputs@.take(i + 1).drop_last() =~= self.inputs@.take(i as int));
                lemma_all_segments_skip(self.inputs@, i as int);
                lemma_all_segments_prefix(self.inputs@, i + 1);
            }
            let segments = &self.inputs[i].segments;
            let mut j: usize = 0;
            while j < segments.len()
                invariant
                    j <= segments@.len(),
                    segments@ == self.inputs@[i as int].segments@,
                    i < self.inputs@.len(),
                    all == spec_all_segments(self.inputs@),
                    done + segments@ == spec_all_segments(self.inputs@.take(i + 1)),
                    (done + segments@).len() <= all.len(),
                    forall|q: int|
                        0 <= q < (done + segments@).len() ==> #[trigger] (done + segments@)[q] == all[q],
                    forall|q: int| 0 <= q < done.len() ==> (#[trigger] done[q]).stable_segment_id@ != stable_segment_id@,
                    forall|q: int| 0 <= q < j ==> (#[trigger] segments@[q]).stable_segment_id@ != stable_segment_id@,
                decreases segments.len() - j,
            {
                if crate::text::str_eq(segments[j].stable_segment_id.as_str(), stable_segment_id) {
                    proof {
                        let k = done.len() + j;
                        assert((done + segments@)[k] == segments@[j as int]);
                        assert(all[k] == segments@[j as int]);
                        assert forall|q: int| 0 <= q < k implies all[q].stable_segment_id@
                            != stable_segment_id@ by {
                            assert((done + segments@)[q] == all[q]);
                            if q >= done.len() {
                                assert((done + segments@)[q] == segments@[q - done.len()]);
                            } else {
                                assert((done + segments@)[q] == done[q]);
                            }
                        }
                    }
                    return Ok(segments[j].normalized_text.clone());
                }
                j += 1;
            }
            proof {
                let next = spec_all_segments(self.inputs@.take(i + 1));
                assert(next == done + segments@);
                assert forall|q: int| 0 <= q < next.len() implies (#[trigger] next[q]).stable_segment_id@
                    != stable_segment_id@ by {
                    if q >= done.len() {
                        assert(next[q] == segments@[q - done.len()]);
                    } else {
                        assert(next[q] == done[q]);
                    }
                }
            }
            i += 1;
        }
        proof {
            assert(self.inputs@.take(self.inputs@.len() as int) =~= self.inputs@);
        }
        Err(AiProjectionError::InputNotFound)
    }

    /// Every input as a block `【name】` followed by its text, or a note that it
    /// has none; blocks separated by an empty line.
    pub fn copy_project_text(&self) -> (r: String)
        ensures
            r@ == spec_join(
                self.inputs@.map_values(|i: AiTranscriptInputProjection| spec_project_block(i)),
                "\n\n"@,
            ),
    {
        let mut blocks: Vec<String> = Vec::new();
        let mut i: usize = 0;
        while i < self.inputs.len()
            invariant
                i <= self.inputs@.len(),
                strings_view(blocks@) == self.inputs@.take(i as int).map_values(
                    |i: AiTranscriptInputProjection| spec_project_block(i),
                ),
            decreases self.inputs.len() - i,
        {
            let input = &self.inputs[i];
            let text = input_text(input);
            let mut block = String::from_str("【");
            block.append(input.display_name.as_str());
            block.append("】\n");
            if text.unicode_len() == 0 {
                block.append("（无可用转写）");
            } else {
                block.append(text.as_str());
            }
            push_string(&mut blocks, block);
            assert(self.inputs@.take(i + 1).map_values(
                |i: AiTranscriptInputProjection| spec_project_block(i),
            ) =~= self.inputs@.take(i as int).map_values(
                |i: AiTranscriptInputProjection| spec_project_block(i),
            ).push(spec_project_block(self.inputs@[i as int])));
            i += 1;
        }
        assert(self.inputs@.take(self.inputs@.len() as int) =~= self.inputs@);
        join(&blocks, "\n\n")
    }

    /// The TXT export: the project name, an empty line, then each input's lines.
    pub fn to_txt(&self) -> (r: String)
        ensures
            r@ == spec_txt(*self),
    {
        let mut lines: Vec<String> = Vec::new();
        push_string(&mut lines, concat_str("项目：", self.project.name.as_str()));
        push_string(&mut lines, String::new());
        let mut i: usize = 0;
        while i < self.inputs.len()
            invariant
                i <= self.inputs@.len(),
                strings_view(lines@) == seq!["项目："@ + self.project.name@, Seq::<char>::empty()]
                    + spec_inputs_lines(self.inputs@.take(i as int)),
            decreases self.inputs.len() - i,
        {
            assert(self.inputs@.take(i + 1).drop_last() =~= self.inputs@.take(i as int));
            push_input_lines(&mut lines, &self.inputs[i]);
            i += 1;
        }
        assert(self.inputs@.take(self.inputs@.len() as int) =~= self.inputs@);
        join(&lines, "\n")
    }
}

proof fn lemma_all_segments_prefix(inputs: Seq<AiTranscriptInputProjection>, m: int)
    requires
        0 <= m <= inputs.len(),
    ensures
        spec_all_segments(inputs.take(m)).len() <= spec_all_segments(inputs).len(),
        forall|q: int|
            0 <= q < spec_all_segments(inputs.take(m)).len() ==> #[trigger] spec_all_segments(
                inputs.take(m),
            )[q] == spec_all_segments(inputs)[q],
    decreases inputs.len(),
{
    if m == inputs.len() {
        assert(inputs.take(m) =~= inputs);
    } else {
        lemma_all_segments_prefix(inputs.drop_last(), m);
        assert(inputs.drop_last().take(m) =~= inputs.take(m));
    }
}

proof fn lemma_all_segments_skip(inputs: Seq<AiTranscriptInputProjection>, i: int)
    requires
        0 <= i < inputs.len(),
    ensures
        spec_all_segments(inputs.take(i + 1)) == spec_all_segments(inputs.take(i)) + inputs[i].segments@,
{
    assert(inputs.take(i + 1).drop_last() =~= inputs.take(i));
}

} // verus!
