//! Planning of the controlled FFmpeg export of a clip project. Only frozen
//! sources from the repository and the built-in effects reach the arguments.

use vstd::prelude::*;

use crate::domain::{AiClipEffect, AiClipSegment, AiClipSubtitle, SourceFingerprint};
use crate::text::{
    decimal, decimal_padded, join, push_string, spec_decimal, spec_decimal_padded, spec_join,
    str_eq, strings_view,
};

verus! {

#[derive(Debug, Clone, PartialEq, Eq)]
pub struct ClipExportPlan {
    pub arguments: Vec<String>,
    pub temporary_output: String,
    pub total_duration_ms: u64,
}

/// The frame size of the export, taken from the first source so that the concat filter sees one size.
#[derive(Debug, Clone, Copy, PartialEq, Eq, Structural)]
pub struct ClipOutputDimensions {
    pub width: u32,
    pub height: u32,
}

#[derive(Debug, Clone, PartialEq, Eq)]
pub struct ClipExportFailure {
    pub code: &'static str,
    pub message: String,
}

/// A transition clip placed after a segment.
#[derive(Debug, Clone, PartialEq, Eq)]
pub struct ClipExportBridge {
    pub boundary_id: i64,
    pub asset_key: String,
    pub asset_version: i64,
    pub source_path: String,
    pub duration_ms: u64,
    pub has_audio: bool,
}

/// One segment of a clip project with its frozen source and subtitles.
#[derive(Debug, Clone, PartialEq, Eq)]
pub struct ClipExportSource {
    pub segment: AiClipSegment,
    pub source_path: String,
    pub source_fingerprint: SourceFingerprint,
    pub subtitles: Vec<AiClipSubtitle>,
    pub bridge_after: Option<ClipExportBridge>,
}

pub fn failure(code: &'static str, message: String) -> (r: ClipExportFailure)
    ensures
        r.code == code,
        r.message == message,
{
    ClipExportFailure { code, message }
}

pub open spec fn spec_failure_is(r: ClipExportFailure, code: Seq<char>, message: Seq<char>) -> bool {
    r.code@ == code && r.message@ == message
}

/// Every segment must carry subtitles before it can be exported.
pub fn validate_export_subtitles(sources: &[ClipExportSource]) -> (r: Result<(), ClipExportFailure>)
    ensures
        r is Ok <==> forall|i: int| 0 <= i < sources@.len() ==> (#[trigger] sources@[i]).subtitles@.len() > 0,
        r matches Err(f) ==> spec_failure_is(f, "subtitles_incomplete"@,
            "剪辑片段缺少 ASR 字幕，请先完成识别或移除该片段"@),
{
    let mut i: usize = 0;
    while i < sources.len()
        invariant
            i <= sources@.len(),
            forall|k: int| 0 <= k < i ==> (#[trigger] sources@[k]).subtitles@.len() > 0,
        decreases sources.len() - i,
    {
        if sources[i].subtitles.len() == 0 {
            return Err(
                failure(
                    "subtitles_incomplete",
                    String::from_str("剪辑片段缺少 ASR 字幕，请先完成识别或移除该片段"),
                ),
            );
        }
        i += 1;
    }
    Ok(())
}

/// yuv420p needs even sizes: an odd size is rounded up to the next even one.
pub fn normalize_dimension(value: u32) -> (r: Result<u32, ClipExportFailure>)
    ensures
        value % 2 == 0 ==> r == Ok::<u32, ClipExportFailure>(value),
        value % 2 == 1 && value < u32::MAX ==> r == Ok::<u32, ClipExportFailure>((value + 1) as u32),
        value == u32::MAX ==> (r matches Err(f) && spec_failure_is(f, "source_invalid"@,
            "来源视频的画面尺寸无效"@)),
{
    if value % 2 == 0 {
        return Ok(value);
    }
    match value.checked_add(1) {
        Some(v) => Ok(v),
        None => Err(failure("source_invalid", String::from_str("来源视频的画面尺寸无效"))),
    }
}

/// Milliseconds written as seconds with three decimals, as `{:.3}` writes `ms / 1000.0`.
pub open spec fn spec_seconds(ms: nat) -> Seq<char> {
    spec_decimal(ms / 1000) + "."@ + spec_decimal_padded(ms % 1000, 3)
}

pub fn format_seconds(milliseconds: u64) -> (r: String)
    ensures
        r@ == spec_seconds(milliseconds as nat),
{
    let mut s = decimal(milliseconds / 1000);
    s.append(".");
    let fraction = decimal_padded(milliseconds % 1000, 3);
    s.append(fraction.as_str());
    s
}

/// A volume percentage written as a factor with two decimals, as `{:.2}` writes `percent / 100.0`.
pub open spec fn spec_volume(percent: nat) -> Seq<char> {
    spec_decimal(percent / 100) + "."@ + spec_decimal_padded(percent % 100, 2)
}

fn format_volume(percent: u16) -> (r: String)
    ensures
        r@ == spec_volume(percent as nat),
{
    let mut s = decimal((percent / 100) as u64);
    s.append(".");
    let fraction = decimal_padded((percent % 100) as u64, 2);
    s.append(fraction.as_str());
    s
}

/// The fade length: the segment duration clamped to 10..=350 milliseconds.
pub open spec fn spec_fade_ms(duration_ms: nat) -> nat {
    if duration_ms < 10 {
        10
    } else if duration_ms > 350 {
        350
    } else {
        duration_ms
    }
}

/// When the fade-out starts: the duration minus the fade, never before zero.
pub open spec fn spec_fade_out_start_ms(duration_ms: nat) -> nat {
    if duration_ms >= spec_fade_ms(duration_ms) {
        (duration_ms - spec_fade_ms(duration_ms)) as nat
    } else {
        0
    }
}

/// The built-in filter text for an effect; nothing else is ever spliced into the filter graph.
pub open spec fn spec_effect_filter(effect: AiClipEffect, duration_ms: nat) -> Seq<char> {
    let fade = spec_seconds(spec_fade_ms(duration_ms));
    let out_start = spec_seconds(spec_fade_out_start_ms(duration_ms));
    match effect {
        AiClipEffect::NoEffect => Seq::empty(),
        AiClipEffect::FadeIn => ",fade=t=in:st=0:d="@ + fade,
        AiClipEffect::FadeOut => ",fade=t=out:st="@ + out_start + ":d="@ + fade,
        AiClipEffect::FadeInOut => ",fade=t=in:st=0:d="@ + fade + ",fade=t=out:st="@ + out_start
            + ":d="@ + fade,
        AiClipEffect::Flash => ",fade=t=in:st=0:d="@ + fade + ":color=white"@,
        AiClipEffect::Black => ",fade=t=in:st=0:d="@ + fade + ":color=black"@,
    }
}

/// A fade-out ends with its segment: for a segment of at least 10 ms the
/// filter fades out for `length` milliseconds starting `start` milliseconds
/// in, where the length is the duration held to 10..=350 ms and start plus
/// length is the whole duration. A fade-in starts at the segment's start.
pub proof fn lemma_fade_out_ends_with_the_segment(duration_ms: nat)
    requires
        duration_ms >= 10,
    ensures
        exists|start: nat, length: nat|
            {
                &&& start + length == duration_ms
                &&& 10 <= length <= 350
                &&& (length == duration_ms || (duration_ms > 350 && length == 350))
                &&& #[trigger] spec_effect_filter(AiClipEffect::FadeOut, duration_ms) == ",fade=t=out:st="@
                    + spec_seconds(start) + ":d="@ + spec_seconds(length)
                &&& spec_effect_filter(AiClipEffect::FadeIn, duration_ms) == ",fade=t=in:st=0:d="@
                    + spec_seconds(length)
            },
{
    let length = spec_fade_ms(duration_ms);
    let start = (duration_ms - length) as nat;
    assert(start + length == duration_ms);
    assert(spec_effect_filter(AiClipEffect::FadeOut, duration_ms) == ",fade=t=out:st="@ + spec_seconds(
        start,
    ) + ":d="@ + spec_seconds(length));
}

fn visual_filter(effect: AiClipEffect, duration_ms: u64) -> (r: String)
    ensures
        r@ == spec_effect_filter(effect, duration_ms as nat),
{
    let fade_ms: u64 = if duration_ms < 10 {
        10
    } else if duration_ms > 350 {
        350
    } else {
        duration_ms
    };
    let out_ms: u64 = if duration_ms >= fade_ms {
        duration_ms - fade_ms
    } else {
        0
    };
    let fade = format_seconds(fade_ms);
    let out_start = format_seconds(out_ms);
    match effect {
        AiClipEffect::NoEffect => String::new(),
        AiClipEffect::FadeIn => {
            let mut s = String::from_str(",fade=t=in:st=0:d=");
            s.append(fade.as_str());
            s
        },
        AiClipEffect::FadeOut => {
            let mut s = String::from_str(",fade=t=out:st=");
            s.append(out_start.as_str());
            s.append(":d=");
            s.append(fade.as_str());
            s
        },
        AiClipEffect::FadeInOut => {
            let mut s = String::from_str(",fade=t=in:st=0:d=");
            s.append(fade.as_str());
            s.append(",fade=t=out:st=");
            s.append(out_start.as_str());
            s.append(":d=");
            s.append(fade.as_str());
            s
        },
        AiClipEffect::Flash => {
            let mut s = String::from_str(",fade=t=in:st=0:d=");
            s.append(fade.as_str());
            s.append(":color=white");
            s
        },
        AiClipEffect::Black => {
            let mut s = String::from_str(",fade=t=in:st=0:d=");
            s.append(fade.as_str());
            s.append(":color=black");
            s
        },
    }
}

} // verus!

verus! {

/// The segment's length; meaningful when its end does not precede its start.
pub open spec fn spec_duration(source: ClipExportSource) -> nat {
    (source.segment.source_end_ms - source.segment.source_start_ms) as nat
}

pub open spec fn spec_segment_ok(source: ClipExportSource) -> bool {
    source.segment.source_end_ms >= source.segment.source_start_ms
}

/// The video chain of input `index`: scaled and padded to the output size, square pixels, yuv420p, plus its effect.
pub open spec fn spec_video_filter(index: nat, dims: ClipOutputDimensions, source: ClipExportSource) -> Seq<char> {
    let w = spec_decimal(dims.width as nat);
    let h = spec_decimal(dims.height as nat);
    let i = spec_decimal(index);
    "["@ + i + ":v]setpts=PTS-STARTPTS,scale="@ + w + ":"@ + h
        + ":force_original_aspect_ratio=decrease,pad="@ + w + ":"@ + h
        + ":(ow-iw)/2:(oh-ih)/2:color=black,setsar=1,format=yuv420p"@ + spec_effect_filter(
        source.segment.effect,
        spec_duration(source),
    ) + "[v"@ + i + "]"@
}

/// The audio chain of input `index`: 48 kHz stereo at the segment's volume.
pub open spec fn spec_audio_filter(index: nat, source: ClipExportSource) -> Seq<char> {
    let i = spec_decimal(index);
    "["@ + i + ":a]asetpts=PTS-STARTPTS,aformat=sample_rates=48000:channel_layouts=stereo,volume="@
        + spec_volume(source.segment.volume_percent as nat) + "[a"@ + i + "]"@
}

/// The input arguments for the sources: seek, length and path of each.
pub open spec fn spec_source_arguments(sources: Seq<ClipExportSource>) -> Seq<Seq<char>>
    decreases sources.len(),
{
    if sources.len() == 0 {
        Seq::empty()
    } else {
        let s = sources.last();
        spec_source_arguments(sources.drop_last()) + seq![
            "-ss"@,
            spec_seconds(s.segment.source_start_ms as nat),
            "-t"@,
            spec_seconds(spec_duration(s)),
            "-i"@,
            s.source_path@,
        ]
    }
}

/// The video and audio chain of each source, in order.
pub open spec fn spec_source_filters(sources: Seq<ClipExportSource>, dims: ClipOutputDimensions) -> Seq<Seq<char>>
    decreases sources.len(),
{
    if sources.len() == 0 {
        Seq::empty()
    } else {
        let n = (sources.len() - 1) as nat;
        spec_source_filters(sources.drop_last(), dims) + seq![
            spec_video_filter(n, dims, sources.last()),
            spec_audio_filter(n, sources.last()),
        ]
    }
}

/// The concat filter's inputs `[v0][a0][v1][a1]...`.
pub open spec fn spec_concat_inputs(count: nat) -> Seq<char>
    decreases count,
{
    if count == 0 {
        Seq::empty()
    } else {
        let i = spec_decimal((count - 1) as nat);
        spec_concat_inputs((count - 1) as nat) + "[v"@ + i + "][a"@ + i + "]"@
    }
}

/// The summed duration, saturating at `u64::MAX`.
pub open spec fn spec_total_duration(sources: Seq<ClipExportSource>) -> u64
    decreases sources.len(),
{
    if sources.len() == 0 {
        0
    } else {
        let before = spec_total_duration(sources.drop_last());
        let d = spec_duration(sources.last());
        if before + d > u64::MAX {
            u64::MAX
        } else {
            (before + d) as u64
        }
    }
}

/// The subtitle overlay's distance from the bottom: 4% of the height, rounded.
pub open spec fn spec_bottom_margin(height: nat) -> nat {
    (4 * height + 50) / 100
}

/// The whole filter graph, parts joined by `;`.
pub open spec fn spec_filter_graph(sources: Seq<ClipExportSource>, dims: ClipOutputDimensions) -> Seq<char> {
    let n = spec_decimal(sources.len());
    spec_join(
        spec_source_filters(sources, dims) + seq![
            spec_concat_inputs(sources.len()) + "concat=n="@ + n + ":v=1:a=1[vjoined][aout]"@,
            "["@ + n + ":v]format=rgba,setpts=PTS-STARTPTS[subtitles]"@,
            "[vjoined][subtitles]overlay=0:H-h-"@ + spec_decimal(spec_bottom_margin(dims.height as nat))
                + ":format=auto:eof_action=pass[vout]"@,
        ],
        ";"@,
    )
}

/// The encoders the export may use.
pub open spec fn spec_encoder_allowed(encoder: Seq<char>) -> bool {
    encoder == "h264_videotoolbox"@ || encoder == "h264_mf"@ || encoder == "libx264"@
}

/// The complete FFmpeg argument list of an export.
pub open spec fn spec_export_arguments(
    sources: Seq<ClipExportSource>,
    output: Seq<char>,
    dims: ClipOutputDimensions,
    manifest: Seq<char>,
    encoder: Seq<char>,
) -> Seq<Seq<char>> {
    seq!["-y"@, "-hide_banner"@, "-nostdin"@] + spec_source_arguments(sources) + seq![
        "-f"@,
        "concat"@,
        "-safe"@,
        "0"@,
        "-i"@,
        manifest,
    ] + seq![
        "-filter_complex"@,
        spec_filter_graph(sources, dims),
        "-map"@,
        "[vout]"@,
        "-map"@,
        "[aout]"@,
        "-c:v"@,
        encoder,
    ] + (if encoder == "h264_videotoolbox"@ {
        seq!["-allow_sw"@, "1"@]
    } else {
        Seq::empty()
    }) + seq![
        "-pix_fmt"@,
        "yuv420p"@,
        "-movflags"@,
        "+faststart"@,
        "-c:a"@,
        "aac"@,
        "-b:a"@,
        "192k"@,
        "-progress"@,
        "pipe:1"@,
        "-nostats"@,
        "-f"@,
        "mp4"@,
        output,
    ]
}

fn video_filter_part(index: usize, dims: ClipOutputDimensions, source: &ClipExportSource) -> (r: String)
    requires
        spec_segment_ok(*source),
    ensures
        r@ == spec_video_filter(index as nat, dims, *source),
{
    let i = decimal(index as u64);
    let w = decimal(dims.width as u64);
    let h = decimal(dims.height as u64);
    let effect = visual_filter(
        source.segment.effect,
        source.segment.source_end_ms - source.segment.source_start_ms,
    );
    let mut s = String::from_str("[");
    s.append(i.as_str());
    s.append(":v]setpts=PTS-STARTPTS,scale=");
    s.append(w.as_str());
    s.append(":");
    s.append(h.as_str());
    s.append(":force_original_aspect_ratio=decrease,pad=");
    s.append(w.as_str());
    s.append(":");
    s.append(h.as_str());
    s.append(":(ow-iw)/2:(oh-ih)/2:color=black,setsar=1,format=yuv420p");
    s.append(effect.as_str());
    s.append("[v");
    s.append(i.as_str());
    s.append("]");
    s
}

fn audio_filter_part(index: usize, source: &ClipExportSource) -> (r: String)
    ensures
        r@ == spec_audio_filter(index as nat, *source),
{
    let i = decimal(index as u64);
    let volume = format_volume(source.segment.volume_percent);
    let mut s = String::from_str("[");
    s.append(i.as_str());
    s.append(
        ":a]asetpts=PTS-STARTPTS,aformat=sample_rates=48000:channel_layouts=stereo,volume=",
    );
    s.append(volume.as_str());
    s.append("[a");
    s.append(i.as_str());
    s.append("]");
    s
}

} // verus!

verus! {

fn push_literal(v: &mut Vec<String>, s: &str)
    ensures
        strings_view(final(v)@) == strings_view(old(v)@).push(s@),
{
    push_string(v, String::from_str(s));
}

/// The per-source input arguments, filter chains, concat inputs and total
/// duration; `None` when some segment ends before it starts.
fn source_parts(sources: &[ClipExportSource], output_dimensions: ClipOutputDimensions) -> (r: Option<
    (Vec<String>, Vec<String>, String, u64),
>)
    ensures
        r is Some <==> forall|i: int| 0 <= i < sources@.len() ==> spec_segment_ok(#[trigger] sources@[i]),
        r matches Some(parts) ==> {
            &&& strings_view(parts.0@) == spec_source_arguments(sources@)
            &&& strings_view(parts.1@) == spec_source_filters(sources@, output_dimensions)
            &&& parts.2@ == spec_concat_inputs(sources@.len())
            &&& parts.3 == spec_total_duration(sources@)
        },
{
    let mut arguments: Vec<String> = Vec::new();
    let mut filter_parts: Vec<String> = Vec::new();
    let mut concat_inputs = String::new();
    let mut total_duration_ms: u64 = 0;
    let mut index: usize = 0;
    assert(sources@.take(0) =~= Seq::<ClipExportSource>::empty());
    assert(strings_view(arguments@) =~= Seq::<Seq<char>>::empty());
    assert(strings_view(filter_parts@) =~= Seq::<Seq<char>>::empty());
    while index < sources.len()
        invariant
            index <= sources@.len(),
            strings_view(arguments@) == spec_source_arguments(sources@.take(index as int)),
            strings_view(filter_parts@) == spec_source_filters(
                sources@.take(index as int),
                output_dimensions,
            ),
            concat_inputs@ == spec_concat_inputs(index as nat),
            total_duration_ms == spec_total_duration(sources@.take(index as int)),
            forall|k: int| 0 <= k < index ==> spec_segment_ok(#[trigger] sources@[k]),
        decreases sources.len() - index,
    {
        let source = &sources[index];
        assert(sources@.take(index + 1).drop_last() =~= sources@.take(index as int));
        assert(sources@.take(index + 1).last() == sources@[index as int]);
        let duration_ms = match source.segment.source_end_ms.checked_sub(
            source.segment.source_start_ms,
        ) {
            Some(d) => d,
            None => {
                return None;
            },
        };
        total_duration_ms = total_duration_ms.saturating_add(duration_ms);
        push_literal(&mut arguments, "-ss");
        push_string(&mut arguments, format_seconds(source.segment.source_start_ms));
        push_literal(&mut arguments, "-t");
        push_string(&mut arguments, format_seconds(duration_ms));
        push_literal(&mut arguments, "-i");
        push_string(&mut arguments, source.source_path.clone());
        assert(strings_view(arguments@) =~= spec_source_arguments(sources@.take(index + 1)));
        push_string(&mut filter_parts, video_filter_part(index, output_dimensions, source));
        push_string(&mut filter_parts, audio_filter_part(index, source));
        assert(strings_view(filter_parts@) =~= spec_source_filters(
            sources@.take(index + 1),
            output_dimensions,
        ));
        let i = decimal(index as u64);
        concat_inputs.append("[v");
        concat_inputs.append(i.as_str());
        concat_inputs.append("][a");
        concat_inputs.append(i.as_str());
        concat_inputs.append("]");
        index += 1;
    }
    assert(sources@.take(sources@.len() as int) =~= sources@);
    Some((arguments, filter_parts, concat_inputs, total_duration_ms))
}

/// Completes the per-source filter chains into the joined filter graph.
fn filter_graph(
    sources: &[ClipExportSource],
    output_dimensions: ClipOutputDimensions,
    filters: Vec<String>,
    concat_inputs: String,
) -> (r: String)
    requires
        strings_view(filters@) == spec_source_filters(sources@, output_dimensions),
        concat_inputs@ == spec_concat_inputs(sources@.len()),
    ensures
        r@ == spec_filter_graph(sources@, output_dimensions),
{
    let mut filter_parts = filters;
    let count = decimal(sources.len() as u64);
    let mut concat_part = concat_inputs;
    concat_part.append("concat=n=");
    concat_part.append(count.as_str());
    concat_part.append(":v=1:a=1[vjoined][aout]");
    push_string(&mut filter_parts, concat_part);
    let mut subtitle_part = String::from_str("[");
    subtitle_part.append(count.as_str());
    subtitle_part.append(":v]format=rgba,setpts=PTS-STARTPTS[subtitles]");
    push_string(&mut filter_parts, subtitle_part);
    let margin = decimal((4 * (output_dimensions.height as u64) + 50) / 100);
    let mut overlay_part = String::from_str("[vjoined][subtitles]overlay=0:H-h-");
    overlay_part.append(margin.as_str());
    overlay_part.append(":format=auto:eof_action=pass[vout]");
    push_string(&mut filter_parts, overlay_part);
    assert(strings_view(filter_parts@) =~= spec_source_filters(sources@, output_dimensions) + seq![
        spec_concat_inputs(sources@.len()) + "concat=n="@ + spec_decimal(sources@.len())
            + ":v=1:a=1[vjoined][aout]"@,
        "["@ + spec_decimal(sources@.len()) + ":v]format=rgba,setpts=PTS-STARTPTS[subtitles]"@,
        "[vjoined][subtitles]overlay=0:H-h-"@ + spec_decimal(
            spec_bottom_margin(output_dimensions.height as nat),
        ) + ":format=auto:eof_action=pass[vout]"@,
    ]);
    join(&filter_parts, ";")
}

/// The arguments after the inputs: the subtitle input, the graph, the encoders and the output.
#[verifier::rlimit(50)]
#[verifier::spinoff_prover]
fn tail_arguments(
    arguments: &mut Vec<String>,
    graph: String,
    subtitle_manifest: &str,
    video_encoder: &str,
    temporary_output: &String,
)
    ensures
        strings_view(final(arguments)@) == strings_view(old(arguments)@) + seq![
            "-f"@,
            "concat"@,
            "-safe"@,
            "0"@,
            "-i"@,
            subtitle_manifest@,
        ] + seq![
            "-filter_complex"@,
            graph@,
            "-map"@,
            "[vout]"@,
            "-map"@,
            "[aout]"@,
            "-c:v"@,
            video_encoder@,
        ] + (if video_encoder@ == "h264_videotoolbox"@ {
            seq!["-allow_sw"@, "1"@]
        } else {
            Seq::empty()
        }) + seq![
            "-pix_fmt"@,
            "yuv420p"@,
            "-movflags"@,
            "+faststart"@,
            "-c:a"@,
            "aac"@,
            "-b:a"@,
            "192k"@,
            "-progress"@,
            "pipe:1"@,
            "-nostats"@,
            "-f"@,
            "mp4"@,
            temporary_output@,
        ],
{
    let ghost start = strings_view(arguments@);
    push_literal(arguments, "-f");
    push_literal(arguments, "concat");
    push_literal(arguments, "-safe");
    push_literal(arguments, "0");
    push_literal(arguments, "-i");
    push_string(arguments, String::from_str(subtitle_manifest));
    let ghost a1 = strings_view(arguments@);
    assert(a1 =~= start + seq!["-f"@, "concat"@, "-safe"@, "0"@, "-i"@, subtitle_manifest@]);
    let ghost graph_view = graph@;
    push_literal(arguments, "-filter_complex");
    push_string(arguments, graph);
    push_literal(arguments, "-map");
    push_literal(arguments, "[vout]");
    push_literal(arguments, "-map");
    push_literal(arguments, "[aout]");
    push_literal(arguments, "-c:v");
    push_string(arguments, String::from_str(video_encoder));
    let ghost a2 = strings_view(arguments@);
    assert(a2 =~= a1 + seq![
        "-filter_complex"@,
        graph_view,
        "-map"@,
        "[vout]"@,
        "-map"@,
        "[aout]"@,
        "-c:v"@,
        video_encoder@,
    ]);
    if str_eq(video_encoder, "h264_videotoolbox") {
        push_literal(arguments, "-allow_sw");
        push_literal(arguments, "1");
    }
    let ghost a3 = strings_view(arguments@);
    assert(a3 =~= a2 + (if video_encoder@ == "h264_videotoolbox"@ {
        seq!["-allow_sw"@, "1"@]
    } else {
        Seq::empty()
    }));
    push_literal(arguments, "-pix_fmt");
    push_literal(arguments, "yuv420p");
    push_literal(arguments, "-movflags");
    push_literal(arguments, "+faststart");
    push_literal(arguments, "-c:a");
    push_literal(arguments, "aac");
    push_literal(arguments, "-b:a");
    push_literal(arguments, "192k");
    push_literal(arguments, "-progress");
    push_literal(arguments, "pipe:1");
    push_literal(arguments, "-nostats");
    push_literal(arguments, "-f");
    push_literal(arguments, "mp4");
    push_string(arguments, temporary_output.clone());
    assert(strings_view(arguments@) =~= a3 + seq![
        "-pix_fmt"@,
        "yuv420p"@,
        "-movflags"@,
        "+faststart"@,
        "-c:a"@,
        "aac"@,
        "-b:a"@,
        "192k"@,
        "-progress"@,
        "pipe:1"@,
        "-nostats"@,
        "-f"@,
        "mp4"@,
        temporary_output@,
    ]);
}

pub fn build_export_plan(
    sources: &[ClipExportSource],
    temporary_output: String,
    output_dimensions: ClipOutputDimensions,
    subtitle_manifest: &str,
    video_encoder: &str,
) -> (r: Result<ClipExportPlan, ClipExportFailure>)
    ensures
        sources@.len() == 0 ==> (r matches Err(f) && spec_failure_is(f, "empty_project"@,
            "剪辑工程没有可导出的片段"@)),
        sources@.len() > 0 && !spec_encoder_allowed(video_encoder@) ==> (r matches Err(f)
            && spec_failure_is(f, "encoder_unavailable"@, "受控 H.264 编码器不可用"@)),
        sources@.len() > 0 && spec_encoder_allowed(video_encoder@) && (exists|i: int|
            0 <= i < sources@.len() && !spec_segment_ok(#[trigger] sources@[i])) ==> (r matches Err(f)
            && spec_failure_is(f, "invalid_segment"@, "剪辑片段的时间范围无效"@)),
        r is Ok <==> (sources@.len() > 0 && spec_encoder_allowed(video_encoder@) && forall|i: int|
            0 <= i < sources@.len() ==> spec_segment_ok(#[trigger] sources@[i])),
        r matches Ok(plan) ==> {
            &&& strings_view(plan.arguments@) == spec_export_arguments(
                sources@,
                temporary_output@,
                output_dimensions,
                subtitle_manifest@,
                video_encoder@,
            )
            &&& plan.temporary_output == temporary_output
            &&& plan.total_duration_ms == spec_total_duration(sources@)
        },
{
    if sources.len() == 0 {
        return Err(failure("empty_project", String::from_str("剪辑工程没有可导出的片段")));
    }
    if !(str_eq(video_encoder, "h264_videotoolbox") || str_eq(video_encoder, "h264_mf") || str_eq(
        video_encoder,
        "libx264",
    )) {
        return Err(failure("encoder_unavailable", String::from_str("受控 H.264 编码器不可用")));
    }
    let (source_arguments, filters, concat_inputs, total_duration_ms) = match source_parts(
        sources,
        output_dimensions,
    ) {
        Some(parts) => parts,
        None => {
            return Err(failure("invalid_segment", String::from_str("剪辑片段的时间范围无效")));
        },
    };
    let graph = filter_graph(sources, output_dimensions, filters, concat_inputs);
    let mut arguments: Vec<String> = Vec::new();
    push_literal(&mut arguments, "-y");
    push_literal(&mut arguments, "-hide_banner");
    push_literal(&mut arguments, "-nostdin");
    let mut k: usize = 0;
    let ghost head = seq!["-y"@, "-hide_banner"@, "-nostdin"@];
    assert(strings_view(arguments@) =~= head);
    while k < source_arguments.len()
        invariant
            k <= source_arguments@.len(),
            strings_view(arguments@) == head + strings_view(source_arguments@).take(k as int),
        decreases source_arguments.len() - k,
    {
        push_string(&mut arguments, source_arguments[k].clone());
        k += 1;
        assert(strings_view(arguments@) =~= head + strings_view(source_arguments@).take(k as int));
    }
    assert(strings_view(source_arguments@).take(source_arguments@.len() as int) =~= strings_view(
        source_arguments@,
    ));
    tail_arguments(&mut arguments, graph, subtitle_manifest, video_encoder, &temporary_output);
    Ok(ClipExportPlan { arguments, temporary_output, total_duration_ms })
}

} // verus!
