//! What an export reads before it runs: that every frozen source is still the
//! file it was, the frame size the bundled FFprobe reports, and which H.264
//! encoder the bundled FFmpeg offers. Running the tools stays with the
//! application; their output is read here.

use vstd::prelude::*;

use crate::clip_export::{
    failure, normalize_dimension, spec_failure_is, ClipExportFailure, ClipExportSource,
    ClipOutputDimensions,
};
use crate::domain::SourceFingerprint;
use crate::processor::spec_same_source;
use crate::text::{is_whitespace, spec_is_whitespace, spec_trim, str_eq, to_chars, trim};

verus! {

/// A source file as it is found on disk now.
#[derive(Debug, Clone, PartialEq, Eq)]
pub struct FrozenMedia {
    pub path: String,
    pub size_bytes: u64,
    pub modified_at_ms: u64,
}

/// What an export decides of one source: unreadable, a modification time out
/// of range, changed since it was frozen, or unchanged.
pub open spec fn spec_source_check_ok(stored: SourceFingerprint, current: Option<FrozenMedia>) -> bool {
    current matches Some(m) && m.modified_at_ms <= i64::MAX && spec_same_source(
        SourceFingerprint {
            normalized_path: m.path,
            size_bytes: m.size_bytes,
            modified_at_ms: m.modified_at_ms as i64,
            video_id: stored.video_id,
        },
        stored,
    )
}

/// The source must still be there, readable, and the very file frozen when
/// it joined the project.
pub fn check_export_source(stored: &SourceFingerprint, current: Option<FrozenMedia>) -> (r: Result<
    (),
    ClipExportFailure,
>)
    ensures
        r is Ok <==> spec_source_check_ok(*stored, current),
        current is None ==> (r matches Err(f) && spec_failure_is(
            f,
            "source_unavailable"@,
            "剪辑来源视频不存在或无法读取"@,
        )),
        current matches Some(m) && m.modified_at_ms > i64::MAX ==> (r matches Err(f) && spec_failure_is(
            f,
            "source_unavailable"@,
            "无法读取剪辑来源视频的修改时间"@,
        )),
        current matches Some(m) && m.modified_at_ms <= i64::MAX && !spec_source_check_ok(*stored, current)
            ==> (r matches Err(f) && spec_failure_is(
            f,
            "source_changed"@,
            "来源视频在加入 AI 项目后发生变化，已拒绝导出以避免错剪"@,
        )),
{
    let media = match current {
        None => {
            return Err(failure("source_unavailable", String::from_str("剪辑来源视频不存在或无法读取")));
        },
        Some(m) => m,
    };
    if media.modified_at_ms > i64::MAX as u64 {
        return Err(failure("source_unavailable", String::from_str("无法读取剪辑来源视频的修改时间")));
    }
    if str_eq(media.path.as_str(), stored.normalized_path.as_str()) && media.size_bytes
        == stored.size_bytes && media.modified_at_ms as i64 == stored.modified_at_ms {
        return Ok(());
    }
    Err(
        failure(
            "source_changed",
            String::from_str("来源视频在加入 AI 项目后发生变化，已拒绝导出以避免错剪"),
        ),
    )
}

/// Checks every source in order against what is on disk now; the first
/// failure stops the export.
pub fn validate_export_sources(sources: &[ClipExportSource], current: Vec<Option<FrozenMedia>>) -> (r:
    Result<(), ClipExportFailure>)
    requires
        current@.len() == sources@.len(),
    ensures
        r is Ok <==> forall|i: int|
            0 <= i < sources@.len() ==> spec_source_check_ok(
                (#[trigger] sources@[i]).source_fingerprint,
                current@[i],
            ),
{
    let ghost all = current@;
    let mut rest = current;
    let mut i: usize = 0;
    while i < sources.len()
        invariant
            all == current@,
            i <= sources@.len(),
            all.len() == sources@.len(),
            rest@ == all.skip(i as int),
            forall|k: int|
                0 <= k < i ==> spec_source_check_ok((#[trigger] sources@[k]).source_fingerprint, all[k]),
        decreases sources.len() - i,
    {
        let media = rest.remove(0);
        assert(media == all[i as int]);
        assert(rest@ =~= all.skip(i + 1));
        match check_export_source(&sources[i].source_fingerprint, media) {
            Ok(()) => {},
            Err(f) => {
                assert(!spec_source_check_ok(sources@[i as int].source_fingerprint, all[i as int]));
                return Err(f);
            },
        }
        i += 1;
    }
    Ok(())
}

pub open spec fn spec_is_digit(c: char) -> bool {
    '0' <= c <= '9'
}

/// The value of a run of decimal digits.
pub open spec fn spec_digits_value(s: Seq<char>) -> nat
    decreases s.len(),
{
    if s.len() == 0 {
        0
    } else {
        spec_digits_value(s.drop_last()) * 10 + (s.last() as nat - '0' as nat) as nat
    }
}

/// The digits part of a number: what follows an optional leading `+`.
pub open spec fn spec_digits_part(s: Seq<char>) -> Seq<char> {
    if s.len() > 0 && s[0] == '+' {
        s.drop_first()
    } else {
        s
    }
}

pub open spec fn spec_all_digits(d: Seq<char>) -> bool {
    forall|i: int| 0 <= i < d.len() ==> spec_is_digit(#[trigger] d[i])
}

/// The unsigned 32-bit number a text denotes, as `str::parse::<u32>` reads
/// it: an optional `+`, then at least one decimal digit, and nothing else;
/// the value must fit.
pub open spec fn spec_parse_u32(s: Seq<char>) -> Option<u32> {
    let d = spec_digits_part(s);
    if d.len() > 0 && spec_all_digits(d) && spec_digits_value(d) <= u32::MAX {
        Some(spec_digits_value(d) as u32)
    } else {
        None
    }
}

proof fn lemma_digits_value_monotone(s: Seq<char>, k: int)
    requires
        0 <= k <= s.len(),
        spec_all_digits(s),
    ensures
        spec_digits_value(s.take(k)) <= spec_digits_value(s),
    decreases s.len(),
{
    if k < s.len() {
        assert(s.drop_last().take(k) =~= s.take(k));
        lemma_digits_value_monotone(s.drop_last(), k);
    } else {
        assert(s.take(k) =~= s);
    }
}

pub fn parse_u32(s: &[char]) -> (r: Option<u32>)
    ensures
        r == spec_parse_u32(s@),
{
    let start: usize = if s.len() > 0 && s[0] == '+' {
        1
    } else {
        0
    };
    let ghost d = spec_digits_part(s@);
    assert(d =~= s@.skip(start as int));
    if start >= s.len() {
        return None;
    }
    let mut value: u64 = 0;
    let mut i: usize = start;
    while i < s.len()
        invariant
            start <= i <= s@.len(),
            d =~= s@.skip(start as int),
            d == spec_digits_part(s@),
            forall|k: int| 0 <= k < i - start ==> spec_is_digit(#[trigger] d[k]),
            value == spec_digits_value(d.take(i - start)),
            value <= u32::MAX,
        decreases s.len() - i,
    {
        let c = s[i];
        if !('0' <= c && c <= '9') {
            assert(!spec_is_digit(d[i - start]));
            assert(!spec_all_digits(d));
            return None;
        }
        let digit: u64 = (c as u32 - '0' as u32) as u64;
        let next: u64 = value * 10 + digit;
        proof {
            assert(d.take(i - start + 1).drop_last() =~= d.take(i - start));
            assert(d.take(i - start + 1).last() == c);
        }
        if next > u32::MAX as u64 {
            proof {
                if spec_all_digits(d) {
                    lemma_digits_value_monotone(d, i - start + 1);
                }
            }
            return None;
        }
        value = next;
        i += 1;
    }
    assert(d.take(d.len() as int) =~= d);
    Some(value as u32)
}

/// Where the first `x` is, or -1.
pub open spec fn spec_find_x(s: Seq<char>) -> int
    decreases s.len(),
{
    if s.len() == 0 {
        -1
    } else {
        let rest = spec_find_x(s.drop_first());
        if s[0] == 'x' {
            0
        } else if rest < 0 {
            -1
        } else {
            rest + 1
        }
    }
}

proof fn lemma_find_x_range(s: Seq<char>)
    ensures
        -1 <= spec_find_x(s) < s.len(),
        spec_find_x(s) >= 0 ==> s[spec_find_x(s)] == 'x',
        spec_find_x(s) >= 0 ==> forall|q: int| 0 <= q < spec_find_x(s) ==> s[q] != 'x',
        spec_find_x(s) < 0 ==> forall|q: int| 0 <= q < s.len() ==> s[q] != 'x',
    decreases s.len(),
{
    if s.len() > 0 {
        let d = s.drop_first();
        lemma_find_x_range(d);
        assert forall|q: int| 1 <= q < s.len() implies s[q] == d[q - 1] by {}
    }
}

fn copy_range(v: &[char], from: usize, to: usize) -> (r: Vec<char>)
    requires
        from <= to <= v@.len(),
    ensures
        r@ == v@.subrange(from as int, to as int),
{
    let mut r: Vec<char> = Vec::new();
    let mut i: usize = from;
    while i < to
        invariant
            from <= i <= to,
            to <= v@.len(),
            r@ == v@.subrange(from as int, i as int),
        decreases to - i,
    {
        r.push(v[i]);
        assert(r@ =~= v@.subrange(from as int, i + 1));
        i += 1;
    }
    r
}

/// The width and height ffprobe printed as `WIDTHxHEIGHT`, surrounding
/// whitespace aside, when both are positive numbers.
pub open spec fn spec_probed_size(out: Seq<char>) -> Option<(u32, u32)> {
    let t = spec_trim(out);
    let x = spec_find_x(t);
    if x < 0 {
        None
    } else {
        let w = spec_parse_u32(t.take(x));
        let h = spec_parse_u32(t.skip(x + 1));
        if w is Some && h is Some && w->0 > 0 && h->0 > 0 {
            Some((w->0, h->0))
        } else {
            None
        }
    }
}

/// The frame size of the output, from what ffprobe printed: an odd side is
/// rounded up to even; a side of `u32::MAX` cannot be.
pub fn parse_probed_dimensions(stdout: &str) -> (r: Result<ClipOutputDimensions, ClipExportFailure>)
    ensures
        spec_probed_size(stdout@) is None ==> (r matches Err(f) && spec_failure_is(
            f,
            "source_invalid"@,
            "来源视频不包含有效画面尺寸"@,
        )),
        spec_probed_size(stdout@) matches Some((w, h)) ==> (w == u32::MAX || h == u32::MAX <==> r is Err),
        spec_probed_size(stdout@) matches Some((w, h)) && r is Err ==> (r matches Err(f) && spec_failure_is(
            f,
            "source_invalid"@,
            "来源视频的画面尺寸无效"@,
        )),
        r matches Ok(d) ==> (spec_probed_size(stdout@) matches Some((w, h)) && d.width == (if w % 2 == 0 {
            w as int
        } else {
            w + 1
        }) && d.height == (if h % 2 == 0 {
            h as int
        } else {
            h + 1
        })),
{
    let trimmed = trim(stdout);
    let t = to_chars(trimmed.as_str());
    proof {
        lemma_find_x_range(t@);
    }
    let mut x: usize = 0;
    while x < t.len() && t[x] != 'x'
        invariant
            x <= t@.len(),
            forall|q: int| 0 <= q < x ==> t@[q] != 'x',
        decreases t.len() - x,
    {
        x += 1;
    }
    let invalid = failure("source_invalid", String::from_str("来源视频不包含有效画面尺寸"));
    if x >= t.len() {
        return Err(invalid);
    }
    assert(spec_find_x(t@) == x as int);
    let width_chars = copy_range(t.as_slice(), 0, x);
    let height_chars = copy_range(t.as_slice(), x + 1, t.len());
    let width = parse_u32(width_chars.as_slice());
    let height = parse_u32(height_chars.as_slice());
    assert(width_chars@ =~= t@.take(x as int));
    assert(height_chars@ =~= t@.skip(x + 1));
    match (width, height) {
        (Some(w), Some(h)) => {
            if w == 0 || h == 0 {
                return Err(invalid);
            }
            let w2 = match normalize_dimension(w) {
                Ok(v) => v,
                Err(f) => {
                    return Err(f);
                },
            };
            let h2 = match normalize_dimension(h) {
                Ok(v) => v,
                Err(f) => {
                    return Err(f);
                },
            };
            Ok(ClipOutputDimensions { width: w2, height: h2 })
        },
        _ => Err(invalid),
    }
}

pub open spec fn spec_views(v: Seq<Vec<char>>) -> Seq<Seq<char>> {
    v.map_values(|x: Vec<char>| x@)
}

/// The text cut at every newline.
pub open spec fn spec_lines(s: Seq<char>) -> Seq<Seq<char>>
    decreases s.len(),
{
    if s.len() == 0 {
        seq![Seq::empty()]
    } else {
        let rest = spec_lines(s.drop_last());
        if s.last() == '\n' {
            rest.push(Seq::empty())
        } else {
            rest.update(rest.len() - 1, rest.last().push(s.last()))
        }
    }
}

proof fn lemma_lines_nonempty(s: Seq<char>)
    ensures
        spec_lines(s).len() >= 1,
    decreases s.len(),
{
    if s.len() > 0 {
        lemma_lines_nonempty(s.drop_last());
    }
}

/// The runs of non-whitespace characters of a line.
pub open spec fn spec_words(s: Seq<char>) -> Seq<Seq<char>>
    decreases s.len(),
{
    if s.len() == 0 {
        Seq::empty()
    } else {
        let rest = spec_words(s.drop_last());
        let c = s.last();
        if spec_is_whitespace(c) {
            rest
        } else if s.len() >= 2 && !spec_is_whitespace(s[s.len() - 2]) {
            rest.update(rest.len() - 1, rest.last().push(c))
        } else {
            rest.push(seq![c])
        }
    }
}

/// Some line of ffmpeg's encoder list names `encoder` as its second word.
pub open spec fn spec_offers(text: Seq<char>, encoder: Seq<char>) -> bool {
    exists|i: int|
        0 <= i < spec_lines(text).len() && spec_words(#[trigger] spec_lines(text)[i]).len() >= 2
            && spec_words(spec_lines(text)[i])[1] == encoder
}

fn lines_of(text: &[char]) -> (r: Vec<Vec<char>>)
    ensures
        spec_views(r@) == spec_lines(text@),
{
    let mut done: Vec<Vec<char>> = Vec::new();
    let mut current: Vec<char> = Vec::new();
    let mut i: usize = 0;
    while i < text.len()
        invariant
            i <= text@.len(),
            spec_views(done@).push(current@) == spec_lines(text@.take(i as int)),
        decreases text.len() - i,
    {
        let c = text[i];
        let ghost before = spec_views(done@).push(current@);
        proof {
            assert(text@.take(i + 1).drop_last() =~= text@.take(i as int));
            assert(text@.take(i + 1).last() == c);
        }
        if c == '\n' {
            let finished = current;
            done.push(finished);
            current = Vec::new();
            assert(spec_views(done@).push(current@) =~= before.push(Seq::empty()));
        } else {
            current.push(c);
            assert(spec_views(done@).push(current@) =~= before.update(
                before.len() - 1,
                before.last().push(c),
            ));
        }
        i += 1;
    }
    assert(text@.take(text@.len() as int) =~= text@);
    let ghost before = spec_views(done@);
    done.push(current);
    assert(spec_views(done@) =~= before.push(current@));
    done
}

fn words_of(line: &[char]) -> (r: Vec<Vec<char>>)
    ensures
        spec_views(r@) == spec_words(line@),
{
    let mut done: Vec<Vec<char>> = Vec::new();
    let mut current: Vec<char> = Vec::new();
    let mut in_word = false;
    let mut i: usize = 0;
    while i < line.len()
        invariant
            i <= line@.len(),
            in_word == (i > 0 && !spec_is_whitespace(line@[i - 1])),
            spec_words(line@.take(i as int)) == (if in_word {
                spec_views(done@).push(current@)
            } else {
                spec_views(done@)
            }),
        decreases line.len() - i,
    {
        let c = line[i];
        let ghost before_done = spec_views(done@);
        let ghost before_current = current@;
        proof {
            let t = line@.take(i + 1);
            assert(t.drop_last() =~= line@.take(i as int));
            assert(t.last() == c);
            if i > 0 {
                assert(t[t.len() - 2] == line@[i - 1]);
            }
        }
        if is_whitespace(c) {
            if in_word {
                let finished = current;
                done.push(finished);
                current = Vec::new();
                assert(spec_views(done@) =~= before_done.push(before_current));
            }
            in_word = false;
        } else {
            if in_word {
                current.push(c);
                assert(spec_views(done@).push(current@) =~= before_done.push(before_current).update(
                    before_done.len() as int,
                    before_current.push(c),
                ));
            } else {
                current = Vec::new();
                current.push(c);
                assert(current@ =~= seq![c]);
            }
            in_word = true;
        }
        i += 1;
    }
    assert(line@.take(line@.len() as int) =~= line@);
    if in_word {
        let ghost before = spec_views(done@);
        done.push(current);
        assert(spec_views(done@) =~= before.push(current@));
    }
    done
}

fn chars_eq(a: &Vec<char>, b: &[char]) -> (r: bool)
    ensures
        r == (a@ == b@),
{
    if a.len() != b.len() {
        return false;
    }
    let mut i: usize = 0;
    while i < a.len()
        invariant
            a@.len() == b@.len(),
            i <= a@.len(),
            forall|k: int| 0 <= k < i ==> a@[k] == b@[k],
        decreases a.len() - i,
    {
        if a[i] != b[i] {
            return false;
        }
        i += 1;
    }
    assert(a@ =~= b@);
    true
}

fn line_offers(line: &Vec<char>, encoder: &[char]) -> (r: bool)
    ensures
        r == (spec_words(line@).len() >= 2 && spec_words(line@)[1] == encoder@),
{
    let words = words_of(line.as_slice());
    if words.len() < 2 {
        return false;
    }
    assert(spec_views(words@)[1] == words@[1]@);
    chars_eq(&words[1], encoder)
}

/// The first of `candidates`, in order of preference, that the encoder list
/// of the bundled FFmpeg offers: a line whose second word is its name.
pub fn select_encoder(encoders: &str, candidates: &[&str]) -> (r: Result<usize, ClipExportFailure>)
    ensures
        r matches Ok(k) ==> k < candidates@.len() && spec_offers(encoders@, candidates@[k as int]@)
            && forall|j: int| 0 <= j < k ==> !spec_offers(encoders@, #[trigger] candidates@[j]@),
        r is Err ==> forall|j: int|
            0 <= j < candidates@.len() ==> !spec_offers(encoders@, #[trigger] candidates@[j]@),
        r matches Err(f) ==> spec_failure_is(f, "encoder_unavailable"@, "随应用提供的 FFmpeg 缺少受控 H.264 编码器"@),
{
    let text = to_chars(encoders);
    let lines = lines_of(text.as_slice());
    let mut k: usize = 0;
    while k < candidates.len()
        invariant
            k <= candidates@.len(),
            text@ == encoders@,
            spec_views(lines@) == spec_lines(encoders@),
            forall|j: int| 0 <= j < k ==> !spec_offers(encoders@, #[trigger] candidates@[j]@),
        decreases candidates.len() - k,
    {
        let name = to_chars(candidates[k]);
        let mut i: usize = 0;
        while i < lines.len()
            invariant
                i <= lines@.len(),
                k < candidates@.len(),
                name@ == candidates@[k as int]@,
                spec_views(lines@) == spec_lines(encoders@),
                forall|j: int| 0 <= j < k ==> !spec_offers(encoders@, #[trigger] candidates@[j]@),
                forall|q: int|
                    0 <= q < i ==> !(spec_words(#[trigger] spec_lines(encoders@)[q]).len() >= 2
                        && spec_words(spec_lines(encoders@)[q])[1] == name@),
            decreases lines.len() - i,
        {
            assert(spec_views(lines@)[i as int] == lines@[i as int]@);
            if line_offers(&lines[i], name.as_slice()) {
                assert(spec_offers(encoders@, candidates@[k as int]@));
                return Ok(k);
            }
            i += 1;
        }
        assert(!spec_offers(encoders@, candidates@[k as int]@));
        k += 1;
    }
    Err(failure("encoder_unavailable", String::from_str("随应用提供的 FFmpeg 缺少受控 H.264 编码器")))
}

/// The unsigned 64-bit number a text denotes, as `str::parse::<u64>` reads it.
pub open spec fn spec_parse_u64(s: Seq<char>) -> Option<u64> {
    let d = spec_digits_part(s);
    if d.len() > 0 && spec_all_digits(d) && spec_digits_value(d) <= u64::MAX {
        Some(spec_digits_value(d) as u64)
    } else {
        None
    }
}

pub fn parse_u64(s: &[char]) -> (r: Option<u64>)
    ensures
        r == spec_parse_u64(s@),
{
    let start: usize = if s.len() > 0 && s[0] == '+' {
        1
    } else {
        0
    };
    let ghost d = spec_digits_part(s@);
    assert(d =~= s@.skip(start as int));
    if start >= s.len() {
        return None;
    }
    let mut value: u128 = 0;
    let mut i: usize = start;
    while i < s.len()
        invariant
            start <= i <= s@.len(),
            d =~= s@.skip(start as int),
            d == spec_digits_part(s@),
            forall|k: int| 0 <= k < i - start ==> spec_is_digit(#[trigger] d[k]),
            value == spec_digits_value(d.take(i - start)),
            value <= u64::MAX,
        decreases s.len() - i,
    {
        let c = s[i];
        if !('0' <= c && c <= '9') {
            assert(!spec_is_digit(d[i - start]));
            assert(!spec_all_digits(d));
            return None;
        }
        let digit: u128 = (c as u32 - '0' as u32) as u128;
        let next: u128 = value * 10 + digit;
        proof {
            assert(d.take(i - start + 1).drop_last() =~= d.take(i - start));
            assert(d.take(i - start + 1).last() == c);
        }
        if next > u64::MAX as u128 {
            proof {
                if spec_all_digits(d) {
                    lemma_digits_value_monotone(d, i - start + 1);
                }
            }
            return None;
        }
        value = next;
        i += 1;
    }
    assert(d.take(d.len() as int) =~= d);
    Some(value as u64)
}

/// The export position a progress line of FFmpeg reports, in milliseconds:
/// the microseconds after `out_time_ms=`, when they form a number.
pub open spec fn spec_progress_ms(line: Seq<char>) -> Option<u64> {
    let prefix = "out_time_ms="@;
    if line.len() >= prefix.len() && line.take(prefix.len() as int) == prefix {
        match spec_parse_u64(line.skip(prefix.len() as int)) {
            Some(us) => Some((us / 1000) as u64),
            None => None,
        }
    } else {
        None
    }
}

pub fn progress_ms(line: &str) -> (r: Option<u64>)
    ensures
        r == spec_progress_ms(line@),
{
    let chars = to_chars(line);
    let prefix = to_chars("out_time_ms=");
    if chars.len() < prefix.len() {
        return None;
    }
    let mut i: usize = 0;
    while i < prefix.len()
        invariant
            i <= prefix@.len(),
            prefix@.len() <= chars@.len(),
            chars@ == line@,
            prefix@ == "out_time_ms="@,
            forall|k: int| 0 <= k < i ==> chars@[k] == prefix@[k],
        decreases prefix.len() - i,
    {
        if chars[i] != prefix[i] {
            assert(chars@.take(prefix@.len() as int)[i as int] != prefix@[i as int]);
            assert(chars@.take(prefix@.len() as int) != prefix@);
            return None;
        }
        i += 1;
    }
    assert(chars@.take(prefix@.len() as int) =~= prefix@);
    let rest = copy_range(chars.as_slice(), prefix.len(), chars.len());
    assert(rest@ =~= chars@.skip(prefix@.len() as int));
    match parse_u64(rest.as_slice()) {
        Some(us) => Some(us / 1000),
        None => None,
    }
}

/// `pattern` occurs in `text`.
pub open spec fn spec_contains(text: Seq<char>, pattern: Seq<char>) -> bool {
    exists|i: int| 0 <= i <= text.len() - pattern.len() && #[trigger] text.subrange(i, i + pattern.len()) == pattern
}

fn contains_at(text: &Vec<char>, pattern: &Vec<char>, at: usize) -> (r: bool)
    requires
        at + pattern@.len() <= text@.len(),
    ensures
        r == (text@.subrange(at as int, at + pattern@.len()) == pattern@),
{
    let _length = text.len();
    let mut k: usize = 0;
    while k < pattern.len()
        invariant
            k <= pattern@.len(),
            at + pattern@.len() <= text@.len(),
            text@.len() <= usize::MAX,
            forall|q: int| 0 <= q < k ==> text@[at + q] == pattern@[q],
        decreases pattern.len() - k,
    {
        if text[at + k] != pattern[k] {
            assert(text@.subrange(at as int, at + pattern@.len())[k as int] != pattern@[k as int]);
            return false;
        }
        k += 1;
    }
    assert(text@.subrange(at as int, at + pattern@.len()) =~= pattern@);
    true
}

/// The message of a failed export: a missing source when FFmpeg's error
/// output says a file does not exist, a general failure otherwise.
pub fn export_failure_message(detail: &str) -> (r: &'static str)
    ensures
        spec_contains(detail@, "No such file"@) ==> r@ == "来源视频不存在，无法导出"@,
        !spec_contains(detail@, "No such file"@) ==> r@ == "FFmpeg 无法导出该剪辑工程"@,
{
    let text = to_chars(detail);
    let pattern = to_chars("No such file");
    proof {
        reveal_strlit("No such file");
    }
    assert(pattern@.len() == 12);
    let mut found = false;
    if text.len() >= pattern.len() {
        let last = text.len() - pattern.len();
        let mut i: usize = 0;
        while i <= last && !found
            invariant
                last + pattern@.len() == text@.len(),
                pattern@.len() == 12,
                text@.len() <= usize::MAX,
                found ==> spec_contains(text@, pattern@),
                !found ==> forall|q: int| 0 <= q < i ==> #[trigger] text@.subrange(q, q + pattern@.len()) != pattern@,
            decreases last + 1 - i,
        {
            if contains_at(&text, &pattern, i) {
                found = true;
            }
            i += 1;
        }
        if !found {
            assert forall|q: int| 0 <= q <= text@.len() - pattern@.len() implies #[trigger] text@.subrange(
                q,
                q + pattern@.len(),
            ) != pattern@ by {}
        }
    }
    if found {
        "来源视频不存在，无法导出"
    } else {
        "FFmpeg 无法导出该剪辑工程"
    }
}

} // verus!
