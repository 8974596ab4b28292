//! Character classes and string building blocks shared by the library.

use vstd::prelude::*;

verus! {

/// Unicode general category Cc, which is what `char::is_control` tests.
pub open spec fn spec_is_control(c: char) -> bool {
    (c as u32) <= 0x1f || (0x7f <= (c as u32) && (c as u32) <= 0x9f)
}

pub fn is_control(c: char) -> (r: bool)
    ensures
        r == spec_is_control(c),
{
    let v = c as u32;
    v <= 0x1f || (0x7f <= v && v <= 0x9f)
}

/// The Unicode `White_Space` property, which is what `char::is_whitespace` tests.
pub open spec fn spec_is_whitespace(c: char) -> bool {
    let v = c as u32;
    ||| (0x09 <= v && v <= 0x0d)
    ||| v == 0x20
    ||| v == 0x85
    ||| v == 0xa0
    ||| v == 0x1680
    ||| (0x2000 <= v && v <= 0x200a)
    ||| v == 0x2028
    ||| v == 0x2029
    ||| v == 0x202f
    ||| v == 0x205f
    ||| v == 0x3000
}

pub fn is_whitespace(c: char) -> (r: bool)
    ensures
        r == spec_is_whitespace(c),
{
    let v = c as u32;
    (0x09 <= v && v <= 0x0d) || v == 0x20 || v == 0x85 || v == 0xa0 || v == 0x1680 || (0x2000
        <= v && v <= 0x200a) || v == 0x2028 || v == 0x2029 || v == 0x202f || v == 0x205f || v
        == 0x3000
}

/// Appends one character; `String::push` documents exactly this.
#[verifier::external_body]
pub(crate) fn push_char(s: &mut String, c: char)
    ensures
        final(s)@ == old(s)@.push(c),
{
    s.push(c);
}

/// The characters of `s`, in order.
pub fn to_chars(s: &str) -> (v: Vec<char>)
    ensures
        v@ == s@,
{
    let mut v: Vec<char> = Vec::new();
    for c in it: s.chars()
        invariant
            v@ == it.seq().take(it.index() as int),
    {
        v.push(c);
    }
    v
}

} // verus!

verus! {

/// A string made of the given characters.
pub fn from_chars(v: &[char]) -> (s: String)
    ensures
        s@ == v@,
{
    let mut s = String::new();
    let mut i: usize = 0;
    while i < v.len()
        invariant
            i <= v.len(),
            s@ == v@.take(i as int),
        decreases v.len() - i,
    {
        push_char(&mut s, v[i]);
        i += 1;
        assert(s@ =~= v@.take(i as int));
    }
    assert(v@.take(v.len() as int) =~= v@);
    s
}

/// The concatenation of two strings.
pub fn concat_str(a: &str, b: &str) -> (s: String)
    ensures
        s@ == a@ + b@,
{
    let mut s = String::from_str(a);
    s.append(b);
    s
}

pub open spec fn spec_digit(d: nat) -> char {
    if d == 0 {
        '0'
    } else if d == 1 {
        '1'
    } else if d == 2 {
        '2'
    } else if d == 3 {
        '3'
    } else if d == 4 {
        '4'
    } else if d == 5 {
        '5'
    } else if d == 6 {
        '6'
    } else if d == 7 {
        '7'
    } else if d == 8 {
        '8'
    } else {
        '9'
    }
}

fn digit(d: u64) -> (c: char)
    requires
        d < 10,
    ensures
        c == spec_digit(d as nat),
{
    if d == 0 {
        '0'
    } else if d == 1 {
        '1'
    } else if d == 2 {
        '2'
    } else if d == 3 {
        '3'
    } else if d == 4 {
        '4'
    } else if d == 5 {
        '5'
    } else if d == 6 {
        '6'
    } else if d == 7 {
        '7'
    } else if d == 8 {
        '8'
    } else {
        '9'
    }
}

/// The shortest decimal notation of `n`, as `Display` writes it for unsigned integers.
pub open spec fn spec_decimal(n: nat) -> Seq<char>
    decreases n,
{
    if n < 10 {
        seq![spec_digit(n)]
    } else {
        spec_decimal(n / 10).push(spec_digit(n % 10))
    }
}

/// The decimal notation of a signed integer: a minus sign before the magnitude when negative.
pub open spec fn spec_decimal_int(i: int) -> Seq<char> {
    if i < 0 {
        seq!['-'] + spec_decimal((-i) as nat)
    } else {
        spec_decimal(i as nat)
    }
}

/// `count` copies of `c`.
pub open spec fn spec_repeat(c: char, count: nat) -> Seq<char> {
    Seq::new(count, |_i: int| c)
}

/// The decimal notation of `n`, left-padded with zeros to at least `width` characters.
pub open spec fn spec_decimal_padded(n: nat, width: nat) -> Seq<char> {
    let digits = spec_decimal(n);
    if digits.len() >= width {
        digits
    } else {
        spec_repeat('0', (width - digits.len()) as nat) + digits
    }
}

pub proof fn lemma_decimal_nonempty(n: nat)
    ensures
        spec_decimal(n).len() >= 1,
    decreases n,
{
    if n >= 10 {
        lemma_decimal_nonempty(n / 10);
    }
}

pub fn decimal(n: u64) -> (s: String)
    ensures
        s@ == spec_decimal(n as nat),
    decreases n,
{
    if n < 10 {
        let mut s = String::new();
        push_char(&mut s, digit(n));
        assert(s@ =~= seq![spec_digit(n as nat)]);
        s
    } else {
        let mut s = decimal(n / 10);
        push_char(&mut s, digit(n % 10));
        s
    }
}

pub fn decimal_int(i: i64) -> (s: String)
    ensures
        s@ == spec_decimal_int(i as int),
{
    if i < 0 {
        let magnitude: u64 = (0i128 - (i as i128)) as u64;
        let digits = decimal(magnitude);
        proof {
            reveal_strlit("-");
        }
        assert("-"@ =~= seq!['-']);
        concat_str("-", digits.as_str())
    } else {
        decimal(i as u64)
    }
}

pub fn decimal_padded(n: u64, width: usize) -> (s: String)
    ensures
        s@ == spec_decimal_padded(n as nat, width as nat),
{
    let digits = decimal(n);
    let len = digits.unicode_len();
    if len >= width {
        digits
    } else {
        let mut s = String::new();
        let mut i: usize = 0;
        while i < width - len
            invariant
                len < width,
                i <= width - len,
                s@ == spec_repeat('0', i as nat),
            decreases width - len - i,
        {
            push_char(&mut s, '0');
            i += 1;
            assert(s@ =~= spec_repeat('0', i as nat));
        }
        s.append(digits.as_str());
        s
    }
}

} // verus!

verus! {

/// `s` without its leading whitespace, as `str::trim_start` returns it.
pub open spec fn spec_trim_start(s: Seq<char>) -> Seq<char>
    decreases s.len(),
{
    if s.len() > 0 && spec_is_whitespace(s[0]) {
        spec_trim_start(s.drop_first())
    } else {
        s
    }
}

/// `s` without its trailing whitespace, as `str::trim_end` returns it.
pub open spec fn spec_trim_end(s: Seq<char>) -> Seq<char>
    decreases s.len(),
{
    if s.len() > 0 && spec_is_whitespace(s.last()) {
        spec_trim_end(s.drop_last())
    } else {
        s
    }
}

/// `s` without leading and trailing whitespace, as `str::trim` returns it.
pub open spec fn spec_trim(s: Seq<char>) -> Seq<char> {
    spec_trim_end(spec_trim_start(s))
}

pub fn trim(s: &str) -> (r: String)
    ensures
        r@ == spec_trim(s@),
{
    let chars = to_chars(s);
    let n = chars.len();
    let mut i: usize = 0;
    assert(s@.subrange(0, n as int) =~= s@);
    while i < n && is_whitespace(chars[i])
        invariant
            i <= n,
            n == chars@.len(),
            chars@ == s@,
            spec_trim_start(s@) == spec_trim_start(s@.subrange(i as int, n as int)),
        decreases n - i,
    {
        assert(s@.subrange(i as int, n as int).drop_first() =~= s@.subrange(i + 1, n as int));
        i += 1;
    }
    assert(spec_trim_start(s@.subrange(i as int, n as int)) == s@.subrange(i as int, n as int));
    let mut j: usize = n;
    while j > i && is_whitespace(chars[j - 1])
        invariant
            i <= j <= n,
            n == chars@.len(),
            chars@ == s@,
            spec_trim(s@) == spec_trim_end(s@.subrange(i as int, j as int)),
        decreases j - i,
    {
        assert(s@.subrange(i as int, j as int).drop_last() =~= s@.subrange(i as int, j - 1));
        j -= 1;
    }
    assert(spec_trim_end(s@.subrange(i as int, j as int)) == s@.subrange(i as int, j as int));
    let mut out = String::new();
    let mut k: usize = i;
    while k < j
        invariant
            i <= k <= j <= n,
            n == chars@.len(),
            chars@ == s@,
            out@ == s@.subrange(i as int, k as int),
        decreases j - k,
    {
        push_char(&mut out, chars[k]);
        k += 1;
        assert(out@ =~= s@.subrange(i as int, k as int));
    }
    out
}

/// Whitespace collapsing read left to right: the text so far and whether a
/// separator is owed before the next non-whitespace character.
pub open spec fn spec_collapse_state(s: Seq<char>) -> (Seq<char>, bool)
    decreases s.len(),
{
    if s.len() == 0 {
        (Seq::empty(), false)
    } else {
        let (out, pending) = spec_collapse_state(s.drop_last());
        let c = s.last();
        if spec_is_whitespace(c) {
            (out, out.len() > 0)
        } else if pending {
            (out.push(' ').push(c), false)
        } else {
            (out.push(c), false)
        }
    }
}

/// The whitespace-separated words of `s` joined by single spaces, as
/// `s.split_whitespace().collect::<Vec<_>>().join(" ")` returns them.
pub open spec fn spec_collapse_whitespace(s: Seq<char>) -> Seq<char> {
    spec_collapse_state(s).0
}

pub fn collapse_whitespace(s: &str) -> (r: String)
    ensures
        r@ == spec_collapse_whitespace(s@),
{
    let chars = to_chars(s);
    let mut out = String::new();
    let mut pending = false;
    let mut i: usize = 0;
    while i < chars.len()
        invariant
            i <= chars@.len(),
            chars@ == s@,
            (out@, pending) == spec_collapse_state(s@.take(i as int)),
        decreases chars.len() - i,
    {
        assert(s@.take(i + 1).drop_last() =~= s@.take(i as int));
        let c = chars[i];
        if is_whitespace(c) {
            pending = out.unicode_len() > 0;
        } else {
            if pending {
                push_char(&mut out, ' ');
            }
            push_char(&mut out, c);
            pending = false;
        }
        i += 1;
    }
    assert(s@.take(chars@.len() as int) =~= s@);
    out
}

/// Whether some character of `s` is a control character.
pub open spec fn spec_has_control(s: Seq<char>) -> bool {
    exists|i: int| 0 <= i < s.len() && spec_is_control(#[trigger] s[i])
}

pub fn has_control(s: &str) -> (r: bool)
    ensures
        r == spec_has_control(s@),
{
    let chars = to_chars(s);
    let mut i: usize = 0;
    while i < chars.len()
        invariant
            i <= chars@.len(),
            chars@ == s@,
            forall|k: int| 0 <= k < i ==> !spec_is_control(#[trigger] s@[k]),
        decreases chars.len() - i,
    {
        if is_control(chars[i]) {
            return true;
        }
        i += 1;
    }
    false
}

/// The extended grapheme clusters of `s`, as `UnicodeSegmentation::graphemes(s, true)` yields them.
pub uninterp spec fn spec_graphemes(s: Seq<char>) -> Seq<Seq<char>>;

/// All clusters in order, joined back together.
pub open spec fn spec_flatten(parts: Seq<Seq<char>>) -> Seq<char>
    decreases parts.len(),
{
    if parts.len() == 0 {
        Seq::empty()
    } else {
        spec_flatten(parts.drop_last()) + parts.last()
    }
}

/// Calls `UnicodeSegmentation::graphemes(s, true)` and collects the clusters.
/// Its contract claims that the result is the named segmentation of `s`, and
/// that the clusters are non-empty consecutive slices of `s`, so that joining
/// them gives `s` back; the iterator walks `s` from one cluster boundary to the next.
#[verifier::external_body]
pub(crate) fn graphemes(s: &str) -> (g: Vec<String>)
    ensures
        g@.map_values(|x: String| x@) == spec_graphemes(s@),
        spec_flatten(g@.map_values(|x: String| x@)) == s@,
        forall|i: int| 0 <= i < g@.len() ==> (#[trigger] g@[i])@.len() > 0,
{
    unicode_segmentation::UnicodeSegmentation::graphemes(s, true).map(|x| x.to_owned()).collect()
}

} // verus!

verus! {

/// Whether two strings hold the same characters.
pub fn str_eq(a: &str, b: &str) -> (r: bool)
    ensures
        r == (a@ == b@),
{
    let x = to_chars(a);
    let y = to_chars(b);
    if x.len() != y.len() {
        return false;
    }
    let mut i: usize = 0;
    while i < x.len()
        invariant
            i <= x@.len(),
            x@.len() == y@.len(),
            x@ == a@,
            y@ == b@,
            forall|k: int| 0 <= k < i ==> x@[k] == y@[k],
        decreases x.len() - i,
    {
        if x[i] != y[i] {
            return false;
        }
        i += 1;
    }
    assert(a@ =~= b@);
    true
}

/// `c` with ASCII upper-case letters mapped to lower case, as `char::to_ascii_lowercase` does.
pub open spec fn spec_ascii_lower(c: char) -> u32 {
    if 0x41 <= (c as u32) && (c as u32) <= 0x5a {
        ((c as u32) + 32) as u32
    } else {
        c as u32
    }
}

/// `str::eq_ignore_ascii_case`: same length and equal after ASCII lower-casing.
pub open spec fn spec_eq_ignore_ascii_case(a: Seq<char>, b: Seq<char>) -> bool {
    a.len() == b.len() && forall|i: int|
        0 <= i < a.len() ==> spec_ascii_lower(#[trigger] a[i]) == spec_ascii_lower(b[i])
}

fn ascii_lower(c: char) -> (r: u32)
    ensures
        r == spec_ascii_lower(c),
{
    let v = c as u32;
    if 0x41 <= v && v <= 0x5a {
        v + 32
    } else {
        v
    }
}

pub fn eq_ignore_ascii_case(a: &str, b: &str) -> (r: bool)
    ensures
        r == spec_eq_ignore_ascii_case(a@, b@),
{
    let x = to_chars(a);
    let y = to_chars(b);
    if x.len() != y.len() {
        return false;
    }
    let mut i: usize = 0;
    while i < x.len()
        invariant
            i <= x@.len(),
            x@.len() == y@.len(),
            x@ == a@,
            y@ == b@,
            forall|k: int| 0 <= k < i ==> spec_ascii_lower(#[trigger] a@[k]) == spec_ascii_lower(b@[k]),
        decreases x.len() - i,
    {
        if ascii_lower(x[i]) != ascii_lower(y[i]) {
            return false;
        }
        i += 1;
    }
    true
}

/// The length of the UTF-8 encoding of `s`, which is what `str::len` returns.
pub open spec fn spec_byte_len(s: Seq<char>) -> nat {
    vstd::utf8::encode_utf8(s).len()
}

pub fn byte_len(s: &str) -> (r: usize)
    ensures
        r == spec_byte_len(s@) as usize,
{
    s.len()
}

/// `i64::saturating_add`: the sum clamped to the range of `i64`.
pub open spec fn spec_saturating_add_i64(a: i64, b: i64) -> i64 {
    if a + b > i64::MAX {
        i64::MAX
    } else if a + b < i64::MIN {
        i64::MIN
    } else {
        (a + b) as i64
    }
}

pub fn saturating_add_i64(a: i64, b: i64) -> (r: i64)
    ensures
        r == spec_saturating_add_i64(a, b),
{
    let sum: i128 = a as i128 + b as i128;
    if sum > i64::MAX as i128 {
        i64::MAX
    } else if sum < i64::MIN as i128 {
        i64::MIN
    } else {
        sum as i64
    }
}

/// `u64::saturating_add`: the sum clamped to `u64::MAX`.
pub open spec fn spec_saturating_add_u64(a: u64, b: u64) -> u64 {
    if a + b > u64::MAX {
        u64::MAX
    } else {
        (a + b) as u64
    }
}

/// `u64::saturating_mul`: the product clamped to `u64::MAX`.
pub open spec fn spec_saturating_mul_u64(a: u64, b: u64) -> u64 {
    if a * b > u64::MAX {
        u64::MAX
    } else {
        (a * b) as u64
    }
}

pub fn saturating_mul_u64(a: u64, b: u64) -> (r: u64)
    ensures
        r == spec_saturating_mul_u64(a, b),
{
    assert((a as u128) * (b as u128) <= 0xffff_ffff_ffff_ffffu128 * 0xffff_ffff_ffff_ffffu128)
        by (nonlinear_arith);
    let product: u128 = a as u128 * b as u128;
    if product > u64::MAX as u128 {
        u64::MAX
    } else {
        product as u64
    }
}

} // verus!

verus! {

/// The character sequence of an optional string.
pub open spec fn opt_view(o: Option<String>) -> Option<Seq<char>> {
    match o {
        Some(s) => Some(s@),
        None => None,
    }
}

/// A copy of an optional string.
pub fn clone_opt(o: &Option<String>) -> (r: Option<String>)
    ensures
        r == *o,
{
    match o {
        Some(s) => Some(s.clone()),
        None => None,
    }
}

} // verus!

verus! {

/// The character sequences of a list of strings.
/// A copy of a list of strings.
pub fn copy_strings(v: &[String]) -> (r: Vec<String>)
    ensures
        r@ == v@,
{
    let mut r: Vec<String> = Vec::new();
    let mut i: usize = 0;
    while i < v.len()
        invariant
            i <= v@.len(),
            r@ == v@.take(i as int),
        decreases v.len() - i,
    {
        r.push(v[i].clone());
        assert(r@ =~= v@.take(i + 1));
        i += 1;
    }
    assert(v@.take(v@.len() as int) =~= v@);
    r
}

pub open spec fn strings_view(v: Seq<String>) -> Seq<Seq<char>> {
    v.map_values(|s: String| s@)
}

pub fn push_string(v: &mut Vec<String>, s: String)
    ensures
        strings_view(final(v)@) == strings_view(old(v)@).push(s@),
{
    let ghost before = v@;
    v.push(s);
    assert(strings_view(v@) =~= strings_view(before).push(s@));
}

/// The parts joined with `sep` between consecutive parts, as `[String]::join` returns them.
pub open spec fn spec_join(parts: Seq<Seq<char>>, sep: Seq<char>) -> Seq<char>
    decreases parts.len(),
{
    if parts.len() == 0 {
        Seq::empty()
    } else if parts.len() == 1 {
        parts[0]
    } else {
        spec_join(parts.drop_last(), sep) + sep + parts.last()
    }
}

pub fn join(parts: &Vec<String>, sep: &str) -> (r: String)
    ensures
        r@ == spec_join(strings_view(parts@), sep@),
{
    let mut r = String::new();
    let ghost all = strings_view(parts@);
    let mut i: usize = 0;
    while i < parts.len()
        invariant
            i <= parts@.len(),
            all == strings_view(parts@),
            r@ == spec_join(all.take(i as int), sep@),
        decreases parts.len() - i,
    {
        assert(all.take(i + 1).drop_last() =~= all.take(i as int));
        assert(all.take(i + 1).last() == parts@[i as int]@);
        if i != 0 {
            r.append(sep);
            r.append(parts[i].as_str());
        } else {
            assert(all.take(1) =~= seq![parts@[0]@]);
            r.append(parts[i].as_str());
            assert(r@ =~= parts@[0]@);
        }
        i += 1;
    }
    assert(all.take(parts@.len() as int) =~= all);
    r
}

} // verus!

verus! {

/// Lexicographic order of character sequences by code point, which is the
/// order `Ord for str` gives (UTF-8 preserves code point order): -1, 0 or 1.
pub open spec fn spec_lex_order(a: Seq<char>, b: Seq<char>) -> int
    decreases a.len(),
{
    if a.len() == 0 {
        if b.len() == 0 {
            0
        } else {
            -1
        }
    } else if b.len() == 0 {
        1
    } else if (a[0] as u32) < (b[0] as u32) {
        -1
    } else if (a[0] as u32) > (b[0] as u32) {
        1
    } else {
        spec_lex_order(a.drop_first(), b.drop_first())
    }
}

pub fn lex_order(a: &str, b: &str) -> (r: i8)
    ensures
        r == spec_lex_order(a@, b@),
{
    let x = to_chars(a);
    let y = to_chars(b);
    let mut i: usize = 0;
    assert(a@.skip(0) =~= a@);
    assert(b@.skip(0) =~= b@);
    while i < x.len() && i < y.len() && (x[i] as u32) == (y[i] as u32)
        invariant
            i <= x@.len(),
            i <= y@.len(),
            x@ == a@,
            y@ == b@,
            spec_lex_order(a@, b@) == spec_lex_order(a@.skip(i as int), b@.skip(i as int)),
        decreases x.len() - i,
    {
        assert(a@.skip(i as int).drop_first() =~= a@.skip(i + 1));
        assert(b@.skip(i as int).drop_first() =~= b@.skip(i + 1));
        i += 1;
    }
    let ghost sa = a@.skip(i as int);
    let ghost sb = b@.skip(i as int);
    if i == x.len() {
        assert(sa.len() == 0);
        if i == y.len() {
            0
        } else {
            -1
        }
    } else if i == y.len() {
        assert(sb.len() == 0);
        1
    } else {
        assert(sa[0] == x@[i as int] && sb[0] == y@[i as int]);
        let cx = x[i] as u32;
        let cy = y[i] as u32;
        if cx < cy {
            -1
        } else {
            1
        }
    }
}

} // verus!

verus! {

proof fn lemma_trim_start_result(s: Seq<char>)
    ensures
        spec_trim_start(s).len() == 0 || !spec_is_whitespace(spec_trim_start(s)[0]),
        spec_trim_start(spec_trim_start(s)) == spec_trim_start(s),
    decreases s.len(),
{
    if s.len() > 0 && spec_is_whitespace(s[0]) {
        lemma_trim_start_result(s.drop_first());
    }
}

proof fn lemma_trim_end_keeps_start(s: Seq<char>)
    requires
        s.len() == 0 || !spec_is_whitespace(s[0]),
    ensures
        spec_trim_end(s).len() == 0 || !spec_is_whitespace(spec_trim_end(s)[0]),
        spec_trim_end(s).len() == 0 || !spec_is_whitespace(spec_trim_end(s).last()),
        spec_trim_end(spec_trim_end(s)) == spec_trim_end(s),
        spec_trim_end(s).len() <= s.len(),
        spec_trim_end(s) == s.take(spec_trim_end(s).len() as int),
    decreases s.len(),
{
    if s.len() > 0 && spec_is_whitespace(s.last()) {
        let d = s.drop_last();
        if d.len() > 0 {
            assert(d[0] == s[0]);
        }
        lemma_trim_end_keeps_start(d);
        let t = spec_trim_end(d);
        assert(t == d.take(t.len() as int));
        assert(d.take(t.len() as int) =~= s.take(t.len() as int));
    } else {
        assert(s.take(s.len() as int) =~= s);
    }
}

/// Trimming twice is trimming once.
pub proof fn lemma_trim_idempotent(s: Seq<char>)
    ensures
        spec_trim(spec_trim(s)) == spec_trim(s),
{
    let a = spec_trim_start(s);
    lemma_trim_start_result(s);
    lemma_trim_end_keeps_start(a);
    let t = spec_trim_end(a);
    assert(spec_trim_start(t) == t);
}

/// The order of two sequences reverses when they are swapped.
pub proof fn lemma_lex_order_antisymmetric(a: Seq<char>, b: Seq<char>)
    ensures
        spec_lex_order(a, b) == -spec_lex_order(b, a),
        spec_lex_order(a, b) == 0 <==> a == b,
    decreases a.len(),
{
    if a.len() > 0 && b.len() > 0 && (a[0] as u32) == (b[0] as u32) {
        lemma_lex_order_antisymmetric(a.drop_first(), b.drop_first());
        if a.drop_first() == b.drop_first() {
            vstd::utf8::char_u32_cast(a[0], a[0] as u32);
            vstd::utf8::char_u32_cast(b[0], b[0] as u32);
            assert(a[0] == b[0]);
            assert(a =~= seq![a[0]] + a.drop_first());
            assert(b =~= seq![b[0]] + b.drop_first());
        }
        if a == b {
            assert(a.drop_first() =~= b.drop_first());
        }
    } else if a.len() == 0 && b.len() == 0 {
        assert(a =~= b);
    } else if a.len() > 0 && b.len() > 0 {
        assert(a[0] != b[0]);
    }
}

/// The strict order is transitive.
pub proof fn lemma_lex_order_transitive(a: Seq<char>, b: Seq<char>, c: Seq<char>)
    requires
        spec_lex_order(a, b) < 0,
        spec_lex_order(b, c) < 0,
    ensures
        spec_lex_order(a, c) < 0,
    decreases a.len(),
{
    if a.len() > 0 && b.len() > 0 && c.len() > 0 && (a[0] as u32) == (b[0] as u32) && (b[0] as u32)
        == (c[0] as u32) {
        lemma_lex_order_transitive(a.drop_first(), b.drop_first(), c.drop_first());
    }
}

/// Every pair of entries is in strictly increasing order.
pub open spec fn spec_strictly_sorted(s: Seq<Seq<char>>) -> bool {
    forall|i: int, j: int| 0 <= i < j < s.len() ==> spec_lex_order(#[trigger] s[i], #[trigger] s[j]) < 0
}

/// Two strictly sorted lists with the same entries are the same list.
pub proof fn lemma_sorted_lists_are_determined_by_entries(a: Seq<Seq<char>>, b: Seq<Seq<char>>)
    requires
        spec_strictly_sorted(a),
        spec_strictly_sorted(b),
        forall|x: Seq<char>| a.contains(x) <==> b.contains(x),
    ensures
        a == b,
    decreases a.len(),
{
    if a.len() == 0 {
        if b.len() > 0 {
            assert(b.contains(b[0]));
        }
        assert(a =~= b);
    } else {
        assert(a.contains(a[0]));
        assert(b.contains(a[0]));
        assert(b.len() > 0);
        assert(b.contains(b[0]));
        assert(a.contains(b[0]));
        if a[0] != b[0] {
            let i = choose|i: int| 0 <= i < a.len() && a[i] == b[0];
            let j = choose|j: int| 0 <= j < b.len() && b[j] == a[0];
            assert(i > 0);
            assert(j > 0);
            assert(spec_lex_order(a[0], a[i]) < 0);
            assert(spec_lex_order(b[0], b[j]) < 0);
            lemma_lex_order_antisymmetric(a[0], b[0]);
        }
        let ta = a.drop_first();
        let tb = b.drop_first();
        assert forall|x: Seq<char>| ta.contains(x) <==> tb.contains(x) by {
            if ta.contains(x) {
                let i = choose|i: int| 0 <= i < ta.len() && ta[i] == x;
                assert(a[i + 1] == x);
                assert(spec_lex_order(a[0], a[i + 1]) < 0);
                lemma_lex_order_antisymmetric(a[0], x);
                assert(b.contains(x));
                let j = choose|j: int| 0 <= j < b.len() && b[j] == x;
                assert(j != 0);
                assert(tb[j - 1] == x);
            }
            if tb.contains(x) {
                let j = choose|j: int| 0 <= j < tb.len() && tb[j] == x;
                assert(b[j + 1] == x);
                assert(spec_lex_order(b[0], b[j + 1]) < 0);
                lemma_lex_order_antisymmetric(b[0], x);
                assert(a.contains(x));
                let i = choose|i: int| 0 <= i < a.len() && a[i] == x;
                assert(i != 0);
                assert(ta[i - 1] == x);
            }
        }
        lemma_sorted_lists_are_determined_by_entries(ta, tb);
        assert(a =~= seq![a[0]] + ta);
        assert(b =~= seq![b[0]] + tb);
    }
}

/// The distinct entries of `words`, sorted, as `sort` followed by `dedup` leaves them.
#[verifier::spinoff_prover]
#[verifier::rlimit(30)]
pub fn sort_dedup(words: Vec<String>) -> (r: Vec<String>)
    ensures
        spec_strictly_sorted(strings_view(r@)),
        forall|x: Seq<char>| strings_view(r@).contains(x) <==> strings_view(words@).contains(x),
{
    let mut out: Vec<String> = Vec::new();
    let ghost input = strings_view(words@);
    let mut i: usize = 0;
    while i < words.len()
        invariant
            i <= words@.len(),
            input == strings_view(words@),
            spec_strictly_sorted(strings_view(out@)),
            forall|x: Seq<char>|
                strings_view(out@).contains(x) <==> input.take(i as int).contains(x),
        decreases words.len() - i,
    {
        let w = &words[i];
        let ghost wv = w@;
        let ghost before = strings_view(out@);
        let mut p: usize = 0;
        let mut found = false;
        while !found && p < out.len()
            invariant
                p <= out@.len(),
                before == strings_view(out@),
                wv == w@,
                forall|q: int| 0 <= q < p ==> spec_lex_order(#[trigger] before[q], wv) < 0,
                found ==> p < out@.len() && spec_lex_order(before[p as int], wv) >= 0,
            decreases out.len() - p + if found {
                0int
            } else {
                1int
            },
        {
            if lex_order(out[p].as_str(), w.as_str()) >= 0 {
                found = true;
            } else {
                p += 1;
            }
        }
        let duplicate = found && str_eq(out[p].as_str(), w.as_str());
        proof {
            let prev = input.take(i as int);
            let next = input.take(i + 1);
            assert(next =~= prev.push(wv));
            assert forall|x: Seq<char>| next.contains(x) <==> prev.contains(x) || x == wv by {
                if next.contains(x) {
                    let k = choose|k: int| 0 <= k < next.len() && next[k] == x;
                    if k < prev.len() {
                        assert(prev[k] == x);
                    }
                }
                if prev.contains(x) {
                    let k = choose|k: int| 0 <= k < prev.len() && prev[k] == x;
                    assert(next[k] == x);
                }
                if x == wv {
                    assert(next[prev.len() as int] == x);
                }
            }
        }
        if !duplicate {
            out.insert(p, w.clone());
            proof {
                let after = strings_view(out@);
                assert(after =~= before.insert(p as int, wv));
                assert forall|a: int, b: int| 0 <= a < b < after.len() implies spec_lex_order(
                    #[trigger] after[a],
                    #[trigger] after[b],
                ) < 0 by {
                    if b == p {
                        assert(after[a] == before[a]);
                    } else if a == p {
                        assert(after[b] == before[b - 1]);
                        assert(spec_lex_order(before[p as int], wv) >= 0);
                        lemma_lex_order_antisymmetric(before[p as int], wv);
                        if b - 1 > p {
                            assert(spec_lex_order(before[p as int], before[b - 1]) < 0);
                            lemma_lex_order_transitive(wv, before[p as int], before[b - 1]);
                        }
                    } else if a < p && b > p {
                        assert(after[a] == before[a]);
                        assert(after[b] == before[b - 1]);
                    } else if a < p {
                        assert(after[a] == before[a]);
                        assert(after[b] == before[b]);
                    } else {
                        assert(after[a] == before[a - 1]);
                        assert(after[b] == before[b - 1]);
                    }
                }
                assert forall|x: Seq<char>| after.contains(x) <==> before.contains(x) || x == wv by {
                    if after.contains(x) {
                        let k = choose|k: int| 0 <= k < after.len() && after[k] == x;
                        if k < p {
                            assert(before[k] == x);
                        } else if k > p {
                            assert(before[k - 1] == x);
                        }
                    }
                    if before.contains(x) {
                        let k = choose|k: int| 0 <= k < before.len() && before[k] == x;
                        if k < p {
                            assert(after[k] == x);
                        } else {
                            assert(after[k + 1] == x);
                        }
                    }
                    if x == wv {
                        assert(after[p as int] == x);
                    }
                }
            }
        } else {
            proof {
                assert(before[p as int] == wv);
                assert(before.contains(wv));
            }
        }
        i += 1;
    }
    proof {
        assert(input.take(words@.len() as int) =~= input);
    }
    out
}

/// The words trimmed, blank ones left out, at most `limit` of them.
pub open spec fn spec_trimmed_words(words: Seq<Seq<char>>) -> Seq<Seq<char>>
    decreases words.len(),
{
    if words.len() == 0 {
        Seq::empty()
    } else {
        let rest = spec_trimmed_words(words.drop_last());
        let t = spec_trim(words.last());
        if t.len() == 0 {
            rest
        } else {
            rest.push(t)
        }
    }
}

pub proof fn lemma_trimmed_words_len(words: Seq<Seq<char>>)
    ensures
        spec_trimmed_words(words).len() <= words.len(),
    decreases words.len(),
{
    if words.len() > 0 {
        lemma_trimmed_words_len(words.drop_last());
    }
}

proof fn lemma_trimmed_words_prefix(words: Seq<Seq<char>>, i: int)
    requires
        0 <= i <= words.len(),
    ensures
        spec_trimmed_words(words.take(i)).len() <= spec_trimmed_words(words).len(),
        spec_trimmed_words(words.take(i)) == spec_trimmed_words(words).take(
            spec_trimmed_words(words.take(i)).len() as int,
        ),
    decreases words.len(),
{
    if i == words.len() {
        assert(words.take(i) =~= words);
        assert(spec_trimmed_words(words).take(spec_trimmed_words(words).len() as int) =~= spec_trimmed_words(words));
    } else {
        lemma_trimmed_words_prefix(words.drop_last(), i);
        assert(words.drop_last().take(i) =~= words.take(i));
        let a = spec_trimmed_words(words.take(i));
        let b = spec_trimmed_words(words.drop_last());
        assert(b.push(spec_trim(words.last())).take(a.len() as int) =~= b.take(a.len() as int));
    }
}

/// The first `limit` non-blank words, trimmed.
pub fn trimmed_words(words: &[String], limit: usize) -> (r: Vec<String>)
    ensures
        strings_view(r@) == spec_trimmed_words(strings_view(words@)).take(
            if spec_trimmed_words(strings_view(words@)).len() < limit {
                spec_trimmed_words(strings_view(words@)).len() as int
            } else {
                limit as int
            },
        ),
{
    let ghost all = strings_view(words@);
    let mut out: Vec<String> = Vec::new();
    let mut i: usize = 0;
    while i < words.len() && out.len() < limit
        invariant
            i <= words@.len(),
            all == strings_view(words@),
            out@.len() <= limit,
            strings_view(out@) == spec_trimmed_words(all.take(i as int)),
        decreases words.len() - i,
    {
        assert(all.take(i + 1).drop_last() =~= all.take(i as int));
        let t = trim(words[i].as_str());
        if t.unicode_len() != 0 {
            let ghost n = out@.len();
            push_string(&mut out, t);
            assert(strings_view(out@).len() == out@.len());
            assert(out@.len() == n + 1);
        }
        i += 1;
    }
    proof {
        lemma_trimmed_words_prefix(all, i as int);
        let full = spec_trimmed_words(all);
        if i == words@.len() {
            assert(all.take(i as int) =~= all);
            assert(full.take(full.len() as int) =~= full);
        }
    }
    out
}

} // verus!
