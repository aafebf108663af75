//! Character-level text helpers shared by every panel: decimal rendering,
//! padding, truncation with an ellipsis, substring search, trimming and
//! UTF-16 encoding for Win32 calls.
use vstd::prelude::*;
use std::borrow::Cow;

verus! {

broadcast use vstd::string::group_string_axioms;

/// The ellipsis appended by [`truncate`].
pub const ELLIPSIS: char = '…';

// ---------------------------------------------------------------------------
// Wrappers around std functions that vstd does not specify.
// ---------------------------------------------------------------------------

/// `String::push`: appends one character at the end of the string.
#[verifier::external_body]
pub(crate) fn push_char(s: &mut String, c: char)
    ensures
        final(s)@ == old(s)@.push(c),
{
    s.push(c);
}

/// `String::pop`: removes the last character, if there is one.
#[verifier::external_body]
pub(crate) fn pop_char(s: &mut String) -> (r: Option<char>)
    ensures
        old(s)@.len() == 0 ==> r is None && final(s)@ == old(s)@,
        old(s)@.len() > 0 ==> r == Some(old(s)@.last()) && final(s)@ == old(s)@.drop_last(),
{
    s.pop()
}

/// Unicode general category Cc: the C0 and C1 control ranges.
pub open spec fn is_control_spec(c: char) -> bool {
    let v = c as int;
    (0 <= v <= 0x1f) || (0x7f <= v <= 0x9f)
}

/// Whether `c` is a control character (general category Cc, which Unicode
/// fixes as U+0000..=U+001F and U+007F..=U+009F), as `char::is_control`
/// decides it.
pub(crate) fn is_control(c: char) -> (r: bool)
    ensures
        r == is_control_spec(c),
{
    let v = c as u32;
    v <= 0x1f || (0x7f <= v && v <= 0x9f)
}

/// The Unicode `White_Space` property, as listed in PropList.txt.
pub open spec fn is_whitespace_spec(c: char) -> bool {
    let v = c as int;
    ||| 0x9 <= v <= 0xd
    ||| v == 0x20
    ||| v == 0x85
    ||| v == 0xa0
    ||| v == 0x1680
    ||| 0x2000 <= v <= 0x200a
    ||| v == 0x2028
    ||| v == 0x2029
    ||| v == 0x202f
    ||| v == 0x205f
    ||| v == 0x3000
}

/// Whether `c` has the Unicode `White_Space` property (the fixed list in
/// `is_whitespace_spec`), as `char::is_whitespace` decides it.
pub(crate) fn is_whitespace(c: char) -> (r: bool)
    ensures
        r == is_whitespace_spec(c),
{
    let v = c as u32;
    (0x9 <= v && v <= 0xd) || v == 0x20 || v == 0x85 || v == 0xa0 || v == 0x1680 || (0x2000 <= v
        && v <= 0x200a) || v == 0x2028 || v == 0x2029 || v == 0x202f || v == 0x205f || v == 0x3000
}

/// What `str::to_lowercase` returns for a string: the full Unicode
/// lowercase mapping, which depends on the characters alone.
pub uninterp spec fn lowercased(s: Seq<char>) -> Seq<char>;

/// `str::to_lowercase`: the result is the Unicode lowercase mapping of `s`,
/// named `lowercased`; nothing more of the mapping is stated.
#[verifier::external_body]
pub(crate) fn to_lowercase(s: &str) -> (r: String)
    ensures
        r@ == lowercased(s@),
{
    s.to_lowercase()
}

// ---------------------------------------------------------------------------
// Decimal rendering.
// ---------------------------------------------------------------------------

/// The ASCII digit for `d` (0..=9).
pub open spec fn digit(d: int) -> char {
    (48 + d) as char
}

/// The decimal representation of `n`, without leading zeros.
pub open spec fn decimal(n: nat) -> Seq<char>
    decreases n,
{
    if n < 10 {
        seq![digit(n as int)]
    } else {
        decimal(n / 10).push(digit((n % 10) as int))
    }
}

/// `n` rendered with at least `width` characters, padded with leading zeros
/// (the `{:0width$}` format).
pub open spec fn zero_padded(n: nat, width: nat) -> Seq<char> {
    let d = decimal(n);
    if d.len() < width {
        Seq::new((width - d.len()) as nat, |i: int| '0') + d
    } else {
        d
    }
}

/// `s` right-aligned in a field of `width` characters (the `{:>width$}`
/// format).
pub open spec fn pad_left(s: Seq<char>, width: nat) -> Seq<char> {
    if s.len() < width {
        Seq::new((width - s.len()) as nat, |i: int| ' ') + s
    } else {
        s
    }
}

/// `s` left-aligned in a field of `width` characters (the `{:<width$}`
/// format).
pub open spec fn pad_right(s: Seq<char>, width: nat) -> Seq<char> {
    if s.len() < width {
        s + Seq::new((width - s.len()) as nat, |i: int| ' ')
    } else {
        s
    }
}

/// Padding to a width keeps the text whole and adds only fill characters:
/// right alignment puts spaces before it, left alignment spaces after it,
/// zero padding zeros before the digits, each up to the width and no more.
pub proof fn law_padding(t: Seq<char>, n: nat, width: nat)
    ensures
        ({
            let w = if t.len() < width {
                width
            } else {
                t.len()
            };
            let l = pad_left(t, width);
            let r = pad_right(t, width);
            &&& l.len() == w && r.len() == w
            &&& l.subrange(w - t.len(), w as int) == t
            &&& r.subrange(0, t.len() as int) == t
            &&& forall|k: int| 0 <= k < w - t.len() ==> #[trigger] l[k] == ' '
            &&& forall|k: int| t.len() <= k < w ==> #[trigger] r[k] == ' '
        }),
        ({
            let d = decimal(n);
            let z = zero_padded(n, width);
            let w = if d.len() < width {
                width
            } else {
                d.len()
            };
            &&& z.len() == w
            &&& z.subrange(w - d.len(), w as int) == d
            &&& forall|k: int| 0 <= k < w - d.len() ==> #[trigger] z[k] == '0'
        }),
{
    let w = if t.len() < width {
        width
    } else {
        t.len()
    };
    assert(pad_left(t, width).subrange(w - t.len(), w as int) =~= t);
    assert(pad_right(t, width).subrange(0, t.len() as int) =~= t);
    let d = decimal(n);
    let wd = if d.len() < width {
        width
    } else {
        d.len()
    };
    assert(zero_padded(n, width).subrange(wd - d.len(), wd as int) =~= d);
}

/// A decimal rendering has at least one digit.
pub proof fn lemma_decimal_nonempty(n: nat)
    ensures
        decimal(n).len() >= 1,
    decreases n,
{
    if n >= 10 {
        lemma_decimal_nonempty(n / 10);
    }
}

/// The ASCII digit character of a value below ten.
pub fn digit_char(d: u8) -> (c: char)
    requires
        d < 10,
    ensures
        c == digit(d as int),
{
    (48u8 + d) as char
}

/// Appends the decimal representation of `n` to `s`.
pub fn push_decimal(s: &mut String, n: u64)
    ensures
        final(s)@ == old(s)@ + decimal(n as nat),
    decreases n,
{
    if n >= 10 {
        push_decimal(s, n / 10);
    }
    let d = (n % 10) as u8;
    push_char(s, digit_char(d));
    proof {
        assert(old(s)@ + decimal(n as nat) =~= s@) by {
            if n >= 10 {
                assert(decimal(n as nat) == decimal((n / 10) as nat).push(digit((n % 10) as int)));
            }
        }
    }
}

/// The decimal representation of `n` (what `n.to_string()` gives).
pub fn decimal_string(n: u64) -> (r: String)
    ensures
        r@ == decimal(n as nat),
{
    let mut s = String::new();
    push_decimal(&mut s, n);
    assert(s@ =~= decimal(n as nat));
    s
}

/// Appends `count` copies of `c`.
pub fn push_repeated(s: &mut String, c: char, count: usize)
    ensures
        final(s)@ == old(s)@ + Seq::new(count as nat, |i: int| c),
{
    let mut k: usize = 0;
    while k < count
        invariant
            k <= count,
            s@ == old(s)@ + Seq::new(k as nat, |i: int| c),
        decreases count - k,
    {
        push_char(s, c);
        k = k + 1;
        assert(s@ =~= old(s)@ + Seq::new(k as nat, |i: int| c));
    }
}

/// Appends `n` with at least `width` characters, zero-padded on the left.
pub fn push_zero_padded(s: &mut String, n: u64, width: usize)
    ensures
        final(s)@ == old(s)@ + zero_padded(n as nat, width as nat),
{
    let d = decimal_string(n);
    let len = d.as_str().unicode_len();
    if len < width {
        push_repeated(s, '0', width - len);
    }
    s.append(d.as_str());
    assert(s@ =~= old(s)@ + zero_padded(n as nat, width as nat));
}

/// Appends `t` right-aligned in a field of `width` characters.
pub fn push_pad_left(s: &mut String, t: &str, width: usize)
    ensures
        final(s)@ == old(s)@ + pad_left(t@, width as nat),
{
    let len = t.unicode_len();
    if len < width {
        push_repeated(s, ' ', width - len);
    }
    s.append(t);
    assert(s@ =~= old(s)@ + pad_left(t@, width as nat));
}

/// Appends `t` left-aligned in a field of `width` characters.
pub fn push_pad_right(s: &mut String, t: &str, width: usize)
    ensures
        final(s)@ == old(s)@ + pad_right(t@, width as nat),
{
    let len = t.unicode_len();
    s.append(t);
    if len < width {
        push_repeated(s, ' ', width - len);
    }
    assert(s@ =~= old(s)@ + pad_right(t@, width as nat));
}

// ---------------------------------------------------------------------------
// Character sequences.
// ---------------------------------------------------------------------------

/// The characters of `s`, one per element.
pub fn chars_of(s: &str) -> (v: Vec<char>)
    ensures
        v@ == s@,
{
    let mut v: Vec<char> = Vec::new();
    for c in it: s.chars()
        invariant
            v@ == it.seq().take(it.index() as int),
            it.seq() == s@,
    {
        v.push(c);
    }
    v
}

/// The string made of the characters `v[from..to]`.
pub fn string_of_range(v: &Vec<char>, from: usize, to: usize) -> (r: String)
    requires
        from <= to <= v@.len(),
    ensures
        r@ == v@.subrange(from as int, to as int),
{
    let mut r = String::new();
    let mut k = from;
    while k < to
        invariant
            from <= k <= to <= v@.len(),
            r@ == v@.subrange(from as int, k as int),
        decreases to - k,
    {
        push_char(&mut r, v[k]);
        k = k + 1;
        assert(r@ =~= v@.subrange(from as int, k as int));
    }
    r
}

// ---------------------------------------------------------------------------
// Truncation.
// ---------------------------------------------------------------------------

/// `s` cut to at most `max_chars` characters; when it is cut and there is
/// room for at least one character, the last kept character is replaced by
/// an ellipsis.
pub open spec fn truncated(s: Seq<char>, max_chars: nat) -> Seq<char> {
    if s.len() <= max_chars {
        s
    } else if max_chars == 0 {
        Seq::empty()
    } else {
        s.take(max_chars - 1).push(ELLIPSIS)
    }
}

/// Truncate `s` to at most `max_chars` characters, appending an ellipsis when
/// truncated. Counts characters, never bytes, so a multi-byte character is
/// never split. Text that already fits comes back borrowed, as does the
/// empty result for a zero budget, so only a cut allocates.
pub fn truncate(s: &str, max_chars: usize) -> (r: Cow<'_, str>)
    ensures
        r@ == truncated(s@, max_chars as nat),
        s@.len() <= max_chars ==> (r matches Cow::Borrowed(b) && b == s),
        s@.len() > max_chars && max_chars == 0 ==> r matches Cow::Borrowed(_),
        s@.len() > max_chars && max_chars > 0 ==> r matches Cow::Owned(_),
{
    let n = s.unicode_len();
    if n <= max_chars {
        return Cow::Borrowed(s);
    }
    if max_chars == 0 {
        proof {
            reveal_strlit("");
        }
        return Cow::Borrowed("");
    }
    let mut r = s.substring_char(0, max_chars - 1).to_string();
    push_char(&mut r, ELLIPSIS);
    assert(r@ =~= truncated(s@, max_chars as nat));
    Cow::Owned(r)
}

/// The text of a truncation result, however it is held.
pub fn cow_str<'a>(c: &'a Cow<'a, str>) -> (r: &'a str)
    ensures
        r@ == c@,
{
    match c {
        Cow::Borrowed(b) => b,
        Cow::Owned(o) => o.as_str(),
    }
}

/// Truncation never yields more than `max_chars` characters, keeps a string
/// that already fits unchanged, and otherwise keeps a prefix of it followed
/// by the ellipsis.
pub proof fn lemma_truncated_fits(s: Seq<char>, max_chars: nat)
    ensures
        truncated(s, max_chars).len() <= max_chars,
        s.len() <= max_chars ==> truncated(s, max_chars) == s,
        s.len() > max_chars && max_chars > 0 ==> {
            &&& truncated(s, max_chars).len() == max_chars
            &&& truncated(s, max_chars).last() == ELLIPSIS
            &&& truncated(s, max_chars).take(max_chars - 1) == s.take(max_chars - 1)
        },
{
    if s.len() > max_chars && max_chars > 0 {
        assert(truncated(s, max_chars).take(max_chars - 1) =~= s.take(max_chars - 1));
    }
}

// ---------------------------------------------------------------------------
// Substring search.
// ---------------------------------------------------------------------------

/// `needle` occurs somewhere in `hay` as a contiguous run.
pub open spec fn contains_seq(hay: Seq<char>, needle: Seq<char>) -> bool {
    exists|i: int|
        0 <= i && i + needle.len() <= hay.len() && #[trigger] hay.subrange(i, i + needle.len())
            == needle
}

/// Whether `needle` occurs at position `i` of `hay`.
fn occurs_at(hay: &Vec<char>, needle: &Vec<char>, i: usize) -> (r: bool)
    requires
        i + needle@.len() <= hay@.len(),
    ensures
        r == (hay@.subrange(i as int, i + needle@.len()) == needle@),
{
    let hl = hay.len();
    let mut k: usize = 0;
    while k < needle.len()
        invariant
            k <= needle@.len(),
            hl == hay@.len(),
            i + needle@.len() <= hay@.len(),
            forall|j: int| 0 <= j < k ==> hay@[i + j] == needle@[j],
        decreases needle@.len() - k,
    {
        if hay[i + k] != needle[k] {
            assert(hay@.subrange(i as int, i + needle@.len())[k as int] != needle@[k as int]);
            return false;
        }
        k = k + 1;
    }
    assert(hay@.subrange(i as int, i + needle@.len()) =~= needle@);
    true
}

/// Whether `needle` occurs as a contiguous run in `hay` (what `str::contains`
/// answers for a string pattern).
pub fn contains_chars(hay: &Vec<char>, needle: &Vec<char>) -> (r: bool)
    ensures
        r == contains_seq(hay@, needle@),
{
    if needle.len() > hay.len() {
        return false;
    }
    let last = hay.len() - needle.len();
    let mut i: usize = 0;
    loop
        invariant
            i <= last,
            last == hay@.len() - needle@.len(),
            needle@.len() <= hay@.len(),
            forall|j: int|
                0 <= j < i ==> #[trigger] hay@.subrange(j, j + needle@.len()) != needle@,
        decreases last - i,
    {
        if occurs_at(hay, needle, i) {
            return true;
        }
        if i == last {
            return false;
        }
        i = i + 1;
    }
}

// ---------------------------------------------------------------------------
// Trimming.
// ---------------------------------------------------------------------------

/// The characters trimmed: NUL when `nul`, otherwise white space.
pub open spec fn is_trimmed_char(c: char, nul: bool) -> bool {
    if nul {
        c == '\0'
    } else {
        is_whitespace_spec(c)
    }
}

/// `s` without its trailing trimmed characters.
pub open spec fn trimmed_end(s: Seq<char>, nul: bool) -> Seq<char>
    decreases s.len(),
{
    if s.len() == 0 || !is_trimmed_char(s.last(), nul) {
        s
    } else {
        trimmed_end(s.drop_last(), nul)
    }
}

/// `s` without its leading trimmed characters.
pub open spec fn trimmed_start(s: Seq<char>, nul: bool) -> Seq<char>
    decreases s.len(),
{
    if s.len() == 0 || !is_trimmed_char(s[0], nul) {
        s
    } else {
        trimmed_start(s.drop_first(), nul)
    }
}

/// `s` without leading and trailing white space (what `str::trim` gives).
pub open spec fn trimmed(s: Seq<char>) -> Seq<char> {
    trimmed_end(trimmed_start(s, false), false)
}

/// `s` without leading and trailing NUL characters (what
/// `str::trim_matches('\0')` gives).
pub open spec fn nul_trimmed(s: Seq<char>) -> Seq<char> {
    trimmed_end(trimmed_start(s, true), true)
}

proof fn lemma_trimmed_start_at(s: Seq<char>, nul: bool) -> (i: int)
    ensures
        0 <= i <= s.len(),
        forall|k: int| 0 <= k < i ==> is_trimmed_char(#[trigger] s[k], nul),
        trimmed_start(s, nul) == s.subrange(i, s.len() as int),
        i < s.len() ==> !is_trimmed_char(s[i], nul),
    decreases s.len(),
{
    if s.len() == 0 || !is_trimmed_char(s[0], nul) {
        assert(s.subrange(0, s.len() as int) =~= s);
        0
    } else {
        let j = lemma_trimmed_start_at(s.drop_first(), nul);
        assert(s.drop_first().subrange(j, s.drop_first().len() as int) =~= s.subrange(
            j + 1,
            s.len() as int,
        ));
        assert forall|k: int| 0 <= k < j + 1 implies is_trimmed_char(#[trigger] s[k], nul) by {
            if k > 0 {
                assert(s[k] == s.drop_first()[k - 1]);
            }
        }
        if j + 1 < s.len() {
            assert(s[j + 1] == s.drop_first()[j]);
        }
        j + 1
    }
}

proof fn lemma_trimmed_end_at(s: Seq<char>, nul: bool) -> (j: int)
    ensures
        0 <= j <= s.len(),
        forall|k: int| j <= k < s.len() ==> is_trimmed_char(#[trigger] s[k], nul),
        trimmed_end(s, nul) == s.subrange(0, j),
        j > 0 ==> !is_trimmed_char(s[j - 1], nul),
    decreases s.len(),
{
    if s.len() == 0 || !is_trimmed_char(s.last(), nul) {
        assert(s.subrange(0, s.len() as int) =~= s);
        s.len() as int
    } else {
        let j = lemma_trimmed_end_at(s.drop_last(), nul);
        assert(s.drop_last().subrange(0, j) =~= s.subrange(0, j));
        assert forall|k: int| j <= k < s.len() implies is_trimmed_char(#[trigger] s[k], nul) by {
            if k < s.len() - 1 {
                assert(s[k] == s.drop_last()[k]);
            }
        }
        if j > 0 {
            assert(s[j - 1] == s.drop_last()[j - 1]);
        }
        j
    }
}

/// Trimming removes white space at both ends and nothing else: the result
/// is a contiguous part of the text, everything around it is white space,
/// and it neither starts nor ends with white space. (The same holds of NUL
/// trimming with NUL in place of white space.)
pub proof fn law_trim_removes_only_the_ends(s: Seq<char>, nul: bool)
    ensures
        ({
            let t = trimmed_end(trimmed_start(s, nul), nul);
            exists|i: int, j: int|
                0 <= i <= j <= s.len() && t == s.subrange(i, j) && (forall|k: int|
                    0 <= k < i ==> is_trimmed_char(#[trigger] s[k], nul)) && (forall|k: int|
                    j <= k < s.len() ==> is_trimmed_char(#[trigger] s[k], nul)) && (t.len() > 0
                    ==> !is_trimmed_char(t[0], nul) && !is_trimmed_char(t.last(), nul))
        }),
        trimmed(s) == trimmed_end(trimmed_start(s, false), false),
        nul_trimmed(s) == trimmed_end(trimmed_start(s, true), true),
{
    let i = lemma_trimmed_start_at(s, nul);
    let u = s.subrange(i, s.len() as int);
    let j0 = lemma_trimmed_end_at(u, nul);
    let t = u.subrange(0, j0);
    let j = i + j0;
    assert(t =~= s.subrange(i, j));
    assert forall|k: int| j <= k < s.len() implies is_trimmed_char(#[trigger] s[k], nul) by {
        assert(s[k] == u[k - i]);
    }
    if t.len() > 0 {
        assert(t[0] == u[0]);
        assert(u[0] == s[i]);
        assert(t.last() == u[j0 - 1]);
    }
}

proof fn lemma_trimmed_start_suffix(s: Seq<char>, k: int, nul: bool)
    requires
        0 <= k <= s.len(),
        forall|j: int| 0 <= j < k ==> is_trimmed_char(#[trigger] s[j], nul),
    ensures
        trimmed_start(s, nul) == trimmed_start(s.subrange(k, s.len() as int), nul),
    decreases k,
{
    if k > 0 {
        assert(s.drop_first() =~= s.subrange(1, s.len() as int));
        lemma_trimmed_start_suffix(s.drop_first(), k - 1, nul);
        assert(s.drop_first().subrange(k - 1, s.drop_first().len() as int) =~= s.subrange(
            k,
            s.len() as int,
        ));
    } else {
        assert(s.subrange(0, s.len() as int) =~= s);
    }
}

proof fn lemma_trimmed_end_prefix(s: Seq<char>, k: int, nul: bool)
    requires
        0 <= k <= s.len(),
        forall|j: int| k <= j < s.len() ==> is_trimmed_char(#[trigger] s[j], nul),
    ensures
        trimmed_end(s, nul) == trimmed_end(s.subrange(0, k), nul),
    decreases s.len() - k,
{
    if k < s.len() {
        assert(s.drop_last() =~= s.subrange(0, s.len() - 1));
        lemma_trimmed_end_prefix(s.drop_last(), k, nul);
        assert(s.drop_last().subrange(0, k) =~= s.subrange(0, k));
    } else {
        assert(s.subrange(0, k) =~= s);
    }
}

/// Whether `c` is trimmed (NUL when `nul`, otherwise white space).
fn is_trimmed(c: char, nul: bool) -> (r: bool)
    ensures
        r == is_trimmed_char(c, nul),
{
    if nul {
        c == '\0'
    } else {
        is_whitespace(c)
    }
}

/// `s` with leading and trailing trimmed characters removed.
fn trim_by(s: &str, nul: bool) -> (r: String)
    ensures
        r@ == trimmed_end(trimmed_start(s@, nul), nul),
{
    let v = chars_of(s);
    let n = v.len();
    let mut start: usize = 0;
    while start < n && is_trimmed(v[start], nul)
        invariant
            n == v@.len(),
            start <= n,
            forall|j: int| 0 <= j < start ==> is_trimmed_char(#[trigger] v@[j], nul),
        decreases n - start,
    {
        start = start + 1;
    }
    proof {
        lemma_trimmed_start_suffix(v@, start as int, nul);
    }
    let ghost rest = v@.subrange(start as int, n as int);
    assert(trimmed_start(rest, nul) == rest) by {
        if rest.len() > 0 {
            assert(rest[0] == v@[start as int]);
        }
    }
    let mut end: usize = n;
    while end > start && is_trimmed(v[end - 1], nul)
        invariant
            n == v@.len(),
            start <= end <= n,
            forall|j: int| end <= j < n ==> is_trimmed_char(#[trigger] v@[j], nul),
        decreases end,
    {
        end = end - 1;
    }
    proof {
        let rest_end = (end - start) as int;
        assert forall|j: int| rest_end <= j < rest.len() implies is_trimmed_char(
            #[trigger] rest[j],
            nul,
        ) by {
            assert(rest[j] == v@[start + j]);
        }
        lemma_trimmed_end_prefix(rest, rest_end, nul);
        let kept = rest.subrange(0, rest_end);
        assert(kept =~= v@.subrange(start as int, end as int));
        assert(trimmed_end(kept, nul) == kept) by {
            if kept.len() > 0 {
                assert(kept.last() == v@[end - 1]);
            }
        }
    }
    string_of_range(&v, start, end)
}

/// `s` with leading and trailing white space removed.
pub fn trim(s: &str) -> (r: String)
    ensures
        r@ == trimmed(s@),
{
    trim_by(s, false)
}

/// `s` with leading and trailing NUL characters removed.
pub fn trim_nul(s: &str) -> (r: String)
    ensures
        r@ == nul_trimmed(s@),
{
    trim_by(s, true)
}

// ---------------------------------------------------------------------------
// UTF-16.
// ---------------------------------------------------------------------------

/// The UTF-16 code units of one character: itself below U+10000, otherwise
/// a surrogate pair.
pub open spec fn utf16_units(c: char) -> Seq<u16> {
    let v = c as int;
    if v < 0x10000 {
        seq![v as u16]
    } else {
        let u = v - 0x10000;
        seq![(0xD800 + u / 0x400) as u16, (0xDC00 + u % 0x400) as u16]
    }
}

/// The UTF-16 encoding of a character sequence.
pub open spec fn utf16_of(s: Seq<char>) -> Seq<u16>
    decreases s.len(),
{
    if s.len() == 0 {
        Seq::empty()
    } else {
        utf16_of(s.drop_last()) + utf16_units(s.last())
    }
}

proof fn lemma_u16_cast_in_range(x: int)
    requires
        0 <= x < 0x10000,
    ensures
        (x as u16) as int == x,
{
}

/// UTF-16 keeps each character below U+10000 as one unit equal to its code
/// point, and writes each character above as a high and a low surrogate
/// that recombine to it.
pub proof fn law_utf16_units(s: Seq<char>, c: char)
    ensures
        (forall|i: int| 0 <= i < s.len() ==> 0 <= ((#[trigger] s[i]) as int) < 0x10000) ==> {
            &&& utf16_of(s).len() == s.len()
            &&& forall|i: int| 0 <= i < s.len() ==> #[trigger] utf16_of(s)[i] == s[i] as int
        },
        0x10000 <= c as int <= 0x10FFFF ==> {
            let u = utf16_units(c);
            &&& u.len() == 2
            &&& 0xD800 <= u[0] < 0xDC00
            &&& 0xDC00 <= u[1] < 0xE000
            &&& 0x10000 + (u[0] - 0xD800) * 0x400 + (u[1] - 0xDC00) == c as int
        },
    decreases s.len(),
{
    if forall|i: int| 0 <= i < s.len() ==> 0 <= ((#[trigger] s[i]) as int) < 0x10000 {
        if s.len() > 0 {
            let e = s.drop_last();
            assert forall|i: int| 0 <= i < e.len() implies 0 <= ((#[trigger] e[i]) as int) < 0x10000 by {
                assert(e[i] == s[i]);
            }
            law_utf16_units(e, c);
            let last = s.last();
            assert(0 <= ((s[s.len() - 1]) as int) < 0x10000);
            assert(last == s[s.len() - 1]);
            let units = utf16_units(last);
            assert(units == seq![(last as int) as u16]);
            assert(units.len() == 1);
            lemma_u16_cast_in_range(last as int);
            assert(units[0] as int == last as int);
            assert(utf16_of(s) == utf16_of(e) + units);
            assert forall|i: int| 0 <= i < s.len() implies #[trigger] utf16_of(s)[i] == s[i] as int by {
                if i < s.len() - 1 {
                    assert(s[i] == e[i]);
                    assert(utf16_of(s)[i] == utf16_of(e)[i]);
                } else {
                    assert(utf16_of(s)[i] == units[0]);
                }
            }
        }
    }
    if 0x10000 <= c as int <= 0x10FFFF {
        let v = c as int - 0x10000;
        assert(v < 0x100000);
        assert(v / 0x400 < 0x400);
        assert(v == (v / 0x400) * 0x400 + v % 0x400);
    }
}

/// The scalar value of `c`.
fn code_point(c: char) -> (v: u32)
    ensures
        v == c as int,
        v <= 0x10FFFF,
{
    c as u32
}

/// The UTF-16 encoding of `s` followed by a terminating NUL unit, as Win32
/// wide-string parameters expect.
pub fn to_wide(s: &str) -> (w: Vec<u16>)
    ensures
        w@ == utf16_of(s@).push(0u16),
{
    let chars = chars_of(s);
    let mut w: Vec<u16> = Vec::new();
    let mut i: usize = 0;
    while i < chars.len()
        invariant
            i <= chars@.len(),
            w@ == utf16_of(chars@.take(i as int)),
        decreases chars@.len() - i,
    {
        let c = chars[i];
        let v = code_point(c);
        if v < 0x10000 {
            w.push(v as u16);
        } else {
            let u = v - 0x10000;
            w.push((0xD800 + u / 0x400) as u16);
            w.push((0xDC00 + u % 0x400) as u16);
        }
        proof {
            let before = chars@.take(i as int);
            let after = chars@.take(i + 1);
            assert(after.drop_last() =~= before);
            assert(w@ =~= utf16_of(before) + utf16_units(c));
        }
        i = i + 1;
    }
    assert(chars@.take(i as int) =~= s@);
    w.push(0u16);
    w
}

} // verus!
