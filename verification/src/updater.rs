//! Self-update decisions: which release to offer, version comparison and the
//! sanity check on a downloaded binary. The network calls, the JSON parsing
//! and the file swap are done by the application around the library.
use vstd::prelude::*;
use crate::text::{chars_of, decimal, digit, push_char};

verus! {

broadcast use vstd::string::group_string_axioms;

/// A release newer than the running binary, ready to be applied.
#[derive(Debug, Clone)]
pub struct ReleaseInfo {
    /// Tag with the leading 'v' stripped, e.g. "1.2.3".
    pub version: String,
    pub asset_url: String,
}

/// Progress of the self-update, shown as a header badge.
#[derive(Debug, Clone)]
pub enum UpdateStatus {
    Idle,
    Available(ReleaseInfo),
    Downloading,
    Ready,
    Error(String),
}

impl Default for UpdateStatus {
    fn default() -> (r: Self)
        ensures
            r is Idle,
    {
        UpdateStatus::Idle
    }
}

/// One downloadable file of a release, as the release API lists it.
#[derive(Debug, Clone)]
pub struct GhAsset {
    pub name: String,
    pub browser_download_url: String,
}

/// The fields of a release that the update check reads.
#[derive(Debug, Clone)]
pub struct GhRelease {
    pub tag_name: String,
    pub assets: Vec<GhAsset>,
}

/// `<str as PartialEq>::eq`: two strings are equal when they hold the same
/// characters.
#[verifier::external_body]
pub(crate) fn str_eq(a: &str, b: &str) -> (r: bool)
    ensures
        r == (a@ == b@),
{
    a == b
}

// ---------------------------------------------------------------------------
// Version parsing.
// ---------------------------------------------------------------------------

/// `c` is one of the ASCII digits '0'..='9'.
pub open spec fn is_ascii_digit(c: char) -> bool {
    '0' <= c <= '9'
}

/// The value of a run of ASCII digits read as a decimal number.
pub open spec fn digits_value(s: Seq<char>) -> nat
    decreases s.len(),
{
    if s.len() == 0 {
        0
    } else {
        digits_value(s.drop_last()) * 10 + (s.last() as int - '0' as int) as nat
    }
}

/// Every character of `s` is an ASCII digit.
pub open spec fn all_digits(s: Seq<char>) -> bool {
    forall|i: int| 0 <= i < s.len() ==> is_ascii_digit(#[trigger] s[i])
}

/// `s` without one leading '+' sign.
pub open spec fn unsigned_body(s: Seq<char>) -> Seq<char> {
    if s.len() > 0 && s[0] == '+' {
        s.drop_first()
    } else {
        s
    }
}

/// What `str::parse::<u32>` accepts: an optional leading '+' followed by at
/// least one ASCII digit, with a value that fits in 32 bits.
pub open spec fn parsed_u32(s: Seq<char>) -> Option<u32> {
    let body = unsigned_body(s);
    if body.len() > 0 && all_digits(body) && digits_value(body) <= u32::MAX {
        Some(digits_value(body) as u32)
    } else {
        None
    }
}

/// The pieces of `s` between the dots (what `str::split('.')` yields); there
/// is always at least one piece.
pub open spec fn split_dots(s: Seq<char>) -> Seq<Seq<char>>
    decreases s.len(),
{
    if s.len() == 0 {
        seq![Seq::empty()]
    } else {
        let rest = split_dots(s.drop_last());
        if s.last() == '.' {
            rest.push(Seq::empty())
        } else {
            rest.update(rest.len() - 1, rest.last().push(s.last()))
        }
    }
}

proof fn lemma_split_dots_nonempty(s: Seq<char>)
    ensures
        split_dots(s).len() >= 1,
    decreases s.len(),
{
    if s.len() > 0 {
        lemma_split_dots_nonempty(s.drop_last());
    }
}

/// The `k`-th dot-separated component of a version, 0 when it is missing or
/// does not parse.
pub open spec fn version_part(s: Seq<char>, k: int) -> u32 {
    let parts = split_dots(s);
    if 0 <= k < parts.len() {
        match parsed_u32(parts[k]) {
            Some(v) => v,
            None => 0,
        }
    } else {
        0
    }
}

/// A version as a (major, minor, patch) triple.
pub open spec fn version_of(s: Seq<char>) -> (u32, u32, u32) {
    (version_part(s, 0), version_part(s, 1), version_part(s, 2))
}

/// Lexicographic order on version triples.
pub open spec fn triple_gt(a: (u32, u32, u32), b: (u32, u32, u32)) -> bool {
    a.0 > b.0 || (a.0 == b.0 && (a.1 > b.1 || (a.1 == b.1 && a.2 > b.2)))
}

/// Parses one version component the way `str::parse::<u32>` does.
fn parse_u32(s: &Vec<char>) -> (r: Option<u32>)
    ensures
        r == parsed_u32(s@),
{
    let n = s.len();
    let mut start: usize = 0;
    if n > 0 && s[0] == '+' {
        start = 1;
    }
    let ghost body = unsigned_body(s@);
    assert(body =~= s@.subrange(start as int, n as int));
    if start == n {
        return None;
    }
    let mut value: u64 = 0;
    let mut i = start;
    while i < n
        invariant
            start <= i <= n,
            n == s@.len(),
            body == s@.subrange(start as int, n as int),
            body == unsigned_body(s@),
            forall|j: int| start <= j < i ==> is_ascii_digit(#[trigger] s@[j]),
            value == digits_value(s@.subrange(start as int, i as int)),
            value <= u32::MAX,
        decreases n - i,
    {
        let c = s[i];
        if !('0' <= c && c <= '9') {
            assert(body[i - start] == c);
            assert(!is_ascii_digit(body[i - start]));
            assert(!all_digits(body));
            return None;
        }
        let d = (c as u32 - '0' as u32) as u64;
        let next = value * 10 + d;
        assert(s@.subrange(start as int, i + 1).drop_last() =~= s@.subrange(
            start as int,
            i as int,
        ));
        if next > u32::MAX as u64 {
            proof {
                assert(body.subrange(0, i + 1 - start) =~= s@.subrange(start as int, i + 1));
                if all_digits(body) {
                    lemma_digits_value_grows(body, (i + 1 - start) as int);
                }
            }
            return None;
        }
        value = next;
        i = i + 1;
    }
    assert(s@.subrange(start as int, n as int) =~= body);
    assert(all_digits(body)) by {
        assert forall|j: int| 0 <= j < body.len() implies is_ascii_digit(#[trigger] body[j]) by {
            assert(body[j] == s@[start + j]);
        }
    }
    Some(value as u32)
}

/// Extending a run of digits never lowers its value.
proof fn lemma_digits_value_grows(s: Seq<char>, k: int)
    requires
        0 <= k <= s.len(),
        forall|i: int| 0 <= i < s.len() ==> is_ascii_digit(#[trigger] s[i]),
    ensures
        digits_value(s.subrange(0, k)) <= digits_value(s),
    decreases s.len() - k,
{
    if k < s.len() {
        assert(s.drop_last() =~= s.subrange(0, s.len() - 1));
        lemma_digits_value_grows(s.drop_last(), k);
        assert(s.drop_last().subrange(0, k) =~= s.subrange(0, k));
    } else {
        assert(s.subrange(0, k) =~= s);
    }
}

/// The dot-separated pieces of `v`.
fn split_on_dots(v: &Vec<char>) -> (parts: Vec<Vec<char>>)
    ensures
        parts@.len() == split_dots(v@).len(),
        forall|k: int| 0 <= k < parts@.len() ==> #[trigger] parts@[k]@ == split_dots(v@)[k],
{
    let mut done: Vec<Vec<char>> = Vec::new();
    let mut current: Vec<char> = Vec::new();
    let mut i: usize = 0;
    while i < v.len()
        invariant
            i <= v@.len(),
            split_dots(v@.take(i as int)).len() == done@.len() + 1,
            forall|k: int|
                0 <= k < done@.len() ==> #[trigger] done@[k]@ == split_dots(v@.take(i as int))[k],
            current@ == split_dots(v@.take(i as int)).last(),
        decreases v@.len() - i,
    {
        let c = v[i];
        proof {
            assert(v@.take(i + 1).drop_last() =~= v@.take(i as int));
            lemma_split_dots_nonempty(v@.take(i as int));
        }
        if c == '.' {
            done.push(current);
            current = Vec::new();
        } else {
            current.push(c);
        }
        i = i + 1;
    }
    assert(v@.take(i as int) =~= v@);
    done.push(current);
    done
}

/// Parses a `major.minor.patch` version. Missing or unparsable components
/// count as 0; components after the third are ignored.
pub fn parse_version(v: &str) -> (r: (u32, u32, u32))
    ensures
        r == version_of(v@),
{
    let chars = chars_of(v);
    let parts = split_on_dots(&chars);
    let mut out: [u32; 3] = [0, 0, 0];
    let mut k: usize = 0;
    while k < 3
        invariant
            k <= 3,
            parts@.len() == split_dots(v@).len(),
            forall|j: int| 0 <= j < parts@.len() ==> #[trigger] parts@[j]@ == split_dots(v@)[j],
            forall|j: int| 0 <= j < k ==> out@[j] == version_part(v@, j),
        decreases 3 - k,
    {
        if k < parts.len() {
            let p = parse_u32(&parts[k]);
            let value = match p {
                Some(x) => x,
                None => 0,
            };
            out[k] = value;
        } else {
            out[k] = 0;
        }
        k = k + 1;
    }
    (out[0], out[1], out[2])
}

/// Whether `remote` is a strictly newer major.minor.patch version than
/// `current`. Malformed components compare as 0, so this never fails.
pub fn is_newer(remote: &str, current: &str) -> (r: bool)
    ensures
        r == triple_gt(version_of(remote@), version_of(current@)),
{
    let a = parse_version(remote);
    let b = parse_version(current);
    a.0 > b.0 || (a.0 == b.0 && (a.1 > b.1 || (a.1 == b.1 && a.2 > b.2)))
}

/// "Newer than" is a strict order on versions: never reflexive, never both
/// ways, and transitive; two versions with different triples are always
/// ordered one way or the other.
pub proof fn law_is_newer_strict_order(a: Seq<char>, b: Seq<char>, c: Seq<char>)
    ensures
        !triple_gt(version_of(a), version_of(a)),
        triple_gt(version_of(a), version_of(b)) ==> !triple_gt(version_of(b), version_of(a)),
        triple_gt(version_of(a), version_of(b)) && triple_gt(version_of(b), version_of(c))
            ==> triple_gt(version_of(a), version_of(c)),
        version_of(a) != version_of(b) ==> triple_gt(version_of(a), version_of(b)) || triple_gt(
            version_of(b),
            version_of(a),
        ),
{
}

/// The decimal rendering of `n` is a non-empty run of ASCII digits that
/// reads back (as `str::parse` reads digits) as `n`.
pub proof fn law_decimal_reads_back(n: nat)
    ensures
        decimal(n).len() > 0,
        all_digits(decimal(n)),
        digits_value(decimal(n)) == n,
    decreases n,
{
    if n >= 10 {
        law_decimal_reads_back(n / 10);
        let d = decimal(n / 10);
        let e = d.push(digit((n % 10) as int));
        assert(e.drop_last() =~= d);
        assert(digit((n % 10) as int) as int == 48 + n % 10);
        assert(digits_value(e) == digits_value(d) * 10 + (n % 10));
        assert forall|i: int| 0 <= i < e.len() implies is_ascii_digit(#[trigger] e[i]) by {
            if i < d.len() {
                assert(e[i] == d[i]);
            }
        }
    } else {
        let e = seq![digit(n as int)];
        assert(e.drop_last() =~= Seq::<char>::empty());
        assert(digit(n as int) as int == 48 + n);
        assert(e.last() == digit(n as int));
        assert(digits_value(Seq::<char>::empty()) == 0);
        assert(digits_value(e) == digits_value(e.drop_last()) * 10 + (e.last() as int - '0' as int));
        assert(digits_value(e) == n);
    }
}

/// Appending text without dots extends the last piece.
proof fn lemma_split_dots_extend(s: Seq<char>, t: Seq<char>)
    requires
        forall|i: int| 0 <= i < t.len() ==> #[trigger] t[i] != '.',
    ensures
        split_dots(s + t) == split_dots(s).update(
            split_dots(s).len() - 1,
            split_dots(s).last() + t,
        ),
    decreases t.len(),
{
    lemma_split_dots_nonempty(s);
    if t.len() == 0 {
        assert(s + t =~= s);
        assert(split_dots(s).last() + t =~= split_dots(s).last());
        assert(split_dots(s).update(split_dots(s).len() - 1, split_dots(s).last())
            =~= split_dots(s));
    } else {
        let t2 = t.drop_last();
        lemma_split_dots_extend(s, t2);
        assert((s + t).drop_last() =~= s + t2);
        assert((s + t).last() == t.last());
        let rest = split_dots(s + t2);
        assert(rest.last() == split_dots(s).last() + t2);
        assert(rest.last().push(t.last()) =~= split_dots(s).last() + t);
        assert(rest.update(rest.len() - 1, rest.last().push(t.last())) =~= split_dots(s).update(
            split_dots(s).len() - 1,
            split_dots(s).last() + t,
        ));
    }
}

/// Appending a dot starts a new, empty piece.
proof fn lemma_split_dots_dot(s: Seq<char>)
    ensures
        split_dots(s + seq!['.']) == split_dots(s).push(Seq::empty()),
{
    assert((s + seq!['.']).drop_last() =~= s);
}

/// Digits contain no dot.
proof fn lemma_digits_no_dot(n: nat)
    ensures
        forall|i: int| 0 <= i < decimal(n).len() ==> #[trigger] decimal(n)[i] != '.',
{
    law_decimal_reads_back(n);
    assert forall|i: int| 0 <= i < decimal(n).len() implies #[trigger] decimal(n)[i] != '.' by {
        assert(is_ascii_digit(decimal(n)[i]));
    }
}

/// A version written as "major.minor.patch" in decimal reads back as that
/// triple.
pub proof fn law_version_round_trip(a: u32, b: u32, c: u32)
    ensures
        version_of(decimal(a as nat) + seq!['.'] + decimal(b as nat) + seq!['.'] + decimal(
            c as nat,
        )) == (a, b, c),
{
    let da = decimal(a as nat);
    let db = decimal(b as nat);
    let dc = decimal(c as nat);
    law_decimal_reads_back(a as nat);
    law_decimal_reads_back(b as nat);
    law_decimal_reads_back(c as nat);
    lemma_digits_no_dot(a as nat);
    lemma_digits_no_dot(b as nat);
    lemma_digits_no_dot(c as nat);
    let e = Seq::<char>::empty();
    lemma_split_dots_extend(e, da);
    assert(e + da =~= da);
    assert(split_dots(e) == seq![e]);
    assert(split_dots(da) =~= seq![da]);
    let s1 = da + seq!['.'];
    lemma_split_dots_dot(da);
    assert(split_dots(s1) =~= seq![da, e]);
    lemma_split_dots_extend(s1, db);
    let s2 = s1 + db;
    assert(split_dots(s2) =~= seq![da, db]);
    lemma_split_dots_dot(s2);
    let s3 = s2 + seq!['.'];
    assert(split_dots(s3) =~= seq![da, db, e]);
    lemma_split_dots_extend(s3, dc);
    let v = s3 + dc;
    assert(split_dots(v) =~= seq![da, db, dc]);
    assert(unsigned_body(da) == da);
    assert(unsigned_body(db) == db);
    assert(unsigned_body(dc) == dc);
    assert(v == decimal(a as nat) + seq!['.'] + decimal(b as nat) + seq!['.'] + decimal(c as nat));
}

// ---------------------------------------------------------------------------
// Release selection.
// ---------------------------------------------------------------------------

/// `s` without its leading 'v' characters (what `trim_start_matches('v')`
/// gives).
pub open spec fn without_leading_v(s: Seq<char>) -> Seq<char>
    decreases s.len(),
{
    if s.len() > 0 && s[0] == 'v' {
        without_leading_v(s.drop_first())
    } else {
        s
    }
}

/// Index of the first asset called `name`, if any.
pub open spec fn first_asset_named(assets: Seq<GhAsset>, name: Seq<char>) -> Option<int> {
    if exists|i: int| 0 <= i < assets.len() && #[trigger] assets[i].name@ == name {
        let i = choose|i: int|
            0 <= i < assets.len() && #[trigger] assets[i].name@ == name && forall|j: int|
                0 <= j < i ==> #[trigger] assets[j].name@ != name;
        Some(i)
    } else {
        None
    }
}

proof fn lemma_first_asset_named(assets: Seq<GhAsset>, name: Seq<char>, i: int)
    requires
        0 <= i < assets.len(),
        assets[i].name@ == name,
        forall|j: int| 0 <= j < i ==> #[trigger] assets[j].name@ != name,
    ensures
        first_asset_named(assets, name) == Some(i),
{
    let k = choose|k: int|
        0 <= k < assets.len() && #[trigger] assets[k].name@ == name && forall|j: int|
            0 <= j < k ==> #[trigger] assets[j].name@ != name;
    assert(exists|k: int|
        0 <= k < assets.len() && #[trigger] assets[k].name@ == name && forall|j: int|
            0 <= j < k ==> #[trigger] assets[j].name@ != name) by {
        assert(assets[i].name@ == name);
    }
    if k < i {
        assert(assets[k].name@ != name);
    }
    if i < k {
        assert(assets[i].name@ != name);
    }
}

/// Position of the first asset called `name`.
fn find_asset(assets: &Vec<GhAsset>, name: &str) -> (r: Option<usize>)
    ensures
        match r {
            None => forall|j: int| 0 <= j < assets@.len() ==> #[trigger] assets@[j].name@ != name@,
            Some(i) => {
                &&& i < assets@.len()
                &&& assets@[i as int].name@ == name@
                &&& forall|j: int| 0 <= j < i ==> #[trigger] assets@[j].name@ != name@
            },
        },
{
    let mut i: usize = 0;
    while i < assets.len()
        invariant
            i <= assets@.len(),
            forall|j: int| 0 <= j < i ==> #[trigger] assets@[j].name@ != name@,
        decreases assets@.len() - i,
    {
        if str_eq(assets[i].name.as_str(), name) {
            return Some(i);
        }
        i = i + 1;
    }
    None
}

/// Strips the leading 'v' characters of a release tag.
fn strip_leading_v(tag: &str) -> (r: String)
    ensures
        r@ == without_leading_v(tag@),
{
    let chars = chars_of(tag);
    let mut start: usize = 0;
    assert(chars@.subrange(0, chars@.len() as int) =~= chars@);
    while start < chars.len() && chars[start] == 'v'
        invariant
            start <= chars@.len(),
            without_leading_v(chars@) == without_leading_v(chars@.subrange(
                start as int,
                chars@.len() as int,
            )),
        decreases chars@.len() - start,
    {
        let ghost rest = chars@.subrange(start as int, chars@.len() as int);
        assert(rest.drop_first() =~= chars@.subrange(start + 1, chars@.len() as int));
        start = start + 1;
    }
    let ghost rest = chars@.subrange(start as int, chars@.len() as int);
    assert(without_leading_v(rest) == rest) by {
        if rest.len() > 0 {
            assert(rest[0] == chars@[start as int]);
        }
    }
    assert(chars@.subrange(0, chars@.len() as int) =~= chars@);
    crate::text::string_of_range(&chars, start, chars.len())
}

/// The update to offer for `release`, if any: it needs an asset called
/// `asset_name` (the first one with that name is used) and a tag, stripped of
/// its leading 'v's, that is newer than `current_version`.
pub fn release_update(release: &GhRelease, asset_name: &str, current_version: &str) -> (r: Option<
    ReleaseInfo,
>)
    ensures
        ({
            let version = without_leading_v(release.tag_name@);
            match first_asset_named(release.assets@, asset_name@) {
                None => r is None,
                Some(i) => if triple_gt(version_of(version), version_of(current_version@)) {
                    r matches Some(info) && info.version@ == version && info.asset_url@
                        == release.assets@[i].browser_download_url@
                } else {
                    r is None
                },
            }
        }),
{
    let found = find_asset(&release.assets, asset_name);
    let idx = match found {
        None => {
            assert(first_asset_named(release.assets@, asset_name@) is None);
            return None;
        },
        Some(idx) => idx,
    };
    proof {
        lemma_first_asset_named(release.assets@, asset_name@, idx as int);
    }
    let version = strip_leading_v(release.tag_name.as_str());
    if !is_newer(version.as_str(), current_version) {
        return None;
    }
    Some(ReleaseInfo { version, asset_url: release.assets[idx].browser_download_url.clone() })
}

// ---------------------------------------------------------------------------
// Downloaded binary check.
// ---------------------------------------------------------------------------

/// Whether the first bytes read from a downloaded file start with the "MZ"
/// signature of a Windows executable; fewer than two bytes never do.
pub fn has_pe_signature(head: &[u8]) -> (r: bool)
    ensures
        r == (head@.len() >= 2 && head@[0] == 0x4d && head@[1] == 0x5a),
{
    head.len() >= 2 && head[0] == 0x4d && head[1] == 0x5a
}


/// The asset picked is the first one with the wanted name, and none is
/// picked only when no asset has that name.
pub proof fn law_first_matching_asset(assets: Seq<GhAsset>, name: Seq<char>)
    ensures
        first_asset_named(assets, name) matches Some(i) ==> 0 <= i < assets.len()
            && assets[i].name@ == name && forall|j: int| 0 <= j < i ==> #[trigger] assets[j].name@
            != name,
        first_asset_named(assets, name) is None ==> forall|j: int|
            0 <= j < assets.len() ==> #[trigger] assets[j].name@ != name,
{
    if exists|i: int| 0 <= i < assets.len() && #[trigger] assets[i].name@ == name {
        let i0 = choose|i: int| 0 <= i < assets.len() && #[trigger] assets[i].name@ == name;
        let k = lemma_first_index(assets, name, i0);
        lemma_first_asset_named(assets, name, k);
    }
}

proof fn lemma_first_index(assets: Seq<GhAsset>, name: Seq<char>, i: int) -> (k: int)
    requires
        0 <= i < assets.len(),
        assets[i].name@ == name,
    ensures
        0 <= k <= i,
        assets[k].name@ == name,
        forall|j: int| 0 <= j < k ==> #[trigger] assets[j].name@ != name,
    decreases i,
{
    if exists|j: int| 0 <= j < i && #[trigger] assets[j].name@ == name {
        let j = choose|j: int| 0 <= j < i && #[trigger] assets[j].name@ == name;
        lemma_first_index(assets, name, j)
    } else {
        i
    }
}

/// The version taken from a tag is the tag without its leading 'v'
/// characters: it does not start with 'v', and the tag is some 'v's
/// followed by it.
pub proof fn law_tag_without_v(tag: Seq<char>)
    ensures
        ({
            let v = without_leading_v(tag);
            &&& v.len() <= tag.len()
            &&& v == tag.subrange(tag.len() - v.len(), tag.len() as int)
            &&& forall|k: int| 0 <= k < tag.len() - v.len() ==> #[trigger] tag[k] == 'v'
            &&& v.len() > 0 ==> v[0] != 'v'
        }),
    decreases tag.len(),
{
    if tag.len() > 0 && tag[0] == 'v' {
        law_tag_without_v(tag.drop_first());
        let v = without_leading_v(tag);
        assert(tag.drop_first().subrange(tag.drop_first().len() - v.len(), tag.drop_first().len() as int)
            =~= tag.subrange(tag.len() - v.len(), tag.len() as int));
        assert forall|k: int| 0 <= k < tag.len() - v.len() implies #[trigger] tag[k] == 'v' by {
            if k > 0 {
                assert(tag[k] == tag.drop_first()[k - 1]);
            }
        }
    } else {
        assert(tag.subrange(0, tag.len() as int) =~= tag);
    }
}

} // verus!
