//! Release-version handling: parsing a version string into comparable
//! numbers, comparing two versions, and deciding whether a published
//! release is an update worth offering.

use vstd::prelude::*;
use vstd::string::StrSliceExecFns;
use vstd::string::StringExecFns;

verus! {

/// The first index at or after `i` that does not hold a `v`.
pub open spec fn skip_v_at(s: Seq<char>, i: int) -> int
    decreases s.len() - i,
{
    if i < s.len() && s[i] == 'v' {
        skip_v_at(s, i + 1)
    } else {
        i
    }
}

/// The end of the version segment that starts at `i`: the first `.` at or
/// after it, or the end of the text.
pub open spec fn seg_end_at(s: Seq<char>, i: int) -> int
    decreases s.len() - i,
{
    if i < s.len() && s[i] != '.' {
        seg_end_at(s, i + 1)
    } else {
        i
    }
}

pub open spec fn is_digit_char(c: char) -> bool {
    48 <= c as u32 <= 57
}

/// The decimal value of the digit run `s[from..to]`.
pub open spec fn num_val(s: Seq<char>, from: int, to: int) -> int
    decreases to - from,
{
    if from >= to {
        0
    } else {
        num_val(s, from, to - 1) * 10 + (s[to - 1] as u32 - 48)
    }
}

pub open spec fn all_digits(s: Seq<char>, from: int, to: int) -> bool {
    forall|j: int| from <= j < to ==> is_digit_char(#[trigger] s[j])
}

/// What one version segment parses to: a non-empty digit run whose value
/// fits an unsigned 64-bit number.
pub open spec fn parse_num(s: Seq<char>, from: int, to: int) -> Option<int> {
    if from < to && all_digits(s, from, to) && num_val(s, from, to) <= u64::MAX {
        Some(num_val(s, from, to))
    } else {
        None
    }
}

proof fn lemma_num_val_bounds(s: Seq<char>, from: int, to: int, j: int)
    requires
        from <= j <= to,
        all_digits(s, from, to),
    ensures
        num_val(s, from, to) >= num_val(s, from, j) >= 0,
    decreases to - j,
{
    if j == to {
        lemma_num_val_nonneg(s, from, to);
    } else {
        lemma_num_val_bounds(s, from, to - 1, j);
        lemma_num_val_nonneg(s, from, to - 1);
        assert(num_val(s, from, to) >= num_val(s, from, to - 1));
    }
}

proof fn lemma_num_val_nonneg(s: Seq<char>, from: int, to: int)
    requires
        all_digits(s, from, to),
    ensures
        num_val(s, from, to) >= 0,
    decreases to - from,
{
    if from < to {
        lemma_num_val_nonneg(s, from, to - 1);
    }
}

/// What a version string parses to: an optional run of leading `v`s, then
/// two or three dot-separated decimal segments (a missing third segment
/// counts as zero; segments past the third are ignored).
pub open spec fn spec_parse_version(s: Seq<char>) -> Option<(int, int, int)> {
    let i0 = skip_v_at(s, 0);
    let e1 = seg_end_at(s, i0);
    match parse_num(s, i0, e1) {
        None => None,
        Some(major) => {
            if e1 >= s.len() {
                None
            } else {
                let i2 = e1 + 1;
                let e2 = seg_end_at(s, i2);
                match parse_num(s, i2, e2) {
                    None => None,
                    Some(minor) => {
                        if e2 >= s.len() {
                            Some((major, minor, 0))
                        } else {
                            let i3 = e2 + 1;
                            let e3 = seg_end_at(s, i3);
                            match parse_num(s, i3, e3) {
                                None => None,
                                Some(patch) => Some((major, minor, patch)),
                            }
                        }
                    },
                }
            }
        },
    }
}

/// First index at or after `i` that is not a `v`.
fn skip_v(s: &str, n: usize, i: usize) -> (r: usize)
    requires
        n == s@.len(),
        i <= n,
    ensures
        r == skip_v_at(s@, i as int),
        i <= r <= n,
{
    let mut cur = i;
    while cur < n && s.get_char(cur) == 'v'
        invariant
            n == s@.len(),
            i <= cur <= n,
            skip_v_at(s@, i as int) == skip_v_at(s@, cur as int),
        decreases n - cur,
    {
        cur = cur + 1;
    }
    cur
}

/// End of the segment that starts at `i`.
fn seg_end(s: &str, n: usize, i: usize) -> (r: usize)
    requires
        n == s@.len(),
        i <= n,
    ensures
        r == seg_end_at(s@, i as int),
        i <= r <= n,
        r < n ==> s@[r as int] == '.',
{
    let mut cur = i;
    while cur < n && s.get_char(cur) != '.'
        invariant
            n == s@.len(),
            i <= cur <= n,
            seg_end_at(s@, i as int) == seg_end_at(s@, cur as int),
        decreases n - cur,
    {
        cur = cur + 1;
    }
    cur
}

/// Parses one segment as a decimal number; see [`parse_num`].
fn parse_segment(s: &str, n: usize, from: usize, to: usize) -> (r: Option<u64>)
    requires
        n == s@.len(),
        from <= to <= n,
    ensures
        match r {
            Some(v) => parse_num(s@, from as int, to as int) == Some(v as int),
            None => parse_num(s@, from as int, to as int) is None,
        },
{
    if from >= to {
        return None;
    }
    let mut j = from;
    let mut v: u64 = 0;
    while j < to
        invariant
            n == s@.len(),
            from <= j <= to <= n,
            all_digits(s@, from as int, j as int),
            v == num_val(s@, from as int, j as int),
        decreases to - j,
    {
        let c = s.get_char(j);
        let u = c as u32;
        if u < 48 || u > 57 {
            proof {
                assert(!is_digit_char(s@[j as int]));
            }
            return None;
        }
        let d = (u - 48) as u64;
        if v > (u64::MAX - d) / 10 {
            proof {
                assert(num_val(s@, from as int, j + 1) == v * 10 + d);
                assert(v * 10 + d > u64::MAX) by {
                    assert(v >= (u64::MAX - d) / 10 + 1);
                    assert(v * 10 >= ((u64::MAX - d) / 10 + 1) * 10) by (nonlinear_arith)
                        requires
                            v >= (u64::MAX - d) / 10 + 1,
                    ;
                }
                if all_digits(s@, from as int, to as int) {
                    lemma_num_val_bounds(s@, from as int, to as int, j + 1);
                }
            }
            return None;
        }
        v = v * 10 + d;
        proof {
            assert(all_digits(s@, from as int, j + 1));
        }
        j = j + 1;
    }
    Some(v)
}

/// Parses a version string into comparable (major, minor, patch) numbers;
/// see [`spec_parse_version`].
pub fn parse_version(version: &str) -> (r: Option<(u64, u64, u64)>)
    ensures
        match r {
            Some(t) => spec_parse_version(version@) == Some(
                (t.0 as int, t.1 as int, t.2 as int),
            ),
            None => spec_parse_version(version@) is None,
        },
{
    let n = version.unicode_len();
    let i0 = skip_v(version, n, 0);
    let e1 = seg_end(version, n, i0);
    let major = match parse_segment(version, n, i0, e1) {
        None => {
            return None;
        },
        Some(v) => v,
    };
    if e1 >= n {
        return None;
    }
    let e2 = seg_end(version, n, e1 + 1);
    let minor = match parse_segment(version, n, e1 + 1, e2) {
        None => {
            return None;
        },
        Some(v) => v,
    };
    if e2 >= n {
        return Some((major, minor, 0));
    }
    let e3 = seg_end(version, n, e2 + 1);
    let patch = match parse_segment(version, n, e2 + 1, e3) {
        None => {
            return None;
        },
        Some(v) => v,
    };
    Some((major, minor, patch))
}

/// Lexicographic order on (major, minor, patch).
pub open spec fn spec_version_newer(a: (int, int, int), b: (int, int, int)) -> bool {
    ||| a.0 > b.0
    ||| (a.0 == b.0 && a.1 > b.1)
    ||| (a.0 == b.0 && a.1 == b.1 && a.2 > b.2)
}

/// Whether version `a` is strictly newer than version `b`.
pub fn version_newer(a: (u64, u64, u64), b: (u64, u64, u64)) -> (r: bool)
    ensures
        r == spec_version_newer(
            (a.0 as int, a.1 as int, a.2 as int),
            (b.0 as int, b.1 as int, b.2 as int),
        ),
{
    a.0 > b.0 || (a.0 == b.0 && a.1 > b.1) || (a.0 == b.0 && a.1 == b.1 && a.2 > b.2)
}

/// The tag with its run of leading `v`s removed.
fn strip_v_prefix(tag: &str) -> (r: String)
    ensures
        r@ == tag@.subrange(skip_v_at(tag@, 0), tag@.len() as int),
{
    let n = tag.unicode_len();
    let i = skip_v(tag, n, 0);
    tag.substring_char(i, n).to_owned()
}

/// What an update check reports.
#[derive(Clone, Debug)]
pub struct UpdateInfo {
    pub has_update: bool,
    pub current_version: String,
    pub latest_version: String,
    pub download_url: Option<String>,
}

/// One published release asset: its file name and its download location.
#[derive(Clone, Debug)]
pub struct ReleaseAsset {
    pub name: String,
    pub browser_download_url: String,
}

/// The fixed suffix that picks the installer asset out of a release.
pub open spec fn installer_suffix() -> Seq<char> {
    seq!['_', 'x', '6', '4', '-', 's', 'e', 't', 'u', 'p', '.', 'e', 'x', 'e']
}

pub open spec fn has_installer_suffix(name: Seq<char>) -> bool {
    name.len() >= 14 && name.subrange(name.len() - 14, name.len() as int) == installer_suffix()
}

/// Whether an asset name ends with the installer suffix.
fn name_has_installer_suffix(name: &str) -> (r: bool)
    ensures
        r == has_installer_suffix(name@),
{
    let n = name.unicode_len();
    if n < 14 {
        return false;
    }
    let suffix: [char; 14] = ['_', 'x', '6', '4', '-', 's', 'e', 't', 'u', 'p', '.', 'e', 'x', 'e'];
    proof {
        assert(suffix@ =~= installer_suffix());
    }
    let mut k: usize = 0;
    while k < 14
        invariant
            14 <= n == name@.len(),
            k <= 14,
            suffix@ == installer_suffix(),
            forall|j: int| 0 <= j < k ==> name@[n - 14 + j] == suffix@[j],
        decreases 14 - k,
    {
        if name.get_char(n - 14 + k) != suffix[k] {
            proof {
                assert(name@[n - 14 + k] != installer_suffix()[k as int]);
                assert(name@.subrange(n - 14, n as int)[k as int] == name@[n - 14 + k]);
            }
            return false;
        }
        k = k + 1;
    }
    proof {
        assert(name@.subrange(n - 14, n as int) =~= installer_suffix());
    }
    true
}

/// The first asset carrying the installer suffix, if any.
pub open spec fn spec_pick_installer(assets: Seq<ReleaseAsset>, i: int) -> Option<String>
    decreases assets.len() - i,
        when 0 <= i <= assets.len()
{
    if i >= assets.len() {
        None
    } else if has_installer_suffix(assets[i].name@) {
        Some(assets[i].browser_download_url)
    } else {
        spec_pick_installer(assets, i + 1)
    }
}

/// Decides whether the published release is an update: true exactly when
/// both version strings parse and the release's version is strictly newer;
/// the download location is then the first asset named like the installer,
/// and absent otherwise.  The reported latest version is the tag with its
/// leading `v` removed.
pub fn evaluate_update(current_version: String, latest_tag: String, assets: &Vec<ReleaseAsset>)
    -> (r: UpdateInfo)
    ensures
        r.current_version == current_version,
        r.latest_version@ == latest_tag@.subrange(skip_v_at(latest_tag@, 0), latest_tag@.len() as int),
        r.has_update == (match (
            spec_parse_version(current_version@),
            spec_parse_version(latest_tag@),
        ) {
            (Some(c), Some(l)) => spec_version_newer(l, c),
            _ => false,
        }),
        r.download_url == (if r.has_update {
            spec_pick_installer(assets@, 0)
        } else {
            Option::<String>::None
        }),
{
    let cur = parse_version(current_version.as_str());
    let latest = parse_version(latest_tag.as_str());
    let has_update = match (cur, latest) {
        (Some(c), Some(l)) => version_newer(l, c),
        _ => false,
    };
    let download_url = if has_update {
        pick_installer(assets)
    } else {
        None
    };
    let latest_version = strip_v_prefix(latest_tag.as_str());
    UpdateInfo { has_update, current_version, latest_version, download_url }
}

/// Picks the first asset carrying the installer suffix.
fn pick_installer(assets: &Vec<ReleaseAsset>) -> (r: Option<String>)
    ensures
        r == spec_pick_installer(assets@, 0),
{
    let mut i: usize = 0;
    while i < assets.len()
        invariant
            i <= assets@.len(),
            spec_pick_installer(assets@, 0) == spec_pick_installer(assets@, i as int),
        decreases assets@.len() - i,
    {
        if name_has_installer_suffix(assets[i].name.as_str()) {
            return Some(assets[i].browser_download_url.clone());
        }
        i = i + 1;
    }
    None
}

} // verus!
