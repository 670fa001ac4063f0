//! Self-update decisions: version comparison and choice of the release
//! asset for this platform.
//!
//! Fetching the release list, downloading and swapping the executable are
//! done by the program around the library; the library decides what to do
//! with what was fetched.

use vstd::prelude::*;
use crate::text::{
    chars_of, contains, ends_with, parse_u64_range, parse_u64_spec, split_char, split_ranges,
    str_contains, str_ends_with, substring, to_lowercase, trim, trim_range, trim_start_char,
    trim_start_char_range, unicode_lowercase,
};

verus! {

/// One downloadable file of a release.
#[derive(Debug, Clone)]
pub struct ReleaseAsset {
    pub name: String,
    pub browser_download_url: String,
}

/// The latest release as the release service describes it.
#[derive(Debug, Clone)]
pub struct LatestRelease {
    pub tag_name: String,
    pub assets: Vec<ReleaseAsset>,
}

/// Field `k` of a version string split at `.`, as a number; 0 when it is
/// missing or not a number.
pub open spec fn version_field(fields: Seq<Seq<char>>, k: int) -> u64 {
    if k < fields.len() {
        match parse_u64_spec(fields[k]) {
            Some(n) => n,
            None => 0,
        }
    } else {
        0
    }
}

/// `(major, minor, patch)` of a version tag such as `"v0.5.1"` or
/// `"0.5.1"`: surrounding whitespace and leading `v`s are dropped, the rest
/// is split at `.`, and a field that is missing or not a number counts as 0.
pub open spec fn parse_version_spec(raw: Seq<char>) -> (u64, u64, u64) {
    let fields = split_char(trim_start_char(trim(raw), 'v'), '.');
    (version_field(fields, 0), version_field(fields, 1), version_field(fields, 2))
}

/// Lexicographic order of version triples.
pub open spec fn version_greater(a: (u64, u64, u64), b: (u64, u64, u64)) -> bool {
    a.0 > b.0 || (a.0 == b.0 && (a.1 > b.1 || (a.1 == b.1 && a.2 > b.2)))
}

/// Parses a version tag into `(major, minor, patch)`; unparsable parts are
/// 0, so an unreadable remote version is never taken for a newer one.
pub fn parse_version(raw: &str) -> (r: (u64, u64, u64))
    ensures
        r == parse_version_spec(raw@),
{
    let v = chars_of(raw);
    proof {
        assert(v@.subrange(0, v@.len() as int) =~= v@);
    }
    let (a, b) = trim_range(&v, 0, v.len());
    let a2 = trim_start_char_range(&v, a, b, 'v');
    let body = substring(&v, a2, b);
    let bv = chars_of(body.as_str());
    let fields = split_ranges(&bv, '.');
    let ghost fs = split_char(bv@, '.');
    let mut out: [u64; 3] = [0, 0, 0];
    let mut k: usize = 0;
    while k < 3
        invariant
            k <= 3,
            fields@.len() == fs.len(),
            forall|j: int| 0 <= j < fields@.len() ==> (#[trigger] fields@[j]).0 <= fields@[j].1 <= bv@.len(),
            forall|j: int|
                0 <= j < fields@.len() ==> bv@.subrange((#[trigger] fields@[j]).0 as int, fields@[j].1 as int)
                    == fs[j],
            forall|j: int| 0 <= j < k ==> out[j] == version_field(fs, j),
        decreases 3 - k,
    {
        let n: u64 = if k < fields.len() {
            let (lo, hi) = fields[k];
            match parse_u64_range(&bv, lo, hi) {
                Some(n) => n,
                None => 0,
            }
        } else {
            0
        };
        out.set(k, n);
        k += 1;
    }
    proof {
        assert(bv@ == trim_start_char(trim(raw@), 'v'));
    }
    (out[0], out[1], out[2])
}

/// Whether the `remote` version is newer than the `local` one.
pub fn is_newer(remote: &str, local: &str) -> (b: bool)
    ensures
        b == version_greater(parse_version_spec(remote@), parse_version_spec(local@)),
{
    let r = parse_version(remote);
    let l = parse_version(local);
    r.0 > l.0 || (r.0 == l.0 && (r.1 > l.1 || (r.1 == l.1 && r.2 > l.2)))
}

/// Whether an asset name, lower-cased, ends with `suffix` and contains
/// `label`.
pub open spec fn asset_matches(name: Seq<char>, suffix: Seq<char>, label: Seq<char>) -> bool {
    let lower = unicode_lowercase(name);
    ends_with(lower, suffix) && contains(lower, label)
}

/// `i` is the first asset of `assets` matching `suffix` and `label`.
pub open spec fn is_first_match(
    assets: Seq<ReleaseAsset>,
    suffix: Seq<char>,
    label: Seq<char>,
    i: int,
) -> bool {
    &&& 0 <= i < assets.len()
    &&& asset_matches(assets[i].name@, suffix, label)
    &&& forall|j: int| 0 <= j < i ==> !asset_matches(#[trigger] assets[j].name@, suffix, label)
}

/// Whether some asset matches `suffix` and `label`.
pub open spec fn any_match(assets: Seq<ReleaseAsset>, suffix: Seq<char>, label: Seq<char>) -> bool {
    exists|j: int| 0 <= j < assets.len() && asset_matches(#[trigger] assets[j].name@, suffix, label)
}

/// The first asset whose lower-cased name ends with `suffix` and contains
/// `label`.
fn find_asset<'a>(release: &'a LatestRelease, suffix: &str, label: &str) -> (r: Option<
    &'a ReleaseAsset,
>)
    ensures
        r is None <==> !any_match(release.assets@, suffix@, label@),
        r matches Some(a) ==> exists|i: int|
            is_first_match(release.assets@, suffix@, label@, i) && #[trigger] release.assets@[i]
                == *a,
{
    let mut i: usize = 0;
    while i < release.assets.len()
        invariant
            i <= release.assets.len(),
            forall|j: int|
                0 <= j < i ==> !asset_matches(#[trigger] release.assets@[j].name@, suffix@, label@),
        decreases release.assets.len() - i,
    {
        let a = &release.assets[i];
        let lower = to_lowercase(a.name.as_str());
        if str_ends_with(lower.as_str(), suffix) && str_contains(lower.as_str(), label) {
            assert(is_first_match(release.assets@, suffix@, label@, i as int));
            return Some(a);
        }
        i += 1;
    }
    None
}

/// The Windows zip of a release: the first asset whose lower-cased name
/// ends with `.zip` and contains `windows`.
pub fn windows_zip_asset(release: &LatestRelease) -> (r: Option<&ReleaseAsset>)
    ensures
        r is None <==> !any_match(release.assets@, ".zip"@, "windows"@),
        r matches Some(a) ==> exists|i: int|
            is_first_match(release.assets@, ".zip"@, "windows"@, i) && #[trigger] release.assets@[i]
                == *a,
{
    find_asset(release, ".zip", "windows")
}

/// The label of the Unix platform in asset names.
pub open spec fn os_label(macos: bool) -> Seq<char> {
    if macos {
        "macos"@
    } else {
        "linux"@
    }
}

/// The Unix tarball of a release for this platform: the first asset whose
/// lower-cased name ends with `.tar.gz` and contains `macos` (on macOS) or
/// `linux` (elsewhere).
pub fn unix_tarball_asset(release: &LatestRelease, macos: bool) -> (r: Option<&ReleaseAsset>)
    ensures
        r is None <==> !any_match(release.assets@, ".tar.gz"@, os_label(macos)),
        r matches Some(a) ==> exists|i: int|
            is_first_match(release.assets@, ".tar.gz"@, os_label(macos), i)
                && #[trigger] release.assets@[i] == *a,
{
    let label = if macos {
        "macos"
    } else {
        "linux"
    };
    find_asset(release, ".tar.gz", label)
}

/// The platform an update is prepared for.
#[derive(Debug, Clone, Copy, PartialEq, Eq, Structural)]
pub enum UpdatePlatform {
    Windows,
    MacOs,
    Linux,
}

/// What the updater does after fetching the latest release.
#[derive(Debug)]
pub enum UpdateStep<'a> {
    /// No installed version is recorded next to the executable.
    NotInstalled,
    /// The installed version is not older than the release.
    UpToDate,
    /// The release is newer but carries no asset for this platform.
    NoAsset,
    /// Download this asset and install it.
    Download(&'a ReleaseAsset),
}

/// The asset an update uses on `platform`.
pub open spec fn platform_asset_exists(assets: Seq<ReleaseAsset>, platform: UpdatePlatform) -> bool {
    match platform {
        UpdatePlatform::Windows => any_match(assets, ".zip"@, "windows"@),
        UpdatePlatform::MacOs => any_match(assets, ".tar.gz"@, "macos"@),
        UpdatePlatform::Linux => any_match(assets, ".tar.gz"@, "linux"@),
    }
}

/// Decides the next step of a self-update from the fetched release, the
/// installed version (`None` when none is recorded) and the platform.
pub fn plan_update<'a>(
    release: &'a LatestRelease,
    local: Option<&str>,
    platform: UpdatePlatform,
) -> (r: UpdateStep<'a>)
    ensures
        local is None ==> r is NotInstalled,
        local matches Some(l) && !version_greater(
            parse_version_spec(release.tag_name@),
            parse_version_spec(l@),
        ) ==> r is UpToDate,
        local matches Some(l) && version_greater(
            parse_version_spec(release.tag_name@),
            parse_version_spec(l@),
        ) ==> {
            &&& (r is NoAsset <==> !platform_asset_exists(release.assets@, platform))
            &&& r matches UpdateStep::Download(a) ==> match platform {
                UpdatePlatform::Windows => exists|i: int|
                    is_first_match(release.assets@, ".zip"@, "windows"@, i)
                        && #[trigger] release.assets@[i] == *a,
                UpdatePlatform::MacOs => exists|i: int|
                    is_first_match(release.assets@, ".tar.gz"@, "macos"@, i)
                        && #[trigger] release.assets@[i] == *a,
                UpdatePlatform::Linux => exists|i: int|
                    is_first_match(release.assets@, ".tar.gz"@, "linux"@, i)
                        && #[trigger] release.assets@[i] == *a,
            }
            &&& (r is Download || r is NoAsset)
        },
{
    let l = match local {
        None => return UpdateStep::NotInstalled,
        Some(l) => l,
    };
    if !is_newer(release.tag_name.as_str(), l) {
        return UpdateStep::UpToDate;
    }
    let asset = match platform {
        UpdatePlatform::Windows => windows_zip_asset(release),
        UpdatePlatform::MacOs => unix_tarball_asset(release, true),
        UpdatePlatform::Linux => unix_tarball_asset(release, false),
    };
    match asset {
        Some(a) => UpdateStep::Download(a),
        None => UpdateStep::NoAsset,
    }
}

/// No version is newer than itself, and of two versions at most one is
/// newer than the other, so an installed copy never updates to the release
/// it already runs and two copies never both see the other as newer.
pub proof fn law_newer_is_a_strict_order(a: Seq<char>, b: Seq<char>, c: Seq<char>)
    ensures
        !version_greater(parse_version_spec(a), parse_version_spec(a)),
        version_greater(parse_version_spec(a), parse_version_spec(b)) ==> !version_greater(
            parse_version_spec(b),
            parse_version_spec(a),
        ),
        version_greater(parse_version_spec(a), parse_version_spec(b)) && version_greater(
            parse_version_spec(b),
            parse_version_spec(c),
        ) ==> version_greater(parse_version_spec(a), parse_version_spec(c)),
{
}


/// Versions are compared field by field: a different major version
/// decides; with the same major, a different minor version decides; with
/// both the same, the patch number decides (so `0.5.2` is newer than
/// `0.5.1`, and no field is ignored).
pub proof fn law_newer_compares_major_minor_patch(a: (u64, u64, u64), b: (u64, u64, u64))
    ensures
        a.0 != b.0 ==> (version_greater(a, b) <==> a.0 > b.0),
        a.0 == b.0 && a.1 != b.1 ==> (version_greater(a, b) <==> a.1 > b.1),
        a.0 == b.0 && a.1 == b.1 ==> (version_greater(a, b) <==> a.2 > b.2),
{
}

} // verus!
