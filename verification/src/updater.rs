//! Decisions of the self-updater: version comparison, the release asset for
//! a platform, and finding the bot's binary inside a downloaded archive.
use vstd::prelude::*;
use vstd::string::StringExecFns;
use crate::archive::{zip_count_of, zip_data_of, zip_entry_count, zip_entry_data, zip_entry_name, zip_name_of};
use crate::text::{chars_of, find_char, index_of, parse_unsigned, parse_unsigned_range};
use crate::types::LogLevel;

verus! {

/// The number of `v` characters at the start of `s`.
pub open spec fn leading_vs(s: Seq<char>) -> nat
    decreases s.len(),
{
    if s.len() > 0 && s[0] == 'v' {
        1 + leading_vs(s.drop_first())
    } else {
        0
    }
}

/// `s` up to (not including) the first `c`, or all of `s`.
pub open spec fn before(s: Seq<char>, c: char) -> Seq<char> {
    match index_of(s, c) {
        Some(i) => s.take(i as int),
        None => s,
    }
}

/// `s` after the first `c`, if there is one.
pub open spec fn after(s: Seq<char>, c: char) -> Option<Seq<char>> {
    match index_of(s, c) {
        Some(i) => Some(s.skip(i as int + 1)),
        None => None,
    }
}

/// The version text without leading `v`s and without a pre-release suffix
/// (everything from the first `-`).
pub open spec fn version_core(s: Seq<char>) -> Seq<char> {
    before(s.skip(leading_vs(s) as int), '-')
}

/// A version component: its number, or 0 when it is absent or not a number.
pub open spec fn component_value(p: Option<Seq<char>>) -> nat {
    match p {
        Some(x) => match parse_unsigned(x, u64::MAX as nat) {
            Some(n) => n,
            None => 0,
        },
        None => 0,
    }
}

/// Major, minor and patch of a version text: the core split at its first
/// two dots; whatever follows the second dot is the patch.
pub open spec fn semver_of(s: Seq<char>) -> (nat, nat, nat) {
    let c = version_core(s);
    let r1 = after(c, '.');
    let minor = match r1 {
        Some(r) => Some(before(r, '.')),
        None => None,
    };
    let patch = match r1 {
        Some(r) => after(r, '.'),
        None => None,
    };
    (component_value(Some(before(c, '.'))), component_value(minor), component_value(patch))
}

/// Lexicographic order on (major, minor, patch).
pub open spec fn version_greater(a: (nat, nat, nat), b: (nat, nat, nat)) -> bool {
    a.0 > b.0 || (a.0 == b.0 && (a.1 > b.1 || (a.1 == b.1 && a.2 > b.2)))
}

proof fn lemma_leading_vs_bound(s: Seq<char>)
    ensures
        leading_vs(s) <= s.len(),
    decreases s.len(),
{
    if s.len() > 0 && s[0] == 'v' {
        lemma_leading_vs_bound(s.drop_first());
    }
}

proof fn lemma_leading_vs(s: Seq<char>, k: int)
    requires
        0 <= k <= s.len(),
        forall|j: int| 0 <= j < k ==> s[j] == 'v',
        k == s.len() || s[k] != 'v',
    ensures
        leading_vs(s) == k,
    decreases s.len(),
{
    if k > 0 {
        assert forall|j: int| 0 <= j < k - 1 implies s.drop_first()[j] == 'v' by {
            assert(s.drop_first()[j] == s[j + 1]);
        }
        lemma_leading_vs(s.drop_first(), k - 1);
    }
}

proof fn lemma_split_at(v: Seq<char>, from: int, to: int, c: char, found: Option<nat>)
    requires
        0 <= from <= to <= v.len(),
        index_of(v.subrange(from, to), c) == (match found {
            Some(i) => Some((i - from) as nat),
            None => None::<nat>,
        }),
        found matches Some(i) ==> from <= i < to,
    ensures
        before(v.subrange(from, to), c) == v.subrange(from, match found {
            Some(i) => i as int,
            None => to,
        }),
        after(v.subrange(from, to), c) == (match found {
            Some(i) => Some(v.subrange(i as int + 1, to)),
            None => None::<Seq<char>>,
        }),
{
    match found {
        Some(i) => {
            assert(v.subrange(from, to).take(i - from) =~= v.subrange(from, i as int));
            assert(v.subrange(from, to).skip(i - from + 1) =~= v.subrange(i as int + 1, to));
        },
        None => {},
    }
}

fn component(v: &Vec<char>, from: usize, to: usize) -> (n: u64)
    requires
        from <= to <= v.len(),
    ensures
        n == component_value(Some(v@.subrange(from as int, to as int))),
{
    match parse_unsigned_range(v, from, to, u64::MAX) {
        Some(n) => n,
        None => 0,
    }
}

/// Major, minor and patch of a version text such as `v1.0.11-alpha.1`.
pub fn parse_semver(s: &str) -> (r: (u64, u64, u64))
    ensures
        (r.0 as nat, r.1 as nat, r.2 as nat) == semver_of(s@),
{
    let v = chars_of(s);
    let n = v.len();
    let mut k: usize = 0;
    while k < n && v[k] == 'v'
        invariant
            k <= n == v.len(),
            forall|j: int| 0 <= j < k ==> v@[j] == 'v',
        decreases n - k,
    {
        k = k + 1;
    }
    proof {
        lemma_leading_vs(s@, k as int);
        assert(s@.skip(k as int) =~= v@.subrange(k as int, n as int));
    }
    let dash = find_char(&v, k, n, '-');
    let end: usize = match dash {
        Some(i) => i,
        None => n,
    };
    proof {
        lemma_split_at(v@, k as int, n as int, '-', match dash { Some(i) => Some(i as nat), None => None });
    }
    let ghost core = v@.subrange(k as int, end as int);
    assert(core == version_core(s@));
    let d1 = find_char(&v, k, end, '.');
    proof {
        lemma_split_at(v@, k as int, end as int, '.', match d1 { Some(i) => Some(i as nat), None => None });
    }
    match d1 {
        None => {
            let major = component(&v, k, end);
            (major, 0, 0)
        },
        Some(i1) => {
            let major = component(&v, k, i1);
            let d2 = find_char(&v, i1 + 1, end, '.');
            proof {
                lemma_split_at(v@, i1 + 1, end as int, '.', match d2 { Some(i) => Some(i as nat), None => None });
            }
            match d2 {
                None => {
                    let minor = component(&v, i1 + 1, end);
                    (major, minor, 0)
                },
                Some(i2) => {
                    let minor = component(&v, i1 + 1, i2);
                    let patch = component(&v, i2 + 1, end);
                    (major, minor, patch)
                },
            }
        },
    }
}

/// Whether the release version `latest` is newer than `current`.
pub fn is_newer(latest: &str, current: &str) -> (r: bool)
    ensures
        r == version_greater(semver_of(latest@), semver_of(current@)),
{
    let a = parse_semver(latest);
    let b = parse_semver(current);
    a.0 > b.0 || (a.0 == b.0 && (a.1 > b.1 || (a.1 == b.1 && a.2 > b.2)))
}

/// Law: versions compare major first, then minor, then patch: a larger
/// major is newer whatever follows; with equal majors a larger minor is
/// newer whatever the patches are; with equal majors and minors the larger
/// patch is newer; and when the parts agree neither is newer.
pub proof fn law_newer_is_lexicographic(latest: Seq<char>, current: Seq<char>)
    ensures
        ({
            let a = semver_of(latest);
            let b = semver_of(current);
            &&& a.0 > b.0 ==> version_greater(a, b)
            &&& a.0 < b.0 ==> !version_greater(a, b)
            &&& (a.0 == b.0 && a.1 > b.1) ==> version_greater(a, b)
            &&& (a.0 == b.0 && a.1 < b.1) ==> !version_greater(a, b)
            &&& (a.0 == b.0 && a.1 == b.1) ==> (version_greater(a, b) <==> a.2 > b.2)
        }),
{
}

/// Law: on version triples, a larger minor outranks any patch and a larger
/// major outranks any minor and patch.
pub proof fn law_higher_part_outranks(major: nat, minor: nat, patch: nat, other_minor: nat, other_patch: nat)
    ensures
        version_greater((major, minor + 1, patch), (major, minor, other_patch)),
        version_greater((major + 1, minor, patch), (major, other_minor, other_patch)),
        !version_greater((major, minor, patch), (major, minor + 1, other_patch)),
{
}

/// Law: no version is newer than itself.
pub proof fn law_newer_irreflexive(s: Seq<char>)
    ensures
        !version_greater(semver_of(s), semver_of(s)),
{
}

/// Law: of two versions, at most one is newer than the other.
pub proof fn law_newer_asymmetric(a: Seq<char>, b: Seq<char>)
    ensures
        !(version_greater(semver_of(a), semver_of(b)) && version_greater(semver_of(b), semver_of(a))),
{
}

/// Law: newer-than is transitive.
pub proof fn law_newer_transitive(a: Seq<char>, b: Seq<char>, c: Seq<char>)
    requires
        version_greater(semver_of(a), semver_of(b)),
        version_greater(semver_of(b), semver_of(c)),
    ensures
        version_greater(semver_of(a), semver_of(c)),
{
}

/// Law: leading `v`s do not change a version.
pub proof fn law_v_prefix_ignored(s: Seq<char>)
    ensures
        semver_of(seq!['v'] + s) == semver_of(s),
{
    let t = seq!['v'] + s;
    assert(t.drop_first() =~= s);
    assert(t[0] == 'v');
    assert(leading_vs(t) == 1 + leading_vs(s));
    lemma_leading_vs_bound(s);
    assert(t.skip(leading_vs(t) as int) =~= s.skip(leading_vs(s) as int));
}

/// The operating systems the updater knows release assets for.
#[derive(Debug, Clone, Copy, PartialEq, Eq, Structural)]
pub enum TargetOs {
    Linux,
    Windows,
    Macos,
    Other,
}

pub open spec fn asset_name_spec(os: TargetOs, aarch64: bool) -> Seq<char> {
    match os {
        TargetOs::Linux => if aarch64 {
            "navi-linux-arm64.zip"@
        } else {
            "navi-linux.zip"@
        },
        TargetOs::Windows => "navi-windows.zip"@,
        TargetOs::Macos => "navi-macos.zip"@,
        TargetOs::Other => "navi-linux.zip"@,
    }
}

/// The release asset to download on the given platform.
pub fn asset_name(os: TargetOs, aarch64: bool) -> (r: &'static str)
    ensures
        r@ == asset_name_spec(os, aarch64),
{
    match os {
        TargetOs::Linux => if aarch64 {
            "navi-linux-arm64.zip"
        } else {
            "navi-linux.zip"
        },
        TargetOs::Windows => "navi-windows.zip",
        TargetOs::Macos => "navi-macos.zip",
        TargetOs::Other => "navi-linux.zip",
    }
}

pub open spec fn binary_name_spec(os: TargetOs) -> Seq<char> {
    match os {
        TargetOs::Windows => "navi_bot.exe"@,
        _ => "navi_bot"@,
    }
}

/// The file name of the bot's executable on the given platform.
pub fn binary_name(os: TargetOs) -> (r: &'static str)
    ensures
        r@ == binary_name_spec(os),
{
    match os {
        TargetOs::Windows => "navi_bot.exe",
        _ => "navi_bot",
    }
}

} // verus!
verus! {

/// A release asset as the release listing describes it: its name and its
/// download address, each where the listing gives one as a string.
#[derive(Debug)]
pub struct ReleaseAsset {
    pub name: Option<String>,
    pub url: Option<String>,
}

/// The latest release as the listing describes it: its tag and its assets,
/// each where the listing gives them with the expected types.
#[derive(Debug)]
pub struct ReleaseInfo {
    pub tag: Option<String>,
    pub assets: Option<Vec<ReleaseAsset>>,
}

pub open spec fn asset_view(a: ReleaseAsset) -> (Option<Seq<char>>, Option<Seq<char>>) {
    (a.name.deep_view(), a.url.deep_view())
}

pub open spec fn assets_view(v: Seq<ReleaseAsset>) -> Seq<(Option<Seq<char>>, Option<Seq<char>>)> {
    v.map_values(|a: ReleaseAsset| asset_view(a))
}

/// The download address of the first asset named `target` that has one.
pub open spec fn first_asset_url(
    assets: Seq<(Option<Seq<char>>, Option<Seq<char>>)>,
    target: Seq<char>,
) -> Option<Seq<char>>
    decreases assets.len(),
{
    if assets.len() == 0 {
        None
    } else if assets[0].0 == Some(target) && assets[0].1 is Some {
        assets[0].1
    } else {
        first_asset_url(assets.drop_first(), target)
    }
}

/// What the updater does with a release: the log lines it writes, and the
/// address it downloads, if any.
#[derive(Debug)]
pub struct UpdatePlan {
    pub logs: Vec<(LogLevel, String)>,
    pub download: Option<String>,
}

pub open spec fn plan_logs(p: UpdatePlan) -> Seq<(LogLevel, Seq<char>)> {
    p.logs.deep_view()
}

/// The log lines and download decision for a release, given the running
/// version `current` and the asset name `target` of this platform.
pub open spec fn update_plan_spec(
    tag: Option<Seq<char>>,
    assets: Option<Seq<(Option<Seq<char>>, Option<Seq<char>>)>>,
    current: Seq<char>,
    target: Seq<char>,
) -> (Seq<(LogLevel, Seq<char>)>, Option<Seq<char>>) {
    match tag {
        None => (seq![(LogLevel::Error, "GitHub response missing tag_name field"@)], None),
        Some(t) => {
            let status = (LogLevel::Info, "Current: v"@ + current + "  Latest: "@ + t);
            if !version_greater(semver_of(t), semver_of(current)) {
                (seq![status, (LogLevel::Info, "Already up to date."@)], None)
            } else {
                match assets {
                    None => (seq![status, (LogLevel::Error, "No assets found in release"@)], None),
                    Some(a) => match first_asset_url(a, target) {
                        None => (
                            seq![
                                status,
                                (LogLevel::Error, "No asset named '"@ + target + "' found in release "@ + t),
                            ],
                            None,
                        ),
                        Some(url) => (
                            seq![status, (LogLevel::Info, "Downloading "@ + url + " ..."@)],
                            Some(url),
                        ),
                    },
                }
            }
        },
    }
}

fn find_asset_url(assets: &Vec<ReleaseAsset>, target: &str) -> (r: Option<String>)
    ensures
        r.deep_view() == first_asset_url(assets_view(assets@), target@),
{
    let ghost all = assets_view(assets@);
    let tgt = target.to_owned();
    assert(all.skip(0) =~= all);
    let mut i: usize = 0;
    while i < assets.len()
        invariant
            i <= assets.len(),
            tgt@ == target@,
            all == assets_view(assets@),
            first_asset_url(all, target@) == first_asset_url(all.skip(i as int), target@),
        decreases assets.len() - i,
    {
        let a = &assets[i];
        proof {
            assert(all.skip(i as int).drop_first() =~= all.skip(i + 1));
            assert(all.skip(i as int)[0] == asset_view(assets@[i as int]));
        }
        match (&a.name, &a.url) {
            (Some(name), Some(url)) => {
                if *name == tgt {
                    return Some(url.clone());
                }
            },
            _ => {},
        }
        i = i + 1;
    }
    assert(all.skip(i as int).len() == 0);
    None
}

/// Decides what to do with the latest release.
pub fn plan_update(release: &ReleaseInfo, current: &str, target: &str) -> (p: UpdatePlan)
    ensures
        (plan_logs(p), p.download.deep_view()) == update_plan_spec(
            release.tag.deep_view(),
            match release.assets {
                Some(a) => Some(assets_view(a@)),
                None => None,
            },
            current@,
            target@,
        ),
{
    proof {
        reveal_strlit("GitHub response missing tag_name field");
        reveal_strlit("Current: v");
        reveal_strlit("  Latest: ");
        reveal_strlit("Already up to date.");
        reveal_strlit("No assets found in release");
        reveal_strlit("No asset named '");
        reveal_strlit("' found in release ");
        reveal_strlit("Downloading ");
        reveal_strlit(" ...");
    }
    let mut logs: Vec<(LogLevel, String)> = Vec::new();
    let tag = match &release.tag {
        None => {
            logs.push((LogLevel::Error, "GitHub response missing tag_name field".to_owned()));
            let p = UpdatePlan { logs, download: None };
            assert(plan_logs(p) =~= seq![(LogLevel::Error, "GitHub response missing tag_name field"@)]);
            return p;
        },
        Some(t) => t,
    };
    let mut status = "Current: v".to_owned();
    status.append(current);
    status.append("  Latest: ");
    status.append(tag.as_str());
    let ghost st = (LogLevel::Info, status@);
    logs.push((LogLevel::Info, status));
    if !is_newer(tag.as_str(), current) {
        logs.push((LogLevel::Info, "Already up to date.".to_owned()));
        let p = UpdatePlan { logs, download: None };
        assert(plan_logs(p) =~= seq![st, (LogLevel::Info, "Already up to date."@)]);
        return p;
    }
    let assets = match &release.assets {
        None => {
            logs.push((LogLevel::Error, "No assets found in release".to_owned()));
            let p = UpdatePlan { logs, download: None };
            assert(plan_logs(p) =~= seq![st, (LogLevel::Error, "No assets found in release"@)]);
            return p;
        },
        Some(a) => a,
    };
    match find_asset_url(assets, target) {
        None => {
            let mut m = "No asset named '".to_owned();
            m.append(target);
            m.append("' found in release ");
            m.append(tag.as_str());
            let ghost mv = m@;
            logs.push((LogLevel::Error, m));
            let p = UpdatePlan { logs, download: None };
            assert(plan_logs(p) =~= seq![st, (LogLevel::Error, mv)]);
            p
        },
        Some(url) => {
            let mut m = "Downloading ".to_owned();
            m.append(url.as_str());
            m.append(" ...");
            let ghost mv = m@;
            logs.push((LogLevel::Info, m));
            let p = UpdatePlan { logs, download: Some(url) };
            assert(plan_logs(p) =~= seq![st, (LogLevel::Info, mv)]);
            p
        },
    }
}

/// Whether an archive entry named `name` is the binary `bin`: the same name,
/// or a path ending in `/bin` or `\bin`.
pub open spec fn is_binary_entry_spec(name: Seq<char>, bin: Seq<char>) -> bool {
    name == bin || crate::text::ends_with(name, seq!['/'] + bin) || crate::text::ends_with(
        name,
        seq!['\\'] + bin,
    )
}

/// Whether an archive entry named `name` is the binary `bin`.
pub fn is_binary_entry(name: &str, bin: &str) -> (r: bool)
    ensures
        r == is_binary_entry_spec(name@, bin@),
{
    let n = chars_of(name);
    let b = chars_of(bin);
    crate::text::chars_equal(&n, &b) || crate::text::ends_with_sep(&n, '/', &b)
        || crate::text::ends_with_sep(&n, '\\', &b)
}

pub open spec fn binary_missing_message(bin: Seq<char>) -> Seq<char> {
    "'"@ + bin + "' not found inside the downloaded zip"@
}

/// The outcome of looking through entries `i..count` of the archive.
pub open spec fn scan_entries(bytes: Seq<u8>, bin: Seq<char>, i: nat, count: nat) -> Result<
    Seq<u8>,
    Seq<char>,
>
    decreases count - i,
{
    if i >= count {
        Err(binary_missing_message(bin))
    } else {
        match zip_name_of(bytes, i) {
            Err(e) => Err(e),
            Ok(name) => if is_binary_entry_spec(name, bin) {
                zip_data_of(bytes, i)
            } else {
                scan_entries(bytes, bin, i + 1, count)
            },
        }
    }
}

/// The content of the first entry of the archive that is the binary `bin`,
/// or the first error met on the way.
pub open spec fn locate_binary_spec(bytes: Seq<u8>, bin: Seq<char>) -> Result<Seq<u8>, Seq<char>> {
    match zip_count_of(bytes) {
        Err(e) => Err(e),
        Ok(n) => scan_entries(bytes, bin, 0, n),
    }
}

/// Finds the binary `bin` in the downloaded archive and returns its content.
pub fn locate_binary(zip_bytes: &[u8], bin: &str) -> (r: Result<Vec<u8>, String>)
    ensures
        match r {
            Ok(data) => locate_binary_spec(zip_bytes@, bin@) == Ok::<Seq<u8>, Seq<char>>(data@),
            Err(e) => locate_binary_spec(zip_bytes@, bin@) == Err::<Seq<u8>, Seq<char>>(e@),
        },
{
    let count = match zip_entry_count(zip_bytes) {
        Ok(n) => n,
        Err(e) => return Err(e),
    };
    let mut i: usize = 0;
    while i < count
        invariant
            i <= count,
            zip_count_of(zip_bytes@) == Ok::<nat, Seq<char>>(count as nat),
            locate_binary_spec(zip_bytes@, bin@) == scan_entries(zip_bytes@, bin@, i as nat, count as nat),
        decreases count - i,
    {
        let name = match zip_entry_name(zip_bytes, i) {
            Ok(n) => n,
            Err(e) => return Err(e),
        };
        if is_binary_entry(name.as_str(), bin) {
            return zip_entry_data(zip_bytes, i);
        }
        i = i + 1;
    }
    proof {
        reveal_strlit("'");
        reveal_strlit("' not found inside the downloaded zip");
    }
    let mut m = "'".to_owned();
    m.append(bin);
    m.append("' not found inside the downloaded zip");
    Err(m)
}

} // verus!
