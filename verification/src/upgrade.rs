//! Deciding an upgrade: version comparison, system classification, and
//! the release file to fetch. Talking to the network and the archive
//! tools is the caller's side.

use vstd::prelude::*;

use crate::text::{
    all_digits,
    contains_sub,
    dec_val,
    parse_u32,
    split_char,
    split_spec,
    str_contains,
    str_eq,
    views_of,
};

verus! {

/// Every `.`-separated piece is a nonempty digit string that fits `u32`.
pub open spec fn version_ok(s: Seq<char>) -> bool {
    forall|i: int|
        0 <= i < split_spec(s, '.').len() ==> {
            let p = #[trigger] split_spec(s, '.')[i];
            p.len() > 0 && all_digits(p) && dec_val(p) <= u32::MAX
        }
}

/// The numbers of a version string, piece by piece.
pub open spec fn nums_of(s: Seq<char>) -> Seq<nat> {
    split_spec(s, '.').map_values(|p: Seq<char>| dec_val(p))
}

/// Lexicographic order on number lists; a prefix comes before what
/// extends it.
pub open spec fn nums_lt(a: Seq<nat>, b: Seq<nat>) -> bool
    decreases a.len(),
{
    if a.len() == 0 {
        b.len() > 0
    } else if b.len() == 0 {
        false
    } else if a[0] == b[0] {
        nums_lt(a.drop_first(), b.drop_first())
    } else {
        a[0] < b[0]
    }
}

/// One version strictly precedes another.
pub open spec fn version_lt(a: Seq<char>, b: Seq<char>) -> bool {
    nums_lt(nums_of(a), nums_of(b))
}

/// Parses a dotted version string into its numbers.
fn parse_version(v: &str) -> (r: Option<Vec<u32>>)
    ensures
        r is Some <==> version_ok(v@),
        r matches Some(nums) ==> nums@.map_values(|x: u32| x as nat) == nums_of(v@),
{
    let parts = split_char(v, '.');
    let ghost views = views_of(parts@);
    let mut nums: Vec<u32> = Vec::new();
    let mut i: usize = 0;
    while i < parts.len()
        invariant
            0 <= i <= parts.len(),
            views == views_of(parts@),
            views == split_spec(v@, '.'),
            views.len() == parts.len(),
            nums@.len() == i,
            forall|j: int|
                0 <= j < i ==> {
                    let p = #[trigger] views[j]
                    ;
                    p.len() > 0 && all_digits(p) && dec_val(p) <= u32::MAX && nums@[j] as nat
                        == dec_val(p)
                },
        decreases parts.len() - i,
    {
        match parse_u32(parts[i].as_str()) {
            Some(n) => {
                nums.push(n);
            },
            None => {
                proof {
                    let p = views[i as int];
                    assert(parts@[i as int]@ == p);
                    assert(!(p.len() > 0 && all_digits(p) && dec_val(p) <= u32::MAX));
                    assert(split_spec(v@, '.')[i as int] == p);
                    assert(!version_ok(v@));
                }
                return None;
            },
        }
        i = i + 1;
    }
    proof {
        assert(version_ok(v@));
        assert(nums@.map_values(|x: u32| x as nat) =~= nums_of(v@));
    }
    Some(nums)
}

/// Decides the order on two number lists.
fn nums_lt_exec(a: &Vec<u32>, b: &Vec<u32>) -> (r: bool)
    ensures
        r == nums_lt(
            a@.map_values(|x: u32| x as nat),
            b@.map_values(|x: u32| x as nat),
        ),
{
    let ghost av = a@.map_values(|x: u32| x as nat);
    let ghost bv = b@.map_values(|x: u32| x as nat);
    let mut i: usize = 0;
    proof {
        assert(av.skip(0) =~= av);
        assert(bv.skip(0) =~= bv);
    }
    while i < a.len() && i < b.len()
        invariant
            0 <= i <= a.len(),
            0 <= i <= b.len(),
            av == a@.map_values(|x: u32| x as nat),
            bv == b@.map_values(|x: u32| x as nat),
            av.len() == a@.len() && bv.len() == b@.len(),
            nums_lt(av, bv) == nums_lt(av.skip(i as int), bv.skip(i as int)),
        decreases a.len() - i,
    {
        proof {
            assert(av.skip(i as int)[0] == av[i as int]);
            assert(bv.skip(i as int)[0] == bv[i as int]);
            assert(av.skip(i as int).drop_first() =~= av.skip(i + 1));
            assert(bv.skip(i as int).drop_first() =~= bv.skip(i + 1));
        }
        if a[i] < b[i] {
            assert(av[i as int] < bv[i as int]);
            return true;
        }
        if a[i] > b[i] {
            assert(av[i as int] > bv[i as int]);
            return false;
        }
        assert(av[i as int] == bv[i as int]);
        i = i + 1;
    }
    proof {
        if i >= a.len() {
            assert(av.skip(i as int) =~= Seq::<nat>::empty());
        } else {
            assert(bv.skip(i as int) =~= Seq::<nat>::empty());
            assert(av.skip(i as int).len() > 0);
        }
    }
    i < b.len()
}

/// Whether the first version is strictly newer than the second; nothing
/// when either does not parse.
pub fn is_version_newer(v1: &str, v2: &str) -> (r: Option<bool>)
    ensures
        r is Some <==> version_ok(v1@) && version_ok(v2@),
        r matches Some(x) ==> x == version_lt(v2@, v1@),
{
    let n1 = match parse_version(v1) {
        Some(n) => n,
        None => {
            return None;
        },
    };
    let n2 = match parse_version(v2) {
        Some(n) => n,
        None => {
            return None;
        },
    };
    Some(nums_lt_exec(&n2, &n1))
}

/// What is left after removing every leading `v`.
pub open spec fn strip_vs(s: Seq<char>) -> Seq<char>
    decreases s.len(),
{
    if s.len() > 0 && s[0] == 'v' {
        strip_vs(s.drop_first())
    } else {
        s
    }
}

/// Removes every leading `v` from a version tag.
pub fn strip_v_prefix(s: &str) -> (r: String)
    ensures
        r@ == strip_vs(s@),
{
    let mut rest: &str = s;
    let mut n = rest.unicode_len();
    while n > 0 && rest.get_char(0) == 'v'
        invariant
            n == rest@.len(),
            strip_vs(s@) == strip_vs(rest@),
        decreases n,
    {
        proof {
            assert(rest@.drop_first() =~= rest@.skip(1));
        }
        rest = rest.substring_char(1, n);
        n = n - 1;
    }
    String::from_str(rest)
}

/// What the upgrade does.
pub enum UpgradeDecision {
    /// The versions are the same; nothing to do.
    AlreadyLatest,
    /// The installed version is no older than the release; nothing to do.
    CurrentNewer,
    /// Fetch and install the release.
    Upgrade,
}

/// Decides the upgrade from the installed version and the latest release
/// tag, each with leading `v`s removed: equal versions and versions no
/// older than the release stand, unless the upgrade is forced.
pub fn upgrade_decision(force: bool, current_version: &str, latest_version: &str) -> (r:
    UpgradeDecision)
    ensures
        r is AlreadyLatest <==> !force && strip_vs(current_version@) == strip_vs(latest_version@),
        r is CurrentNewer <==> !force && strip_vs(current_version@) != strip_vs(latest_version@)
            && version_ok(strip_vs(current_version@)) && version_ok(strip_vs(latest_version@))
            && !version_lt(strip_vs(current_version@), strip_vs(latest_version@)),
        r is Upgrade <==> force || (strip_vs(current_version@) != strip_vs(latest_version@) && (
        !version_ok(strip_vs(current_version@)) || !version_ok(strip_vs(latest_version@))
            || version_lt(strip_vs(current_version@), strip_vs(latest_version@)))),
{
    let current = strip_v_prefix(current_version);
    let latest = strip_v_prefix(latest_version);
    if !force && str_eq(current.as_str(), latest.as_str()) {
        return UpgradeDecision::AlreadyLatest;
    }
    if !force {
        match is_version_newer(latest.as_str(), current.as_str()) {
            Some(newer) => {
                if !newer {
                    return UpgradeDecision::CurrentNewer;
                }
            },
            None => {},
        }
    }
    UpgradeDecision::Upgrade
}

/// The target triple a release is built for; unknown pairs fall back to
/// the Linux x86_64 build.
pub open spec fn rust_target_spec(os: Seq<char>, arch: Seq<char>) -> Seq<char> {
    if os == "linux"@ && arch == "x86_64"@ {
        "x86_64-unknown-linux-gnu"@
    } else if os == "linux"@ && arch == "aarch64"@ {
        "aarch64-unknown-linux-gnu"@
    } else if os == "linux"@ && arch == "armv7"@ {
        "armv7-unknown-linux-gnueabihf"@
    } else if os == "darwin"@ && arch == "x86_64"@ {
        "x86_64-apple-darwin"@
    } else if os == "darwin"@ && arch == "aarch64"@ {
        "aarch64-apple-darwin"@
    } else if os == "windows"@ && arch == "x86_64"@ {
        "x86_64-pc-windows-msvc"@
    } else if os == "windows"@ && arch == "i686"@ {
        "i686-pc-windows-msvc"@
    } else if os == "windows"@ && arch == "aarch64"@ {
        "aarch64-pc-windows-msvc"@
    } else {
        "x86_64-unknown-linux-gnu"@
    }
}

/// The target triple a release is built for.
pub fn get_rust_target(os: &str, arch: &str) -> (r: String)
    ensures
        r@ == rust_target_spec(os@, arch@),
{
    let linux = str_eq(os, "linux");
    let darwin = str_eq(os, "darwin");
    let windows = str_eq(os, "windows");
    if linux && str_eq(arch, "x86_64") {
        String::from_str("x86_64-unknown-linux-gnu")
    } else if linux && str_eq(arch, "aarch64") {
        String::from_str("aarch64-unknown-linux-gnu")
    } else if linux && str_eq(arch, "armv7") {
        String::from_str("armv7-unknown-linux-gnueabihf")
    } else if darwin && str_eq(arch, "x86_64") {
        String::from_str("x86_64-apple-darwin")
    } else if darwin && str_eq(arch, "aarch64") {
        String::from_str("aarch64-apple-darwin")
    } else if windows && str_eq(arch, "x86_64") {
        String::from_str("x86_64-pc-windows-msvc")
    } else if windows && str_eq(arch, "i686") {
        String::from_str("i686-pc-windows-msvc")
    } else if windows && str_eq(arch, "aarch64") {
        String::from_str("aarch64-pc-windows-msvc")
    } else {
        String::from_str("x86_64-unknown-linux-gnu")
    }
}

/// The operating system an `uname -s` answer stands for.
pub fn classify_os(os_raw: &str) -> (r: Option<String>)
    ensures
        r is Some <==> contains_sub(os_raw@, "linux"@) || contains_sub(os_raw@, "darwin"@)
            || contains_sub(os_raw@, "mingw"@) || contains_sub(os_raw@, "msys"@) || contains_sub(
            os_raw@,
            "cygwin"@,
        ),
        r matches Some(os) ==> os@ == (if contains_sub(os_raw@, "linux"@) {
            "linux"@
        } else if contains_sub(os_raw@, "darwin"@) {
            "darwin"@
        } else {
            "windows"@
        }),
{
    if str_contains(os_raw, "linux") {
        Some(String::from_str("linux"))
    } else if str_contains(os_raw, "darwin") {
        Some(String::from_str("darwin"))
    } else if str_contains(os_raw, "mingw") || str_contains(os_raw, "msys") || str_contains(
        os_raw,
        "cygwin",
    ) {
        Some(String::from_str("windows"))
    } else {
        None
    }
}

/// The architecture an `uname -m` answer stands for.
pub fn classify_arch(arch_raw: &str) -> (r: Option<String>)
    ensures
        r is Some <==> arch_raw@ == "x86_64"@ || arch_raw@ == "amd64"@ || arch_raw@ == "aarch64"@
            || arch_raw@ == "arm64"@ || arch_raw@ == "armv7l"@ || arch_raw@ == "i686"@ || arch_raw@
            == "i386"@,
        r matches Some(arch) ==> arch@ == (if arch_raw@ == "x86_64"@ || arch_raw@ == "amd64"@ {
            "x86_64"@
        } else if arch_raw@ == "aarch64"@ || arch_raw@ == "arm64"@ {
            "aarch64"@
        } else if arch_raw@ == "armv7l"@ {
            "armv7"@
        } else {
            "i686"@
        }),
{
    if str_eq(arch_raw, "x86_64") || str_eq(arch_raw, "amd64") {
        Some(String::from_str("x86_64"))
    } else if str_eq(arch_raw, "aarch64") || str_eq(arch_raw, "arm64") {
        Some(String::from_str("aarch64"))
    } else if str_eq(arch_raw, "armv7l") {
        Some(String::from_str("armv7"))
    } else if str_eq(arch_raw, "i686") || str_eq(arch_raw, "i386") {
        Some(String::from_str("i686"))
    } else {
        None
    }
}

/// The release archive's file name: zip on Windows, tar.gz elsewhere.
pub fn release_filename(target: &str, windows: bool) -> (r: String)
    ensures
        r@ == "katac-"@ + target@ + "."@ + (if windows {
            "zip"@
        } else {
            "tar.gz"@
        }),
{
    let mut r = String::from_str("katac-");
    r.append(target);
    r.append(".");
    if windows {
        r.append("zip");
    } else {
        r.append("tar.gz");
    }
    proof {
        if windows {
            assert(r@ =~= "katac-"@ + target@ + "."@ + "zip"@);
        } else {
            assert(r@ =~= "katac-"@ + target@ + "."@ + "tar.gz"@);
        }
    }
    r
}

/// The address a release file is fetched from.
pub fn download_url(repo: &str, version: &str, filename: &str) -> (r: String)
    ensures
        r@ == "https://github.com/"@ + repo@ + "/releases/download/"@ + version@ + "/"@
            + filename@,
{
    let mut r = String::from_str("https://github.com/");
    r.append(repo);
    r.append("/releases/download/");
    r.append(version);
    r.append("/");
    r.append(filename);
    proof {
        assert(r@ =~= "https://github.com/"@ + repo@ + "/releases/download/"@ + version@ + "/"@
            + filename@);
    }
    r
}

/// The tag carried by a release answer's lines: on the first line that
/// holds the tag-name key and at least four `"`-separated pieces, the
/// fourth piece.
pub open spec fn tag_of_lines(lines: Seq<Seq<char>>) -> Option<Seq<char>>
    decreases lines.len(),
{
    if lines.len() == 0 {
        None
    } else if contains_sub(lines[0], "\"tag_name\":"@) && split_spec(lines[0], '"').len() > 3 {
        Some(split_spec(lines[0], '"')[3])
    } else {
        tag_of_lines(lines.drop_first())
    }
}

/// Picks the release tag out of the release answer. Lines are the
/// `\n`-separated pieces of the text.
pub fn parse_tag_name(body: &str) -> (r: Option<String>)
    ensures
        r is Some <==> tag_of_lines(split_spec(body@, '\n')) is Some,
        r matches Some(tag) ==> tag_of_lines(split_spec(body@, '\n')) == Some(tag@),
{
    let lines = split_char(body, '\n');
    let ghost all = views_of(lines@);
    let mut i: usize = 0;
    assert(all.skip(0) =~= all);
    while i < lines.len()
        invariant
            0 <= i <= lines.len(),
            all == views_of(lines@),
            all == split_spec(body@, '\n'),
            all.len() == lines.len(),
            tag_of_lines(all) == tag_of_lines(all.skip(i as int)),
        decreases lines.len() - i,
    {
        let line: &str = lines[i].as_str();
        assert(line@ == all[i as int]);
        proof {
            assert(all.skip(i as int)[0] == all[i as int]);
            assert(all.skip(i as int).drop_first() =~= all.skip(i + 1));
        }
        if str_contains(line, "\"tag_name\":") {
            let pieces = split_char(line, '"');
            proof {
                assert(views_of(pieces@) == split_spec(all[i as int], '"'));
                assert(views_of(pieces@).len() == pieces@.len());
            }
            if pieces.len() > 3 {
                let tag = pieces[3].clone();
                proof {
                    assert(tag@ == views_of(pieces@)[3]);
                    assert(tag_of_lines(all.skip(i as int)) == Some(
                        split_spec(all[i as int], '"')[3],
                    ));
                }
                return Some(tag);
            }
        }
        i = i + 1;
    }
    proof {
        assert(all.skip(i as int) =~= Seq::<Seq<char>>::empty());
    }
    None
}

} // verus!
