//! The pure parts of updating the installed binary: release tags and
//! addresses, picking assets, reading checksum listings and the managed
//! install location. Network, archives and files are the caller's.
use sha2::{Digest, Sha256};
use vstd::prelude::*;
use vstd::string::*;

use crate::paths::{path_join, path_join_spec};
use crate::text::{chars_of, find_char, is_ws, is_ws_char, slice_chars, string_of};

verus! {

#[verifier::external_type_specification]
#[verifier::external_body]
pub struct ExVersion(semver::Version);

#[verifier::external_type_specification]
#[verifier::external_body]
pub struct ExSemverError(semver::Error);

/// Whether `semver::Version::parse` accepts `text`.
pub uninterp spec fn semver_accepts(text: Seq<char>) -> bool;

/// Relies on `semver::Version::parse`: its result is decided by the text
/// alone, and empty text is refused.
#[verifier::external_body]
fn parse_version_text(text: &str) -> (r: Result<semver::Version, semver::Error>)
    ensures
        r is Ok <==> semver_accepts(text@),
        text@.len() == 0 ==> r is Err,
{
    semver::Version::parse(text)
}

/// What to do about an update.
#[derive(Debug, Clone)]
pub struct SelfUpdateOptions {
    pub check_only: bool,
    pub version: Option<String>,
    pub yes: bool,
}

/// One downloadable file of a release.
#[derive(Debug, Clone)]
pub struct ReleaseAsset {
    pub name: String,
    pub browser_download_url: String,
}

/// A release tag that is not a semantic version.
#[derive(Debug, Clone)]
pub struct InvalidTag {
    pub tag: String,
}

impl InvalidTag {
    /// A description of the error.
    pub fn message(&self) -> String {
        let mut m = String::from_str("invalid release tag version: ");
        m.append(self.tag.as_str());
        m
    }
}

/// `s` without one leading `v`.
pub open spec fn strip_v(s: Seq<char>) -> Seq<char> {
    if s.len() > 0 && s[0] == 'v' {
        s.drop_first()
    } else {
        s
    }
}

/// Parses a release tag such as `v1.2.3` as a semantic version.
pub fn parse_semver(tag: &str) -> (r: Result<semver::Version, InvalidTag>)
    ensures
        r is Ok <==> semver_accepts(strip_v(tag@)),
        r matches Err(e) ==> e.tag@ == tag@,
{
    let chars = chars_of(tag);
    let normalized = if chars.len() > 0 && chars[0] == 'v' {
        slice_chars(&chars, 1, chars.len())
    } else {
        chars
    };
    assert(normalized@ =~= strip_v(tag@));
    match parse_version_text(string_of(normalized.as_slice()).as_str()) {
        Ok(v) => Ok(v),
        Err(_) => Err(InvalidTag { tag: String::from_str(tag) }),
    }
}

/// A version as a release tag: with a leading `v`, added when missing.
pub open spec fn tag_spec(version: Seq<char>) -> Seq<char> {
    if version.len() > 0 && version[0] == 'v' {
        version
    } else {
        seq!['v'] + version
    }
}

/// The release tag of a version.
pub fn release_tag(version: &str) -> (r: String)
    ensures
        r@ == tag_spec(version@),
{
    let chars = chars_of(version);
    if chars.len() > 0 && chars[0] == 'v' {
        String::from_str(version)
    } else {
        let mut t = String::from_str("v");
        proof {
            reveal_strlit("v");
        }
        t.append(version);
        assert(t@ =~= seq!['v'] + version@);
        t
    }
}

/// The address of the release metadata: the release of `version` when one
/// is given, the latest release otherwise.
pub fn release_url(version: Option<&str>) -> (r: String)
    ensures
        version matches Some(v) ==> r@ == "https://api.github.com/repos/PerishCode/envlock/releases/tags/"@
            + tag_spec(v@),
        version is None ==> r@ == "https://api.github.com/repos/PerishCode/envlock/releases/latest"@,
{
    match version {
        Some(v) => {
            let mut url = String::from_str(
                "https://api.github.com/repos/PerishCode/envlock/releases/tags/",
            );
            let tag = release_tag(v);
            url.append(tag.as_str());
            url
        },
        None => String::from_str("https://api.github.com/repos/PerishCode/envlock/releases/latest"),
    }
}

/// The position of the first asset named `name`.
pub fn find_asset(assets: &Vec<ReleaseAsset>, name: &str) -> (r: Option<usize>)
    ensures
        match r {
            Some(i) => i < assets@.len() && assets@[i as int].name@ == name@ && forall|j: int|
                0 <= j < i ==> (#[trigger] assets@[j]).name@ != name@,
            None => forall|j: int| 0 <= j < assets@.len() ==> (#[trigger] assets@[j]).name@ != name@,
        },
{
    let wanted = String::from_str(name);
    let mut i: usize = 0;
    while i < assets.len()
        invariant
            i <= assets@.len(),
            wanted@ == name@,
            forall|j: int| 0 <= j < i ==> (#[trigger] assets@[j]).name@ != name@,
        decreases assets.len() - i,
    {
        if assets[i].name == wanted {
            return Some(i);
        }
        i += 1;
    }
    None
}

/// The first position at or after `k` whose character is (when `ws`) or is
/// not (otherwise) white space, or the length of `s`.
pub open spec fn scan(s: Seq<char>, k: int, ws: bool) -> int
    decreases s.len() - k,
{
    if k < 0 || k >= s.len() {
        s.len() as int
    } else if is_ws(s[k]) == ws {
        k
    } else {
        scan(s, k + 1, ws)
    }
}

fn scan_exec(v: &Vec<char>, k: usize, ws: bool) -> (r: usize)
    requires
        k <= v.len(),
    ensures
        r == scan(v@, k as int, ws),
        k <= r <= v.len(),
{
    let mut j: usize = k;
    while j < v.len() && is_ws_char(v[j]) != ws
        invariant
            k <= j <= v.len(),
            scan(v@, k as int, ws) == scan(v@, j as int, ws),
        decreases v.len() - j,
    {
        j += 1;
    }
    j
}

/// The hash that one line of a checksum listing gives for `asset`: the
/// first two white-space separated words are the hash and the file name,
/// which must be `asset` or `*asset`.
pub open spec fn line_checksum(line: Seq<char>, asset: Seq<char>) -> Option<Seq<char>> {
    let a = scan(line, 0, false);
    let b = scan(line, a, true);
    let c = scan(line, b, false);
    let d = scan(line, c, true);
    if a >= line.len() || c >= line.len() {
        None
    } else {
        let file = line.subrange(c, d);
        if file == asset || file == seq!['*'] + asset {
            Some(line.subrange(a, b))
        } else {
            None
        }
    }
}

/// The hash that the first matching line gives.
pub open spec fn checksum_of_lines(lines: Seq<Seq<char>>, asset: Seq<char>) -> Option<Seq<char>>
    decreases lines.len(),
{
    if lines.len() == 0 {
        None
    } else {
        match line_checksum(lines[0], asset) {
            Some(h) => Some(h),
            None => checksum_of_lines(lines.drop_first(), asset),
        }
    }
}

fn parse_checksum_line(line: &Vec<char>, asset: &Vec<char>) -> (r: Option<String>)
    ensures
        match r {
            Some(h) => line_checksum(line@, asset@) == Some(h@),
            None => line_checksum(line@, asset@) is None,
        },
{
    let a = scan_exec(line, 0, false);
    let b = scan_exec(line, a, true);
    let c = scan_exec(line, b, false);
    let d = scan_exec(line, c, true);
    if a >= line.len() || c >= line.len() {
        return None;
    }
    let file = slice_chars(line, c, d);
    let mut starred: Vec<char> = Vec::new();
    starred.push('*');
    crate::text::extend_chars(&mut starred, asset);
    if crate::text::chars_eq(&file, asset) || crate::text::chars_eq(&file, &starred) {
        Some(string_of(slice_chars(line, a, b).as_slice()))
    } else {
        None
    }
}

/// The hash listed for `asset_name` in a `sha256sum` or `shasum` listing:
/// the first line whose second word is the name, bare or after `*`.
pub fn parse_checksum(checksums_text: &str, asset_name: &str) -> (r: Option<String>)
    ensures
        crate::ambient::opt_view(r) == checksum_of_lines(
            crate::merge::split_spec(checksums_text@, seq!['\n']),
            asset_name@,
        ),
{
    let mut newline: Vec<char> = Vec::new();
    newline.push('\n');
    assert(newline@ =~= seq!['\n']);
    let lines = crate::merge::split_chars(&chars_of(checksums_text), &newline);
    let ghost lv = crate::merge::views(lines@);
    let asset = chars_of(asset_name);
    let mut i: usize = 0;
    assert(lv.subrange(0, lv.len() as int) =~= lv);
    while i < lines.len()
        invariant
            i <= lines@.len(),
            lv == crate::merge::views(lines@),
            lv == crate::merge::split_spec(checksums_text@, seq!['\n']),
            checksum_of_lines(lv, asset_name@) == checksum_of_lines(
                lv.subrange(i as int, lv.len() as int),
                asset_name@,
            ),
            asset@ == asset_name@,
        decreases lines.len() - i,
    {
        let ghost rest = lv.subrange(i as int, lv.len() as int);
        assert(rest[0] == lines@[i as int]@);
        assert(rest.drop_first() =~= lv.subrange(i + 1, lv.len() as int));
        match parse_checksum_line(&lines[i], &asset) {
            Some(h) => {
                return Some(h);
            },
            None => {},
        }
        i += 1;
    }
    None
}

/// Where a managed install keeps the binary, under the home directory.
pub fn managed_install_binary_path_with_home(home: Option<String>) -> (r: Result<String, String>)
    ensures
        match home {
            Some(h) => r matches Ok(p) && p@ == path_join_spec(h@, ".envlock/bin/envlock"@),
            None => r is Err,
        },
{
    match home {
        Some(h) => Ok(path_join(h.as_str(), ".envlock/bin/envlock")),
        None => Err(String::from_str("HOME is not set; unable to resolve managed install path")),
    }
}

/// The release target triple for an operating system and architecture, as
/// `std::env::consts` names them, when releases are built for it.
pub fn target_triple_for(os: &str, arch: &str) -> (r: Option<&'static str>)
    ensures
        r matches Some(t) ==> (os@ == "linux"@ && arch@ == "x86_64"@ && t@
            == "x86_64-unknown-linux-gnu"@) || (os@ == "macos"@ && arch@ == "x86_64"@ && t@
            == "x86_64-apple-darwin"@) || (os@ == "macos"@ && arch@ == "aarch64"@ && t@
            == "aarch64-apple-darwin"@),
        r is None ==> !((os@ == "linux"@ && arch@ == "x86_64"@) || (os@ == "macos"@ && (arch@
            == "x86_64"@ || arch@ == "aarch64"@))),
{
    let o = String::from_str(os);
    let a = String::from_str(arch);
    let linux = String::from_str("linux");
    let macos = String::from_str("macos");
    let x86 = String::from_str("x86_64");
    let arm = String::from_str("aarch64");
    if o == linux && a == x86 {
        return Some("x86_64-unknown-linux-gnu");
    }
    if o == macos && a == x86 {
        return Some("x86_64-apple-darwin");
    }
    if o == macos && a == arm {
        return Some("aarch64-apple-darwin");
    }
    None
}

/// The lowercase hexadecimal SHA-256 digest of `bytes`.
pub uninterp spec fn sha256_hex_of(bytes: Seq<u8>) -> Seq<char>;

/// Relies on `sha2::Sha256`: the digest of the bytes, written in lowercase
/// hexadecimal; it depends on the bytes alone.
#[verifier::external_body]
fn sha256_hex(bytes: &[u8]) -> (r: String)
    ensures
        r@ == sha256_hex_of(bytes@),
{
    let mut hasher = Sha256::new();
    hasher.update(bytes);
    format!("{:x}", hasher.finalize())
}

/// A downloaded archive whose digest is not the listed one.
#[derive(Debug, Clone)]
pub struct ChecksumMismatch {
    pub expected: String,
    pub actual: String,
}

impl ChecksumMismatch {
    /// A description of the error, naming the archive.
    pub fn message(&self, archive_name: &str) -> String {
        let mut m = String::from_str("checksum mismatch for ");
        m.append(archive_name);
        m.append(" (expected ");
        m.append(self.expected.as_str());
        m.append(", got ");
        m.append(self.actual.as_str());
        m.append(")");
        m
    }
}

/// Compares a computed digest with the listed one.
pub fn check_digest(actual: String, expected: &str) -> (r: Result<(), ChecksumMismatch>)
    ensures
        r is Ok <==> actual@ == expected@,
        r matches Err(m) ==> m.actual@ == actual@ && m.expected@ == expected@,
{
    let wanted = String::from_str(expected);
    if actual == wanted {
        Ok(())
    } else {
        Err(ChecksumMismatch { expected: wanted, actual })
    }
}

/// Checks a downloaded archive against the digest listed for it.
pub fn verify_archive_checksum(archive: &[u8], expected: &str) -> (r: Result<(), ChecksumMismatch>)
    ensures
        r is Ok <==> sha256_hex_of(archive@) == expected@,
        r matches Err(m) ==> m.actual@ == sha256_hex_of(archive@) && m.expected@ == expected@,
{
    check_digest(sha256_hex(archive), expected)
}

} // verus!
