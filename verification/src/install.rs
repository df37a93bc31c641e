//! The installer.
//!
//! Installing a channel downloads two archives and a checksum manifest,
//! unpacks and verifies them in a staging directory, swaps the staged
//! tree into place behind a backup, relinks the installed executables,
//! and compiles the support library — rolling back to the backup when a
//! step after the swap fails.  This module holds the verified decision
//! logic: URL construction, manifest parsing, checksum comparison, the
//! relink plan, and the install state machine that sequences the
//! filesystem and network actions the surrounding binary performs.

use sha2::Digest;
use vstd::prelude::*;

use crate::channel::{channel_str, host_str, kind_str, Channel, ChannelKind};
use crate::config::{joined, Platform};
use crate::resolve::FsState;
use crate::strutil::{ends_with, find_char, has_prefix, has_suffix, seq_views, starts_with};

verus! {

/// One entry of a directory listing, as the surrounding binary reports
/// it: the entry's name and what kind of entry it is.
pub struct DirEntry {
    pub name: String,
    pub is_file: bool,
    pub is_dir: bool,
}

/// The address the toolchain archives are published under.
pub open spec fn spec_web_base() -> Seq<char> {
    "https://cli.moonbitlang.com"@
}

/// The URL of a channel's binaries archive.
pub open spec fn spec_cli_file_url(c: Channel) -> Seq<char> {
    spec_web_base() + "/binaries/"@ + kind_str(c.channel) + "/moonbit-"@ + host_str(c.host)
        + ".tar.gz"@
}

/// The URL of a channel's support-library archive.  The bleeding-edge
/// channel takes its library straight from the source repository.
pub open spec fn spec_core_file_url(c: Channel) -> Seq<char> {
    if c.channel is Bleeding {
        "https://github.com/moonbitlang/core/archive/refs/heads/main.tar.gz"@
    } else {
        spec_web_base() + "/cores/core-"@ + kind_str(c.channel) + ".tar.gz"@
    }
}

/// The URL of a channel's checksum manifest.
pub open spec fn spec_sha_file_url(c: Channel) -> Seq<char> {
    spec_web_base() + "/binaries/"@ + kind_str(c.channel) + "/moonbit-"@ + host_str(c.host)
        + ".sha256"@
}

/// The URL of a channel's binaries archive.
pub fn channel_cli_file_url(ch: &Channel) -> (r: String)
    ensures
        r@ == spec_cli_file_url(*ch),
{
    let mut out = "https://cli.moonbitlang.com".to_owned();
    out.append("/binaries/");
    let ver = ch.channel.to_string();
    out.append(ver.as_str());
    out.append("/moonbit-");
    let host = ch.host.to_string();
    out.append(host.as_str());
    out.append(".tar.gz");
    proof {
        assert(out@ =~= spec_cli_file_url(*ch));
    }
    out
}

/// The URL of a channel's support-library archive.
pub fn channel_core_file_url(ch: &Channel) -> (r: String)
    ensures
        r@ == spec_core_file_url(*ch),
{
    if matches!(ch.channel, ChannelKind::Bleeding) {
        "https://github.com/moonbitlang/core/archive/refs/heads/main.tar.gz".to_owned()
    } else {
        let mut out = "https://cli.moonbitlang.com".to_owned();
        out.append("/cores/core-");
        let ver = ch.channel.to_string();
        out.append(ver.as_str());
        out.append(".tar.gz");
        proof {
            assert(out@ =~= spec_core_file_url(*ch));
        }
        out
    }
}

/// The URL of a channel's checksum manifest.
pub fn channel_sha_url(ch: &Channel) -> (r: String)
    ensures
        r@ == spec_sha_file_url(*ch),
{
    let mut out = "https://cli.moonbitlang.com".to_owned();
    out.append("/binaries/");
    let ver = ch.channel.to_string();
    out.append(ver.as_str());
    out.append("/moonbit-");
    let host = ch.host.to_string();
    out.append(host.as_str());
    out.append(".sha256");
    proof {
        assert(out@ =~= spec_sha_file_url(*ch));
    }
    out
}

/// The digest that hashing a byte sequence yields.
pub uninterp spec fn sha256_of(data: Seq<u8>) -> Seq<u8>;

/// The sixteen digits of the hexadecimal alphabet, in order.
pub open spec fn hex_digits() -> Seq<char> {
    seq!['0', '1', '2', '3', '4', '5', '6', '7', '8', '9', 'a', 'b', 'c', 'd', 'e', 'f']
}

/// The lowercase hexadecimal rendering of a byte sequence, high nibble
/// first.
pub open spec fn hex_of(data: Seq<u8>) -> Seq<char>
    decreases data.len(),
{
    if data.len() == 0 {
        Seq::empty()
    } else {
        seq![
            hex_digits()[data[0] as int / 16],
            hex_digits()[data[0] as int % 16],
        ] + hex_of(data.drop_first())
    }
}

/// Relies on sha2's Sha256: the digest is a function of the input bytes
/// alone and is 32 bytes long.
#[verifier::external_body]
fn sha256_digest(data: &Vec<u8>) -> (r: Vec<u8>)
    ensures
        r@ == sha256_of(data@),
        r@.len() == 32,
{
    let mut hasher = sha2::Sha256::new();
    hasher.update(data.as_slice());
    hasher.finalize().to_vec()
}

/// Relies on hex::encode: each byte becomes two lowercase hexadecimal
/// digits, high nibble first.
#[verifier::external_body]
fn hex_encode(data: &Vec<u8>) -> (r: String)
    ensures
        r@ == hex_of(data@),
{
    hex::encode(data.as_slice())
}

/// The lowercase hexadecimal digest of a byte sequence.
pub fn file_digest_hex(data: &Vec<u8>) -> (r: String)
    ensures
        r@ == hex_of(sha256_of(data@)),
{
    let digest = sha256_digest(data);
    hex_encode(&digest)
}

/// Whether a file's bytes hash to the expected hexadecimal digest.
pub fn digest_matches(expected: &String, data: &Vec<u8>) -> (r: bool)
    ensures
        r == (expected@ == hex_of(sha256_of(data@))),
{
    let actual = file_digest_hex(data);
    expected.eq(&actual)
}

/// One file to verify: its name, the digest the manifest expects, and
/// the bytes read from disk.
pub struct FileCheck {
    pub filename: String,
    pub expected: String,
    pub data: Vec<u8>,
}

/// A failed checksum comparison: the file and both digests.
pub struct ChecksumMismatch {
    pub filename: String,
    pub expected: String,
    pub actual: String,
}

/// Verifies every file against its expected digest, reporting the first
/// mismatch with the file's name and both digests.
pub fn verify_outputs(files: &Vec<FileCheck>) -> (r: Result<(), ChecksumMismatch>)
    ensures
        match r {
            Ok(()) => forall|i: int|
                0 <= i < files@.len() ==> files@[i].expected@ == hex_of(
                    sha256_of(#[trigger] files@[i].data@),
                ),
            Err(m) => exists|i: int|
                {
                    &&& 0 <= i < files@.len()
                    &&& files@[i].expected@ != hex_of(sha256_of(#[trigger] files@[i].data@))
                    &&& m.filename@ == files@[i].filename@
                    &&& m.expected@ == files@[i].expected@
                    &&& m.actual@ == hex_of(sha256_of(files@[i].data@))
                    &&& forall|j: int|
                        0 <= j < i ==> files@[j].expected@ == hex_of(
                            sha256_of(#[trigger] files@[j].data@),
                        )
                },
        },
{
    let n = files.len();
    let mut i: usize = 0;
    while i < n
        invariant
            0 <= i <= n,
            n == files@.len(),
            forall|j: int|
                0 <= j < i ==> files@[j].expected@ == hex_of(sha256_of(#[trigger] files@[j].data@)),
        decreases n - i,
    {
        let file = &files[i];
        if !digest_matches(&file.expected, &file.data) {
            let actual = file_digest_hex(&file.data);
            return Err(ChecksumMismatch {
                filename: file.filename.clone(),
                expected: file.expected.clone(),
                actual,
            });
        }
        i += 1;
    }
    Ok(())
}

/// Whether a directory entry may be an executable worth linking: a
/// regular file that is no shared library, and that carries the
/// platform's executable extension where the platform requires one.
pub open spec fn spec_can_be_executable(platform: Platform, name: Seq<char>, is_file: bool) -> bool {
    &&& is_file
    &&& !has_suffix(name, ".so"@)
    &&& !has_suffix(name, ".dylib"@)
    &&& !has_suffix(name, ".dll"@)
    &&& (platform is Windows ==> has_suffix(name, ".exe"@))
}

/// Whether a directory entry may be an executable worth linking.
pub fn can_be_executable(platform: Platform, name: &str, is_file: bool) -> (r: bool)
    ensures
        r == spec_can_be_executable(platform, name@, is_file),
{
    if !is_file {
        return false;
    }
    if ends_with(name, ".so") || ends_with(name, ".dylib") || ends_with(name, ".dll") {
        return false;
    }
    match platform {
        Platform::Unix => true,
        Platform::Windows => ends_with(name, ".exe"),
    }
}

/// The first directory entry that is a renamed support-library
/// directory: a directory whose name starts with the library's name and
/// a dash, as source archives produce.
pub open spec fn spec_branched_core_dir(entries: Seq<DirEntry>) -> Option<String>
    decreases entries.len(),
{
    if entries.len() == 0 {
        None
    } else if entries[0].is_dir && has_prefix(entries[0].name@, "core-"@) {
        Some(entries[0].name)
    } else {
        spec_branched_core_dir(entries.drop_first())
    }
}

/// Finds the first directory entry holding a renamed support-library
/// directory.
pub fn find_branched_core_dir(entries: &Vec<DirEntry>) -> (r: Option<String>)
    ensures
        match r {
            Some(n) => spec_branched_core_dir(entries@) matches Some(m) && m@ == n@,
            None => spec_branched_core_dir(entries@) is None,
        },
{
    let n = entries.len();
    let mut i: usize = 0;
    proof {
        assert(entries@.skip(0) =~= entries@);
    }
    while i < n
        invariant
            0 <= i <= n,
            n == entries@.len(),
            spec_branched_core_dir(entries@) == spec_branched_core_dir(entries@.skip(i as int)),
        decreases n - i,
    {
        let entry = &entries[i];
        proof {
            assert(entries@.skip(i as int)[0] == entries@[i as int]);
            assert(entries@.skip(i as int).drop_first() =~= entries@.skip(i as int + 1));
        }
        if entry.is_dir && starts_with(entry.name.as_str(), "core-") {
            return Some(entry.name.clone());
        }
        i += 1;
    }
    proof {
        assert(entries@.skip(n as int) =~= Seq::<DirEntry>::empty());
    }
    None
}

/// The link targets an installation creates: one per plausible
/// executable in the new `bin` directory whose target in the global
/// binary directory does not exist yet, in listing order.
pub open spec fn spec_link_plan(
    platform: Platform,
    moon_bin: Seq<char>,
    entries: Seq<DirEntry>,
    fsv: Set<Seq<char>>,
) -> Seq<Seq<char>>
    decreases entries.len(),
{
    if entries.len() == 0 {
        Seq::empty()
    } else {
        let rest = spec_link_plan(platform, moon_bin, entries.drop_first(), fsv);
        let e = entries[0];
        if spec_can_be_executable(platform, e.name@, e.is_file) && !fsv.contains(
            joined(moon_bin, e.name@),
        ) {
            seq![joined(moon_bin, e.name@)] + rest
        } else {
            rest
        }
    }
}

/// Plans the relink step: the paths in the global binary directory at
/// which a link must be created, given the listing of the new `bin`
/// directory and which link paths already exist.
pub fn link_plan(platform: Platform, moon_bin: &str, entries: &Vec<DirEntry>, fs: &FsState) -> (r:
    Vec<String>)
    ensures
        seq_views(r@) == spec_link_plan(platform, moon_bin@, entries@, fs@),
{
    let n = entries.len();
    let mut out: Vec<String> = Vec::new();
    let mut i: usize = 0;
    proof {
        assert(entries@.skip(0) =~= entries@);
        assert(seq_views(out@) =~= Seq::<Seq<char>>::empty());
        assert(seq_views(out@) + spec_link_plan(platform, moon_bin@, entries@, fs@)
            =~= spec_link_plan(platform, moon_bin@, entries@, fs@));
    }
    while i < n
        invariant
            0 <= i <= n,
            n == entries@.len(),
            seq_views(out@) + spec_link_plan(platform, moon_bin@, entries@.skip(i as int), fs@)
                == spec_link_plan(platform, moon_bin@, entries@, fs@),
        decreases n - i,
    {
        let entry = &entries[i];
        proof {
            assert(entries@.skip(i as int)[0] == entries@[i as int]);
            assert(entries@.skip(i as int).drop_first() =~= entries@.skip(i as int + 1));
        }
        if can_be_executable(platform, entry.name.as_str(), entry.is_file) {
            let target = crate::config::join_path(moon_bin, entry.name.as_str());
            if !fs.contains_path(target.as_str()) {
                let ghost old_out = out@;
                let ghost tv = target@;
                out.push(target);
                proof {
                    assert(seq_views(out@) =~= seq_views(old_out).push(tv));
                    assert(seq_views(out@) + spec_link_plan(
                        platform,
                        moon_bin@,
                        entries@.skip(i as int + 1),
                        fs@,
                    ) =~= spec_link_plan(platform, moon_bin@, entries@, fs@));
                }
            }
        }
        i += 1;
    }
    proof {
        assert(entries@.skip(n as int) =~= Seq::<DirEntry>::empty());
        assert(seq_views(out@) + Seq::<Seq<char>>::empty() =~= seq_views(out@));
    }
    out
}

/// Law: relinking an already fully linked directory plans nothing: when
/// every plausible executable's link target exists, the plan is empty.
pub proof fn lemma_relink_idempotent(
    platform: Platform,
    moon_bin: Seq<char>,
    entries: Seq<DirEntry>,
    fsv: Set<Seq<char>>,
)
    requires
        forall|i: int|
            0 <= i < entries.len() ==> fsv.contains(#[trigger] joined(moon_bin, entries[i].name@)),
    ensures
        spec_link_plan(platform, moon_bin, entries, fsv).len() == 0,
    decreases entries.len(),
{
    if entries.len() > 0 {
        assert(fsv.contains(joined(moon_bin, entries[0].name@)));
        assert(forall|i: int|
            0 <= i < entries.drop_first().len() ==> entries.drop_first()[i] == entries[i + 1]);
        lemma_relink_idempotent(platform, moon_bin, entries.drop_first(), fsv);
    }
}

/// A character the manifest parser treats as blank.
pub open spec fn is_blank(c: char) -> bool {
    c == ' ' || c == '\t' || c == '\r' || c == '\n'
}

/// The sequence with its leading blanks removed.
pub open spec fn trim_front(s: Seq<char>) -> Seq<char>
    decreases s.len(),
{
    if s.len() > 0 && is_blank(s[0]) {
        trim_front(s.drop_first())
    } else {
        s
    }
}

/// The sequence with its trailing blanks removed.
pub open spec fn trim_back(s: Seq<char>) -> Seq<char>
    decreases s.len(),
{
    if s.len() > 0 && is_blank(s.last()) {
        trim_back(s.drop_last())
    } else {
        s
    }
}

/// The sequence with blanks removed from both ends.
pub open spec fn spec_trim(s: Seq<char>) -> Seq<char> {
    trim_back(trim_front(s))
}

/// Whether a character is blank.
pub fn blank_char(c: char) -> (r: bool)
    ensures
        r == is_blank(c),
{
    c == ' ' || c == '\t' || c == '\r' || c == '\n'
}

/// Removes blanks from both ends of a string.
pub fn trim_str<'a>(s: &'a str) -> (r: &'a str)
    ensures
        r@ == spec_trim(s@),
{
    let n = s.unicode_len();
    let mut a: usize = 0;
    proof {
        assert(s@.skip(0) =~= s@);
    }
    while a < n && blank_char(s.get_char(a))
        invariant
            0 <= a <= n,
            n == s@.len(),
            trim_front(s@) == trim_front(s@.skip(a as int)),
        decreases n - a,
    {
        proof {
            assert(s@.skip(a as int)[0] == s@[a as int]);
            assert(s@.skip(a as int).drop_first() =~= s@.skip(a as int + 1));
        }
        a += 1;
    }
    proof {
        assert(trim_front(s@) == s@.skip(a as int));
    }
    let mut b: usize = n;
    proof {
        assert(s@.subrange(a as int, n as int) =~= s@.skip(a as int));
    }
    while b > a && blank_char(s.get_char(b - 1))
        invariant
            a <= b <= n,
            n == s@.len(),
            trim_front(s@) == s@.skip(a as int),
            trim_back(s@.skip(a as int)) == trim_back(s@.subrange(a as int, b as int)),
        decreases b,
    {
        proof {
            assert(s@.subrange(a as int, b as int).last() == s@[b as int - 1]);
            assert(s@.subrange(a as int, b as int).drop_last() =~= s@.subrange(
                a as int,
                b as int - 1,
            ));
        }
        b -= 1;
    }
    let r = s.substring_char(a, b);
    proof {
        assert(trim_back(s@.subrange(a as int, b as int)) == s@.subrange(a as int, b as int));
    }
    r
}

#[via_fn]
proof fn spec_lines_decreases(s: Seq<char>)
{
    s.index_of_first_ensures('\n');
}

/// The lines of a text, split at newline characters; a trailing newline
/// opens no further line.
pub open spec fn spec_lines(s: Seq<char>) -> Seq<Seq<char>>
    decreases s.len(),
        via spec_lines_decreases
{
    if s.len() == 0 {
        Seq::empty()
    } else {
        match s.index_of_first('\n') {
            None => seq![s],
            Some(i) => seq![s.take(i)] + spec_lines(s.skip(i + 1)),
        }
    }
}

/// Splits a text into its lines.
pub fn split_lines(text: &str) -> (r: Vec<String>)
    ensures
        seq_views(r@) == spec_lines(text@),
{
    let mut out: Vec<String> = Vec::new();
    let mut rest: &str = text;
    proof {
        assert(seq_views(out@) + spec_lines(rest@) =~= spec_lines(text@));
    }
    loop
        invariant
            seq_views(out@) + spec_lines(rest@) == spec_lines(text@),
        decreases rest@.len(),
    {
        let n = rest.unicode_len();
        if n == 0 {
            proof {
                assert(seq_views(out@) =~= spec_lines(text@));
            }
            return out;
        }
        match find_char(rest, '\n') {
            None => {
                let ghost old_out = out@;
                out.push(rest.to_owned());
                proof {
                    assert(seq_views(out@) =~= seq_views(old_out).push(rest@));
                    assert(seq_views(out@) =~= spec_lines(text@));
                }
                return out;
            },
            Some(i) => {
                let line = rest.substring_char(0, i);
                let new_rest = rest.substring_char(i + 1, n);
                let ghost old_out = out@;
                let ghost old_rest = rest@;
                out.push(line.to_owned());
                proof {
                    assert(old_rest.subrange(0, i as int) =~= old_rest.take(i as int));
                    assert(old_rest.subrange(i as int + 1, n as int) =~= old_rest.skip(
                        i as int + 1,
                    ));
                    assert(seq_views(out@) =~= seq_views(old_out).push(
                        old_rest.take(i as int),
                    ));
                    assert(seq_views(out@) + spec_lines(old_rest.skip(i as int + 1))
                        =~= spec_lines(text@));
                }
                rest = new_rest;
            },
        }
    }
}

/// Finds the first position where two spaces stand side by side.
pub fn find_two_spaces(s: &str) -> (r: Option<usize>)
    ensures
        match r {
            Some(i) => {
                &&& i + 1 < s@.len()
                &&& s@[i as int] == ' '
                &&& s@[i as int + 1] == ' '
                &&& forall|j: int| 0 <= j < i ==> !((#[trigger] s@[j]) == ' ' && s@[j + 1] == ' ')
            },
            None => forall|j: int|
                0 <= j && j + 1 < s@.len() ==> !((#[trigger] s@[j]) == ' ' && s@[j + 1] == ' '),
        },
{
    let n = s.unicode_len();
    if n < 2 {
        return None;
    }
    let mut j: usize = 0;
    while j + 1 < n
        invariant
            n == s@.len(),
            0 <= j,
            j + 1 <= n,
            forall|k: int| 0 <= k < j ==> !((#[trigger] s@[k]) == ' ' && s@[k + 1] == ' '),
        decreases n - j,
    {
        if s.get_char(j) == ' ' && s.get_char(j + 1) == ' ' {
            return Some(j);
        }
        j += 1;
    }
    None
}

/// A manifest line split at its first double space: the digest text to
/// the left, the file name to the right.
pub open spec fn line_splits_to(line: Seq<char>, hash: Seq<char>, filename: Seq<char>) -> bool {
    exists|i: int|
        {
            &&& 0 <= i && i + 1 < line.len()
            &&& line[i] == ' ' && line[i + 1] == ' '
            &&& (forall|j: int| 0 <= j < i ==> !((#[trigger] line[j]) == ' ' && line[j + 1] == ' '))
            &&& hash == line.take(i)
            &&& filename == line.skip(i + 2)
        }
}

/// Whether a manifest line holds a double space at all.
pub open spec fn line_has_two_spaces(line: Seq<char>) -> bool {
    exists|i: int| 0 <= i && i + 1 < line.len() && (#[trigger] line[i]) == ' ' && line[i + 1] == ' '
}

/// The nonempty trimmed lines of a manifest, in order.
pub open spec fn manifest_lines(ls: Seq<Seq<char>>) -> Seq<Seq<char>>
    decreases ls.len(),
{
    if ls.len() == 0 {
        Seq::empty()
    } else {
        let rest = manifest_lines(ls.drop_first());
        let t = spec_trim(ls[0]);
        if t.len() > 0 {
            seq![t] + rest
        } else {
            rest
        }
    }
}

/// One entry of a checksum manifest: the expected digest and the file it
/// belongs to.
#[derive(Debug)]
pub struct ShaEntry {
    pub hash: String,
    pub filename: String,
}

/// A manifest line that holds no double-space separator.
#[derive(Debug)]
pub struct ManifestError {
    pub line: String,
}

/// Parses a checksum manifest: every nonempty line, after trimming,
/// holds a digest and a file name separated by two spaces.
pub fn parse_sha_manifest(text: &str) -> (r: Result<Vec<ShaEntry>, ManifestError>)
    ensures
        ({
            let mls = manifest_lines(spec_lines(text@));
            match r {
                Ok(entries) => {
                    &&& entries@.len() == mls.len()
                    &&& forall|i: int|
                        0 <= i < mls.len() ==> line_splits_to(
                            #[trigger] mls[i],
                            entries@[i].hash@,
                            entries@[i].filename@,
                        )
                },
                Err(e) => exists|i: int|
                    0 <= i < mls.len() && !line_has_two_spaces(#[trigger] mls[i]) && e.line@
                        == mls[i],
            }
        }),
{
    let lines = split_lines(text);
    let ghost lv = spec_lines(text@);
    let ghost mls = manifest_lines(lv);
    let n = lines.len();
    let mut entries: Vec<ShaEntry> = Vec::new();
    let mut i: usize = 0;
    proof {
        assert(lv.skip(0) =~= lv);
        assert(mls.skip(0) =~= mls);
    }
    while i < n
        invariant
            0 <= i <= n,
            n == lines@.len(),
            lv == spec_lines(text@),
            seq_views(lines@) == lv,
            mls == manifest_lines(lv),
            entries@.len() <= mls.len(),
            manifest_lines(lv.skip(i as int)) == mls.skip(entries@.len() as int),
            forall|j: int|
                0 <= j < entries@.len() ==> line_splits_to(
                    #[trigger] mls[j],
                    entries@[j].hash@,
                    entries@[j].filename@,
                ),
        decreases n - i,
    {
        let line = &lines[i];
        let t = trim_str(line.as_str());
        let m = t.unicode_len();
        proof {
            assert(lv.skip(i as int)[0] == lv[i as int]);
            assert(lv.skip(i as int).drop_first() =~= lv.skip(i as int + 1));
            assert(line@ == lv[i as int]);
        }
        if m == 0 {
            i += 1;
            continue ;
        }
        proof {
            assert(mls.skip(entries@.len() as int) =~= seq![t@] + manifest_lines(
                lv.skip(i as int + 1),
            ));
            assert(mls.skip(entries@.len() as int)[0] == t@);
            assert(mls.skip(entries@.len() as int)[0] == mls[entries@.len() as int]);
            assert(mls[entries@.len() as int] == t@);
            assert(mls.skip(entries@.len() as int).drop_first() =~= mls.skip(
                entries@.len() as int + 1,
            ));
            assert(mls.skip(entries@.len() as int + 1) =~= manifest_lines(lv.skip(i as int + 1)));
        }
        match find_two_spaces(t) {
            None => {
                proof {
                    assert(0 <= entries@.len() < mls.len());
                    assert(!line_has_two_spaces(mls[entries@.len() as int]));
                }
                return Err(ManifestError { line: t.to_owned() });
            },
            Some(p) => {
                let hash = t.substring_char(0, p);
                let filename = t.substring_char(p + 2, m);
                proof {
                    assert(t@.subrange(0, p as int) =~= t@.take(p as int));
                    assert(t@.subrange(p as int + 2, m as int) =~= t@.skip(p as int + 2));
                }
                let ghost old_entries = entries@;
                entries.push(ShaEntry { hash: hash.to_owned(), filename: filename.to_owned() });
                proof {
                    assert(entries@.drop_last() =~= old_entries);
                    assert(line_splits_to(
                        mls[old_entries.len() as int],
                        entries@.last().hash@,
                        entries@.last().filename@,
                    ));
                }
                i += 1;
            },
        }
    }
    proof {
        assert(lv.skip(n as int) =~= Seq::<Seq<char>>::empty());
        assert(mls.skip(entries@.len() as int) =~= Seq::<Seq<char>>::empty());
    }
    Ok(entries)
}

/// The actions the surrounding binary performs for the installer, one at
/// a time.
pub enum InstallAction {
    /// Create a directory and its parents.
    CreateDir { path: String },
    /// Create a fresh staging directory under `parent`; reply with its
    /// path.
    CreateStaging { parent: String, prefix: String },
    /// Download a file; the label names the artifact for progress
    /// output.
    Download { url: String, dest: String, label: String },
    /// Unpack a gzipped tar archive into a directory.
    Unpack { archive: String, dest: String },
    /// List a directory and look for a renamed library root in it;
    /// reply with the finding.
    ListDir { path: String },
    /// Rename a file or directory.
    Rename { from: String, to: String },
    /// Mark every file under the directory executable.
    FixPermissions { dir: String },
    /// Fetch a text over the network, parse it as a checksum manifest,
    /// and reply with the entries.
    FetchManifest { url: String },
    /// Read a file; reply with its bytes.
    ReadFile { path: String },
    /// Remove a directory tree.
    RemoveDir { path: String },
    /// Test whether a path exists; reply with the answer.
    ProbeExists { path: String },
    /// Ensure every plausible executable in the new `bin` directory is
    /// linked from the global binary directory.
    RelinkExecutables { bin_dir: String },
    /// Report the versions of the freshly installed executables.
    RunVersionChecks { toolchain: String },
    /// Compile the support library with the freshly installed toolchain.
    BundleCore { toolchain: String, core_dir: String },
}

/// What came back from performing an action.
pub enum InstallEvent {
    /// The action succeeded.
    Done,
    /// The staging directory was created at this path.
    Path(String),
    /// The listed library directory holds a renamed library root of
    /// this name, or none.
    Branched(Option<String>),
    /// The manifest parsed into these entries.
    Manifest(Vec<ShaEntry>),
    /// The read file holds these bytes.
    Data(Vec<u8>),
    /// Whether the probed path exists.
    Exists(bool),
    /// The action failed, with the underlying error's text.
    Failed(String),
}

/// Where an installation stands: the action to perform next, or how it
/// ended.
pub enum InstallStage {
    /// Create the installation directory.
    CreateTarget,
    /// Create the staging directory beside the target.
    MakeStaging,
    /// Download the binaries archive into the staging directory.
    DownloadBinaries,
    /// Download the support-library archive into the staging directory.
    DownloadCore,
    /// Unpack the binaries archive.
    UnpackBinaries,
    /// Unpack the support-library archive.
    UnpackCore,
    /// List the staged library directory to find a renamed library root.
    ScanLib,
    /// Rename the renamed library root to its expected name.
    RenameBranchedCore { dir: String },
    /// Mark the staged executables executable.
    FixPerms,
    /// Fetch the checksum manifest.
    FetchManifest,
    /// Read and verify the file of the given manifest entry.
    VerifyFile { idx: usize },
    /// Test whether a stale backup from an earlier run exists.
    CheckOldBackup,
    /// Remove the stale backup.
    RemoveOldBackup,
    /// Move the current installation aside; failure here only means
    /// there was nothing to back up.
    BackupTarget,
    /// Move the staged tree into place.
    SwapStaging,
    /// Link the installed executables from the global binary directory.
    Relink,
    /// Report the installed executables' versions.
    VersionChecks,
    /// Compile the support library.
    Bundle,
    /// Test whether the backup still exists.
    CheckBackup,
    /// Remove the backup.
    RemoveBackup,
    /// Roll back: remove the new target tree.
    RollbackRemoveTarget,
    /// Roll back: restore the backup to the target location.
    RollbackRestore,
    /// The installation succeeded.
    Done,
    /// The installation failed; `rolled_back` says whether the previous
    /// installation was restored.
    Failed { rolled_back: bool },
}

/// One installation in progress: the staged paths and URLs, and the
/// stage it stands at.
pub struct InstallFlow {
    pub stage: InstallStage,
    pub channel_name: String,
    pub target: String,
    pub parent: String,
    pub backup: String,
    pub staging: Option<String>,
    pub cli_url: String,
    pub core_url: String,
    pub sha_url: String,
    pub manifest: Vec<ShaEntry>,
    pub verify: bool,
    pub platform: Platform,
    pub backup_made: bool,
    pub swapped: bool,
}

/// The given flow, standing at another stage.
pub open spec fn with_stage(pre: InstallFlow, s: InstallStage) -> InstallFlow {
    InstallFlow { stage: s, ..pre }
}

/// The stage after the staged library root is in place: fixing
/// permissions where the platform has an executable bit.
pub open spec fn stage_after_core_fix(pre: InstallFlow) -> InstallStage {
    if pre.platform is Unix {
        InstallStage::FixPerms
    } else {
        stage_after_perms(pre)
    }
}

/// The stage after permissions are fixed: verifying checksums when
/// enabled.
pub open spec fn stage_after_perms(pre: InstallFlow) -> InstallStage {
    if pre.verify {
        InstallStage::FetchManifest
    } else {
        InstallStage::CheckOldBackup
    }
}

/// The flow after a failed action: tolerated at the backup step, a
/// rollback after the backup was made, and a plain failure before.
pub open spec fn spec_fail(pre: InstallFlow) -> InstallFlow {
    match pre.stage {
        InstallStage::BackupTarget => InstallFlow {
            stage: InstallStage::SwapStaging,
            backup_made: false,
            ..pre
        },
        InstallStage::SwapStaging | InstallStage::Relink | InstallStage::VersionChecks
            | InstallStage::Bundle => {
            if pre.backup_made {
                with_stage(pre, InstallStage::RollbackRemoveTarget)
            } else {
                with_stage(pre, InstallStage::Failed { rolled_back: false })
            }
        },
        _ => with_stage(pre, InstallStage::Failed { rolled_back: false }),
    }
}

/// The flow after an action's outcome is reported.  Rollback stages
/// advance on any outcome: rolling back is best-effort.  An outcome of
/// the wrong kind for the stage leaves the flow unchanged.
pub open spec fn spec_step(pre: InstallFlow, event: InstallEvent) -> InstallFlow {
    match pre.stage {
        InstallStage::RollbackRemoveTarget => with_stage(pre, InstallStage::RollbackRestore),
        InstallStage::RollbackRestore => with_stage(
            pre,
            InstallStage::Failed { rolled_back: true },
        ),
        InstallStage::Done => pre,
        InstallStage::Failed { .. } => pre,
        _ => match event {
            InstallEvent::Failed(m) => spec_fail(pre),
            InstallEvent::Done => match pre.stage {
                InstallStage::CreateTarget => with_stage(pre, InstallStage::MakeStaging),
                InstallStage::DownloadBinaries => with_stage(pre, InstallStage::DownloadCore),
                InstallStage::DownloadCore => with_stage(pre, InstallStage::UnpackBinaries),
                InstallStage::UnpackBinaries => with_stage(pre, InstallStage::UnpackCore),
                InstallStage::UnpackCore => with_stage(pre, InstallStage::ScanLib),
                InstallStage::RenameBranchedCore { .. } => with_stage(
                    pre,
                    stage_after_core_fix(pre),
                ),
                InstallStage::FixPerms => with_stage(pre, stage_after_perms(pre)),
                InstallStage::RemoveOldBackup => with_stage(pre, InstallStage::BackupTarget),
                InstallStage::BackupTarget => InstallFlow {
                    stage: InstallStage::SwapStaging,
                    backup_made: true,
                    ..pre
                },
                InstallStage::SwapStaging => InstallFlow {
                    stage: InstallStage::Relink,
                    swapped: true,
                    ..pre
                },
                InstallStage::Relink => with_stage(pre, InstallStage::VersionChecks),
                InstallStage::VersionChecks => with_stage(pre, InstallStage::Bundle),
                InstallStage::Bundle => with_stage(pre, InstallStage::CheckBackup),
                InstallStage::RemoveBackup => with_stage(pre, InstallStage::Done),
                _ => pre,
            },
            InstallEvent::Path(p) => match pre.stage {
                InstallStage::MakeStaging => InstallFlow {
                    stage: InstallStage::DownloadBinaries,
                    staging: Some(p),
                    ..pre
                },
                _ => pre,
            },
            InstallEvent::Branched(opt) => match pre.stage {
                InstallStage::ScanLib => match opt {
                    Some(d) => with_stage(pre, InstallStage::RenameBranchedCore { dir: d }),
                    None => with_stage(pre, stage_after_core_fix(pre)),
                },
                _ => pre,
            },
            InstallEvent::Manifest(es) => match pre.stage {
                InstallStage::FetchManifest => {
                    if es@.len() > 0 {
                        InstallFlow {
                            stage: InstallStage::VerifyFile { idx: 0 },
                            manifest: es,
                            ..pre
                        }
                    } else {
                        InstallFlow { stage: InstallStage::CheckOldBackup, manifest: es, ..pre }
                    }
                },
                _ => pre,
            },
            InstallEvent::Data(d) => match pre.stage {
                InstallStage::VerifyFile { idx } => {
                    if idx < pre.manifest@.len() && pre.manifest@[idx as int].hash@ == hex_of(
                        sha256_of(d@),
                    ) {
                        if idx + 1 < pre.manifest@.len() {
                            with_stage(pre, InstallStage::VerifyFile { idx: (idx + 1) as usize })
                        } else {
                            with_stage(pre, InstallStage::CheckOldBackup)
                        }
                    } else {
                        with_stage(pre, InstallStage::Failed { rolled_back: false })
                    }
                },
                _ => pre,
            },
            InstallEvent::Exists(b) => match pre.stage {
                InstallStage::CheckOldBackup => {
                    if b {
                        with_stage(pre, InstallStage::RemoveOldBackup)
                    } else {
                        with_stage(pre, InstallStage::BackupTarget)
                    }
                },
                InstallStage::CheckBackup => {
                    if b {
                        with_stage(pre, InstallStage::RemoveBackup)
                    } else {
                        with_stage(pre, InstallStage::Done)
                    }
                },
                _ => pre,
            },
        },
    }
}

impl InstallFlow {
    /// Starts an installation of a channel into `target_dir`, staging
    /// and backing up in `parent_dir` beside it.
    pub fn new(
        channel: &Channel,
        target_dir: String,
        parent_dir: String,
        verify: bool,
        platform: Platform,
    ) -> (r: InstallFlow)
        ensures
            r.stage is CreateTarget,
            r.channel_name@ == channel_str(*channel),
            r.target@ == target_dir@,
            r.parent@ == parent_dir@,
            r.backup@ == joined(parent_dir@, channel_str(*channel) + "-backup"@),
            r.staging is None,
            r.cli_url@ == spec_cli_file_url(*channel),
            r.core_url@ == spec_core_file_url(*channel),
            r.sha_url@ == spec_sha_file_url(*channel),
            r.manifest@ == Seq::<ShaEntry>::empty(),
            r.verify == verify,
            r.platform == platform,
            !r.backup_made,
            !r.swapped,
    {
        let channel_name = channel.to_string();
        let mut backup_name = channel_name.clone();
        backup_name.append("-backup");
        let backup = crate::config::join_path(parent_dir.as_str(), backup_name.as_str());
        InstallFlow {
            stage: InstallStage::CreateTarget,
            channel_name,
            target: target_dir,
            parent: parent_dir,
            backup,
            staging: None,
            cli_url: channel_cli_file_url(channel),
            core_url: channel_core_file_url(channel),
            sha_url: channel_sha_url(channel),
            manifest: Vec::new(),
            verify,
            platform,
            backup_made: false,
            swapped: false,
        }
    }

    /// Feeds the outcome of the last action into the flow.
    pub fn step(&mut self, event: InstallEvent)
        ensures
            *final(self) == spec_step(*old(self), event),
    {
        let mut stage = InstallStage::Done;
        core::mem::swap(&mut stage, &mut self.stage);
        match stage {
            InstallStage::RollbackRemoveTarget => {
                self.stage = InstallStage::RollbackRestore;
            },
            InstallStage::RollbackRestore => {
                self.stage = InstallStage::Failed { rolled_back: true };
            },
            InstallStage::Done => {
                self.stage = InstallStage::Done;
            },
            InstallStage::Failed { rolled_back } => {
                self.stage = InstallStage::Failed { rolled_back };
            },
            InstallStage::CreateTarget => {
                self.stage = match event {
                    InstallEvent::Done => InstallStage::MakeStaging,
                    InstallEvent::Failed(_) => InstallStage::Failed { rolled_back: false },
                    _ => InstallStage::CreateTarget,
                };
            },
            InstallStage::MakeStaging => {
                match event {
                    InstallEvent::Path(p) => {
                        self.staging = Some(p);
                        self.stage = InstallStage::DownloadBinaries;
                    },
                    InstallEvent::Failed(_) => {
                        self.stage = InstallStage::Failed { rolled_back: false };
                    },
                    _ => {
                        self.stage = InstallStage::MakeStaging;
                    },
                }
            },
            InstallStage::DownloadBinaries => {
                self.stage = match event {
                    InstallEvent::Done => InstallStage::DownloadCore,
                    InstallEvent::Failed(_) => InstallStage::Failed { rolled_back: false },
                    _ => InstallStage::DownloadBinaries,
                };
            },
            InstallStage::DownloadCore => {
                self.stage = match event {
                    InstallEvent::Done => InstallStage::UnpackBinaries,
                    InstallEvent::Failed(_) => InstallStage::Failed { rolled_back: false },
                    _ => InstallStage::DownloadCore,
                };
            },
            InstallStage::UnpackBinaries => {
                self.stage = match event {
                    InstallEvent::Done => InstallStage::UnpackCore,
                    InstallEvent::Failed(_) => InstallStage::Failed { rolled_back: false },
                    _ => InstallStage::UnpackBinaries,
                };
            },
            InstallStage::UnpackCore => {
                self.stage = match event {
                    InstallEvent::Done => InstallStage::ScanLib,
                    InstallEvent::Failed(_) => InstallStage::Failed { rolled_back: false },
                    _ => InstallStage::UnpackCore,
                };
            },
            InstallStage::ScanLib => {
                match event {
                    InstallEvent::Branched(opt) => {
                        match opt {
                            Some(d) => {
                                self.stage = InstallStage::RenameBranchedCore { dir: d };
                            },
                            None => {
                                self.stage = self.next_after_core_fix();
                            },
                        }
                    },
                    InstallEvent::Failed(_) => {
                        self.stage = InstallStage::Failed { rolled_back: false };
                    },
                    _ => {
                        self.stage = InstallStage::ScanLib;
                    },
                }
            },
            InstallStage::RenameBranchedCore { dir } => {
                self.stage = match event {
                    InstallEvent::Done => self.next_after_core_fix(),
                    InstallEvent::Failed(_) => InstallStage::Failed { rolled_back: false },
                    _ => InstallStage::RenameBranchedCore { dir },
                };
            },
            InstallStage::FixPerms => {
                self.stage = match event {
                    InstallEvent::Done => self.next_after_perms(),
                    InstallEvent::Failed(_) => InstallStage::Failed { rolled_back: false },
                    _ => InstallStage::FixPerms,
                };
            },
            InstallStage::FetchManifest => {
                match event {
                    InstallEvent::Manifest(es) => {
                        let has_entries = es.len() > 0;
                        self.manifest = es;
                        self.stage = if has_entries {
                            InstallStage::VerifyFile { idx: 0 }
                        } else {
                            InstallStage::CheckOldBackup
                        };
                    },
                    InstallEvent::Failed(_) => {
                        self.stage = InstallStage::Failed { rolled_back: false };
                    },
                    _ => {
                        self.stage = InstallStage::FetchManifest;
                    },
                }
            },
            InstallStage::VerifyFile { idx } => {
                match event {
                    InstallEvent::Data(d) => {
                        if idx < self.manifest.len() && digest_matches(
                            &self.manifest[idx].hash,
                            &d,
                        ) {
                            if idx + 1 < self.manifest.len() {
                                self.stage = InstallStage::VerifyFile { idx: idx + 1 };
                            } else {
                                self.stage = InstallStage::CheckOldBackup;
                            }
                        } else {
                            self.stage = InstallStage::Failed { rolled_back: false };
                        }
                    },
                    InstallEvent::Failed(_) => {
                        self.stage = InstallStage::Failed { rolled_back: false };
                    },
                    _ => {
                        self.stage = InstallStage::VerifyFile { idx };
                    },
                }
            },
            InstallStage::CheckOldBackup => {
                self.stage = match event {
                    InstallEvent::Exists(b) => if b {
                        InstallStage::RemoveOldBackup
                    } else {
                        InstallStage::BackupTarget
                    },
                    InstallEvent::Failed(_) => InstallStage::Failed { rolled_back: false },
                    _ => InstallStage::CheckOldBackup,
                };
            },
            InstallStage::RemoveOldBackup => {
                self.stage = match event {
                    InstallEvent::Done => InstallStage::BackupTarget,
                    InstallEvent::Failed(_) => InstallStage::Failed { rolled_back: false },
                    _ => InstallStage::RemoveOldBackup,
                };
            },
            InstallStage::BackupTarget => {
                match event {
                    InstallEvent::Done => {
                        self.backup_made = true;
                        self.stage = InstallStage::SwapStaging;
                    },
                    InstallEvent::Failed(_) => {
                        self.backup_made = false;
                        self.stage = InstallStage::SwapStaging;
                    },
                    _ => {
                        self.stage = InstallStage::BackupTarget;
                    },
                }
            },
            InstallStage::SwapStaging => {
                match event {
                    InstallEvent::Done => {
                        self.swapped = true;
                        self.stage = InstallStage::Relink;
                    },
                    InstallEvent::Failed(_) => {
                        self.stage = if self.backup_made {
                            InstallStage::RollbackRemoveTarget
                        } else {
                            InstallStage::Failed { rolled_back: false }
                        };
                    },
                    _ => {
                        self.stage = InstallStage::SwapStaging;
                    },
                }
            },
            InstallStage::Relink => {
                self.stage = match event {
                    InstallEvent::Done => InstallStage::VersionChecks,
                    InstallEvent::Failed(_) => if self.backup_made {
                        InstallStage::RollbackRemoveTarget
                    } else {
                        InstallStage::Failed { rolled_back: false }
                    },
                    _ => InstallStage::Relink,
                };
            },
            InstallStage::VersionChecks => {
                self.stage = match event {
                    InstallEvent::Done => InstallStage::Bundle,
                    InstallEvent::Failed(_) => if self.backup_made {
                        InstallStage::RollbackRemoveTarget
                    } else {
                        InstallStage::Failed { rolled_back: false }
                    },
                    _ => InstallStage::VersionChecks,
                };
            },
            InstallStage::Bundle => {
                self.stage = match event {
                    InstallEvent::Done => InstallStage::CheckBackup,
                    InstallEvent::Failed(_) => if self.backup_made {
                        InstallStage::RollbackRemoveTarget
                    } else {
                        InstallStage::Failed { rolled_back: false }
                    },
                    _ => InstallStage::Bundle,
                };
            },
            InstallStage::CheckBackup => {
                self.stage = match event {
                    InstallEvent::Exists(b) => if b {
                        InstallStage::RemoveBackup
                    } else {
                        InstallStage::Done
                    },
                    InstallEvent::Failed(_) => InstallStage::Failed { rolled_back: false },
                    _ => InstallStage::CheckBackup,
                };
            },
            InstallStage::RemoveBackup => {
                self.stage = match event {
                    InstallEvent::Done => InstallStage::Done,
                    InstallEvent::Failed(_) => InstallStage::Failed { rolled_back: false },
                    _ => InstallStage::RemoveBackup,
                };
            },
        }
    }

    /// The stage after the staged library root is in place.
    fn next_after_core_fix(&self) -> (r: InstallStage)
        ensures
            r == stage_after_core_fix(*self),
    {
        match self.platform {
            Platform::Unix => InstallStage::FixPerms,
            Platform::Windows => self.next_after_perms(),
        }
    }

    /// The stage after permissions are fixed.
    fn next_after_perms(&self) -> (r: InstallStage)
        ensures
            r == stage_after_perms(*self),
    {
        if self.verify {
            InstallStage::FetchManifest
        } else {
            InstallStage::CheckOldBackup
        }
    }

    /// The action to perform at the current stage, or nothing once the
    /// flow has ended.
    pub fn action(&self) -> (r: Option<InstallAction>)
        ensures
            match self.stage {
                InstallStage::CreateTarget => r matches Some(a) && a matches
                    InstallAction::CreateDir { path } && path@ == self.target@,
                InstallStage::MakeStaging => r matches Some(a) && a matches
                    InstallAction::CreateStaging { parent, prefix } && parent@ == self.parent@
                    && prefix@ == "lunik-install-"@ + self.channel_name@,
                InstallStage::DownloadBinaries => self.staging matches Some(st) ==> r matches Some(
                    a,
                ) && a matches InstallAction::Download { url, dest, label } && url@
                    == self.cli_url@ && dest@ == joined(st@, "bin.tar.gz"@) && label@
                    == "MoonBit binaries"@,
                InstallStage::DownloadCore => self.staging matches Some(st) ==> r matches Some(a)
                    && a matches InstallAction::Download { url, dest, label } && url@
                    == self.core_url@ && dest@ == joined(st@, "core.tar.gz"@) && label@
                    == "MoonBit core"@,
                InstallStage::UnpackBinaries => self.staging matches Some(st) ==> r matches Some(
                    a,
                ) && a matches InstallAction::Unpack { archive, dest } && archive@ == joined(
                    st@,
                    "bin.tar.gz"@,
                ) && dest@ == st@,
                InstallStage::UnpackCore => self.staging matches Some(st) ==> r matches Some(a)
                    && a matches InstallAction::Unpack { archive, dest } && archive@ == joined(
                    st@,
                    "core.tar.gz"@,
                ) && dest@ == joined(st@, "lib"@),
                InstallStage::ScanLib => self.staging matches Some(st) ==> r matches Some(a)
                    && a matches InstallAction::ListDir { path } && path@ == joined(st@, "lib"@),
                InstallStage::RenameBranchedCore { dir } => self.staging matches Some(st)
                    ==> r matches Some(a) && a matches InstallAction::Rename { from, to } && from@
                    == joined(joined(st@, "lib"@), dir@) && to@ == joined(
                    joined(st@, "lib"@),
                    "core"@,
                ),
                InstallStage::FixPerms => self.staging matches Some(st) ==> r matches Some(a)
                    && a matches InstallAction::FixPermissions { dir } && dir@ == joined(
                    st@,
                    "bin"@,
                ),
                InstallStage::FetchManifest => r matches Some(a) && a matches
                    InstallAction::FetchManifest { url } && url@ == self.sha_url@,
                InstallStage::VerifyFile { idx } => self.staging matches Some(st) ==> (idx
                    < self.manifest@.len() ==> (r matches Some(a) && a matches
                    InstallAction::ReadFile { path } && path@ == joined(
                    joined(st@, "bin"@),
                    self.manifest@[idx as int].filename@,
                ))),
                InstallStage::CheckOldBackup => r matches Some(a) && a matches
                    InstallAction::ProbeExists { path } && path@ == self.backup@,
                InstallStage::RemoveOldBackup => r matches Some(a) && a matches
                    InstallAction::RemoveDir { path } && path@ == self.backup@,
                InstallStage::BackupTarget => r matches Some(a) && a matches
                    InstallAction::Rename { from, to } && from@ == self.target@ && to@
                    == self.backup@,
                InstallStage::SwapStaging => self.staging matches Some(st) ==> r matches Some(a)
                    && a matches InstallAction::Rename { from, to } && from@ == st@ && to@
                    == self.target@,
                InstallStage::Relink => r matches Some(a) && a matches
                    InstallAction::RelinkExecutables { bin_dir } && bin_dir@ == joined(
                    self.target@,
                    "bin"@,
                ),
                InstallStage::VersionChecks => r matches Some(a) && a matches
                    InstallAction::RunVersionChecks { toolchain } && toolchain@
                    == self.channel_name@,
                InstallStage::Bundle => r matches Some(a) && a matches InstallAction::BundleCore {
                    toolchain,
                    core_dir,
                } && toolchain@ == self.channel_name@ && core_dir@ == joined(
                    joined(self.target@, "lib"@),
                    "core"@,
                ),
                InstallStage::CheckBackup => r matches Some(a) && a matches
                    InstallAction::ProbeExists { path } && path@ == self.backup@,
                InstallStage::RemoveBackup => r matches Some(a) && a matches
                    InstallAction::RemoveDir { path } && path@ == self.backup@,
                InstallStage::RollbackRemoveTarget => r matches Some(a) && a matches
                    InstallAction::RemoveDir { path } && path@ == self.target@,
                InstallStage::RollbackRestore => r matches Some(a) && a matches
                    InstallAction::Rename { from, to } && from@ == self.backup@ && to@
                    == self.target@,
                InstallStage::Done => r is None,
                InstallStage::Failed { .. } => r is None,
            },
    {
        match &self.stage {
            InstallStage::CreateTarget => Some(
                InstallAction::CreateDir { path: self.target.clone() },
            ),
            InstallStage::MakeStaging => {
                let mut prefix = "lunik-install-".to_owned();
                prefix.append(self.channel_name.as_str());
                Some(InstallAction::CreateStaging { parent: self.parent.clone(), prefix })
            },
            InstallStage::DownloadBinaries => match &self.staging {
                Some(st) => Some(
                    InstallAction::Download {
                        url: self.cli_url.clone(),
                        dest: crate::config::join_path(st.as_str(), "bin.tar.gz"),
                        label: "MoonBit binaries".to_owned(),
                    },
                ),
                None => None,
            },
            InstallStage::DownloadCore => match &self.staging {
                Some(st) => Some(
                    InstallAction::Download {
                        url: self.core_url.clone(),
                        dest: crate::config::join_path(st.as_str(), "core.tar.gz"),
                        label: "MoonBit core".to_owned(),
                    },
                ),
                None => None,
            },
            InstallStage::UnpackBinaries => match &self.staging {
                Some(st) => Some(
                    InstallAction::Unpack {
                        archive: crate::config::join_path(st.as_str(), "bin.tar.gz"),
                        dest: st.clone(),
                    },
                ),
                None => None,
            },
            InstallStage::UnpackCore => match &self.staging {
                Some(st) => Some(
                    InstallAction::Unpack {
                        archive: crate::config::join_path(st.as_str(), "core.tar.gz"),
                        dest: crate::config::join_path(st.as_str(), "lib"),
                    },
                ),
                None => None,
            },
            InstallStage::ScanLib => match &self.staging {
                Some(st) => Some(
                    InstallAction::ListDir {
                        path: crate::config::join_path(st.as_str(), "lib"),
                    },
                ),
                None => None,
            },
            InstallStage::RenameBranchedCore { dir } => match &self.staging {
                Some(st) => {
                    let lib = crate::config::join_path(st.as_str(), "lib");
                    Some(
                        InstallAction::Rename {
                            from: crate::config::join_path(lib.as_str(), dir.as_str()),
                            to: crate::config::join_path(lib.as_str(), "core"),
                        },
                    )
                },
                None => None,
            },
            InstallStage::FixPerms => match &self.staging {
                Some(st) => Some(
                    InstallAction::FixPermissions {
                        dir: crate::config::join_path(st.as_str(), "bin"),
                    },
                ),
                None => None,
            },
            InstallStage::FetchManifest => Some(
                InstallAction::FetchManifest { url: self.sha_url.clone() },
            ),
            InstallStage::VerifyFile { idx } => match &self.staging {
                Some(st) => {
                    if *idx < self.manifest.len() {
                        let bin = crate::config::join_path(st.as_str(), "bin");
                        Some(
                            InstallAction::ReadFile {
                                path: crate::config::join_path(
                                    bin.as_str(),
                                    self.manifest[*idx].filename.as_str(),
                                ),
                            },
                        )
                    } else {
                        None
                    }
                },
                None => None,
            },
            InstallStage::CheckOldBackup => Some(
                InstallAction::ProbeExists { path: self.backup.clone() },
            ),
            InstallStage::RemoveOldBackup => Some(
                InstallAction::RemoveDir { path: self.backup.clone() },
            ),
            InstallStage::BackupTarget => Some(
                InstallAction::Rename { from: self.target.clone(), to: self.backup.clone() },
            ),
            InstallStage::SwapStaging => match &self.staging {
                Some(st) => Some(
                    InstallAction::Rename { from: st.clone(), to: self.target.clone() },
                ),
                None => None,
            },
            InstallStage::Relink => Some(
                InstallAction::RelinkExecutables {
                    bin_dir: crate::config::join_path(self.target.as_str(), "bin"),
                },
            ),
            InstallStage::VersionChecks => Some(
                InstallAction::RunVersionChecks { toolchain: self.channel_name.clone() },
            ),
            InstallStage::Bundle => {
                let lib = crate::config::join_path(self.target.as_str(), "lib");
                Some(
                    InstallAction::BundleCore {
                        toolchain: self.channel_name.clone(),
                        core_dir: crate::config::join_path(lib.as_str(), "core"),
                    },
                )
            },
            InstallStage::CheckBackup => Some(
                InstallAction::ProbeExists { path: self.backup.clone() },
            ),
            InstallStage::RemoveBackup => Some(
                InstallAction::RemoveDir { path: self.backup.clone() },
            ),
            InstallStage::RollbackRemoveTarget => Some(
                InstallAction::RemoveDir { path: self.target.clone() },
            ),
            InstallStage::RollbackRestore => Some(
                InstallAction::Rename { from: self.backup.clone(), to: self.target.clone() },
            ),
            InstallStage::Done => None,
            InstallStage::Failed { .. } => None,
        }
    }

    /// True once the flow has ended, successfully or not.
    pub fn finished(&self) -> (r: bool)
        ensures
            r == (self.stage is Done || self.stage is Failed),
    {
        match &self.stage {
            InstallStage::Done => true,
            InstallStage::Failed { .. } => true,
            _ => false,
        }
    }
}

/// Law: a failure reported after the backup was made and before the
/// installation committed rolls it back: the flow removes the new
/// target tree, restores the backup over it, and ends failed with the
/// rollback performed.
pub proof fn lemma_rollback_on_failure(
    pre: InstallFlow,
    msg: String,
    e1: InstallEvent,
    e2: InstallEvent,
)
    requires
        pre.backup_made,
        pre.stage is SwapStaging || pre.stage is Relink || pre.stage is VersionChecks
            || pre.stage is Bundle,
    ensures
        ({
            let s1 = spec_step(pre, InstallEvent::Failed(msg));
            let s2 = spec_step(s1, e1);
            let s3 = spec_step(s2, e2);
            &&& s1.stage is RollbackRemoveTarget
            &&& s1.target == pre.target && s1.backup == pre.backup
            &&& s2.stage is RollbackRestore
            &&& s2.target == pre.target && s2.backup == pre.backup
            &&& s3.stage matches InstallStage::Failed { rolled_back } && rolled_back
        }),
{
}

/// Law: a failure reported before any backup was made ends the flow
/// without a rollback: the previous installation was never touched.
pub proof fn lemma_no_rollback_before_backup(pre: InstallFlow, msg: String)
    requires
        !pre.backup_made,
        !(pre.stage is RollbackRemoveTarget),
        !(pre.stage is RollbackRestore),
        !(pre.stage is Done),
        !(pre.stage is Failed),
        !(pre.stage is BackupTarget),
    ensures
        spec_step(pre, InstallEvent::Failed(msg)).stage matches InstallStage::Failed {
            rolled_back,
        } && !rolled_back,
{
}

} // verus!
