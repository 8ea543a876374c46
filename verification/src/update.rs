//! Releases: version X.Y.Z is tagged vX.Y.Z and comes as a Windows archive with the
//! checksums of its files.
use crate::failure::Failure;
use crate::json::{Json, JsonView};
use crate::names::lemma_names;
use crate::text::{
    blank, characters, contains, decimal, decimal_text, hex_digit, joined,
    law_only_white_space_is_trimmed, law_part_stands_between, law_text_between_white_space_is_kept,
    lower_hex_digit, lower_text, same_text, slice_text, split_words, starts_with, strip_prefix,
    texts, to_lower, trim, trimmed, white_space, words,
};
use crate::value::{json_text, parsed_json, plain, raw_name};
use vstd::prelude::*;
use vstd::utf8::{decode_utf8, valid_utf8};

verus! {

/// The archive of a release.
pub const ASSET_NAME: &'static str = "gprox-x86_64-pc-windows-msvc.zip";

/// The checksums of a release.
pub const CHECKSUM_NAME: &'static str = "SHA256SUMS";

/// The largest archive that is downloaded, in bytes.
pub const MAX_ARCHIVE_SIZE: u64 = 268435456;

/// The largest description of a release that is read, in bytes.
pub const MAX_RELEASE_SIZE: usize = 2097152;

/// The largest list of checksums that is read, in bytes.
pub const MAX_CHECKSUMS_SIZE: usize = 16384;

/// A published release.
pub struct Release {
    pub tag_name: String,
    pub draft: bool,
    pub prerelease: bool,
    pub assets: Vec<Asset>,
}

/// A file of a release.
pub struct Asset {
    pub name: String,
    pub browser_download_url: String,
}

#[verifier::ext_equal]
pub struct AssetView {
    pub name: Seq<char>,
    pub url: Seq<char>,
}

impl View for Asset {
    type V = AssetView;

    open spec fn view(&self) -> AssetView {
        AssetView { name: self.name@, url: self.browser_download_url@ }
    }
}

/// The files of a release.
pub open spec fn assets_view(assets: Seq<Asset>) -> Seq<AssetView> {
    assets.map_values(|asset: Asset| asset@)
}

/// The files of that name.
pub open spec fn assets_named(assets: Seq<AssetView>, name: Seq<char>) -> Seq<AssetView> {
    assets.filter(|asset: AssetView| asset.name == name)
}

/// Where the file `name` of the release `tag` is published.
pub open spec fn download_url(tag: Seq<char>, name: Seq<char>) -> Seq<char> {
    "https://github.com/Ziiilk/gprox/releases/download/"@ + tag + "/"@ + name
}

/// The address of the file `name` of a release, or why there is none to trust.
pub open spec fn asset_of(assets: Seq<AssetView>, tag: Seq<char>, name: Seq<char>) -> Result<
    Seq<char>,
    Seq<char>,
> {
    let found = assets_named(assets, name);
    if found.len() == 0 {
        Err("Release "@ + tag + " is missing "@ + name)
    } else if found.len() > 1 {
        Err("Duplicate release asset: "@ + name)
    } else if found[0].url != download_url(tag, name) {
        Err("Unexpected download URL for "@ + name)
    } else {
        Ok(found[0].url)
    }
}

// ---------------------------------------------------------------------------
// Versions

/// A semantic version.
pub struct Version {
    pub major: u64,
    pub minor: u64,
    pub patch: u64,
    pub pre: String,
    pub build: String,
}

#[verifier::ext_equal]
pub struct VersionView {
    pub major: u64,
    pub minor: u64,
    pub patch: u64,
    pub pre: Seq<char>,
    pub build: Seq<char>,
}

impl View for Version {
    type V = VersionView;

    open spec fn view(&self) -> VersionView {
        VersionView {
            major: self.major,
            minor: self.minor,
            patch: self.patch,
            pre: self.pre@,
            build: self.build@,
        }
    }
}

/// `semver::Error`, the reason why a text is no version.
#[verifier::external_type_specification]
#[verifier::external_body]
pub struct ExVersionError(semver::Error);

/// The semantic version that a text stands for; nothing where it stands for none.
pub uninterp spec fn parsed_version(text: Seq<char>) -> Option<VersionView>;

/// `semver::Version::parse`, with the parts of the version it read. It takes no number
/// with a leading zero and keeps the other parts as they are, so that a version is
/// written in one way only; and three numbers with dots between them are read as the
/// version that has them.
#[verifier::external_body]
fn read_version(text: &str) -> (version: Result<Version, semver::Error>)
    ensures
        match version {
            Ok(v) => parsed_version(text@) == Some(v@) && text@ == version_text(v@) && forall|
                plain: VersionView,
            |
                stable(plain) && text@ == #[trigger] version_text(plain) ==> v@ == plain,
            Err(_) => parsed_version(text@) is None && forall|plain: VersionView|
                stable(plain) ==> text@ != #[trigger] version_text(plain),
        },
{
    let version = semver::Version::parse(text)?;
    Ok(
        Version {
            major: version.major,
            minor: version.minor,
            patch: version.patch,
            pre: version.pre.as_str().to_owned(),
            build: version.build.as_str().to_owned(),
        },
    )
}

/// Whether the stable version `major.minor.patch` is at most the version `other`: the
/// numbers decide from left to right, and a pre-release comes before its release.
pub open spec fn stable_at_most(major: u64, minor: u64, patch: u64, other: VersionView) -> bool {
    ||| major < other.major
    ||| major == other.major && minor < other.minor
    ||| major == other.major && minor == other.minor && patch < other.patch
    ||| major == other.major && minor == other.minor && patch == other.patch && other.pre.len() == 0
}

/// The order of `semver::Version`, of a version without pre-release and build and one
/// that `semver::Version::parse` reads; `None` where it reads none.
#[verifier::external_body]
fn release_at_most(major: u64, minor: u64, patch: u64, other: &str) -> (result: Option<bool>)
    ensures
        result == match parsed_version(other@) {
            Some(version) => Some(stable_at_most(major, minor, patch, version)),
            None => None,
        },
{
    let other = semver::Version::parse(other).ok()?;
    Some(semver::Version::new(major, minor, patch) <= other)
}

/// A version without pre-release and build.
pub open spec fn stable(version: VersionView) -> bool {
    version.pre.len() == 0 && version.build.len() == 0
}

/// A version as it is written.
pub open spec fn version_text(version: VersionView) -> Seq<char> {
    let numbers = decimal(version.major as nat) + "."@ + decimal(version.minor as nat) + "."@
        + decimal(version.patch as nat);
    let pre = if version.pre.len() == 0 {
        numbers
    } else {
        numbers + "-"@ + version.pre
    };
    if version.build.len() == 0 {
        pre
    } else {
        pre + "+"@ + version.build
    }
}

impl Version {
    pub fn new(major: u64, minor: u64, patch: u64) -> (version: Version)
        ensures
            version@ == (VersionView {
                major,
                minor,
                patch,
                pre: Seq::empty(),
                build: Seq::empty(),
            }),
    {
        Version { major, minor, patch, pre: String::new(), build: String::new() }
    }

    /// The version as it is written.
    pub fn text(&self) -> (text: String)
        ensures
            text@ == version_text(self@),
    {
        let mut text = decimal_text(self.major);
        text.append(".");
        text.append(decimal_text(self.minor).as_str());
        text.append(".");
        text.append(decimal_text(self.patch).as_str());
        if !self.pre.as_str().is_empty() {
            text.append("-");
            text.append(self.pre.as_str());
        }
        if !self.build.as_str().is_empty() {
            text.append("+");
            text.append(self.build.as_str());
        }
        text
    }
}

/// The version of a release, by its tag and what was read of it, or why it cannot be
/// installed.
pub open spec fn version_of(
    draft: bool,
    prerelease: bool,
    tag: Seq<char>,
    read: Option<VersionView>,
) -> Result<VersionView, Seq<char>> {
    if draft || prerelease {
        Err("Only stable releases can be installed"@)
    } else if !starts_with(tag, "v"@) {
        Err("Release tag must start with v"@)
    } else {
        match read {
            None => Err("Invalid release version"@),
            Some(version) => if stable(version) {
                Ok(version)
            } else {
                Err("Release tag must be vMAJOR.MINOR.PATCH"@)
            },
        }
    }
}

/// What stands behind the `v` of a tag.
pub open spec fn tag_version(tag: Seq<char>) -> Seq<char> {
    tag.skip("v"@.len() as int)
}

/// Whether a tag stands for this plain version.
pub open spec fn names_version(tag: Seq<char>, version: VersionView) -> bool {
    stable(version) && tag == "v"@ + version_text(version)
}

impl Release {
    /// The version of the release, which its tag gives as it is written. A plain version
    /// that is neither a draft nor a pre-release can be installed, and nothing else.
    pub fn version(&self) -> (version: Result<Version, Failure>)
        ensures
            ({
                let stated = version_of(
                    self.draft,
                    self.prerelease,
                    self.tag_name@,
                    parsed_version(tag_version(self.tag_name@)),
                );
                match version {
                    Ok(v) => stated == Ok::<VersionView, Seq<char>>(v@) && names_version(
                        self.tag_name@,
                        v@,
                    ),
                    Err(failure) => stated == Err::<VersionView, Seq<char>>(failure@),
                }
            }),
            !self.draft && !self.prerelease ==> forall|v: VersionView| #[trigger]
                names_version(self.tag_name@, v) ==> version is Ok && version->Ok_0@ == v,
    {
        if self.draft || self.prerelease {
            return Err(Failure::new("Only stable releases can be installed"));
        }
        assert forall|v: VersionView| #[trigger] names_version(self.tag_name@, v) implies starts_with(
            self.tag_name@,
            "v"@,
        ) && tag_version(self.tag_name@) == version_text(v) by {
            assert(self.tag_name@.take("v"@.len() as int) == "v"@);
            assert(tag_version(self.tag_name@) == version_text(v));
        }
        match strip_prefix(self.tag_name.as_str(), "v") {
            None => Err(Failure::new("Release tag must start with v")),
            Some(text) => match read_version(text.as_str()) {
                Err(_) => self.accept_version(None),
                Ok(version) => {
                    assert(self.tag_name@ == "v"@ + text@);
                    self.accept_version(Some(version))
                },
            },
        }
    }

    /// Decides about a release by the version that its tag was read as.
    pub fn accept_version(&self, read: Option<Version>) -> (version: Result<Version, Failure>)
        ensures
            ({
                let stated = version_of(
                    self.draft,
                    self.prerelease,
                    self.tag_name@,
                    match read {
                        Some(v) => Some(v@),
                        None => None,
                    },
                );
                match version {
                    Ok(v) => stated == Ok::<VersionView, Seq<char>>(v@),
                    Err(failure) => stated == Err::<VersionView, Seq<char>>(failure@),
                }
            }),
    {
        if self.draft || self.prerelease {
            return Err(Failure::new("Only stable releases can be installed"));
        }
        if strip_prefix(self.tag_name.as_str(), "v").is_none() {
            return Err(Failure::new("Release tag must start with v"));
        }
        match read {
            None => Err(Failure::new("Invalid release version")),
            Some(version) => if version.pre.as_str().is_empty() && version.build.as_str().is_empty() {
                Ok(version)
            } else {
                Err(Failure::new("Release tag must be vMAJOR.MINOR.PATCH"))
            },
        }
    }

    /// The address of the file `name`: there must be exactly one of that name, at the
    /// place where this release is published.
    pub fn asset_url(&self, name: &str) -> (url: Result<&str, Failure>)
        ensures
            ({
                let stated = asset_of(assets_view(self.assets@), self.tag_name@, name@);
                match url {
                    Ok(u) => stated == Ok::<Seq<char>, Seq<char>>(u@),
                    Err(failure) => stated == Err::<Seq<char>, Seq<char>>(failure@),
                }
            }),
    {
        let ghost all = assets_view(self.assets@);
        let ghost named = |asset: AssetView| asset.name == name@;
        let mut first: Option<usize> = None;
        let mut i: usize = 0;
        reveal(Seq::filter);
        while i < self.assets.len()
            invariant
                i <= self.assets.len(),
                all == assets_view(self.assets@),
                named == (|asset: AssetView| asset.name == name@),
                match first {
                    None => all.take(i as int).filter(named).len() == 0,
                    Some(k) => k < i && all.take(i as int).filter(named) == seq![all[k as int]],
                },
            decreases self.assets.len() - i,
        {
            let same = same_text(self.assets[i].name.as_str(), name);
            proof {
                reveal(Seq::filter);
                assert(all.take(i + 1).drop_last() == all.take(i as int));
                assert(all.take(i + 1).last() == self.assets[i as int]@);
                assert(named(self.assets[i as int]@) == same);
            }
            if same {
                if first.is_some() {
                    proof {
                        lemma_filter_keeps(all, i + 1, named);
                        assert(all.take(i + 1).filter(named).len() == 2);
                    }
                    let reason = joined("Duplicate release asset: ", name);
                    return Err(Failure::new(reason.as_str()));
                }
                first = Some(i);
                assert(all.take(i + 1).filter(named) =~= seq![all[i as int]]);
            }
            i = i + 1;
        }
        assert(all.take(all.len() as int) == all);
        match first {
            None => {
                let mut reason = joined("Release ", self.tag_name.as_str());
                reason.append(" is missing ");
                reason.append(name);
                Err(Failure::new(reason.as_str()))
            },
            Some(k) => {
                let mut expected = joined(
                    "https://github.com/Ziiilk/gprox/releases/download/",
                    self.tag_name.as_str(),
                );
                expected.append("/");
                expected.append(name);
                let url = self.assets[k].browser_download_url.as_str();
                assert(all[k as int] == self.assets[k as int]@);
                if same_text(url, expected.as_str()) {
                    Ok(url)
                } else {
                    let reason = joined("Unexpected download URL for ", name);
                    Err(Failure::new(reason.as_str()))
                }
            },
        }
    }
}

/// What is kept of a beginning is kept of the whole.
proof fn lemma_filter_keeps<T>(list: Seq<T>, n: int, keep: spec_fn(T) -> bool)
    requires
        0 <= n <= list.len(),
    ensures
        list.filter(keep).len() >= list.take(n).filter(keep).len(),
    decreases list.len(),
{
    reveal(Seq::filter);
    if n == list.len() {
        assert(list.take(n) == list);
    } else {
        assert(list.drop_last().take(n) == list.take(n));
        lemma_filter_keeps(list.drop_last(), n, keep);
    }
}

// ---------------------------------------------------------------------------
// Checksums

/// How many characters before the first line break there are.
pub open spec fn line_length(text: Seq<char>) -> nat
    decreases text.len(),
{
    if text.len() == 0 || text[0] == '\n' {
        0
    } else {
        1 + line_length(text.drop_first())
    }
}

/// The lines of a text.
pub open spec fn lines(text: Seq<char>) -> Seq<Seq<char>>
    decreases text.len(),
{
    let n = line_length(text) as int;
    if text.len() == 0 {
        Seq::empty()
    } else if n < text.len() {
        seq![text.take(n)] + lines(text.skip(n + 1))
    } else {
        seq![text]
    }
}

/// A file name without the stars that may mark a binary file.
pub open spec fn without_stars(name: Seq<char>) -> Seq<char>
    decreases name.len(),
{
    if name.len() > 0 && name[0] == '*' {
        without_stars(name.drop_first())
    } else {
        name
    }
}

/// Whether a line gives the digest of the file `name`: it is two words, the digest and
/// the name.
pub open spec fn line_names(line: Seq<char>, name: Seq<char>) -> bool {
    words(line).len() == 2 && without_stars(words(line)[1]) == name
}

/// The digests that lines give for the file `name`, in order.
pub open spec fn digests(list: Seq<Seq<char>>, name: Seq<char>) -> Seq<Seq<char>>
    decreases list.len(),
{
    if list.len() == 0 {
        Seq::empty()
    } else if line_names(list.last(), name) {
        digests(list.drop_last(), name).push(words(list.last())[0])
    } else {
        digests(list.drop_last(), name)
    }
}

/// A SHA-256 digest in hexadecimal digits.
pub open spec fn is_digest(text: Seq<char>) -> bool {
    text.len() == 64 && forall|i: int| 0 <= i < text.len() ==> hex_digit(#[trigger] text[i])
}

/// The digest of the file `name` by the lines of a list of checksums, in small letters, or
/// why they give none that can be relied on.
pub open spec fn checksum_in(list: Seq<Seq<char>>, name: Seq<char>) -> Result<Seq<char>, Seq<char>> {
    let found = digests(list, name);
    if found.len() == 0 {
        Err("SHA256SUMS has no checksum for "@ + name)
    } else if !is_digest(found[0]) {
        Err("Invalid SHA256 checksum for "@ + name)
    } else if found.len() > 1 {
        Err("Duplicate checksum for "@ + name)
    } else {
        Ok(lower_text(found[0]))
    }
}

/// The digest of the file `name` by a list of checksums, or why the list gives none that
/// can be relied on.
pub open spec fn checksum_of(contents: Seq<char>, name: Seq<char>) -> Result<
    Seq<char>,
    Seq<char>,
> {
    checksum_in(lines(contents), name)
}

proof fn lemma_line_length(text: Seq<char>, n: int)
    requires
        0 <= n <= text.len(),
        forall|i: int| 0 <= i < n ==> #[trigger] text[i] != '\n',
        n < text.len() ==> text[n] == '\n',
    ensures
        line_length(text) == n,
    decreases n,
{
    if n > 0 {
        let rest = text.drop_first();
        assert(text[0] != '\n');
        assert forall|i: int| 0 <= i < n - 1 implies #[trigger] rest[i] != '\n' by {
            assert(rest[i] == text[i + 1]);
        }
        lemma_line_length(rest, n - 1);
    }
}

proof fn lemma_digests_concat(left: Seq<Seq<char>>, right: Seq<Seq<char>>, name: Seq<char>)
    ensures
        digests(left + right, name) == digests(left, name) + digests(right, name),
    decreases right.len(),
{
    if right.len() == 0 {
        assert(left + right == left);
        assert(digests(left, name) + digests(right, name) == digests(left, name));
    } else {
        assert((left + right).drop_last() == left + right.drop_last());
        assert((left + right).last() == right.last());
        lemma_digests_concat(left, right.drop_last(), name);
        assert(digests(left + right, name) =~= digests(left, name) + digests(right, name));
    }
}

fn has_digest_form(text: &str) -> (result: bool)
    ensures
        result == is_digest(text@),
{
    let list = characters(text);
    if list.len() != 64 {
        return false;
    }
    let mut i: usize = 0;
    while i < list.len()
        invariant
            i <= list.len(),
            list@ == text@,
            forall|j: int| 0 <= j < i ==> hex_digit(#[trigger] text@[j]),
        decreases list.len() - i,
    {
        let c = list[i];
        if !(('0' <= c && c <= '9') || ('a' <= c && c <= 'f') || ('A' <= c && c <= 'F')) {
            assert(!hex_digit(text@[i as int]));
            return false;
        }
        i = i + 1;
    }
    true
}

fn strip_stars(name: &str) -> (rest: String)
    ensures
        rest@ == without_stars(name@),
{
    let list = characters(name);
    let mut i: usize = 0;
    assert(name@.skip(0) == name@);
    while i < list.len() && list[i] == '*'
        invariant
            i <= list.len(),
            list@ == name@,
            without_stars(name@) == without_stars(name@.skip(i as int)),
        decreases list.len() - i,
    {
        assert(name@.skip(i as int).drop_first() == name@.skip(i + 1));
        i = i + 1;
    }
    assert(name@.skip(i as int) == list@.subrange(i as int, list@.len() as int));
    slice_text(&list, i, list.len())
}

/// The digest of the file `name` by a list of checksums. The list must give exactly
/// one, and it must be one.
pub fn checksum_for(contents: &str, name: &str) -> (digest: Result<String, Failure>)
    ensures
        match digest {
            Ok(d) => checksum_of(contents@, name@) == Ok::<Seq<char>, Seq<char>>(d@),
            Err(failure) => checksum_of(contents@, name@) == Err::<Seq<char>, Seq<char>>(failure@),
        },
{
    let list = characters(contents);
    let ghost text = contents@;
    let ghost mut done: Seq<Seq<char>> = Seq::empty();
    let mut found: Option<String> = None;
    let mut from: usize = 0;
    assert(text.skip(0) == text);
    assert(done + lines(text) == lines(text));
    while from < list.len()
        invariant
            from <= list.len(),
            list@ == text,
            text == contents@,
            done + lines(text.skip(from as int)) == lines(text),
            match found {
                None => digests(done, name@).len() == 0,
                Some(d) => digests(done, name@).len() == 1 && is_digest(digests(done, name@)[0])
                    && d@ == lower_text(digests(done, name@)[0]),
            },
        decreases list.len() - from,
    {
        let ghost rest = text.skip(from as int);
        let mut to: usize = from;
        while to < list.len() && list[to] != '\n'
            invariant
                from <= to <= list.len(),
                forall|j: int| from <= j < to ==> #[trigger] list@[j] != '\n',
            decreases list.len() - to,
        {
            to = to + 1;
        }
        let ghost line = list@.subrange(from as int, to as int);
        let ghost n = to - from;
        let ghost after = if n < rest.len() {
            lines(rest.skip(n + 1))
        } else {
            Seq::empty()
        };
        proof {
            assert forall|j: int| 0 <= j < n implies #[trigger] rest[j] != '\n' by {
                assert(rest[j] == list@[from + j]);
            }
            if n < rest.len() {
                assert(rest[n] == list@[to as int]);
            }
            lemma_line_length(rest, n);
            assert(rest.take(n) == line);
            if n == rest.len() {
                assert(rest == line);
            }
            assert(lines(rest) =~= seq![line] + after);
            assert(done.push(line) + after =~= done + lines(rest));
            lemma_digests_concat(done.push(line), after, name@);
            assert(done.push(line).drop_last() == done);
        }
        let fields = split_words(&list, from, to);
        assert(texts(fields@) == words(line));
        if fields.len() == 2 {
            assert(words(line)[0] == fields[0]@ && words(line)[1] == fields[1]@);
            if same_text(strip_stars(fields[1].as_str()).as_str(), name) {
                assert(digests(done.push(line), name@) == digests(done, name@).push(fields[0]@));
                if found.is_some() {
                    let reason = joined("Duplicate checksum for ", name);
                    return Err(Failure::new(reason.as_str()));
                }
                if !has_digest_form(fields[0].as_str()) {
                    let reason = joined("Invalid SHA256 checksum for ", name);
                    return Err(Failure::new(reason.as_str()));
                }
                found = Some(to_lower(fields[0].as_str()));
            }
        }
        proof {
            done = done.push(line);
        }
        if to < list.len() {
            assert(rest.skip(n + 1) == text.skip(to + 1));
            from = to + 1;
        } else {
            assert(text.skip(to as int) == Seq::<char>::empty());
            from = to;
        }
    }
    assert(text.skip(from as int) == Seq::<char>::empty());
    assert(done == lines(text));
    match found {
        Some(digest) => Ok(digest),
        None => {
            let reason = joined("SHA256SUMS has no checksum for ", name);
            Err(Failure::new(reason.as_str()))
        },
    }
}

/// A digest that is relied on is the only one that the list gives for the file, and is
/// sixty-four small hexadecimal digits.
pub proof fn law_checksum_is_one_digest(contents: Seq<char>, name: Seq<char>)
    requires
        checksum_of(contents, name) is Ok,
    ensures
        digests(lines(contents), name).len() == 1,
        ({
            let digest = checksum_of(contents, name)->Ok_0;
            digest.len() == 64 && forall|i: int|
                0 <= i < digest.len() ==> lower_hex_digit(#[trigger] digest[i])
        }),
{
    let given = digests(lines(contents), name)[0];
    let digest = checksum_of(contents, name)->Ok_0;
    assert forall|i: int| 0 <= i < digest.len() implies lower_hex_digit(#[trigger] digest[i]) by {
        assert(hex_digit(given[i]));
    }
}

/// A line that is not about the file makes no difference, wherever it stands in the list.
pub proof fn law_other_lines_do_not_matter(
    earlier: Seq<Seq<char>>,
    other: Seq<char>,
    later: Seq<Seq<char>>,
    name: Seq<char>,
)
    requires
        !line_names(other, name),
    ensures
        checksum_in(earlier.push(other) + later, name) == checksum_in(earlier + later, name),
{
    lemma_digests_concat(earlier.push(other), later, name);
    lemma_digests_concat(earlier, later, name);
    assert(earlier.push(other).drop_last() == earlier);
}

/// Two lists with the same lines give as many digests for the file, and the same one
/// where they give one.
proof fn lemma_digests_of_same_lines(
    left: Seq<Seq<char>>,
    right: Seq<Seq<char>>,
    name: Seq<char>,
)
    requires
        left.to_multiset() == right.to_multiset(),
    ensures
        digests(left, name).len() == digests(right, name).len(),
        digests(left, name).len() == 1 ==> digests(left, name) == digests(right, name),
    decreases left.len(),
{
    left.to_multiset_ensures();
    right.to_multiset_ensures();
    assert(left.to_multiset().len() == right.to_multiset().len());
    if left.len() > 0 {
        let line = left.last();
        assert(left.contains(line)) by {
            assert(left[left.len() - 1] == line);
        }
        assert(right.to_multiset().count(line) > 0);
        assert(right.contains(line));
        let k = right.index_of(line);
        let head = right.take(k);
        let tail = right.skip(k + 1);
        assert(right =~= head.push(line) + tail);
        assert(right.remove(k) =~= head + tail);
        assert(left.remove(left.len() - 1) =~= left.drop_last());
        assert(left.drop_last().to_multiset() == right.remove(k).to_multiset());
        lemma_digests_of_same_lines(left.drop_last(), head + tail, name);
        lemma_digests_concat(head.push(line), tail, name);
        lemma_digests_concat(head, tail, name);
        assert(head.push(line).drop_last() =~= head);
        assert(head.push(line).last() == line);
        if line_names(line, name) {
            if digests(left, name).len() == 1 {
                assert(digests(head, name).len() == 0 && digests(tail, name).len() == 0);
                assert(digests(right, name) =~= digests(left, name));
            }
        }
    }
}

/// The order of the lines makes no difference: a list with the same lines is relied on just
/// as much, and for the same digest.
pub proof fn law_order_of_lines_does_not_matter(
    left: Seq<Seq<char>>,
    right: Seq<Seq<char>>,
    name: Seq<char>,
)
    requires
        left.to_multiset() == right.to_multiset(),
    ensures
        checksum_in(left, name) is Ok <==> checksum_in(right, name) is Ok,
        checksum_in(left, name) is Ok ==> checksum_in(left, name) == checksum_in(right, name),
{
    lemma_digests_of_same_lines(left, right, name);
}

// ---------------------------------------------------------------------------
// Downloads

/// A running SHA-256 hash.
#[verifier::external_body]
pub struct Hasher {
    inner: sha2::Sha256,
}

/// The bytes that a running hash has taken in.
pub uninterp spec fn hashed(hasher: Hasher) -> Seq<u8>;

/// The SHA-256 digest of bytes, in hexadecimal digits.
pub uninterp spec fn sha256_hex(data: Seq<u8>) -> Seq<char>;

/// `Digest::new` of `sha2::Sha256`: a hash that has taken in nothing.
#[verifier::external_body]
fn new_hasher() -> (hasher: Hasher)
    ensures
        hashed(hasher) == Seq::<u8>::empty(),
{
    Hasher { inner: sha2::Digest::new() }
}

/// `Digest::update` of `sha2::Sha256`: takes in more bytes behind the earlier ones.
#[verifier::external_body]
fn hash_more(hasher: &mut Hasher, data: &[u8])
    ensures
        hashed(*final(hasher)) == hashed(*old(hasher)) + data@,
{
    sha2::Digest::update(&mut hasher.inner, data);
}

/// `Digest::finalize` of `sha2::Sha256`, written in hexadecimal: a function of the
/// bytes taken in, sixty-four small digits long.
#[verifier::external_body]
fn finish_hash(hasher: Hasher) -> (digest: String)
    ensures
        digest@ == sha256_hex(hashed(hasher)),
        digest@.len() == 64,
        forall|i: int| 0 <= i < 64 ==> lower_hex_digit(#[trigger] digest@[i]),
{
    format!("{:x}", sha2::Digest::finalize(hasher.inner))
}

/// Some bytes and the next piece of them, unless that is more than the limit.
pub open spec fn taken(data: Seq<u8>, piece: Seq<u8>, limit: int) -> Option<Seq<u8>> {
    if data.len() + piece.len() <= limit {
        Some(data + piece)
    } else {
        None
    }
}

/// Pieces taken one after the other, up to the first that is too much.
pub open spec fn taken_all(pieces: Seq<Seq<u8>>, limit: int) -> Option<Seq<u8>>
    decreases pieces.len(),
{
    if pieces.len() == 0 {
        Some(Seq::empty())
    } else {
        match taken_all(pieces.drop_last(), limit) {
            Some(data) => taken(data, pieces.last(), limit),
            None => None,
        }
    }
}

/// Pieces put together.
pub open spec fn whole(pieces: Seq<Seq<u8>>) -> Seq<u8>
    decreases pieces.len(),
{
    if pieces.len() == 0 {
        Seq::empty()
    } else {
        whole(pieces.drop_last()) + pieces.last()
    }
}

/// It makes no difference in which pieces bytes come: all of them are taken, or there are
/// more than the limit.
pub proof fn law_pieces_do_not_matter(pieces: Seq<Seq<u8>>, limit: int)
    requires
        limit >= 0,
    ensures
        taken_all(pieces, limit) == if whole(pieces).len() <= limit {
            Some(whole(pieces))
        } else {
            None
        },
    decreases pieces.len(),
{
    if pieces.len() > 0 {
        law_pieces_do_not_matter(pieces.drop_last(), limit);
    }
}

/// An archive on its way.
pub struct Download {
    /// How many bytes came so far.
    pub length: u64,
    pub hasher: Hasher,
}

impl Download {
    /// A download that kept to its size so far.
    pub open spec fn wf(&self) -> bool {
        self.length == hashed(self.hasher).len() && self.length <= MAX_ARCHIVE_SIZE
    }

    /// Begins a download whose size may be announced.
    pub fn begin(announced: Option<u64>) -> (download: Result<Download, Failure>)
        ensures
            match download {
                Ok(d) => d.wf() && hashed(d.hasher) == Seq::<u8>::empty() && !(announced is Some
                    && announced->0 > MAX_ARCHIVE_SIZE),
                Err(failure) => failure@ == "Release archive is too large"@ && announced is Some
                    && announced->0 > MAX_ARCHIVE_SIZE,
            },
    {
        let size: u64 = match announced {
            Some(size) => size,
            None => 0,
        };
        if size > MAX_ARCHIVE_SIZE {
            return Err(Failure::new("Release archive is too large"));
        }
        Ok(Download { length: 0, hasher: new_hasher() })
    }

    /// Takes in the next bytes, unless the archive grows too large with them.
    pub fn receive(&mut self, data: &[u8]) -> (outcome: Result<(), Failure>)
        requires
            old(self).wf(),
        ensures
            final(self).wf(),
            ({
                let stated = taken(hashed(old(self).hasher), data@, MAX_ARCHIVE_SIZE as int);
                match outcome {
                    Ok(()) => stated == Some(hashed(final(self).hasher)),
                    Err(failure) => stated is None && *final(self) == *old(self) && failure@
                        == "Release archive is too large"@,
                }
            }),
    {
        if data.len() as u64 > MAX_ARCHIVE_SIZE - self.length {
            return Err(Failure::new("Release archive is too large"));
        }
        self.length = self.length + data.len() as u64;
        hash_more(&mut self.hasher, data);
        Ok(())
    }

    /// Accepts the archive if the bytes that came have the digest that was expected.
    pub fn finish(self, expected: &str) -> (outcome: Result<(), Failure>)
        ensures
            match outcome {
                Ok(()) => sha256_hex(hashed(self.hasher)) == expected@,
                Err(failure) => sha256_hex(hashed(self.hasher)) != expected@ && failure@
                    == "SHA256 mismatch; installed executable was not changed"@,
            },
    {
        let digest = finish_hash(self.hasher);
        if same_text(digest.as_str(), expected) {
            Ok(())
        } else {
            Err(Failure::new("SHA256 mismatch; installed executable was not changed"))
        }
    }
}

/// A body that is read up to a limit.
pub struct LimitedBody {
    pub bytes: Vec<u8>,
    pub limit: usize,
}

impl LimitedBody {
    pub fn new(limit: usize) -> (body: LimitedBody)
        ensures
            body.bytes@ == Seq::<u8>::empty(),
            body.limit == limit,
    {
        LimitedBody { bytes: Vec::new(), limit }
    }

    /// Adds the next bytes, unless the body grows over its limit with them.
    pub fn receive(&mut self, data: &[u8]) -> (outcome: Result<(), Failure>)
        requires
            old(self).bytes.len() <= old(self).limit,
        ensures
            final(self).limit == old(self).limit,
            final(self).bytes.len() <= final(self).limit,
            ({
                let stated = taken(old(self).bytes@, data@, old(self).limit as int);
                match outcome {
                    Ok(()) => stated == Some(final(self).bytes@),
                    Err(failure) => stated is None && final(self).bytes@ == old(self).bytes@
                        && failure@ == "Release response exceeds size limit"@,
                }
            }),
    {
        if data.len() > self.limit - self.bytes.len() {
            return Err(Failure::new("Release response exceeds size limit"));
        }
        let ghost before = self.bytes@;
        let mut i: usize = 0;
        while i < data.len()
            invariant
                i <= data.len(),
                self.bytes@ == before + data@.take(i as int),
                self.limit == old(self).limit,
                before == old(self).bytes@,
            decreases data.len() - i,
        {
            self.bytes.push(data[i]);
            i = i + 1;
            assert(data@.take(i as int) == data@.take(i - 1).push(data@[i - 1]));
        }
        assert(data@.take(data@.len() as int) == data@);
        Ok(())
    }
}

// ---------------------------------------------------------------------------
// Asking for the latest release

/// What to do with an answer of the release service.
#[derive(PartialEq, Eq, Structural)]
pub enum LookupStep {
    /// The anonymous quota is used up: ask again with credentials.
    UseCredentials,
    /// No release is published.
    NoRelease,
    /// The service refused.
    Refused,
    /// The answer holds the release.
    ReadRelease,
}

/// What to do with an answer of the release service that has this status.
pub open spec fn lookup_of(status: u16, with_credentials: bool) -> LookupStep {
    if !with_credentials && (status == 403 || status == 429) {
        LookupStep::UseCredentials
    } else if status == 404 {
        LookupStep::NoRelease
    } else if 400 <= status < 600 {
        LookupStep::Refused
    } else {
        LookupStep::ReadRelease
    }
}

/// Credentials are used only after the anonymous quota was used up, and only once. A release
/// is read only out of an answer that is no error, and there is none only where the service
/// says so.
pub proof fn law_credentials_only_after_the_quota(status: u16, with_credentials: bool)
    ensures
        lookup_of(status, with_credentials) == LookupStep::UseCredentials <==> !with_credentials && (
        status == 403 || status == 429),
        lookup_of(status, with_credentials) == LookupStep::NoRelease <==> status == 404,
        lookup_of(status, with_credentials) == LookupStep::ReadRelease <==> !(400 <= status
            <= 599),
{
}

/// What to do with an answer of the release service that has this status. Credentials
/// are only ever used after the anonymous quota was used up.
pub fn lookup_step(status: u16, with_credentials: bool) -> (step: LookupStep)
    ensures
        step == lookup_of(status, with_credentials),
{
    if !with_credentials && (status == 403 || status == 429) {
        LookupStep::UseCredentials
    } else if status == 404 {
        LookupStep::NoRelease
    } else if 400 <= status && status < 600 {
        LookupStep::Refused
    } else {
        LookupStep::ReadRelease
    }
}

/// Where the latest release is looked up.
pub fn latest_release_url(api_base: &str) -> (url: String)
    ensures
        url@ == api_base@ + "/repos/Ziiilk/gprox/releases/latest"@,
{
    joined(api_base, "/repos/Ziiilk/gprox/releases/latest")
}

/// What is said of bytes that are no UTF-8.
pub uninterp spec fn utf8_error(bytes: Seq<u8>) -> Seq<char>;

/// `String::from_utf8`: the characters that bytes encode in UTF-8 where they do, and
/// otherwise what its error says.
#[verifier::external_body]
fn utf8_text(bytes: Vec<u8>) -> (text: Result<String, String>)
    ensures
        match text {
            Ok(t) => valid_utf8(bytes@) && t@ == decode_utf8(bytes@),
            Err(reason) => !valid_utf8(bytes@) && reason@ == utf8_error(bytes@),
        },
{
    String::from_utf8(bytes).map_err(|error| error.to_string())
}

/// The token that a credential helper printed, or why it is of no use.
pub open spec fn token_of(success: bool, output: Seq<u8>) -> Result<Seq<char>, Seq<char>> {
    if !success {
        Err("GitHub CLI has no usable github.com login"@)
    } else if !valid_utf8(output) {
        Err(utf8_error(output))
    } else if trimmed(decode_utf8(output)).len() == 0 {
        Err("GitHub CLI returned an empty token"@)
    } else {
        Ok(trimmed(decode_utf8(output)))
    }
}

/// Reads the token that a credential helper printed.
pub fn read_token(success: bool, output: Vec<u8>) -> (token: Result<String, Failure>)
    ensures
        match token {
            Ok(t) => token_of(success, output@) == Ok::<Seq<char>, Seq<char>>(t@),
            Err(failure) => token_of(success, output@) == Err::<Seq<char>, Seq<char>>(failure@),
        },
{
    if !success {
        return Err(Failure::new("GitHub CLI has no usable github.com login"));
    }
    match utf8_text(output) {
        Err(reason) => Err(Failure::new(reason.as_str())),
        Ok(text) => {
            let token = trim(text.as_str());
            if token.as_str().is_empty() {
                Err(Failure::new("GitHub CLI returned an empty token"))
            } else {
                Ok(token)
            }
        },
    }
}

/// Reads the digest of the archive out of the checksums that were downloaded.
pub fn archive_digest(checksums: Vec<u8>) -> (digest: Result<String, Failure>)
    ensures
        match digest {
            Ok(d) => valid_utf8(checksums@) && checksum_of(
                decode_utf8(checksums@),
                ASSET_NAME@,
            ) == Ok::<Seq<char>, Seq<char>>(d@),
            Err(failure) => if valid_utf8(checksums@) {
                checksum_of(decode_utf8(checksums@), ASSET_NAME@) == Err::<Seq<char>, Seq<char>>(
                    failure@,
                )
            } else {
                failure@ == utf8_error(checksums@)
            },
        },
{
    match utf8_text(checksums) {
        Err(reason) => Err(Failure::new(reason.as_str())),
        Ok(text) => checksum_for(text.as_str(), ASSET_NAME),
    }
}

// ---------------------------------------------------------------------------
// Installing

/// The text of bytes, with a replacement character where they are no UTF-8.
pub uninterp spec fn lossy_text(bytes: Seq<u8>) -> Seq<char>;

/// `String::from_utf8_lossy`: the characters that bytes encode in UTF-8, where they do.
#[verifier::external_body]
fn read_lossy(bytes: &[u8]) -> (text: String)
    ensures
        text@ == lossy_text(bytes@),
        valid_utf8(bytes@) ==> text@ == decode_utf8(bytes@),
{
    String::from_utf8_lossy(bytes).into_owned()
}

/// Whether a program that ran with `--version` is this version of gprox.
pub open spec fn is_version(success: bool, printed: Seq<char>, version: VersionView) -> bool {
    success && trimmed(printed) == "gprox "@ + version_text(version)
}

/// Whether what a program printed says that it is this version of gprox.
pub fn check_printed_version(success: bool, printed: &str, version: &Version) -> (outcome: Result<
    (),
    Failure,
>)
    ensures
        match outcome {
            Ok(()) => is_version(success, printed@, version@),
            Err(failure) => !is_version(success, printed@, version@) && failure@
                == "Downloaded executable version does not match release v"@ + version_text(
                version@,
            ),
        },
{
    let expected = joined("gprox ", version.text().as_str());
    if success && same_text(trim(printed).as_str(), expected.as_str()) {
        Ok(())
    } else {
        let reason = joined(
            "Downloaded executable version does not match release v",
            version.text().as_str(),
        );
        Err(Failure::new(reason.as_str()))
    }
}

/// Whether a program that ran with `--version` is this version of gprox, by the bytes
/// it printed.
pub fn verify_version(success: bool, output: &[u8], version: &Version) -> (outcome: Result<
    (),
    Failure,
>)
    ensures
        match outcome {
            Ok(()) => is_version(success, lossy_text(output@), version@),
            Err(failure) => !is_version(success, lossy_text(output@), version@) && failure@
                == "Downloaded executable version does not match release v"@ + version_text(
                version@,
            ),
        },
{
    check_printed_version(success, read_lossy(output).as_str(), version)
}

/// What an update comes down to.
pub enum Plan {
    /// No release is published.
    NoRelease,
    /// The latest release is not newer.
    UpToDate(Version),
    /// There is a newer release, and only its existence was asked for.
    Available(Version),
    /// There is a newer release to install.
    Install(Version),
}

pub enum PlanView {
    NoRelease,
    UpToDate(VersionView),
    Available(VersionView),
    Install(VersionView),
}

impl View for Plan {
    type V = PlanView;

    open spec fn view(&self) -> PlanView {
        match self {
            Plan::NoRelease => PlanView::NoRelease,
            Plan::UpToDate(version) => PlanView::UpToDate(version@),
            Plan::Available(version) => PlanView::Available(version@),
            Plan::Install(version) => PlanView::Install(version@),
        }
    }
}

/// What to do about the latest release, whose version is `latest`. A release that lacks
/// a trustworthy archive or checksums is not offered.
pub open spec fn plan_of(
    latest: VersionView,
    up_to_date: bool,
    archive: Result<Seq<char>, Seq<char>>,
    checksums: Result<Seq<char>, Seq<char>>,
    check: bool,
) -> Result<PlanView, Seq<char>> {
    if up_to_date {
        Ok(PlanView::UpToDate(latest))
    } else if archive is Err {
        Err(archive->Err_0)
    } else if checksums is Err {
        Err(checksums->Err_0)
    } else if check {
        Ok(PlanView::Available(latest))
    } else {
        Ok(PlanView::Install(latest))
    }
}

/// The version of a release, by what its tag stands for.
pub open spec fn release_version(release: Release) -> Result<VersionView, Seq<char>> {
    version_of(
        release.draft,
        release.prerelease,
        release.tag_name@,
        parsed_version(tag_version(release.tag_name@)),
    )
}

/// The address of a file of a release.
pub open spec fn release_asset(release: Release, name: Seq<char>) -> Result<Seq<char>, Seq<char>> {
    asset_of(assets_view(release.assets@), release.tag_name@, name)
}

/// What to do about the latest release, where there is one, beside the version that
/// runs.
pub open spec fn planned(current: Seq<char>, latest: Option<Release>, check: bool) -> Result<
    PlanView,
    Seq<char>,
> {
    match parsed_version(current) {
        None => Err("Invalid version of this program"@),
        Some(running) => match latest {
            None => Ok(PlanView::NoRelease),
            Some(release) => match release_version(release) {
                Err(reason) => Err(reason),
                Ok(version) => plan_of(
                    version,
                    stable_at_most(version.major, version.minor, version.patch, running),
                    release_asset(release, ASSET_NAME@),
                    release_asset(release, CHECKSUM_NAME@),
                    check,
                ),
            },
        },
    }
}

/// A plan, or why there is none.
pub open spec fn plan_view(plan: Result<Plan, Failure>) -> Result<PlanView, Seq<char>> {
    match plan {
        Ok(p) => Ok(p@),
        Err(failure) => Err(failure@),
    }
}

/// Decides what to do about the latest release. Where both versions are plain, their
/// numbers decide.
pub fn plan(current: &str, latest: Option<&Release>, check: bool) -> (plan: Result<Plan, Failure>)
    ensures
        ({
            let stated = planned(
                current@,
                match latest {
                    Some(release) => Some(*release),
                    None => None,
                },
                check,
            );
            plan_view(plan) == stated
        }),
        latest is None ==> forall|running: VersionView|
            stable(running) && current@ == #[trigger] version_text(running) ==> plan_view(plan)
                == Ok::<PlanView, Seq<char>>(PlanView::NoRelease),
        latest is Some && !latest->0.draft && !latest->0.prerelease ==> forall|
            running: VersionView,
            version: VersionView,
        |
            stable(running) && current@ == #[trigger] version_text(running)
                && #[trigger] names_version(latest->0.tag_name@, version) ==> plan_view(plan)
                == plan_of(
                version,
                stable_at_most(version.major, version.minor, version.patch, running),
                release_asset(*latest->0, ASSET_NAME@),
                release_asset(*latest->0, CHECKSUM_NAME@),
                check,
            ),
{
    match read_version(current) {
        Err(_) => {
            return Err(Failure::new("Invalid version of this program"));
        },
        Ok(_) => {},
    }
    let release = match latest {
        None => {
            return Ok(Plan::NoRelease);
        },
        Some(release) => release,
    };
    let version = match release.version() {
        Err(failure) => {
            return Err(failure);
        },
        Ok(version) => version,
    };
    let up_to_date = match release_at_most(version.major, version.minor, version.patch, current) {
        Some(at_most) => at_most,
        None => false,
    };
    plan_release(release, version, up_to_date, check)
}

/// Decides what to do about a release, by whether its version is newer than the one that
/// runs.
pub fn plan_release(release: &Release, latest: Version, up_to_date: bool, check: bool) -> (plan:
    Result<Plan, Failure>)
    ensures
        ({
            let stated = plan_of(
                latest@,
                up_to_date,
                release_asset(*release, ASSET_NAME@),
                release_asset(*release, CHECKSUM_NAME@),
                check,
            );
            match plan {
                Ok(p) => stated == Ok::<PlanView, Seq<char>>(p@),
                Err(failure) => stated == Err::<PlanView, Seq<char>>(failure@),
            }
        }),
{
    if up_to_date {
        return Ok(Plan::UpToDate(latest));
    }
    match release.asset_url(ASSET_NAME) {
        Err(failure) => {
            return Err(failure);
        },
        Ok(_) => {},
    }
    match release.asset_url(CHECKSUM_NAME) {
        Err(failure) => {
            return Err(failure);
        },
        Ok(_) => {},
    }
    if check {
        Ok(Plan::Available(latest))
    } else {
        Ok(Plan::Install(latest))
    }
}

/// Releases are built for one platform only.
pub fn update_supported(release_platform: bool) -> (outcome: Result<(), Failure>)
    ensures
        match outcome {
            Ok(()) => release_platform,
            Err(failure) => !release_platform && failure@
                == "Release updates currently support x86_64-pc-windows-msvc only; use cargo install on this platform"@,
        },
{
    if release_platform {
        Ok(())
    } else {
        Err(
            Failure::new(
                "Release updates currently support x86_64-pc-windows-msvc only; use cargo install on this platform",
            ),
        )
    }
}

/// Only a stable release that is newer than the version that runs is ever installed, and
/// its archive and its checksums come from where it is published. Where only its
/// existence was asked for, nothing is installed.
pub proof fn law_only_newer_stable_releases_are_installed(
    current: Seq<char>,
    latest: Option<Release>,
    check: bool,
    version: VersionView,
)
    requires
        planned(current, latest, check) == Ok::<PlanView, Seq<char>>(PlanView::Install(version)),
    ensures
        !check,
        latest is Some,
        !latest->0.draft && !latest->0.prerelease,
        stable(version),
        parsed_version(current) is Some,
        !stable_at_most(
            version.major,
            version.minor,
            version.patch,
            parsed_version(current)->0,
        ),
        release_asset(latest->0, ASSET_NAME@) == Ok::<Seq<char>, Seq<char>>(
            download_url(latest->0.tag_name@, ASSET_NAME@),
        ),
        release_asset(latest->0, CHECKSUM_NAME@) == Ok::<Seq<char>, Seq<char>>(
            download_url(latest->0.tag_name@, CHECKSUM_NAME@),
        ),
{
}

/// What the user is told of a plan.
pub open spec fn plan_text(plan: PlanView, current: Seq<char>) -> Seq<char> {
    match plan {
        PlanView::NoRelease =>
            "No stable releases published yet: https://github.com/Ziiilk/gprox/releases"@,
        PlanView::UpToDate(latest) => "Already up to date (latest stable: "@ + version_text(latest)
            + ")"@,
        PlanView::Available(latest) => "Update available: "@ + current + " -> "@ + version_text(
            latest,
        ),
        PlanView::Install(latest) => "Update available: "@ + current + " -> "@ + version_text(
            latest,
        ),
    }
}

impl Plan {
    /// What the user is told of the plan.
    pub fn text(&self, current: &str) -> (text: String)
        ensures
            text@ == plan_text(self@, current@),
    {
        match self {
            Plan::NoRelease =>
                "No stable releases published yet: https://github.com/Ziiilk/gprox/releases".to_owned(),
            Plan::UpToDate(latest) => {
                let mut text = joined(
                    "Already up to date (latest stable: ",
                    latest.text().as_str(),
                );
                text.append(")");
                text
            },
            Plan::Available(latest) | Plan::Install(latest) => {
                let mut text = joined("Update available: ", current);
                text.append(" -> ");
                text.append(latest.text().as_str());
                text
            },
        }
    }
}

/// Why an update failed, and what lies behind it where that is told apart.
pub struct InstallError {
    pub message: String,
    pub cause: Option<String>,
}

#[verifier::ext_equal]
pub struct InstallErrorView {
    pub message: Seq<char>,
    pub cause: Option<Seq<char>>,
}

impl View for InstallError {
    type V = InstallErrorView;

    open spec fn view(&self) -> InstallErrorView {
        InstallErrorView {
            message: self.message@,
            cause: match self.cause {
                Some(cause) => Some(cause@),
                None => None,
            },
        }
    }
}

/// How an installation ended, by the errors of replacing the program and of restarting
/// the proxy. It is a success only if both went well.
pub open spec fn outcome_of(
    latest: Seq<char>,
    install: Option<Seq<char>>,
    restart: Option<Seq<char>>,
) -> Result<Seq<char>, InstallErrorView> {
    match (install, restart) {
        (None, None) => Ok("Updated to version "@ + latest),
        (None, Some(error)) => Err(
            InstallErrorView {
                message: "Updated to "@ + latest + ", but proxy restart failed: "@ + error,
                cause: None,
            },
        ),
        (Some(error), None) => Err(
            InstallErrorView { message: "Executable replacement failed"@, cause: Some(error) },
        ),
        (Some(error), Some(restart)) => Err(
            InstallErrorView {
                message: "Executable replacement failed: "@ + error + "; proxy restart failed: "@
                    + restart,
                cause: None,
            },
        ),
    }
}

/// How an installation ended.
pub fn install_outcome(latest: &Version, install: Option<&str>, restart: Option<&str>) -> (outcome:
    Result<String, InstallError>)
    ensures
        ({
            let stated = outcome_of(
                version_text(latest@),
                match install {
                    Some(error) => Some(error@),
                    None => None,
                },
                match restart {
                    Some(error) => Some(error@),
                    None => None,
                },
            );
            match outcome {
                Ok(text) => stated == Ok::<Seq<char>, InstallErrorView>(text@),
                Err(error) => stated == Err::<Seq<char>, InstallErrorView>(error@),
            }
        }),
{
    match (install, restart) {
        (None, None) => Ok(joined("Updated to version ", latest.text().as_str())),
        (None, Some(error)) => {
            let mut message = joined("Updated to ", latest.text().as_str());
            message.append(", but proxy restart failed: ");
            message.append(error);
            Err(InstallError { message, cause: None })
        },
        (Some(error), None) => Err(
            InstallError {
                message: "Executable replacement failed".to_owned(),
                cause: Some(error.to_owned()),
            },
        ),
        (Some(error), Some(restart)) => {
            let mut message = joined("Executable replacement failed: ", error);
            message.append("; proxy restart failed: ");
            message.append(restart);
            Err(InstallError { message, cause: None })
        },
    }
}

/// What the program knows of itself.
pub struct PackageInfo {
    pub name: String,
    pub version: String,
    pub description: String,
    pub repository: String,
}

/// What the program says of itself, as JSON.
pub open spec fn package_json(info: PackageInfo) -> JsonView {
    JsonView::object().with("name"@, JsonView::Text(info.name@)).with(
        "version"@,
        JsonView::Text(info.version@),
    ).with("description"@, JsonView::Text(info.description@)).with(
        "repository"@,
        JsonView::Text(info.repository@),
    )
}

proof fn lemma_package_plain(info: PackageInfo)
    ensures
        plain(package_json(info), 127),
{
    reveal_strlit("$serde_json::private::RawValue");
    reveal_strlit("name");
    reveal_strlit("version");
    reveal_strlit("description");
    reveal_strlit("repository");
    assert(raw_name().len() == 30 && "name"@.len() == 4 && "version"@.len() == 7
        && "description"@.len() == 11 && "repository"@.len() == 10);
    reveal_with_fuel(plain, 2);
}

/// What the program prints when it is asked for its version.
pub fn version_line(info: &PackageInfo, json: bool) -> (line: String)
    ensures
        line@ == if json {
            json_text(package_json(*info))
        } else {
            "gprox "@ + info.version@
        },
        json ==> parsed_json(line@) == Some(package_json(*info)),
{
    if json {
        proof {
            lemma_package_plain(*info);
        }
        Json::object().with("name", Json::text(info.name.as_str())).with(
            "version",
            Json::text(info.version.as_str()),
        ).with("description", Json::text(info.description.as_str())).with(
            "repository",
            Json::text(info.repository.as_str()),
        ).render()
    } else {
        joined("gprox ", info.version.as_str())
    }
}

// ---------------------------------------------------------------------------
// What is relied on

proof fn lemma_one_asset(assets: Seq<AssetView>, name: Seq<char>)
    ensures
        assets_named(assets, name).len() == 0 <==> forall|i: int|
            0 <= i < assets.len() ==> (#[trigger] assets[i]).name != name,
        assets_named(assets, name).len() == 1 ==> exists|i: int|
            0 <= i < assets.len() && #[trigger] assets[i] == assets_named(assets, name)[0]
                && only_asset(assets, name, i),
        forall|i: int|
            0 <= i < assets.len() && #[trigger] only_asset(assets, name, i) ==> assets_named(
                assets,
                name,
            ) == seq![assets[i]],
    decreases assets.len(),
{
    reveal(Seq::filter);
    let named = |asset: AssetView| asset.name == name;
    if assets.len() == 0 {
    } else {
        let rest = assets.drop_last();
        let last = assets.last();
        let n = rest.len() as int;
        lemma_one_asset(rest, name);
        assert(assets[n] == last);
        assert(assets_named(assets, name) == if named(last) {
            assets_named(rest, name).push(last)
        } else {
            assets_named(rest, name)
        });
        if assets_named(assets, name).len() == 0 {
            assert forall|i: int| 0 <= i < assets.len() implies (#[trigger] assets[i]).name
                != name by {
                if i < n {
                    assert(rest[i].name != name);
                }
            }
        }
        if forall|i: int| 0 <= i < assets.len() ==> (#[trigger] assets[i]).name != name {
            assert forall|i: int| 0 <= i < rest.len() implies (#[trigger] rest[i]).name != name by {
                assert(assets[i].name != name);
            }
        }
        if assets_named(assets, name).len() == 1 {
            if named(last) {
                assert forall|j: int|
                    0 <= j < assets.len() && (#[trigger] assets[j]).name == name implies j == n by {
                    if j < n {
                        assert(rest[j].name == name);
                    }
                }
                assert(only_asset(assets, name, n));
            } else {
                let i = choose|i: int|
                    0 <= i < rest.len() && #[trigger] rest[i] == assets_named(rest, name)[0]
                        && only_asset(rest, name, i);
                assert(assets[i] == rest[i]);
                assert forall|j: int|
                    0 <= j < assets.len() && (#[trigger] assets[j]).name == name implies j == i by {
                    if j < n {
                        assert(rest[j].name == name);
                    }
                }
                assert(only_asset(assets, name, i));
            }
        }
        assert forall|i: int|
            0 <= i < assets.len() && #[trigger] only_asset(assets, name, i) implies assets_named(
            assets,
            name,
        ) == seq![assets[i]] by {
            if i == n {
                assert forall|j: int| 0 <= j < rest.len() implies (#[trigger] rest[j]).name
                    != name by {
                    assert(assets[j] == rest[j]);
                }
                assert(assets_named(rest, name).len() == 0);
                assert(assets_named(assets, name) =~= seq![assets[i]]);
            } else {
                assert(assets[n].name != name);
                assert(assets[i] == rest[i]);
                assert forall|j: int|
                    0 <= j < rest.len() && (#[trigger] rest[j]).name == name implies j == i by {
                    assert(assets[j] == rest[j]);
                }
                assert(only_asset(rest, name, i));
            }
        }
    }
}

/// Whether the file at this place has that name, and no other has.
pub open spec fn only_asset(assets: Seq<AssetView>, name: Seq<char>, i: int) -> bool {
    &&& assets[i].name == name
    &&& forall|j: int| 0 <= j < assets.len() && (#[trigger] assets[j]).name == name ==> j == i
}

/// The address of a file is relied on exactly where one file of the release has that name, and
/// its address is the place where this release is published; it is that address.
pub proof fn law_only_the_published_file_is_used(
    assets: Seq<AssetView>,
    tag: Seq<char>,
    name: Seq<char>,
)
    ensures
        asset_of(assets, tag, name) is Ok <==> exists|i: int|
            0 <= i < assets.len() && #[trigger] only_asset(assets, name, i) && assets[i].url
                == "https://github.com/Ziiilk/gprox/releases/download/"@ + tag + "/"@ + name,
        asset_of(assets, tag, name) is Ok ==> asset_of(assets, tag, name)->Ok_0
            == "https://github.com/Ziiilk/gprox/releases/download/"@ + tag + "/"@ + name,
{
    lemma_one_asset(assets, name);
    if asset_of(assets, tag, name) is Ok {
        let i = choose|i: int|
            0 <= i < assets.len() && #[trigger] assets[i] == assets_named(assets, name)[0]
                && only_asset(assets, name, i);
        assert(only_asset(assets, name, i));
    }
}

/// A line break parts lines: the lines of a text are the line before it, as it is, and then
/// those behind it. A text without a line break is one line.
pub proof fn law_line_break_parts_lines(line: Seq<char>, rest: Seq<char>)
    requires
        forall|i: int| 0 <= i < line.len() ==> #[trigger] line[i] != '\n',
    ensures
        lines(line.push('\n') + rest) == seq![line] + lines(rest),
        line.len() > 0 ==> lines(line) == seq![line],
        lines(Seq::<char>::empty()).len() == 0,
{
    let whole = line.push('\n') + rest;
    let n = line.len() as int;
    assert forall|i: int| 0 <= i < n implies #[trigger] whole[i] != '\n' by {
        assert(whole[i] == line[i]);
    }
    assert(whole[n] == '\n');
    lemma_line_length(whole, n);
    lemma_line_length(line, n);
    assert(whole.take(n) =~= line);
    assert(whole.skip(n + 1) =~= rest);
}

/// The stars before a file name are not part of it.
pub proof fn law_stars_are_no_part_of_a_name(name: Seq<char>)
    ensures
        without_stars(seq!['*'] + name) == without_stars(name),
        name.len() == 0 || name[0] != '*' ==> without_stars(name) == name,
{
    assert((seq!['*'] + name).drop_first() =~= name);
}

/// Whether a line is a digest and the name of the file, behind stars or not.
pub open spec fn gives_digest(line: Seq<char>, digest: Seq<char>, name: Seq<char>) -> bool {
    words(line).len() == 2 && words(line)[0] == digest && without_stars(words(line)[1]) == name
}

/// Whether the line at this place gives a digest of the file, and no other line does.
pub open spec fn only_digest(list: Seq<Seq<char>>, name: Seq<char>, i: int) -> bool {
    &&& gives_digest(list[i], words(list[i])[0], name)
    &&& forall|j: int|
        0 <= j < list.len() && gives_digest(#[trigger] list[j], words(list[j])[0], name) ==> j == i
}

proof fn lemma_one_digest(list: Seq<Seq<char>>, name: Seq<char>)
    ensures
        digests(list, name).len() == 0 <==> forall|i: int|
            0 <= i < list.len() ==> !line_names(#[trigger] list[i], name),
        digests(list, name).len() == 1 ==> exists|i: int|
            0 <= i < list.len() && #[trigger] only_digest(list, name, i) && digests(list, name)[0]
                == words(list[i])[0],
        forall|i: int|
            0 <= i < list.len() && #[trigger] only_digest(list, name, i) ==> digests(list, name)
                == seq![words(list[i])[0]],
    decreases list.len(),
{
    if list.len() > 0 {
        let rest = list.drop_last();
        let last = list.last();
        let n = rest.len() as int;
        lemma_one_digest(rest, name);
        assert(list[n] == last);
        if digests(list, name).len() == 0 {
            assert forall|i: int| 0 <= i < list.len() implies !line_names(
                #[trigger] list[i],
                name,
            ) by {
                if i < n {
                    assert(!line_names(rest[i], name));
                }
            }
        }
        if forall|i: int| 0 <= i < list.len() ==> !line_names(#[trigger] list[i], name) {
            assert forall|i: int| 0 <= i < rest.len() implies !line_names(
                #[trigger] rest[i],
                name,
            ) by {
                assert(!line_names(list[i], name));
            }
        }
        if digests(list, name).len() == 1 {
            if line_names(last, name) {
                assert forall|j: int|
                    0 <= j < list.len() && gives_digest(
                        #[trigger] list[j],
                        words(list[j])[0],
                        name,
                    ) implies j == n by {
                    if j < n {
                        assert(line_names(rest[j], name));
                    }
                }
                assert(only_digest(list, name, n));
            } else {
                let i = choose|i: int|
                    0 <= i < rest.len() && #[trigger] only_digest(rest, name, i) && digests(
                        rest,
                        name,
                    )[0] == words(rest[i])[0];
                assert(list[i] == rest[i]);
                assert forall|j: int|
                    0 <= j < list.len() && gives_digest(
                        #[trigger] list[j],
                        words(list[j])[0],
                        name,
                    ) implies j == i by {
                    if j < n {
                        assert(rest[j] == list[j]);
                    }
                }
                assert(only_digest(list, name, i));
            }
        }
        assert forall|i: int|
            0 <= i < list.len() && #[trigger] only_digest(list, name, i) implies digests(list, name)
            == seq![words(list[i])[0]] by {
            if i == n {
                assert forall|j: int| 0 <= j < rest.len() implies !line_names(
                    #[trigger] rest[j],
                    name,
                ) by {
                    assert(list[j] == rest[j]);
                }
                assert(digests(rest, name).len() == 0);
                assert(digests(list, name) =~= seq![words(list[i])[0]]);
            } else {
                assert(!gives_digest(list[n], words(list[n])[0], name));
                assert(list[i] == rest[i]);
                assert forall|j: int|
                    0 <= j < rest.len() && gives_digest(
                        #[trigger] rest[j],
                        words(rest[j])[0],
                        name,
                    ) implies j == i by {
                    assert(list[j] == rest[j]);
                }
                assert(only_digest(rest, name, i));
            }
        }
    }
}

/// A digest is relied on exactly where one line gives one for the file and it is sixty-four
/// hexadecimal digits; it is the digest of that line, in small letters.
pub proof fn law_checksum_is_that_of_its_line(list: Seq<Seq<char>>, name: Seq<char>)
    ensures
        checksum_in(list, name) is Ok <==> exists|i: int|
            0 <= i < list.len() && #[trigger] only_digest(list, name, i) && words(
                list[i],
            )[0].len() == 64 && forall|k: int|
                0 <= k < 64 ==> hex_digit(#[trigger] words(list[i])[0][k]),
        forall|i: int|
            0 <= i < list.len() && #[trigger] only_digest(list, name, i) && checksum_in(
                list,
                name,
            ) is Ok ==> checksum_in(list, name)->Ok_0 == lower_text(words(list[i])[0]),
{
    lemma_one_digest(list, name);
    if checksum_in(list, name) is Ok {
        let i = choose|i: int|
            0 <= i < list.len() && #[trigger] only_digest(list, name, i) && digests(list, name)[0]
                == words(list[i])[0];
        assert(only_digest(list, name, i));
    }
}

/// A version is written as its numbers with dots between them, and what more there is of it
/// behind a dash and a plus.
pub proof fn law_version_is_written_in_full(version: VersionView, text: Seq<char>)
    requires
        text == decimal(version.major as nat) + "."@ + decimal(version.minor as nat) + "."@
            + decimal(version.patch as nat),
    ensures
        stable(version) <==> version.pre.len() == 0 && version.build.len() == 0,
        stable(version) ==> version_text(version) == text,
        version.pre.len() > 0 && version.build.len() == 0 ==> version_text(version) == text + "-"@
            + version.pre,
        version.pre.len() == 0 && version.build.len() > 0 ==> version_text(version) == text + "+"@
            + version.build,
        version.pre.len() > 0 && version.build.len() > 0 ==> version_text(version) == text + "-"@
            + version.pre + "+"@ + version.build,
{
}

/// Versions are ordered by their numbers from left to right: of two plain versions one is at
/// most the other, both ways only where they have the same numbers, and a greater number makes
/// a later version whatever stands behind it.
pub proof fn law_versions_are_ordered(left: VersionView, right: VersionView)
    requires
        stable(left),
        stable(right),
    ensures
        stable_at_most(left.major, left.minor, left.patch, right) || stable_at_most(
            right.major,
            right.minor,
            right.patch,
            left,
        ),
        stable_at_most(left.major, left.minor, left.patch, right) && stable_at_most(
            right.major,
            right.minor,
            right.patch,
            left,
        ) <==> left.major == right.major && left.minor == right.minor && left.patch == right.patch,
        left.major > right.major ==> !stable_at_most(left.major, left.minor, left.patch, right),
        left.major == right.major && left.minor > right.minor ==> !stable_at_most(
            left.major,
            left.minor,
            left.patch,
            right,
        ),
        left.major == right.major && left.minor == right.minor && left.patch > right.patch
            ==> !stable_at_most(left.major, left.minor, left.patch, right),
{
}

/// A newer stable release with a trustworthy archive and checksums is offered, and installed
/// unless only its existence was asked for; a release that is not newer is never more than
/// told of.
pub proof fn law_newer_release_is_offered(
    latest: VersionView,
    archive: Result<Seq<char>, Seq<char>>,
    checksums: Result<Seq<char>, Seq<char>>,
    check: bool,
    up_to_date: bool,
)
    ensures
        ({
            let plan = plan_of(latest, up_to_date, archive, checksums, check);
            &&& up_to_date ==> plan == Ok::<PlanView, Seq<char>>(PlanView::UpToDate(latest))
            &&& !up_to_date && archive is Ok && checksums is Ok && check ==> plan == Ok::<
                PlanView,
                Seq<char>,
            >(PlanView::Available(latest))
            &&& !up_to_date && archive is Ok && checksums is Ok && !check ==> plan == Ok::<
                PlanView,
                Seq<char>,
            >(PlanView::Install(latest))
            &&& !up_to_date && archive is Err ==> plan == Err::<PlanView, Seq<char>>(
                archive->Err_0,
            )
            &&& !up_to_date && archive is Ok && checksums is Err ==> plan == Err::<
                PlanView,
                Seq<char>,
            >(checksums->Err_0)
        }),
{
}

/// The user is told of both versions as they are written.
pub proof fn law_user_is_told_of_the_versions(latest: VersionView, current: Seq<char>)
    ensures
        contains(plan_text(PlanView::UpToDate(latest), current), version_text(latest)),
        plan_text(PlanView::Available(latest), current) == "Update available: "@ + current + " -> "@
            + version_text(latest),
        plan_text(PlanView::Install(latest), current) == plan_text(
            PlanView::Available(latest),
            current,
        ),
{
    law_part_stands_between(
        "Already up to date (latest stable: "@,
        version_text(latest),
        ")"@,
        Seq::empty(),
    );
}

/// An update is a success only where nothing failed, and a failure tells of everything that
/// failed, as it is.
pub proof fn law_update_failure_tells_everything(
    latest: Seq<char>,
    install: Option<Seq<char>>,
    restart: Option<Seq<char>>,
)
    ensures
        outcome_of(latest, install, restart) is Ok <==> install is None && restart is None,
        outcome_of(latest, install, restart) is Ok ==> outcome_of(latest, install, restart)->Ok_0
            == "Updated to version "@ + latest,
        install is Some ==> {
            let error = outcome_of(latest, install, restart)->Err_0;
            error.cause == install || contains(error.message, install->0)
        },
        restart is Some ==> contains(
            outcome_of(latest, install, restart)->Err_0.message,
            restart->0,
        ),
{
    let none = Seq::<char>::empty();
    if restart is Some {
        match install {
            None => {
                let head = "Updated to "@ + latest + ", but proxy restart failed: "@;
                law_part_stands_between(head, restart->0, none, none);
                assert(head + restart->0 + none =~= head + restart->0);
            },
            Some(error) => {
                let head = "Executable replacement failed: "@ + error
                    + "; proxy restart failed: "@;
                law_part_stands_between(head, restart->0, none, none);
                assert(head + restart->0 + none =~= head + restart->0);
                let first = "Executable replacement failed: "@;
                let tail = "; proxy restart failed: "@ + restart->0;
                law_part_stands_between(first, error, tail, none);
                assert(first + error + tail =~= head + restart->0);
            },
        }
    }
}

/// A token is what was printed without the white space around it, and is never empty; it is
/// used only where the helper succeeded.
pub proof fn law_token_is_what_was_printed(
    success: bool,
    output: Seq<u8>,
    left: Seq<char>,
    token: Seq<char>,
    right: Seq<char>,
)
    requires
        valid_utf8(output),
        decode_utf8(output) == left + token + right,
        blank(left),
        blank(right),
        token.len() > 0,
        !white_space(token[0]),
        !white_space(token.last()),
    ensures
        success ==> token_of(success, output) == Ok::<Seq<char>, Seq<char>>(token),
        !success ==> token_of(success, output) is Err,
{
    law_text_between_white_space_is_kept(left, token, right);
}

/// A program is the version that it prints, with white space around it or not; one that failed
/// is none.
pub proof fn law_program_is_the_version_it_prints(
    success: bool,
    left: Seq<char>,
    printed: Seq<char>,
    right: Seq<char>,
    version: VersionView,
)
    requires
        blank(left),
        blank(right),
        printed.len() > 0,
        !white_space(printed[0]),
        !white_space(printed.last()),
    ensures
        is_version(success, left + printed + right, version) <==> success && printed == "gprox "@
            + version_text(version),
{
    law_text_between_white_space_is_kept(left, printed, right);
}

/// What the program says of itself holds each thing as it is.
pub proof fn law_package_is_told_as_it_is(info: PackageInfo)
    ensures
        package_json(info).at("name"@) == JsonView::Text(info.name@),
        package_json(info).at("version"@) == JsonView::Text(info.version@),
        package_json(info).at("description"@) == JsonView::Text(info.description@),
        package_json(info).at("repository"@) == JsonView::Text(info.repository@),
{
    lemma_names();
}

/// A release is installed only under a plain version behind a `v`, and never as a draft or a
/// pre-release; where that holds, its version is the one that was read of its tag.
pub proof fn law_only_plain_versions_are_releases(
    draft: bool,
    prerelease: bool,
    tag: Seq<char>,
    read: Option<VersionView>,
)
    ensures
        version_of(draft, prerelease, tag, read) is Ok <==> !draft && !prerelease && tag.len() > 0
            && tag[0] == 'v' && read is Some && read->0.pre.len() == 0 && read->0.build.len() == 0,
        version_of(draft, prerelease, tag, read) is Ok ==> version_of(
            draft,
            prerelease,
            tag,
            read,
        )->Ok_0 == read->0,
        tag.len() > 0 && tag[0] == 'v' ==> tag_version(tag) == tag.drop_first(),
{
    reveal_strlit("v");
    assert("v"@ =~= seq!['v']);
    if tag.len() > 0 {
        assert(tag.take(1)[0] == tag[0]);
        if tag[0] == 'v' {
            assert(tag.take(1) =~= "v"@);
        }
        assert(tag.skip(1) =~= tag.drop_first());
    }
}

/// A file that cannot be relied on is refused for what is wrong with it: there is none of its
/// name, there are several, or the one there is lies somewhere else.
pub proof fn law_file_is_refused_for_what_is_wrong(
    assets: Seq<AssetView>,
    tag: Seq<char>,
    name: Seq<char>,
)
    ensures
        (forall|i: int| 0 <= i < assets.len() ==> (#[trigger] assets[i]).name != name) ==> asset_of(
            assets,
            tag,
            name,
        ) == Err::<Seq<char>, Seq<char>>("Release "@ + tag + " is missing "@ + name),
        forall|i: int|
            0 <= i < assets.len() && #[trigger] only_asset(assets, name, i) && assets[i].url
                != "https://github.com/Ziiilk/gprox/releases/download/"@ + tag + "/"@ + name
                ==> asset_of(assets, tag, name) == Err::<Seq<char>, Seq<char>>(
                "Unexpected download URL for "@ + name,
            ),
        forall|i: int, j: int|
            0 <= i < j < assets.len() && (#[trigger] assets[i]).name == name && (
            #[trigger] assets[j]).name == name ==> asset_of(assets, tag, name) == Err::<
                Seq<char>,
                Seq<char>,
            >("Duplicate release asset: "@ + name),
{
    lemma_one_asset(assets, name);
    assert forall|i: int, j: int|
        0 <= i < j < assets.len() && (#[trigger] assets[i]).name == name && (
        #[trigger] assets[j]).name == name implies asset_of(assets, tag, name) == Err::<
        Seq<char>,
        Seq<char>,
    >("Duplicate release asset: "@ + name) by {
        assert(assets_named(assets, name).len() != 0);
        assert(assets_named(assets, name).len() != 1);
    }
}

/// Bytes are taken as they come, behind the earlier ones, exactly where all of them keep to the
/// limit.
pub proof fn law_bytes_are_taken_as_they_come(data: Seq<u8>, piece: Seq<u8>, limit: int)
    ensures
        taken(data, piece, limit) is Some <==> data.len() + piece.len() <= limit,
        taken(data, piece, limit) is Some ==> taken(data, piece, limit)->0.take(data.len() as int)
            == data && taken(data, piece, limit)->0.skip(data.len() as int) == piece,
{
    assert((data + piece).take(data.len() as int) =~= data);
    assert((data + piece).skip(data.len() as int) =~= piece);
}

/// Without a release nothing is to be done. A release that cannot be installed is refused for
/// its own reason; any other is offered or not by its version and its files.
pub proof fn law_plan_goes_by_the_release(
    current: Seq<char>,
    running: VersionView,
    release: Release,
    check: bool,
)
    requires
        parsed_version(current) == Some(running),
    ensures
        planned(current, None, check) == Ok::<PlanView, Seq<char>>(PlanView::NoRelease),
        release_version(release) is Err ==> planned(current, Some(release), check) == Err::<
            PlanView,
            Seq<char>,
        >(release_version(release)->Err_0),
        release_version(release) is Ok ==> {
            let version = release_version(release)->Ok_0;
            let plan = planned(current, Some(release), check);
            let older = stable_at_most(version.major, version.minor, version.patch, running);
            let archive = release_asset(release, ASSET_NAME@);
            let checksums = release_asset(release, CHECKSUM_NAME@);
            &&& older ==> plan == Ok::<PlanView, Seq<char>>(PlanView::UpToDate(version))
            &&& !older && archive is Ok && checksums is Ok ==> plan == Ok::<PlanView, Seq<char>>(
                if check {
                    PlanView::Available(version)
                } else {
                    PlanView::Install(version)
                },
            )
            &&& !older && (archive is Err || checksums is Err) ==> plan is Err
        },
{
}

/// Of the same numbers, the release comes after its pre-releases.
pub proof fn law_release_comes_after_its_pre_release(
    major: u64,
    minor: u64,
    patch: u64,
    other: VersionView,
)
    requires
        other.major == major,
        other.minor == minor,
        other.patch == patch,
    ensures
        stable_at_most(major, minor, patch, other) <==> other.pre.len() == 0,
{
}

/// A helper that failed, printed no text or only white space has no token to give.
pub proof fn law_no_token_is_told(success: bool, output: Seq<u8>)
    ensures
        !success ==> token_of(success, output) == Err::<Seq<char>, Seq<char>>(
            "GitHub CLI has no usable github.com login"@,
        ),
        success && !valid_utf8(output) ==> token_of(success, output) is Err,
        success && valid_utf8(output) && blank(decode_utf8(output)) ==> token_of(success, output)
            == Err::<Seq<char>, Seq<char>>("GitHub CLI returned an empty token"@),
        token_of(success, output) is Ok ==> token_of(success, output)->Ok_0.len() > 0,
{
    if success && valid_utf8(output) && blank(decode_utf8(output)) {
        let text = decode_utf8(output);
        law_only_white_space_is_trimmed(text);
        let (from, to) = choose|from: int, to: int|
            0 <= from <= to <= text.len() && trimmed(text) == #[trigger] text.subrange(from, to) && (
            forall|i: int| 0 <= i < from ==> white_space(#[trigger] text[i])) && (forall|i: int|
                to <= i < text.len() ==> white_space(#[trigger] text[i]));
        if trimmed(text).len() > 0 {
            assert(trimmed(text)[0] == text[from]);
            assert(white_space(text[from]));
        }
    }
}

/// The checksum of a file is looked for in all lines of the list.
pub proof fn law_checksum_is_looked_for_in_every_line(contents: Seq<char>, name: Seq<char>)
    ensures
        checksum_of(contents, name) == checksum_in(lines(contents), name),
{
}

/// No more is read than 256 MiB of an archive, 2 MiB of a release and 16 KiB of checksums.
pub proof fn law_no_more_is_read()
    ensures
        MAX_ARCHIVE_SIZE == 256 * 1024 * 1024,
        MAX_RELEASE_SIZE == 2 * 1024 * 1024,
        MAX_CHECKSUMS_SIZE == 16 * 1024,
{
}

} // verus!
