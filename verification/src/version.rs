//! Semantic versions as plain values, with the ordering and the text form
//! that the `semver` crate gives them.

use vstd::prelude::*;

verus! {

/// The longest text, in characters, that is read as a version.
pub const MAX_VERSION_TEXT: usize = 0xffff;

/// The mathematical value of a [`Version`].
pub struct VersionView {
    pub major: nat,
    pub minor: nat,
    pub patch: nat,
    pub pre: Seq<char>,
    pub build: Seq<char>,
}

/// The character that stands for the digit `d`, for `d` below ten.
pub open spec fn digit_char(d: nat) -> char {
    if d == 0 {
        '0'
    } else if d == 1 {
        '1'
    } else if d == 2 {
        '2'
    } else if d == 3 {
        '3'
    } else if d == 4 {
        '4'
    } else if d == 5 {
        '5'
    } else if d == 6 {
        '6'
    } else if d == 7 {
        '7'
    } else if d == 8 {
        '8'
    } else {
        '9'
    }
}

/// Whether `c` is one of the ten decimal digits.
pub open spec fn is_digit(c: char) -> bool {
    '0' <= c <= '9'
}

/// The base ten digits of `n`, most significant first, without leading zeros.
pub open spec fn decimal(n: nat) -> Seq<char>
    decreases n,
{
    if n < 10 {
        seq![digit_char(n)]
    } else {
        decimal(n / 10).push(digit_char(n % 10))
    }
}

/// Ten to the power `k`.
pub open spec fn pow10(k: nat) -> nat
    decreases k,
{
    if k == 0 {
        1
    } else {
        10 * pow10((k - 1) as nat)
    }
}

/// The canonical text of a version: `major.minor.patch`, then `-` and the
/// pre-release tag if there is one, then `+` and the build metadata if
/// there is any.
pub open spec fn version_text(v: VersionView) -> Seq<char> {
    decimal(v.major) + seq!['.'] + decimal(v.minor) + seq!['.'] + decimal(v.patch) + (if v.pre.len()
        > 0 {
        seq!['-'] + v.pre
    } else {
        Seq::empty()
    }) + (if v.build.len() > 0 {
        seq!['+'] + v.build
    } else {
        Seq::empty()
    })
}

/// What `semver::Version::parse` makes of a text: the version that it
/// reads, or `None` where it refuses the text. Nothing is proved of it;
/// what is believed of it stands with `semver_parse` and `semver_new`.
pub uninterp spec fn parsed_version(text: Seq<char>) -> Option<VersionView>;

/// Whether the order of `semver::Prerelease` puts the tag `a` strictly
/// before the tag `b`, the two being different and neither empty. Nothing
/// is proved of it; what is believed of it stands with `semver_lt`.
pub uninterp spec fn prerelease_precedes(a: Seq<char>, b: Seq<char>) -> bool;

/// Whether the order of `semver::BuildMetadata` puts the metadata `a`
/// strictly before the metadata `b`, the two being different. Nothing is
/// proved of it; what is believed of it stands with `semver_lt`.
pub uninterp spec fn build_precedes(a: Seq<char>, b: Seq<char>) -> bool;

/// A value is a version when its canonical text is short enough to be read
/// and reads back as the value itself.
pub open spec fn is_version(v: VersionView) -> bool {
    &&& version_text(v).len() <= MAX_VERSION_TEXT
    &&& parsed_version(version_text(v)) == Some(v)
}

/// The version that a text denotes, if it denotes one.
pub open spec fn version_of_text(text: Seq<char>) -> Option<VersionView> {
    if text.len() <= MAX_VERSION_TEXT {
        parsed_version(text)
    } else {
        None
    }
}

/// Whether the two versions have the same major, minor and patch numbers.
pub open spec fn same_numbers(a: VersionView, b: VersionView) -> bool {
    a.major == b.major && a.minor == b.minor && a.patch == b.patch
}

/// The strict order of versions: numerically by major, minor and patch;
/// then a version with a pre-release tag before the same version without
/// one, and two tags as `semver` orders them; then by build metadata, as
/// `semver` orders it. No version is before itself.
pub open spec fn version_lt(a: VersionView, b: VersionView) -> bool {
    if a.major != b.major {
        a.major < b.major
    } else if a.minor != b.minor {
        a.minor < b.minor
    } else if a.patch != b.patch {
        a.patch < b.patch
    } else if a.pre != b.pre {
        if a.pre.len() == 0 {
            false
        } else if b.pre.len() == 0 {
            true
        } else {
            prerelease_precedes(a.pre, b.pre)
        }
    } else if a.build != b.build {
        build_precedes(a.build, b.build)
    } else {
        false
    }
}

/// What holds of the answer `r` to "is `a` before `b`" because versions
/// are totally ordered: the converse fails when `r` holds; one of equality
/// and the converse holds when it does not; and when `a` is before `b`,
/// whatever is before `a` is before `b`, and `a` is before whatever `b` is
/// before.
pub open spec fn total_order_at(a: VersionView, b: VersionView, r: bool) -> bool {
    &&& r ==> !version_lt(b, a)
    &&& !r ==> a == b || version_lt(b, a)
    &&& forall|c: VersionView| is_version(c) && #[trigger] version_lt(c, a) && r ==> version_lt(c, b)
    &&& forall|c: VersionView| is_version(c) && #[trigger] version_lt(b, c) && r ==> version_lt(a, c)
}

/// The error of `semver`, which says why a text is no version. It is
/// handed on unread.
#[verifier::external_type_specification]
#[verifier::external_body]
pub struct ExSemverError(semver::Error);

/// A semantic version: three numbers, a pre-release tag and build metadata,
/// the last two empty where the version has none.
#[derive(Debug, PartialEq, Eq)]
pub struct Version {
    major: u64,
    minor: u64,
    patch: u64,
    pre: String,
    build: String,
}

impl View for Version {
    type V = VersionView;

    closed spec fn view(&self) -> VersionView {
        VersionView {
            major: self.major as nat,
            minor: self.minor as nat,
            patch: self.patch as nat,
            pre: self.pre@,
            build: self.build@,
        }
    }
}

/// Calls `semver::Version::parse` and takes the version that it gives
/// apart into plain values.
///
/// Believed, not proved: the outcome is the one that `parsed_version`
/// names; and a text that is accepted is the canonical text of the version
/// that it denotes, since `semver` admits neither leading zeros, nor
/// blanks, nor anything after the version. The bound on the length keeps
/// the tag and the metadata within what `semver` stores on every machine.
#[verifier::external_body]
fn semver_parse(text: &str) -> (r: Result<Version, semver::Error>)
    requires
        text@.len() <= MAX_VERSION_TEXT,
    ensures
        match r {
            Ok(v) => parsed_version(text@) == Some(v@) && version_text(v@) == text@,
            Err(_) => parsed_version(text@) is None,
        },
{
    let v = semver::Version::parse(text)?;
    Ok(Version {
        major: v.major,
        minor: v.minor,
        patch: v.patch,
        pre: v.pre.as_str().to_owned(),
        build: v.build.as_str().to_owned(),
    })
}

/// Calls `semver::Version::new` and takes the version that it gives apart
/// into plain values.
///
/// Believed, not proved: the version has the three numbers, no pre-release
/// tag and no build metadata; and `semver::Version::parse` reads it back
/// from its canonical text.
#[verifier::external_body]
fn semver_new(major: u64, minor: u64, patch: u64) -> (v: Version)
    ensures
        v@ == (VersionView {
            major: major as nat,
            minor: minor as nat,
            patch: patch as nat,
            pre: Seq::empty(),
            build: Seq::empty(),
        }),
        parsed_version(version_text(v@)) == Some(v@),
{
    let v = semver::Version::new(major, minor, patch);
    Version {
        major: v.major,
        minor: v.minor,
        patch: v.patch,
        pre: v.pre.as_str().to_owned(),
        build: v.build.as_str().to_owned(),
    }
}

/// Puts the plain values together into a `semver::Version` and calls its
/// `Display` through `to_string`.
///
/// Believed, not proved: the text is the canonical text of the version,
/// the three numbers in base ten between dots, then `-` and the tag and
/// `+` and the metadata where they are not empty. The tag and the metadata
/// of a version are such that `semver` takes them.
#[verifier::external_body]
fn semver_render(v: &Version) -> (s: String)
    requires
        is_version(v@),
    ensures
        s@ == version_text(v@),
{
    semver::Version {
        major: v.major,
        minor: v.minor,
        patch: v.patch,
        pre: semver::Prerelease::new(&v.pre).unwrap(),
        build: semver::BuildMetadata::new(&v.build).unwrap(),
    }.to_string()
}

/// Puts the plain values together into two `semver::Version`s and
/// compares them with `<`.
///
/// Believed, not proved: the answer is `version_lt`, which spells out the
/// order of `semver::Version` as far as its documentation does (the three
/// numbers, a tagged version before the release) and names the rest (two
/// tags, two build metadata); and this order is total, as is said in
/// `total_order_at`. The tag and the metadata of a version are such that
/// `semver` takes them.
#[verifier::external_body]
fn semver_lt(a: &Version, b: &Version) -> (r: bool)
    requires
        is_version(a@),
        is_version(b@),
    ensures
        r == version_lt(a@, b@),
        same_numbers(a@, b@) && a@.pre != b@.pre && a@.pre.len() > 0 && b@.pre.len() > 0 ==> r
            == prerelease_precedes(a@.pre, b@.pre),
        same_numbers(a@, b@) && a@.pre == b@.pre && a@.build != b@.build ==> r == build_precedes(
            a@.build,
            b@.build,
        ),
        total_order_at(a@, b@, r),
{
    let pre = semver::Prerelease::new(&a.pre).unwrap();
    let build = semver::BuildMetadata::new(&a.build).unwrap();
    let x = semver::Version { major: a.major, minor: a.minor, patch: a.patch, pre, build };
    let pre = semver::Prerelease::new(&b.pre).unwrap();
    let build = semver::BuildMetadata::new(&b.build).unwrap();
    let y = semver::Version { major: b.major, minor: b.minor, patch: b.patch, pre, build };
    x < y
}

/// Every number has at least one digit, and its first is a digit.
pub(crate) proof fn lemma_decimal_starts_with_digit(n: nat)
    ensures
        decimal(n).len() >= 1,
        is_digit(decimal(n)[0]),
    decreases n,
{
    if n >= 10 {
        lemma_decimal_starts_with_digit(n / 10);
    }
}

/// A number below ten to the `k` has at most `k` digits.
proof fn lemma_decimal_len(n: nat, k: nat)
    requires
        k >= 1,
        n < pow10(k),
    ensures
        decimal(n).len() <= k,
    decreases k,
{
    if n >= 10 {
        assert(k >= 2) by {
            reveal_with_fuel(pow10, 2);
        }
        assert(pow10(k) == 10 * pow10((k - 1) as nat));
        lemma_decimal_len(n / 10, (k - 1) as nat);
    }
}

/// A number that fits sixty-four bits has at most twenty digits.
proof fn lemma_decimal_len_u64(n: u64)
    ensures
        1 <= decimal(n as nat).len() <= 20,
{
    lemma_decimal_starts_with_digit(n as nat);
    assert(pow10(20) == 100_000_000_000_000_000_000nat) by {
        reveal_with_fuel(pow10, 21);
    }
    lemma_decimal_len(n as nat, 20);
}

impl Version {
    /// Every version is one that `semver` reads back from its own text.
    #[verifier::type_invariant]
    pub open spec fn well_formed(self) -> bool {
        is_version(self@)
    }

    /// The version `major.minor.patch`, without pre-release tag or build
    /// metadata.
    pub fn new(major: u64, minor: u64, patch: u64) -> (v: Version)
        ensures
            v@ == (VersionView {
                major: major as nat,
                minor: minor as nat,
                patch: patch as nat,
                pre: Seq::empty(),
                build: Seq::empty(),
            }),
    {
        let v = semver_new(major, minor, patch);
        proof {
            lemma_decimal_len_u64(major);
            lemma_decimal_len_u64(minor);
            lemma_decimal_len_u64(patch);
        }
        v
    }

    /// Reads a version from its text, which may not be longer than
    /// `MAX_VERSION_TEXT` characters. The text of a version is its
    /// canonical text, so what is read renders as the text that was given.
    pub fn parse(text: &str) -> (r: Option<Version>)
        ensures
            match r {
                Some(v) => version_of_text(text@) == Some(v@) && version_text(v@) == text@,
                None => version_of_text(text@) is None,
            },
    {
        if text.unicode_len() > MAX_VERSION_TEXT {
            return None;
        }
        match semver_parse(text) {
            Ok(v) => Some(v),
            Err(_) => None,
        }
    }

    /// The canonical text of the version, which reads back as the version.
    pub fn render(&self) -> (s: String)
        ensures
            s@ == version_text(self@),
            version_of_text(s@) == Some(self@),
    {
        proof {
            use_type_invariant(self);
        }
        semver_render(self)
    }

    /// The major number.
    pub fn major(&self) -> (n: u64)
        ensures
            n == self@.major,
    {
        self.major
    }

    /// The minor number.
    pub fn minor(&self) -> (n: u64)
        ensures
            n == self@.minor,
    {
        self.minor
    }

    /// The patch number.
    pub fn patch(&self) -> (n: u64)
        ensures
            n == self@.patch,
    {
        self.patch
    }

    /// The pre-release tag, empty where the version has none.
    pub fn pre(&self) -> (s: &str)
        ensures
            s@ == self@.pre,
    {
        self.pre.as_str()
    }

    /// The build metadata, empty where the version has none.
    pub fn build(&self) -> (s: &str)
        ensures
            s@ == self@.build,
    {
        self.build.as_str()
    }

    /// Whether the two versions are the same in all five parts.
    pub fn equals(&self, other: &Version) -> (r: bool)
        ensures
            r == (self@ == other@),
    {
        self.major == other.major && self.minor == other.minor && self.patch == other.patch
            && self.pre == other.pre && self.build == other.build
    }

    /// Whether this version is strictly before `other`. The answer goes
    /// with what the total order of versions makes of the two.
    pub fn precedes(&self, other: &Version) -> (r: bool)
        ensures
            r == version_lt(self@, other@),
            total_order_at(self@, other@, r),
    {
        proof {
            use_type_invariant(self);
            use_type_invariant(other);
        }
        semver_lt(self, other)
    }
}

impl Clone for Version {
    fn clone(&self) -> (v: Version)
        ensures
            v@ == self@,
    {
        proof {
            use_type_invariant(self);
        }
        Version {
            major: self.major,
            minor: self.minor,
            patch: self.patch,
            pre: self.pre.clone(),
            build: self.build.clone(),
        }
    }
}

} // verus!
