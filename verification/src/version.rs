//! Semantic versions: three numbers, and the pre-release and build texts that
//! may follow them.

use crate::error::FieldError;
use crate::text::{decimal, push_decimal};
use vstd::prelude::*;

verus! {

/// A semantic version. `pre` and `build` are empty where the version has no
/// pre-release or build part.
#[derive(Clone, Debug, PartialEq, Eq, Hash)]
pub struct Version {
    pub major: u64,
    pub minor: u64,
    pub patch: u64,
    pub pre: String,
    pub build: String,
}

/// A version as a plain value.
pub ghost struct VersionView {
    pub major: nat,
    pub minor: nat,
    pub patch: nat,
    pub pre: Seq<char>,
    pub build: Seq<char>,
}

impl View for Version {
    type V = VersionView;

    open spec fn view(&self) -> VersionView {
        VersionView {
            major: self.major as nat,
            minor: self.minor as nat,
            patch: self.patch as nat,
            pre: self.pre@,
            build: self.build@,
        }
    }
}

/// The version that `semver` reads from `text`, or `None` where it refuses
/// the text.
pub uninterp spec fn parsed_version(text: Seq<char>) -> Option<VersionView>;

/// Whether `text` begins with a decimal digit, as every version does.
pub open spec fn begins_with_digit(text: Seq<char>) -> bool {
    text.len() > 0 && '0' <= text[0] && text[0] <= '9'
}

/// The version `0.0.0`, which stands for "no version set".
pub open spec fn default_version() -> VersionView {
    VersionView { major: 0, minor: 0, patch: 0, pre: Seq::empty(), build: Seq::empty() }
}

/// The version that `text` holds, or the default where it holds none.
pub open spec fn version_or_default(text: Seq<char>) -> VersionView {
    match parsed_version(text) {
        Some(v) => v,
        None => default_version(),
    }
}

/// A version as text: the three numbers with dots between them, then a
/// hyphen and the pre-release part where there is one, then a plus sign and
/// the build part where there is one.
pub open spec fn version_text(v: VersionView) -> Seq<char> {
    decimal(v.major) + seq!['.'] + decimal(v.minor) + seq!['.'] + decimal(v.patch) + (if v.pre.len()
        > 0 {
        seq!['-'] + v.pre
    } else {
        Seq::empty()
    }) + (if v.build.len() > 0 {
        seq!['+'] + v.build
    } else {
        Seq::empty()
    })
}

/// Calls `semver::Version::parse` and copies the fields of what it returns.
/// The result is the one that `parsed_version` names for this text. Of which
/// texts are versions one thing is claimed: a version begins with its major
/// number, so a text that does not begin with a digit is refused.
#[verifier::external_body]
fn parse_semver(text: &str) -> (r: Result<Version, semver::Error>)
    ensures
        match r {
            Ok(v) => parsed_version(text@) == Some(v@),
            Err(_) => parsed_version(text@) is None,
        },
        !begins_with_digit(text@) ==> r is Err,
{
    match semver::Version::parse(text) {
        Ok(v) => Ok(
            Version {
                major: v.major,
                minor: v.minor,
                patch: v.patch,
                pre: v.pre.as_str().to_owned(),
                build: v.build.as_str().to_owned(),
            },
        ),
        Err(e) => Err(e),
    }
}

impl Version {
    /// The version `major.minor.patch`, with no pre-release or build part.
    pub fn new(major: u64, minor: u64, patch: u64) -> (v: Version)
        ensures
            v@ == (VersionView {
                major: major as nat,
                minor: minor as nat,
                patch: patch as nat,
                pre: Seq::empty(),
                build: Seq::empty(),
            }),
    {
        Version { major, minor, patch, pre: String::new(), build: String::new() }
    }

    /// Reads `text` as a semantic version. A text that does not begin with a
    /// digit is none.
    pub fn parse(text: &str) -> (r: Result<Version, FieldError>)
        ensures
            match r {
                Ok(v) => parsed_version(text@) == Some(v@),
                Err(e) => parsed_version(text@) is None && e is Version,
            },
            !begins_with_digit(text@) ==> r is Err,
    {
        match parse_semver(text) {
            Ok(v) => Ok(v),
            Err(e) => Err(FieldError::Version(e)),
        }
    }

    /// What was read, or the default and the error where nothing was read.
    pub fn or_default(read: Result<Version, FieldError>) -> (r: (Version, Option<FieldError>))
        ensures
            match read {
                Ok(v) => r.0 == v && r.1 is None,
                Err(e) => r.0@ == default_version() && r.1 == Some(e),
            },
    {
        match read {
            Ok(v) => (v, None),
            Err(e) => (Version::new(0, 0, 0), Some(e)),
        }
    }

    /// Reads `text` as a semantic version, and gives the default and the
    /// error where the text is none.
    pub fn parse_or_default(text: &str) -> (r: (Version, Option<FieldError>))
        ensures
            r.0@ == version_or_default(text@),
            r.1 is Some <==> parsed_version(text@) is None,
            r.1 matches Some(e) ==> e is Version,
            !begins_with_digit(text@) ==> r.0@ == default_version() && r.1 is Some,
    {
        Version::or_default(Version::parse(text))
    }

    /// This version with other numbers and the same pre-release and build
    /// parts.
    pub fn with_numbers(self, major: u64, minor: u64, patch: u64) -> (v: Version)
        ensures
            v@ == (VersionView {
                major: major as nat,
                minor: minor as nat,
                patch: patch as nat,
                pre: self@.pre,
                build: self@.build,
            }),
    {
        Version { major, minor, patch, pre: self.pre, build: self.build }
    }

    /// This version as text.
    pub fn to_string(&self) -> (r: String)
        ensures
            r@ == version_text(self@),
    {
        let mut out = String::new();
        push_decimal(&mut out, self.major);
        out.append(".");
        push_decimal(&mut out, self.minor);
        out.append(".");
        push_decimal(&mut out, self.patch);
        proof {
            reveal_strlit(".");
            assert(out@ =~= decimal(self@.major) + seq!['.'] + decimal(self@.minor) + seq!['.']
                + decimal(self@.patch));
        }
        let ghost numbers = out@;
        if !self.pre.as_str().is_empty() {
            out.append("-");
            out.append(self.pre.as_str());
            proof {
                reveal_strlit("-");
                assert(out@ =~= numbers + (seq!['-'] + self@.pre));
            }
        } else {
            assert(out@ =~= numbers + Seq::<char>::empty());
        }
        let ghost with_pre = out@;
        if !self.build.as_str().is_empty() {
            out.append("+");
            out.append(self.build.as_str());
            proof {
                reveal_strlit("+");
                assert(out@ =~= with_pre + (seq!['+'] + self@.build));
            }
        } else {
            assert(out@ =~= with_pre + Seq::<char>::empty());
        }
        out
    }
}

/// The default version as text is `0.0.0`.
pub proof fn lemma_default_version_text()
    ensures
        version_text(default_version()) == crate::DEFAULT_VERSION@,
{
    reveal_strlit("0.0.0");
    assert(version_text(default_version()) =~= crate::DEFAULT_VERSION@);
}

} // verus!
