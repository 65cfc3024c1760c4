use vstd::prelude::*;
use crate::document::chars::{str_chars, subchars};
use crate::document::scan::{digit_char, find_char, is_digit, spec_find};
use crate::document::value::{digits_value, spec_digits_val};

verus! {

// Release version logic: a release tag such as `v1.2.3` is compared against
// the local version, and only a strictly newer release is reported.  The
// network call that fetches the tags is outside work; everything after it
// is decided here.
/// The errors of an update check, each carrying the underlying detail.
#[derive(Debug)]
pub enum Error {
    RequestFailed(String),
    ResponseError(String),
    FailedDataDeserialization(String),
}

/// A parsed `major.minor.patch` version.
#[derive(Clone, Copy, PartialEq, Eq, Structural, Debug)]
pub struct Version {
    pub major: u64,
    pub minor: u64,
    pub patch: u64,
}

/// A version component: a non-empty digit run that fits 64 bits.
pub open spec fn spec_num_ok(p: Seq<char>) -> bool {
    p.len() > 0 && (forall|i: int| 0 <= i < p.len() ==> is_digit(p[i])) && spec_digits_val(p)
        < 0x10000000000000000
}

/// A version string: exactly three dot-separated components.
pub open spec fn spec_version_ok(s: Seq<char>) -> bool {
    let i1 = spec_find(s, '.', 0);
    let i2 = spec_find(s, '.', i1 + 1);
    &&& i1 < s.len()
    &&& i2 < s.len()
    &&& spec_find(s, '.', i2 + 1) == s.len()
    &&& spec_num_ok(s.subrange(0, i1))
    &&& spec_num_ok(s.subrange(i1 + 1, i2))
    &&& spec_num_ok(s.subrange(i2 + 1, s.len() as int))
}

/// The version a well-formed version string stands for.
pub open spec fn spec_version(s: Seq<char>) -> Version {
    let i1 = spec_find(s, '.', 0);
    let i2 = spec_find(s, '.', i1 + 1);
    Version {
        major: spec_digits_val(s.subrange(0, i1)) as u64,
        minor: spec_digits_val(s.subrange(i1 + 1, i2)) as u64,
        patch: spec_digits_val(s.subrange(i2 + 1, s.len() as int)) as u64,
    }
}

/// Strict version order, most significant component first.
pub open spec fn spec_newer(a: Version, b: Version) -> bool {
    a.major > b.major || (a.major == b.major && (a.minor > b.minor || (a.minor == b.minor
        && a.patch > b.patch)))
}

/// A release tag with a leading `v` removed.
pub open spec fn spec_strip_v(s: Seq<char>) -> Seq<char> {
    if s.len() > 0 && s[0] == 'v' {
        s.skip(1)
    } else {
        s
    }
}

/// The newest release worth reporting: the first tag, when both it and the
/// local version parse and the tag is strictly newer.
pub open spec fn spec_latest(tags: Seq<Seq<char>>, local: Seq<char>) -> Option<Version> {
    if tags.len() == 0 {
        None
    } else {
        let t = spec_strip_v(tags[0]);
        if spec_version_ok(t) && spec_version_ok(local) && spec_newer(
            spec_version(t),
            spec_version(local),
        ) {
            Some(spec_version(t))
        } else {
            None
        }
    }
}

fn check_digits(v: &Vec<char>) -> (r: bool)
    ensures
        r == (v@.len() > 0 && (forall|i: int| 0 <= i < v@.len() ==> is_digit(v@[i]))),
{
    if v.len() == 0 {
        return false;
    }
    let mut i: usize = 0;
    while i < v.len()
        invariant
            i <= v@.len(),
            forall|k: int| 0 <= k < i ==> is_digit(v@[k]),
        decreases v@.len() - i,
    {
        if !digit_char(v[i]) {
            return false;
        }
        i = i + 1;
    }
    true
}

/// Reads one version component from `v`, or nothing when it is not a digit
/// run that fits.
fn component(v: &Vec<char>) -> (r: Option<u64>)
    ensures
        (r is Some) == spec_num_ok(v@),
        r matches Some(n) ==> n as int == spec_digits_val(v@),
{
    if !check_digits(v) {
        return None;
    }
    proof {
        assert(v@.skip(0) =~= v@);
        crate::document::value::lemma_digits_val_nonneg(v@);
    }
    let n = digits_value(v, 0);
    if n < 0x10000000000000000u128 {
        Some(n as u64)
    } else {
        None
    }
}

impl Version {
    /// Parses a `major.minor.patch` string.  Succeeds exactly when the text
    /// is three dot-separated digit runs that fit 64 bits each.
    pub fn parse(s: &str) -> (r: Option<Version>)
        ensures
            (r is Some) == spec_version_ok(s@),
            r matches Some(v) ==> v == spec_version(s@),
    {
        let cv = str_chars(s);
        let i1 = find_char(&cv, '.', 0);
        if i1 == cv.len() {
            return None;
        }
        let i2 = find_char(&cv, '.', i1 + 1);
        if i2 == cv.len() {
            return None;
        }
        let i3 = find_char(&cv, '.', i2 + 1);
        if i3 != cv.len() {
            return None;
        }
        let p1 = subchars(&cv, 0, i1);
        let p2 = subchars(&cv, i1 + 1, i2);
        let p3 = subchars(&cv, i2 + 1, cv.len());
        let major = match component(&p1) {
            Some(n) => n,
            None => {
                return None;
            },
        };
        let minor = match component(&p2) {
            Some(n) => n,
            None => {
                return None;
            },
        };
        let patch = match component(&p3) {
            Some(n) => n,
            None => {
                return None;
            },
        };
        Some(Version { major, minor, patch })
    }

    /// Strictly newer than `other`.
    pub fn newer_than(&self, other: &Version) -> (r: bool)
        ensures
            r == spec_newer(*self, *other),
    {
        self.major > other.major || (self.major == other.major && (self.minor > other.minor || (
        self.minor == other.minor && self.patch > other.patch)))
    }
}

/// Decides what an update check reports, from the release tags the host
/// fetched (newest first) and the running version: the newest release's
/// version when it parses and is strictly newer, nothing otherwise.
pub fn newest_release(tag_names: &Vec<String>, local_version: &str) -> (r: Option<Version>)
    ensures
        r == spec_latest(
            tag_names@.map_values(|t: String| t@),
            local_version@,
        ),
{
    if tag_names.len() == 0 {
        return None;
    }
    let tag = &tag_names[0];
    let cv = str_chars(tag.as_str());
    let stripped = if cv.len() > 0 && cv[0] == 'v' {
        subchars(&cv, 1, cv.len())
    } else {
        subchars(&cv, 0, cv.len())
    };
    proof {
        assert(tag_names@.map_values(|t: String| t@)[0] == tag_names@[0]@);
        if cv@.len() > 0 && cv@[0] == 'v' {
            assert(stripped@ =~= spec_strip_v(tag@));
        } else {
            assert(stripped@ =~= spec_strip_v(tag@));
        }
    }
    let remote = match Version::parse(crate::document::chars::chars_to_string(
        &stripped,
    ).as_str()) {
        Some(v) => v,
        None => {
            return None;
        },
    };
    let local = match Version::parse(local_version) {
        Some(v) => v,
        None => {
            return None;
        },
    };
    if remote.newer_than(&local) {
        Some(remote)
    } else {
        None
    }
}

} // verus!
