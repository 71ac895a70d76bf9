//! Semantic versions and ranges, and choosing an installed version for a
//! range.
use crate::plugins::{Plugin, PluginError, VersionManagerPlugin};
use crate::text::{strip_all, strip_leading};
use vstd::prelude::*;
use vstd::string::*;

verus! {

/// What `semver::Version::parse` reads from `s`: its three numbers and its
/// pre-release tag, or nothing when `s` is not a full semantic version.
pub uninterp spec fn semver_parts(s: Seq<char>) -> Option<(u64, u64, u64, Seq<char>)>;

/// Whether `semver::VersionReq::parse` accepts `s` as a range.
pub uninterp spec fn is_semver_range(s: Seq<char>) -> bool;

/// Whether the range written `range` admits the version written `version`,
/// as `semver::VersionReq::matches` decides.
pub uninterp spec fn range_admits(range: Seq<char>, version: Seq<char>) -> bool;

/// The parts of a parsed version that the choice between versions reads.
#[derive(Debug, Clone)]
pub struct VersionKey {
    pub major: u64,
    pub minor: u64,
    pub patch: u64,
    pub pre: String,
}

/// Relies on `semver::Version::parse`: a full semantic version, or an error.
#[verifier::external_body]
pub(crate) fn parse_version(s: &str) -> (r: Option<VersionKey>)
    ensures
        match semver_parts(s@) {
            None => r is None,
            Some(p) => r matches Some(k) && k.major == p.0 && k.minor == p.1 && k.patch == p.2
                && k.pre@ == p.3,
        },
{
    match semver::Version::parse(s) {
        Ok(v) => Some(
            VersionKey { major: v.major, minor: v.minor, patch: v.patch, pre: v.pre.as_str().to_string() },
        ),
        Err(_) => None,
    }
}

/// Relies on `semver::VersionReq::parse`: whether `s` is a range.
#[verifier::external_body]
pub(crate) fn parses_as_range(s: &str) -> (r: bool)
    ensures
        r == is_semver_range(s@),
{
    semver::VersionReq::parse(s).is_ok()
}

/// Relies on `semver::VersionReq::matches`, on the range and the version
/// that `semver` parses from the two strings; when either does not parse,
/// nothing is admitted.
#[verifier::external_body]
pub(crate) fn range_matches(range: &str, version: &str) -> (r: bool)
    ensures
        r == range_admits(range@, version@),
        r ==> is_semver_range(range@) && semver_parts(version@) is Some,
{
    match (semver::VersionReq::parse(range), semver::Version::parse(version)) {
        (Ok(req), Ok(v)) => req.matches(&v),
        _ => false,
    }
}

/// How `semver` orders the versions written `a` and `b` (its `Ord` on
/// `semver::Version`: the numbers, then the pre-release tag, then the build
/// metadata).
pub uninterp spec fn semver_order(a: Seq<char>, b: Seq<char>) -> core::cmp::Ordering;

/// Relies on `semver::Version::parse` of both strings and `Ord::cmp` on the
/// two versions: how `a` compares with `b` in semver's precedence.
#[verifier::external_body]
fn compare_versions(a: &str, b: &str) -> (r: core::cmp::Ordering)
    requires
        semver_parts(a@) is Some,
        semver_parts(b@) is Some,
    ensures
        r == semver_order(a@, b@),
{
    match (semver::Version::parse(a), semver::Version::parse(b)) {
        (Ok(x), Ok(y)) => x.cmp(&y),
        _ => core::cmp::Ordering::Equal,
    }
}

/// The major number of a candidate, with any leading `v` dropped.
pub open spec fn major_of(c: Seq<char>) -> u64 {
    semver_parts(strip_all(c, 'v')).unwrap().0
}

/// A candidate on a likely LTS line: its major number is even.
pub open spec fn lts_line(c: Seq<char>) -> bool {
    major_of(c) % 2 == 0
}

/// Candidate `a` ranks strictly above candidate `b`: by semver precedence,
/// or, when `lts_first`, first by being on a likely LTS line and then by
/// semver precedence.
pub open spec fn ranks_above(lts_first: bool, a: Seq<char>, b: Seq<char>) -> bool {
    if lts_first && lts_line(a) != lts_line(b) {
        lts_line(a)
    } else {
        semver_order(strip_all(a, 'v'), strip_all(b, 'v')) == core::cmp::Ordering::Greater
    }
}

/// Whether the candidate `c`, with any leading `v` dropped, is in `range`.
pub open spec fn admitted(range: Seq<char>, c: Seq<char>) -> bool {
    range_admits(range, strip_all(c, 'v'))
}

/// Candidate `i` is admitted and no admitted candidate ranks above it.
pub open spec fn is_top(cands: Seq<Seq<char>>, range: Seq<char>, lts_first: bool, i: int) -> bool {
    0 <= i < cands.len() && admitted(range, cands[i]) && forall|j: int|
        0 <= j < cands.len() && admitted(range, #[trigger] cands[j]) ==> !ranks_above(
            lts_first,
            cands[j],
            cands[i],
        )
}

/// Position `i` holds the choice for `range` among `cands`: the first
/// admitted candidate that nothing admitted ranks above.
pub open spec fn is_pick(cands: Seq<Seq<char>>, range: Seq<char>, lts_first: bool, i: int) -> bool {
    is_top(cands, range, lts_first, i) && forall|j: int|
        0 <= j < i ==> !#[trigger] is_top(cands, range, lts_first, j)
}

pub proof fn lemma_pick_unique(cands: Seq<Seq<char>>, range: Seq<char>, lts_first: bool, i: int, j: int)
    requires
        is_pick(cands, range, lts_first, i),
        is_pick(cands, range, lts_first, j),
    ensures
        i == j,
{
    if i < j {
        assert(is_top(cands, range, lts_first, i));
    } else if j < i {
        assert(is_top(cands, range, lts_first, j));
    }
}

/// A candidate as the choice reads it: without its `v`s, whether it is
/// admitted, and its major number when it is.
struct Candidate {
    bare: String,
    admitted: bool,
    major: u64,
}

/// Whether candidate `a` ranks strictly above candidate `b`; both admitted.
fn above(lts_first: bool, a: &Candidate, b: &Candidate) -> (r: bool)
    requires
        semver_parts(a.bare@) is Some,
        semver_parts(b.bare@) is Some,
    ensures
        r == (if lts_first && (a.major % 2 == 0) != (b.major % 2 == 0) {
            a.major % 2 == 0
        } else {
            semver_order(a.bare@, b.bare@) == core::cmp::Ordering::Greater
        }),
{
    if lts_first && (a.major % 2 == 0) != (b.major % 2 == 0) {
        a.major % 2 == 0
    } else {
        match compare_versions(a.bare.as_str(), b.bare.as_str()) {
            core::cmp::Ordering::Greater => true,
            _ => false,
        }
    }
}

/// The candidate chosen for `range`; see `is_pick`. Each admitted
/// candidate is compared with every other, so nothing about semver's order
/// beyond each single comparison is assumed. Nothing when no candidate is
/// chosen.
pub fn pick(cands: &Vec<String>, range: &str, lts_first: bool) -> (r: Option<usize>)
    ensures
        r matches Some(i) ==> is_pick(cands.deep_view(), range@, lts_first, i as int),
        r is None ==> forall|j: int|
            0 <= j < cands@.len() ==> !is_pick(cands.deep_view(), range@, lts_first, j),
{
    let ghost cs = cands.deep_view();
    let mut read: Vec<Candidate> = Vec::new();
    let mut i: usize = 0;
    while i < cands.len()
        invariant
            i <= cands@.len(),
            cs == cands.deep_view(),
            read@.len() == i,
            forall|k: int|
                0 <= k < i ==> {
                    let c = #[trigger] read@[k];
                    &&& c.bare@ == strip_all(cs[k], 'v')
                    &&& c.admitted == admitted(range@, cs[k])
                    &&& c.admitted ==> semver_parts(c.bare@) is Some && c.major == major_of(cs[k])
                },
        decreases cands@.len() - i,
    {
        let bare = strip_leading(cands[i].as_str(), 'v');
        let ok = range_matches(range, bare.as_str());
        let major = if ok {
            match parse_version(bare.as_str()) {
                Some(k) => k.major,
                None => 0,
            }
        } else {
            0
        };
        read.push(Candidate { bare, admitted: ok, major });
        i = i + 1;
    }
    let mut t: usize = 0;
    while t < read.len()
        invariant
            read@.len() == cs.len(),
            cs == cands.deep_view(),
            t <= read@.len(),
            forall|k: int|
                0 <= k < read@.len() ==> {
                    let c = #[trigger] read@[k];
                    &&& c.bare@ == strip_all(cs[k], 'v')
                    &&& c.admitted == admitted(range@, cs[k])
                    &&& c.admitted ==> semver_parts(c.bare@) is Some && c.major == major_of(cs[k])
                },
            forall|j: int| 0 <= j < t ==> !#[trigger] is_top(cs, range@, lts_first, j),
        decreases read@.len() - t,
    {
        if read[t].admitted {
            let mut top = true;
            let mut j: usize = 0;
            while j < read.len()
                invariant
                    read@.len() == cs.len(),
                    t < read@.len(),
                    j <= read@.len(),
                    read@[t as int].admitted,
                    forall|k: int|
                        0 <= k < read@.len() ==> {
                            let c = #[trigger] read@[k];
                            &&& c.bare@ == strip_all(cs[k], 'v')
                            &&& c.admitted == admitted(range@, cs[k])
                            &&& c.admitted ==> semver_parts(c.bare@) is Some && c.major
                                == major_of(cs[k])
                        },
                    top == (forall|k: int|
                        0 <= k < j && admitted(range@, #[trigger] cs[k]) ==> !ranks_above(
                            lts_first,
                            cs[k],
                            cs[t as int],
                        )),
                decreases read@.len() - j,
            {
                if read[j].admitted {
                    let b = above(lts_first, &read[j], &read[t]);
                    proof {
                        let cj = read@[j as int];
                        let ct = read@[t as int];
                        assert(cj.bare@ == strip_all(cs[j as int], 'v'));
                        assert(ct.bare@ == strip_all(cs[t as int], 'v'));
                        assert(b == ranks_above(lts_first, cs[j as int], cs[t as int]));
                    }
                    if b {
                        top = false;
                    }
                }
                j = j + 1;
            }
            if top {
                proof {
                    assert(is_top(cs, range@, lts_first, t as int));
                    assert(is_pick(cs, range@, lts_first, t as int));
                }
                return Some(t);
            }
            proof {
                assert(!is_top(cs, range@, lts_first, t as int));
            }
        } else {
            proof {
                assert(!is_top(cs, range@, lts_first, t as int));
            }
        }
        t = t + 1;
    }
    proof {
        assert forall|j: int| 0 <= j < cands@.len() implies !is_pick(cs, range@, lts_first, j) by {
            assert(!is_top(cs, range@, lts_first, j));
        }
    }
    None
}

/// What the plain resolver returns for `range`: an exact version or a
/// string that is not a range comes back as it is; otherwise the highest
/// admitted candidate, or `range` itself when none is admitted.
pub open spec fn semver_resolution(cands: Seq<Seq<char>>, range: Seq<char>) -> Seq<char> {
    if semver_parts(range) is Some || !is_semver_range(range) {
        range
    } else if exists|i: int| is_pick(cands, range, false, i) {
        cands[choose|i: int| is_pick(cands, range, false, i)]
    } else {
        range
    }
}

/// Resolves a range against the versions one backend holds.
pub struct SemverResolver<'a> {
    pub version_manager: &'a Plugin,
}

impl<'a> SemverResolver<'a> {
    pub fn new(version_manager: &'a Plugin) -> (r: SemverResolver<'a>)
        ensures
            r.version_manager == version_manager,
    {
        SemverResolver { version_manager }
    }

    /// The version to use for `range`; see `semver_resolution`.
    pub fn resolve(&self, range: &str) -> (r: Result<String, PluginError>)
        ensures
            r matches Ok(s) && s@ == semver_resolution(self.version_manager.spec_versions(), range@),
    {
        if parse_version(range).is_some() {
            return Ok(String::from_str(range));
        }
        if !parses_as_range(range) {
            return Ok(String::from_str(range));
        }
        let installed = match self.version_manager.list_versions() {
            Ok(v) => v,
            Err(e) => {
                return Err(e);
            },
        };
        if installed.len() == 0 {
            return Ok(String::from_str(range));
        }
        match pick(&installed, range, false) {
            Some(i) => {
                proof {
                    let cs = installed.deep_view();
                    let c = choose|j: int| is_pick(cs, range@, false, j);
                    lemma_pick_unique(cs, range@, false, i as int, c);
                }
                Ok(installed[i].clone())
            },
            None => Ok(String::from_str(range)),
        }
    }
}

/// Exact versions are fixed points: resolving the result of resolving an
/// exact version gives the same result.
pub proof fn lemma_exact_resolution_idempotent(cands: Seq<Seq<char>>, v: Seq<char>)
    requires
        semver_parts(v) is Some,
    ensures
        semver_resolution(cands, semver_resolution(cands, v)) == semver_resolution(cands, v),
{
}

} // verus!
