//! Choosing a version for a manifest's `engines.node` range, preferring
//! the user's own default and then likely-LTS lines.
use crate::config::Config;
use crate::plugins::{view_opt, Plugin, PluginError, VersionManagerPlugin};
use crate::registry::{is_first_available, PluginRegistry};
use crate::text::strip_all;
use crate::version::{admitted, is_pick, is_semver_range, lemma_pick_unique, pick};
use vstd::prelude::*;
use vstd::string::*;

verus! {

/// Every version every backend holds, backend by backend in priority order.
pub open spec fn all_versions(ps: Seq<Plugin>) -> Seq<Seq<char>>
    decreases ps.len(),
{
    if ps.len() == 0 {
        seq![]
    } else {
        all_versions(ps.drop_last()) + ps.last().spec_versions()
    }
}

/// The user's default: the configured one when it is set and non-empty,
/// else what the first available backend reports as current.
pub open spec fn user_default(ps: Seq<Plugin>, configured: Option<Seq<char>>) -> Option<Seq<char>> {
    match configured {
        Some(d) if d.len() > 0 => Some(d),
        _ => if exists|i: int| is_first_available(ps, i) {
            ps[choose|i: int| is_first_available(ps, i)].spec_current()
        } else {
            None
        },
    }
}

/// The installed version chosen for `range` when the default does not fit:
/// the first admitted one of the highest rank, likely-LTS lines first; or
/// `range` itself when nothing is installed, it is no range, or nothing fits.
pub open spec fn engines_pick(cands: Seq<Seq<char>>, range: Seq<char>) -> Seq<char> {
    if cands.len() == 0 || !is_semver_range(range) {
        range
    } else if exists|i: int| is_pick(cands, range, true, i) {
        cands[choose|i: int| is_pick(cands, range, true, i)]
    } else {
        range
    }
}

/// What `resolve_smart` returns for `range`.
pub open spec fn engines_resolution(
    ps: Seq<Plugin>,
    configured: Option<Seq<char>>,
    range: Seq<char>,
) -> Seq<char> {
    match user_default(ps, configured) {
        Some(d) if admitted(range, d) => d,
        _ => engines_pick(all_versions(ps), range),
    }
}

/// Resolves a manifest range over every backend of a registry.
pub struct EnginesResolver<'a> {
    pub registry: &'a PluginRegistry,
    pub config: &'a Config,
}

impl<'a> EnginesResolver<'a> {
    pub fn new(registry: &'a PluginRegistry, config: &'a Config) -> (r: EnginesResolver<'a>)
        ensures
            r.registry == registry,
            r.config == config,
    {
        EnginesResolver { registry, config }
    }

    /// Whether a version is on a likely LTS line: an even major number.
    pub fn is_lts_version(&self, version: &crate::version::VersionKey) -> (r: bool)
        ensures
            r == (version.major % 2 == 0),
    {
        version.major % 2 == 0
    }

    /// The user's default version; see `user_default`.
    fn get_default_version(&self) -> (r: Option<String>)
        ensures
            view_opt(r) == user_default(self.registry@, view_opt(self.config.default_version)),
    {
        match &self.config.default_version {
            Some(d) => {
                if d.unicode_len() > 0 {
                    return Some(d.clone());
                }
            },
            None => {},
        }
        match self.registry.find_available_plugin() {
            Ok(Some(p)) => {
                proof {
                    let ps = self.registry@;
                    let i = choose|i: int| is_first_available(ps, i) && *p == ps[i];
                    let c = choose|i: int| is_first_available(ps, i);
                    crate::activation::lemma_first_available_unique(ps, i, c);
                }
                match p.current_version() {
                    Ok(c) => c,
                    Err(_) => None,
                }
            },
            _ => None,
        }
    }

    /// All installed versions across the backends; see `all_versions`.
    fn collect_versions(&self) -> (r: Vec<String>)
        ensures
            r.deep_view() == all_versions(self.registry@),
    {
        let ps = self.registry.plugins();
        let mut out: Vec<String> = Vec::new();
        let mut i: usize = 0;
        while i < ps.len()
            invariant
                i <= ps@.len(),
                ps@ == self.registry@,
                out.deep_view() == all_versions(ps@.take(i as int)),
            decreases ps@.len() - i,
        {
            proof {
                assert(ps@.take(i + 1).drop_last() =~= ps@.take(i as int));
            }
            match ps[i].list_versions() {
                Ok(vs) => {
                    let mut k: usize = 0;
                    let ghost start = out.deep_view();
                    while k < vs.len()
                        invariant
                            k <= vs@.len(),
                            out.deep_view() == start + vs.deep_view().take(k as int),
                        decreases vs@.len() - k,
                    {
                        let ghost before = out.deep_view();
                        out.push(vs[k].clone());
                        assert(out.deep_view() =~= start + vs.deep_view().take(k + 1)) by {
                            assert(out.deep_view() =~= before.push(vs[k as int]@));
                        }
                        k = k + 1;
                    }
                    assert(vs.deep_view().take(vs@.len() as int) =~= vs.deep_view());
                },
                Err(_) => {},
            }
            i = i + 1;
        }
        assert(ps@.take(ps@.len() as int) =~= ps@);
        out
    }

    /// Whether the version written `version` is in `range`.
    fn version_satisfies(version: &str, range: &str) -> (r: bool)
        ensures
            r == admitted(range@, version@),
    {
        let stripped = crate::text::strip_leading(version, 'v');
        crate::version::range_matches(range, stripped.as_str())
    }

    /// The version to use for a manifest range; see `engines_resolution`.
    pub fn resolve_smart(&self, requirement: &str) -> (r: Result<String, PluginError>)
        ensures
            r matches Ok(s) && s@ == engines_resolution(
                self.registry@,
                view_opt(self.config.default_version),
                requirement@,
            ),
    {
        match self.get_default_version() {
            Some(d) => {
                if EnginesResolver::version_satisfies(d.as_str(), requirement) {
                    return Ok(d);
                }
            },
            None => {},
        }
        let all = self.collect_versions();
        if all.len() == 0 {
            return Ok(String::from_str(requirement));
        }
        if !crate::version::parses_as_range(requirement) {
            return Ok(String::from_str(requirement));
        }
        match pick(&all, requirement, true) {
            Some(i) => {
                proof {
                    let cs = all.deep_view();
                    let c = choose|j: int| is_pick(cs, requirement@, true, j);
                    lemma_pick_unique(cs, requirement@, true, i as int, c);
                }
                Ok(all[i].clone())
            },
            None => Ok(String::from_str(requirement)),
        }
    }
}

} // verus!
