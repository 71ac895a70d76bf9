//! The configured backends, in priority order, and the searches over them.
use crate::plugins::{FnmPlugin, NvmPlugin, Plugin, VersionManagerPlugin};
use crate::text::same_text;
use vstd::prelude::*;
use vstd::string::*;

verus! {

/// The names of `names` that denote a known backend, in order, repeats kept.
pub open spec fn known_names(names: Seq<Seq<char>>) -> Seq<Seq<char>>
    decreases names.len(),
{
    if names.len() == 0 {
        seq![]
    } else {
        let rest = known_names(names.drop_last());
        if names.last() == "nvm"@ || names.last() == "fnm"@ {
            rest.push(names.last())
        } else {
            rest
        }
    }
}

/// The names of a list of backends.
pub open spec fn names_of(ps: Seq<Plugin>) -> Seq<Seq<char>> {
    ps.map_values(|p: Plugin| p.spec_name())
}

/// A backend that is available and holds `version`.
pub open spec fn serves(p: Plugin, version: Seq<char>) -> bool {
    p.spec_available() && p.spec_has(version)
}

/// `i` is the first position whose backend is available.
pub open spec fn is_first_available(ps: Seq<Plugin>, i: int) -> bool {
    0 <= i < ps.len() && ps[i].spec_available() && forall|j: int|
        0 <= j < i ==> !(#[trigger] ps[j]).spec_available()
}

/// `i` is the first position whose backend serves `version`.
pub open spec fn is_first_serving(ps: Seq<Plugin>, version: Seq<char>, i: int) -> bool {
    0 <= i < ps.len() && serves(ps[i], version) && forall|j: int|
        0 <= j < i ==> !serves(#[trigger] ps[j], version)
}

/// The available backends of `ps`, in order.
pub open spec fn available_of(ps: Seq<Plugin>) -> Seq<Plugin>
    decreases ps.len(),
{
    if ps.len() == 0 {
        seq![]
    } else {
        let rest = available_of(ps.drop_last());
        if ps.last().spec_available() {
            rest.push(ps.last())
        } else {
            rest
        }
    }
}

/// The backends of this invocation, in the priority order of the
/// configuration; fixed once built.
#[derive(Debug)]
pub struct PluginRegistry {
    plugins: Vec<Plugin>,
}

impl View for PluginRegistry {
    type V = Seq<Plugin>;

    closed spec fn view(&self) -> Seq<Plugin> {
        self.plugins@
    }
}

impl PluginRegistry {
    /// One backend for each known name of `plugin_names`, in order: nvm
    /// and fnm as the two probes describe them. Unknown names are skipped;
    /// a name given twice gives two entries.
    pub fn from_probes(plugin_names: &[String], nvm: &NvmPlugin, fnm: &FnmPlugin) -> (r:
        PluginRegistry)
        ensures
            names_of(r@) == known_names(plugin_names@.map_values(|s: String| s@)),
            forall|i: int|
                0 <= i < r@.len() ==> match #[trigger] r@[i] {
                    Plugin::Nvm(p) => p.same_as(nvm),
                    Plugin::Fnm(p) => p.same_as(fnm),
                    Plugin::Mock(_) => false,
                },
    {
        let ghost names = plugin_names@.map_values(|s: String| s@);
        let mut plugins: Vec<Plugin> = Vec::new();
        let mut i: usize = 0;
        while i < plugin_names.len()
            invariant
                i <= plugin_names@.len(),
                names == plugin_names@.map_values(|s: String| s@),
                names_of(plugins@) == known_names(names.take(i as int)),
                forall|k: int|
                    0 <= k < plugins@.len() ==> match #[trigger] plugins@[k] {
                        Plugin::Nvm(p) => p.same_as(nvm),
                        Plugin::Fnm(p) => p.same_as(fnm),
                        Plugin::Mock(_) => false,
                    },
            decreases plugin_names@.len() - i,
        {
            let name = plugin_names[i].as_str();
            let ghost before = plugins@;
            proof {
                assert(names.take(i + 1).drop_last() =~= names.take(i as int));
                assert(names.take(i + 1).last() == name@);
            }
            if same_text(name, "nvm") {
                plugins.push(Plugin::Nvm(nvm.copy()));
                assert(names_of(plugins@) =~= names_of(before).push("nvm"@));
            } else if same_text(name, "fnm") {
                plugins.push(Plugin::Fnm(fnm.copy()));
                assert(names_of(plugins@) =~= names_of(before).push("fnm"@));
            }
            i = i + 1;
        }
        assert(names.take(plugin_names@.len() as int) =~= names);
        PluginRegistry { plugins }
    }

    /// The backends named in `plugin_names`, not yet probed.
    pub fn new(plugin_names: &[String]) -> (r: PluginRegistry)
        ensures
            names_of(r@) == known_names(plugin_names@.map_values(|s: String| s@)),
            forall|i: int| 0 <= i < r@.len() ==> !(#[trigger] r@[i]).spec_available(),
    {
        let nvm = NvmPlugin::new();
        let fnm = FnmPlugin::new();
        PluginRegistry::from_probes(plugin_names, &nvm, &fnm)
    }

    /// nvm, then fnm, neither probed.
    pub fn default() -> (r: PluginRegistry)
        ensures
            names_of(r@) == seq!["nvm"@, "fnm"@],
    {
        let names = vec![String::from_str("nvm"), String::from_str("fnm")];
        let r = PluginRegistry::new(names.as_slice());
        proof {
            let ns = names@.map_values(|s: String| s@);
            assert(ns =~= seq!["nvm"@, "fnm"@]);
            assert(ns.drop_last() =~= seq!["nvm"@]);
            assert(ns.drop_last().drop_last() =~= Seq::<Seq<char>>::empty());
            assert(known_names(ns.drop_last().drop_last()) =~= Seq::<Seq<char>>::empty());
            assert(known_names(ns.drop_last()) =~= seq!["nvm"@]);
            assert(known_names(ns) =~= seq!["nvm"@, "fnm"@]);
        }
        r
    }

    /// A registry of the given backends, in the given order.
    pub fn with_plugins(plugins: Vec<Plugin>) -> (r: PluginRegistry)
        ensures
            r@ == plugins@,
    {
        PluginRegistry { plugins }
    }

    /// All backends, in priority order.
    pub fn plugins(&self) -> (r: &[Plugin])
        ensures
            r@ == self@,
    {
        self.plugins.as_slice()
    }

    /// The first backend, in priority order, that is available.
    pub fn find_available_plugin(&self) -> (r: Result<Option<&Plugin>, crate::plugins::PluginError>)
        ensures
            r matches Ok(Some(p)) ==> exists|i: int| is_first_available(self@, i) && *p == self@[i],
            r matches Ok(None) ==> forall|j: int|
                0 <= j < self@.len() ==> !(#[trigger] self@[j]).spec_available(),
            r is Ok,
    {
        let mut i: usize = 0;
        while i < self.plugins.len()
            invariant
                i <= self@.len(),
                self@ == self.plugins@,
                forall|j: int| 0 <= j < i ==> !(#[trigger] self@[j]).spec_available(),
            decreases self.plugins.len() - i,
        {
            let p = &self.plugins[i];
            match p.is_available() {
                Ok(true) => {
                    assert(is_first_available(self@, i as int));
                    return Ok(Some(p));
                },
                _ => {},
            }
            i = i + 1;
        }
        Ok(None)
    }

    /// The first backend, in priority order, that is available and holds
    /// `version`. A backend whose checks fail counts as not holding it.
    pub fn find_plugin_with_version(&self, version: &str) -> (r: Result<
        Option<&Plugin>,
        crate::plugins::PluginError,
    >)
        ensures
            r matches Ok(Some(p)) ==> exists|i: int|
                is_first_serving(self@, version@, i) && *p == self@[i],
            r matches Ok(None) ==> forall|j: int|
                0 <= j < self@.len() ==> !serves(#[trigger] self@[j], version@),
            r is Ok,
    {
        let mut i: usize = 0;
        while i < self.plugins.len()
            invariant
                i <= self@.len(),
                self@ == self.plugins@,
                forall|j: int| 0 <= j < i ==> !serves(#[trigger] self@[j], version@),
            decreases self.plugins.len() - i,
        {
            let p = &self.plugins[i];
            let available = match p.is_available() {
                Ok(b) => b,
                Err(_) => false,
            };
            if available {
                match p.has_version(version) {
                    Ok(true) => {
                        assert(is_first_serving(self@, version@, i as int));
                        return Ok(Some(p));
                    },
                    _ => {},
                }
            }
            i = i + 1;
        }
        Ok(None)
    }

    /// Every available backend, in priority order.
    pub fn available_plugins(&self) -> (r: Vec<&Plugin>)
        ensures
            r@.map_values(|p: &Plugin| *p) == available_of(self@),
    {
        let mut out: Vec<&Plugin> = Vec::new();
        let mut i: usize = 0;
        while i < self.plugins.len()
            invariant
                i <= self@.len(),
                self@ == self.plugins@,
                out@.map_values(|p: &Plugin| *p) == available_of(self@.take(i as int)),
            decreases self.plugins.len() - i,
        {
            let p = &self.plugins[i];
            proof {
                assert(self@.take(i + 1).drop_last() =~= self@.take(i as int));
            }
            let available = match p.is_available() {
                Ok(b) => b,
                Err(_) => false,
            };
            let ghost before = out@;
            if available {
                out.push(p);
                assert(out@.map_values(|p: &Plugin| *p) =~= before.map_values(|p: &Plugin| *p).push(self@[i as int]));
            }
            i = i + 1;
        }
        assert(self@.take(self@.len() as int) =~= self@);
        out
    }

    /// The first backend called `name`.
    pub fn get_plugin(&self, name: &str) -> (r: Option<&Plugin>)
        ensures
            r matches Some(p) ==> exists|i: int|
                0 <= i < self@.len() && self@[i].spec_name() == name@ && *p == self@[i] && forall|
                    j: int,
                | 0 <= j < i ==> (#[trigger] self@[j]).spec_name() != name@,
            r is None ==> forall|j: int|
                0 <= j < self@.len() ==> (#[trigger] self@[j]).spec_name() != name@,
    {
        let mut i: usize = 0;
        while i < self.plugins.len()
            invariant
                i <= self@.len(),
                self@ == self.plugins@,
                forall|j: int| 0 <= j < i ==> (#[trigger] self@[j]).spec_name() != name@,
            decreases self.plugins.len() - i,
        {
            let p = &self.plugins[i];
            if same_text(p.name(), name) {
                return Some(p);
            }
            i = i + 1;
        }
        None
    }
}


/// Configured order is the only tie-break: when every backend but the one at
/// `u` is available and holds `version`, and that one is unavailable, the
/// backend that serves first is the first one, or the second when `u` is the
/// first; and some backend does serve.
pub proof fn lemma_priority_decides(ps: Seq<Plugin>, version: Seq<char>, u: int)
    requires
        ps.len() >= 2,
        0 <= u < ps.len(),
        !ps[u].spec_available(),
        forall|j: int|
            0 <= j < ps.len() && j != u ==> (#[trigger] ps[j]).spec_available() && ps[j].spec_has(
                version,
            ),
    ensures
        is_first_serving(ps, version, if u == 0 { 1int } else { 0int }),
        forall|i: int| is_first_serving(ps, version, i) ==> i == (if u == 0 { 1int } else { 0int }),
{
    let w: int = if u == 0 { 1 } else { 0 };
    assert(serves(ps[w], version));
    assert forall|i: int| is_first_serving(ps, version, i) implies i == w by {
        if i < w {
            assert(i == 0 && u == 0);
        } else if i > w {
            assert(!serves(ps[w], version));
        }
    }
}

} // verus!
