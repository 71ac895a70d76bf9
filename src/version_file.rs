//! Finding the version a project declares: the directories searched, the
//! files looked at in each, and how each file is read.
use crate::plugins::{copy_opt, view_opt};
use crate::text::{lines, same_text, split_lines, trim, trim_str};
use vstd::prelude::*;
use vstd::string::*;

verus! {

/// The `engines` object of a package manifest.
#[derive(Debug, Clone)]
pub struct EnginesField {
    pub node: Option<String>,
    pub npm: Option<String>,
}

/// The fields of a package manifest that matter here.
#[derive(Debug, Clone)]
pub struct PackageJson {
    pub path: String,
    pub engines: Option<EnginesField>,
    pub name: Option<String>,
    pub version: Option<String>,
}

/// The `engines.node` range a manifest declares, if any.
pub open spec fn manifest_node(p: PackageJson) -> Option<Seq<char>> {
    match p.engines {
        Some(e) => view_opt(e.node),
        None => None,
    }
}

impl PackageJson {
    /// The `engines.node` field, when the manifest has one.
    pub fn node_version(&self) -> (r: Option<&str>)
        ensures
            match r {
                Some(s) => manifest_node(*self) == Some(s@),
                None => manifest_node(*self) is None,
            },
    {
        match &self.engines {
            Some(e) => match &e.node {
                Some(n) => Some(n.as_str()),
                None => None,
            },
            None => None,
        }
    }

    pub fn has_node_version(&self) -> (r: bool)
        ensures
            r == manifest_node(*self) is Some,
    {
        self.node_version().is_some()
    }
}

/// Where a declared version came from.
#[derive(Debug, Clone, PartialEq, Eq)]
pub enum VersionFileSource {
    Nvmrc,
    NodeVersion,
    PackageJson,
    ToolVersions,
    Other(String),
}

/// A version declaration that was found.
#[derive(Debug, Clone)]
pub struct VersionFile {
    pub path: String,
    pub version: String,
    pub source: VersionFileSource,
}

/// What was found at one candidate path.
#[derive(Debug, Clone)]
pub enum FileProbe {
    /// No regular file there.
    Missing,
    /// A plain version file, with its text.
    Contents(String),
    /// A plain version file that could not be read.
    Unreadable,
    /// A package manifest that parsed.
    Manifest(PackageJson),
    /// A package manifest that could not be read or parsed.
    BadManifest,
}

/// One searched directory, with what was found there for each configured
/// file name, in the configured order.
#[derive(Debug, Clone)]
pub struct DirProbe {
    pub dir: String,
    pub files: Vec<FileProbe>,
}

/// Why the search stopped without a version.
#[derive(Debug, Clone, PartialEq, Eq)]
pub enum FindError {
    /// A plain version file holds no version, only blanks and comments.
    EmptyOrCommentOnly { path: String },
    /// A plain version file could not be read.
    Unreadable { path: String },
    /// A package manifest could not be read or is not valid JSON.
    InvalidManifest { path: String },
}

/// The first declaration among some lines: the first that is not blank
/// once trimmed and does not start with `#`, trimmed.
pub open spec fn first_declaration(ls: Seq<Seq<char>>) -> Option<Seq<char>>
    decreases ls.len(),
{
    if ls.len() == 0 {
        None
    } else {
        let t = trim(ls[0]);
        if t.len() > 0 && t[0] != '#' {
            Some(t)
        } else {
            first_declaration(ls.drop_first())
        }
    }
}

/// The version a plain version file declares, if it declares one.
pub fn parse_declaration(content: &str) -> (r: Option<String>)
    ensures
        view_opt(r) == first_declaration(lines(content@)),
{
    let ls = split_lines(content);
    let ghost all = lines(content@);
    let mut i: usize = 0;
    proof {
        assert(all.skip(0) =~= all);
    }
    while i < ls.len()
        invariant
            i <= ls.len(),
            ls.deep_view() == all,
            all == lines(content@),
            first_declaration(all) == first_declaration(all.skip(i as int)),
        decreases ls.len() - i,
    {
        let t = trim_str(ls[i].as_str());
        proof {
            assert(all.skip(i as int)[0] == all[i as int]);
            assert(all.skip(i as int).drop_first() =~= all.skip(i + 1));
        }
        if t.unicode_len() > 0 && t.as_str().get_char(0) != '#' {
            return Some(t);
        }
        i = i + 1;
    }
    proof {
        assert(all.skip(i as int) =~= Seq::<Seq<char>>::empty());
    }
    None
}

/// The file name that is read as a package manifest.
pub open spec fn manifest_name() -> Seq<char> {
    "package.json"@
}

/// Whether the file called `filename` is to be probed as a manifest.
pub fn is_manifest_name(filename: &str) -> (r: bool)
    ensures
        r == (filename@ == manifest_name()),
{
    same_text(filename, "package.json")
}

/// The source kind a file name stands for.
pub open spec fn source_of(filename: Seq<char>) -> VersionFileSource {
    if filename == ".nvmrc"@ {
        VersionFileSource::Nvmrc
    } else if filename == ".node-version"@ {
        VersionFileSource::NodeVersion
    } else if filename == "package.json"@ {
        VersionFileSource::PackageJson
    } else if filename == ".tool-versions"@ {
        VersionFileSource::ToolVersions
    } else {
        VersionFileSource::Other(arbitrary())
    }
}

pub open spec fn source_for(filename: Seq<char>, s: VersionFileSource) -> bool {
    match s {
        VersionFileSource::Other(x) => x@ == filename && source_of(filename) is Other,
        _ => s == source_of(filename),
    }
}

pub fn detect_source(filename: &str) -> (r: VersionFileSource)
    ensures
        source_for(filename@, r),
{
    if same_text(filename, ".nvmrc") {
        VersionFileSource::Nvmrc
    } else if same_text(filename, ".node-version") {
        VersionFileSource::NodeVersion
    } else if same_text(filename, "package.json") {
        VersionFileSource::PackageJson
    } else if same_text(filename, ".tool-versions") {
        VersionFileSource::ToolVersions
    } else {
        VersionFileSource::Other(String::from_str(filename))
    }
}

/// The path of `name` inside `dir`.
pub open spec fn join(dir: Seq<char>, name: Seq<char>) -> Seq<char> {
    if dir.len() > 0 && dir.last() == '/' {
        dir + name
    } else {
        dir + seq!['/'] + name
    }
}

pub fn join_path(dir: &str, name: &str) -> (r: String)
    ensures
        r@ == join(dir@, name@),
{
    let n = dir.unicode_len();
    let mut p = String::from_str(dir);
    if !(n > 0 && dir.get_char(n - 1) == '/') {
        p.append("/");
        proof {
            reveal_strlit("/");
        }
    }
    p.append(name);
    p
}

/// What one probe means for the search.
pub enum Outcome {
    /// Not a match: the search goes on.
    Skip,
    /// The declared version, as written.
    Declares(Seq<char>),
    /// A plain file with nothing declared in it.
    Empty,
    /// A plain file that could not be read.
    Unreadable,
    /// A manifest that could not be read or parsed.
    Malformed,
}

pub open spec fn outcome(probe: FileProbe) -> Outcome {
    match probe {
        FileProbe::Missing => Outcome::Skip,
        FileProbe::BadManifest => Outcome::Malformed,
        FileProbe::Manifest(p) => match manifest_node(p) {
            Some(v) => Outcome::Declares(v),
            None => Outcome::Skip,
        },
        FileProbe::Unreadable => Outcome::Unreadable,
        FileProbe::Contents(t) => match first_declaration(lines(t@)) {
            Some(v) => Outcome::Declares(v),
            None => Outcome::Empty,
        },
    }
}

/// A probe of the kind its file name calls for: manifest probes at the
/// manifest name only, plain-file probes anywhere else.
pub open spec fn probe_fits(name: Seq<char>, p: FileProbe) -> bool {
    match p {
        FileProbe::Missing => true,
        FileProbe::Manifest(_) => name == manifest_name(),
        FileProbe::BadManifest => name == manifest_name(),
        FileProbe::Contents(_) => name != manifest_name(),
        FileProbe::Unreadable => name != manifest_name(),
    }
}

/// Every probe of the search fits its file name.
pub open spec fn probes_fit(levels: Seq<DirProbe>, names: Seq<Seq<char>>) -> bool {
    forall|d: int, k: int|
        #![trigger probe_at(levels, d, k)]
        in_search(levels, names.len() as int, d, k) ==> probe_fits(names[k], probe_at(levels, d, k))
}

/// The probe of file `k` in directory `d`.
pub open spec fn probe_at(levels: Seq<DirProbe>, d: int, k: int) -> FileProbe {
    levels[d].files@[k]
}

/// Directory `d` comes before directory `d2`, or it is the same one and
/// file `k` comes before file `k2`.
pub open spec fn before(d: int, k: int, d2: int, k2: int) -> bool {
    d < d2 || (d == d2 && k < k2)
}

/// Whether `(d, k)` is a position of the search.
pub open spec fn in_search(levels: Seq<DirProbe>, n: int, d: int, k: int) -> bool {
    0 <= d < levels.len() && 0 <= k < n && k < levels[d].files@.len()
}

/// `(d, k)` is where the search stops: its probe is no skip, and every
/// earlier probe of the search is.
pub open spec fn is_first_hit(levels: Seq<DirProbe>, n: int, d: int, k: int) -> bool {
    in_search(levels, n, d, k) && !(outcome(probe_at(levels, d, k)) is Skip) && forall|
        d2: int,
        k2: int,
    |
        #![trigger probe_at(levels, d2, k2)]
        in_search(levels, n, d2, k2) && before(d2, k2, d, k) ==> outcome(
            probe_at(levels, d2, k2),
        ) is Skip
}

impl VersionFile {
    /// The first declaration of the search: directory by directory in the
    /// given order, and within a directory file by file in the order of
    /// `filenames`. A plain file that is empty, or cannot be read, and a
    /// manifest that cannot be read or parsed end the search with an error;
    /// a missing file or a manifest without `engines.node` does not count.
    pub fn find(levels: &Vec<DirProbe>, filenames: &Vec<String>) -> (r: Result<
        Option<VersionFile>,
        FindError,
    >)
        requires
            probes_fit(levels@, filenames.deep_view()),
        ensures
            match r {
                Ok(None) => forall|d: int, k: int|
                    #![trigger probe_at(levels@, d, k)]
                    in_search(levels@, filenames@.len() as int, d, k) ==> outcome(
                        probe_at(levels@, d, k),
                    ) is Skip,
                Ok(Some(vf)) => exists|d: int, k: int|
                    is_first_hit(levels@, filenames@.len() as int, d, k) && outcome(
                        probe_at(levels@, d, k),
                    ) == Outcome::Declares(vf.version@) && vf.path@ == join(
                        levels@[d].dir@,
                        filenames@[k]@,
                    ) && (vf.source == VersionFileSource::PackageJson <==> filenames@[k]@
                        == manifest_name()) && source_for(filenames@[k]@, vf.source),
                Err(FindError::EmptyOrCommentOnly { path }) => exists|d: int, k: int|
                    is_first_hit(levels@, filenames@.len() as int, d, k) && outcome(
                        probe_at(levels@, d, k),
                    ) is Empty && path@ == join(levels@[d].dir@, filenames@[k]@),
                Err(FindError::Unreadable { path }) => exists|d: int, k: int|
                    is_first_hit(levels@, filenames@.len() as int, d, k) && outcome(
                        probe_at(levels@, d, k),
                    ) is Unreadable && path@ == join(levels@[d].dir@, filenames@[k]@),
                Err(FindError::InvalidManifest { path }) => exists|d: int, k: int|
                    is_first_hit(levels@, filenames@.len() as int, d, k) && outcome(
                        probe_at(levels@, d, k),
                    ) is Malformed && path@ == join(levels@[d].dir@, filenames@[k]@),
            },
    {
        let n = filenames.len();
        let mut d: usize = 0;
        while d < levels.len()
            invariant
                n == filenames@.len(),
                d <= levels@.len(),
                probes_fit(levels@, filenames.deep_view()),
                forall|d2: int, k2: int|
                    #![trigger probe_at(levels@, d2, k2)]
                    in_search(levels@, n as int, d2, k2) && d2 < d ==> outcome(
                        probe_at(levels@, d2, k2),
                    ) is Skip,
            decreases levels@.len() - d,
        {
            let level = &levels[d];
            let mut k: usize = 0;
            while k < n && k < level.files.len()
                invariant
                    n == filenames@.len(),
                    d < levels@.len(),
                    probes_fit(levels@, filenames.deep_view()),
                    *level == levels@[d as int],
                    k <= n,
                    forall|d2: int, k2: int|
                        #![trigger probe_at(levels@, d2, k2)]
                        in_search(levels@, n as int, d2, k2) && before(d2, k2, d as int, k as int)
                            ==> outcome(probe_at(levels@, d2, k2)) is Skip,
                decreases n - k,
            {
                let name = filenames[k].as_str();
                let ghost here = probe_at(levels@, d as int, k as int);
                assert(level.files@[k as int] == here);
                proof {
                    assert(in_search(levels@, n as int, d as int, k as int));
                    assert(probe_fits(filenames.deep_view()[k as int], here));
                    assert(filenames.deep_view()[k as int] == name@);
                    reveal_strlit(".nvmrc");
                    reveal_strlit(".node-version");
                    reveal_strlit("package.json");
                    reveal_strlit(".tool-versions");
                }
                match &level.files[k] {
                    FileProbe::Manifest(p) => {
                        match p.node_version() {
                            Some(v) => {
                                assert(is_first_hit(levels@, n as int, d as int, k as int));
                                return Ok(
                                    Some(
                                        VersionFile {
                                            path: join_path(level.dir.as_str(), name),
                                            version: String::from_str(v),
                                            source: VersionFileSource::PackageJson,
                                        },
                                    ),
                                );
                            },
                            None => {},
                        }
                    },
                    FileProbe::Contents(t) => {
                        match parse_declaration(t.as_str()) {
                            Some(v) => {
                                assert(is_first_hit(levels@, n as int, d as int, k as int));
                                return Ok(
                                    Some(
                                        VersionFile {
                                            path: join_path(level.dir.as_str(), name),
                                            version: v,
                                            source: detect_source(name),
                                        },
                                    ),
                                );
                            },
                            None => {
                                assert(is_first_hit(levels@, n as int, d as int, k as int));
                                return Err(
                                    FindError::EmptyOrCommentOnly {
                                        path: join_path(level.dir.as_str(), name),
                                    },
                                );
                            },
                        }
                    },
                    FileProbe::Unreadable => {
                        assert(is_first_hit(levels@, n as int, d as int, k as int));
                        return Err(
                            FindError::Unreadable { path: join_path(level.dir.as_str(), name) },
                        );
                    },
                    FileProbe::BadManifest => {
                        assert(is_first_hit(levels@, n as int, d as int, k as int));
                        return Err(
                            FindError::InvalidManifest {
                                path: join_path(level.dir.as_str(), name),
                            },
                        );
                    },
                    FileProbe::Missing => {},
                }
                k = k + 1;
            }
            d = d + 1;
        }
        Ok(None)
    }
}


/// Position of the last `/` in `p`, or -1.
pub open spec fn last_slash(p: Seq<char>) -> int
    decreases p.len(),
{
    if p.len() == 0 {
        -1
    } else if p.last() == '/' {
        p.len() - 1
    } else {
        last_slash(p.drop_last())
    }
}

/// The directory above `p`, as `PathBuf::pop` leaves it; nothing above the
/// root or a bare name.
pub open spec fn parent(p: Seq<char>) -> Option<Seq<char>> {
    let i = last_slash(p);
    if i < 0 || p == "/"@ {
        None
    } else if i == 0 {
        Some("/"@)
    } else {
        Some(p.take(i))
    }
}

/// The directories searched from `p` upward: `p`, then each parent in
/// turn, ending with `home` or with the root, whichever comes first.
pub open spec fn walk(p: Seq<char>, home: Seq<char>) -> Seq<Seq<char>>
    decreases p.len(),
{
    if p == home {
        seq![p]
    } else {
        match parent(p) {
            Some(q) => if q.len() < p.len() {
                seq![p] + walk(q, home)
            } else {
                seq![p]
            },
            None => seq![p],
        }
    }
}

pub proof fn lemma_last_slash(p: Seq<char>)
    ensures
        -1 <= last_slash(p) < p.len(),
        last_slash(p) >= 0 ==> p[last_slash(p)] == '/',
        forall|j: int| last_slash(p) < j < p.len() ==> p[j] != '/',
    decreases p.len(),
{
    if p.len() > 0 && p.last() != '/' {
        lemma_last_slash(p.drop_last());
        assert forall|j: int| last_slash(p) < j < p.len() implies p[j] != '/' by {
            if j < p.len() - 1 {
                assert(p.drop_last()[j] == p[j]);
            }
        }
    }
}

/// The parent of `p`, computed.
pub fn parent_dir(p: &str) -> (r: Option<String>)
    ensures
        view_opt(r) == parent(p@),
{
    let n = p.unicode_len();
    let mut i: usize = n;
    proof {
        assert(p@.take(n as int) =~= p@);
    }
    while i > 0 && p.get_char(i - 1) != '/'
        invariant
            n == p@.len(),
            i <= n,
            last_slash(p@) == last_slash(p@.take(i as int)),
        decreases i,
    {
        proof {
            assert(p@.take(i as int).drop_last() =~= p@.take(i - 1));
        }
        i = i - 1;
    }
    if i == 0 {
        proof {
            assert(p@.take(0) =~= Seq::<char>::empty());
        }
        return None;
    }
    proof {
        assert(p@.take(i as int).last() == '/');
        reveal_strlit("/");
    }
    if same_text(p, "/") {
        return None;
    }
    if i == 1 {
        let r = String::from_str("/");
        return Some(r);
    }
    Some(crate::text::slice(p, 0, i - 1))
}

/// The directories to search, from `start` up to `home` or the root.
pub fn search_dirs(start: &str, home: &str) -> (r: Vec<String>)
    ensures
        r.deep_view() == walk(start@, home@),
{
    let mut out: Vec<String> = Vec::new();
    let mut cur = String::from_str(start);
    loop
        invariant
            walk(start@, home@) == out.deep_view() + walk(cur@, home@),
        decreases cur@.len(),
    {
        let ghost before = out.deep_view();
        let ghost c = cur@;
        if same_text(cur.as_str(), home) {
            out.push(cur);
            assert(out.deep_view() =~= before.push(c));
            assert(walk(start@, home@) =~= out.deep_view());
            return out;
        }
        match parent_dir(cur.as_str()) {
            Some(q) => {
                if q.unicode_len() < cur.unicode_len() {
                    out.push(cur);
                    assert(out.deep_view() =~= before.push(c));
                    assert(walk(start@, home@) =~= out.deep_view() + walk(q@, home@));
                    cur = q;
                } else {
                    out.push(cur);
                    assert(out.deep_view() =~= before.push(c));
                    assert(walk(start@, home@) =~= out.deep_view());
                    return out;
                }
            },
            None => {
                out.push(cur);
                assert(out.deep_view() =~= before.push(c));
                assert(walk(start@, home@) =~= out.deep_view());
                return out;
            },
        }
    }
}

/// `p` is `h` or lies below it.
pub open spec fn is_under(p: Seq<char>, h: Seq<char>) -> bool {
    p == h || (h.len() > 0 && p.len() > h.len() && p.take(h.len() as int) == h && (h.last() == '/'
        || p[h.len() as int] == '/'))
}

/// A home directory as canonical paths write it: the root, or a path that
/// does not end in `/`.
pub open spec fn canonical_dir(h: Seq<char>) -> bool {
    h == "/"@ || (h.len() > 0 && h.last() != '/')
}

pub proof fn lemma_parent_stays_under(p: Seq<char>, h: Seq<char>)
    requires
        canonical_dir(h),
        is_under(p, h),
        p != h,
    ensures
        parent(p) matches Some(q) && q.len() < p.len() && is_under(q, h),
{
    reveal_strlit("/");
    lemma_last_slash(p);
    let i = last_slash(p);
    if h.last() == '/' {
        assert(h == "/"@);
        assert(p[0] == '/') by {
            assert(p.take(1)[0] == h[0]);
        }
        assert(i >= 0);
        if p == "/"@ {
            assert(false);
        }
        if i == 0 {
            assert(h =~= "/"@);
        } else {
            let q = p.take(i);
            assert(q.take(1) =~= p.take(1));
        }
    } else {
        assert(p[h.len() as int] == '/');
        assert(i >= h.len());
        assert(p.len() >= 2);
        if p == "/"@ {
            assert(false);
        }
        assert(i > 0);
        let q = p.take(i);
        if i == h.len() {
            assert(q =~= h);
        } else {
            assert(q.take(h.len() as int) =~= p.take(h.len() as int));
            assert(q[h.len() as int] == p[h.len() as int]);
        }
    }
}

/// The search never climbs above home: from any directory at or below a
/// canonical home, every directory searched is at or below home, and the
/// last one is home itself.
pub proof fn lemma_walk_stays_under_home(p: Seq<char>, h: Seq<char>)
    requires
        canonical_dir(h),
        is_under(p, h),
    ensures
        forall|i: int| 0 <= i < walk(p, h).len() ==> is_under(#[trigger] walk(p, h)[i], h),
        walk(p, h).last() == h,
    decreases p.len(),
{
    if p != h {
        lemma_parent_stays_under(p, h);
        let q = parent(p)->Some_0;
        lemma_walk_stays_under_home(q, h);
        assert(walk(p, h) == seq![p] + walk(q, h));
        assert forall|i: int| 0 <= i < walk(p, h).len() implies is_under(#[trigger] walk(p, h)[i], h) by {
            if i > 0 {
                assert(walk(p, h)[i] == walk(q, h)[i - 1]);
            }
        }
    }
}

/// Closer directories win, and within one directory the earlier file name
/// wins: no probe that ends the search comes before the one where it ends.
pub proof fn lemma_first_hit_is_closest(
    levels: Seq<DirProbe>,
    n: int,
    d: int,
    k: int,
    d1: int,
    k1: int,
)
    requires
        is_first_hit(levels, n, d, k),
        in_search(levels, n, d1, k1),
        !(outcome(probe_at(levels, d1, k1)) is Skip),
    ensures
        d <= d1,
        d == d1 ==> k <= k1,
{
    if before(d1, k1, d, k) {
        assert(outcome(probe_at(levels, d1, k1)) is Skip);
    }
}

/// A manifest without `engines.node` never ends the search: it is passed
/// over exactly as if no file stood there, so the search ends where it
/// would end without it, with a later declaration or with nothing.
pub proof fn lemma_manifest_without_node_skipped(
    levels: Seq<DirProbe>,
    without: Seq<DirProbe>,
    n: int,
    d: int,
    k: int,
)
    requires
        in_search(levels, n, d, k),
        probe_at(levels, d, k) matches FileProbe::Manifest(p) && manifest_node(p) is None,
        without.len() == levels.len(),
        forall|i: int| 0 <= i < levels.len() ==> (#[trigger] without[i]).files@.len() == levels[i].files@.len(),
        probe_at(without, d, k) is Missing,
        forall|d2: int, k2: int|
            #![trigger probe_at(without, d2, k2)]
            in_search(levels, n, d2, k2) && (d2 != d || k2 != k) ==> probe_at(without, d2, k2)
                == probe_at(levels, d2, k2),
    ensures
        outcome(probe_at(levels, d, k)) is Skip,
        !is_first_hit(levels, n, d, k),
        forall|d2: int, k2: int|
            is_first_hit(levels, n, d2, k2) <==> is_first_hit(without, n, d2, k2),
        (forall|d2: int, k2: int|
            #![trigger probe_at(levels, d2, k2)]
            in_search(levels, n, d2, k2) ==> outcome(probe_at(levels, d2, k2)) is Skip) <==> (
        forall|d2: int, k2: int|
            #![trigger probe_at(without, d2, k2)]
            in_search(without, n, d2, k2) ==> outcome(probe_at(without, d2, k2)) is Skip),
{
    assert forall|d2: int, k2: int| in_search(levels, n, d2, k2) <==> in_search(without, n, d2, k2) by {
        if 0 <= d2 < levels.len() {
            assert(without[d2].files@.len() == levels[d2].files@.len());
        }
    }
    assert forall|d2: int, k2: int|
        in_search(levels, n, d2, k2) implies outcome(probe_at(levels, d2, k2)) == outcome(
            probe_at(without, d2, k2),
        ) by {
        if d2 == d && k2 == k {
        } else {
            assert(probe_at(without, d2, k2) == probe_at(levels, d2, k2));
        }
    }
    assert forall|d2: int, k2: int|
        is_first_hit(levels, n, d2, k2) <==> is_first_hit(without, n, d2, k2) by {
        if is_first_hit(levels, n, d2, k2) {
            assert forall|d3: int, k3: int|
                #![trigger probe_at(without, d3, k3)]
                in_search(without, n, d3, k3) && before(d3, k3, d2, k2) implies outcome(
                    probe_at(without, d3, k3),
                ) is Skip by {
                assert(in_search(levels, n, d3, k3));
                assert(outcome(probe_at(levels, d3, k3)) is Skip);
            }
        }
        if is_first_hit(without, n, d2, k2) {
            assert(in_search(levels, n, d2, k2));
            assert forall|d3: int, k3: int|
                #![trigger probe_at(levels, d3, k3)]
                in_search(levels, n, d3, k3) && before(d3, k3, d2, k2) implies outcome(
                    probe_at(levels, d3, k3),
                ) is Skip by {
                assert(in_search(without, n, d3, k3));
                assert(outcome(probe_at(without, d3, k3)) is Skip);
            }
        }
    }
    if forall|d2: int, k2: int|
        #![trigger probe_at(levels, d2, k2)]
        in_search(levels, n, d2, k2) ==> outcome(probe_at(levels, d2, k2)) is Skip {
        assert forall|d2: int, k2: int|
            #![trigger probe_at(without, d2, k2)]
            in_search(without, n, d2, k2) implies outcome(probe_at(without, d2, k2)) is Skip by {
            assert(in_search(levels, n, d2, k2));
        }
    }
    if forall|d2: int, k2: int|
        #![trigger probe_at(without, d2, k2)]
        in_search(without, n, d2, k2) ==> outcome(probe_at(without, d2, k2)) is Skip {
        assert forall|d2: int, k2: int|
            #![trigger probe_at(levels, d2, k2)]
            in_search(levels, n, d2, k2) implies outcome(probe_at(levels, d2, k2)) is Skip by {
            assert(in_search(without, n, d2, k2));
            assert(outcome(probe_at(levels, d2, k2)) == outcome(probe_at(without, d2, k2)));
        }
    }
}

/// A search over the directories of `walk` from `p` up to a canonical home
/// at or above `p` never looks above home: every directory it probes, and so
/// the one where it ends, is home or lies below it.
pub proof fn lemma_search_stays_under_home(levels: Seq<DirProbe>, p: Seq<char>, h: Seq<char>, n: int)
    requires
        canonical_dir(h),
        is_under(p, h),
        levels.len() == walk(p, h).len(),
        forall|i: int| 0 <= i < levels.len() ==> (#[trigger] levels[i]).dir@ == walk(p, h)[i],
    ensures
        forall|d: int, k: int|
            #![trigger probe_at(levels, d, k)]
            in_search(levels, n, d, k) ==> is_under(levels[d].dir@, h),
        forall|d: int, k: int| is_first_hit(levels, n, d, k) ==> is_under(levels[d].dir@, h),
{
    lemma_walk_stays_under_home(p, h);
    assert forall|d: int, k: int|
        #![trigger probe_at(levels, d, k)]
        in_search(levels, n, d, k) implies is_under(levels[d].dir@, h) by {
        assert(levels[d].dir@ == walk(p, h)[d]);
    }
    assert forall|d: int, k: int| is_first_hit(levels, n, d, k) implies is_under(levels[d].dir@, h) by {
        assert(levels[d].dir@ == walk(p, h)[d]);
    }
}

} // verus!
