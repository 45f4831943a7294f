use vstd::prelude::*;
use crate::error::CompilationError;
use dashmap::DashMap;
use vstd::string::StringExecFns;

verus! {

/// Whether the text decodes as a JSON object.
pub uninterp spec fn is_json_object(text: Seq<char>) -> bool;

/// The `{:?}` rendering of the error that decoding the text stops on.
pub uninterp spec fn json_error_message(text: Seq<char>) -> Seq<char>;

/// Relies on serde_json::from_str: decoding a text into a JSON object map
/// succeeds or fails by the text alone. The error is rendered with `{:?}`.
#[verifier::external_body]
fn json_object_error(text: &str) -> (r: Option<String>)
    ensures
        r is None <==> is_json_object(text@),
        r matches Some(msg) ==> msg@ == json_error_message(text@),
{
    match serde_json::from_str::<serde_json::Map<String, serde_json::Value>>(text) {
        Ok(_) => None,
        Err(e) => Some(format!("{e:?}")),
    }
}

/// One parsed manifest: its raw text and the directory that holds the file.
#[derive(Clone, Debug)]
pub struct ManifestInfo {
    pub raw: String,
    pub dir: String,
}

pub struct ManifestView {
    pub raw: Seq<char>,
    pub dir: Seq<char>,
}

impl View for ManifestInfo {
    type V = ManifestView;

    open spec fn view(&self) -> ManifestView {
        ManifestView { raw: self.raw@, dir: self.dir@ }
    }
}

impl ManifestInfo {
    pub fn duplicate(&self) -> (r: ManifestInfo)
        ensures
            r@ == self@,
    {
        ManifestInfo { raw: self.raw.clone(), dir: self.dir.clone() }
    }
}

#[verifier::external_type_specification]
#[verifier::external_body]
#[verifier::reject_recursive_types(K)]
#[verifier::reject_recursive_types(V)]
#[verifier::reject_recursive_types(S)]
pub struct ExDashMap<K, V, S>(DashMap<K, V, S>);

/// What a manifest cache holds: for each directory, the nearest manifest.
pub uninterp spec fn cache_contents(cache: DashMap<String, ManifestInfo>) -> Map<Seq<char>, ManifestView>;

pub open spec fn empty_cache() -> Map<Seq<char>, ManifestView> {
    Map::empty()
}

/// Relies on `DashMap::new`: a new map holds no entry.
#[verifier::external_body]
fn cache_new() -> (r: DashMap<String, ManifestInfo>)
    ensures
        cache_contents(r) == empty_cache(),
{
    DashMap::new()
}

/// Relies on `DashMap::get`: the value stored under the key, if there is one.
#[verifier::external_body]
fn cache_get(m: &DashMap<String, ManifestInfo>, key: &String) -> (r: Option<ManifestInfo>)
    ensures
        r is None <==> !cache_contents(*m).contains_key(key@),
        r matches Some(info) ==> info@ == cache_contents(*m)[key@],
{
    m.get(key).map(|entry| entry.value().duplicate())
}

/// Relies on `DashMap::insert`: afterwards the key maps to the value, and
/// every other key keeps what it had.
#[verifier::external_body]
fn cache_insert(m: &mut DashMap<String, ManifestInfo>, key: String, info: ManifestInfo)
    ensures
        cache_contents(*final(m)) == cache_contents(*old(m)).insert(key@, info@),
{
    m.insert(key, info);
}

/// Relies on `DashMap::iter`: it yields each stored entry once; keys and
/// values are copied out.
#[verifier::external_body]
fn cache_entries(m: &DashMap<String, ManifestInfo>) -> (r: Vec<(String, ManifestInfo)>)
    ensures
        forall|i: int| 0 <= i < r@.len() ==> cache_contents(*m).contains_key(#[trigger] r@[i].0@)
            && cache_contents(*m)[r@[i].0@] == r@[i].1@,
        forall|k: Seq<char>| cache_contents(*m).contains_key(k) ==> exists|i: int| 0 <= i < r@.len()
            && #[trigger] r@[i].0@ == k,
        forall|i: int, j: int| 0 <= i < j < r@.len() ==> r@[i].0@ != r@[j].0@,
{
    m.iter().map(|entry| (entry.key().clone(), entry.value().duplicate())).collect()
}

/// What looking for a manifest file in a directory found.
pub enum ManifestProbe {
    /// No manifest file there.
    Missing,
    /// The file at `file` was read; its text is `content`.
    Found { file: String, content: String },
    /// The file at `file` is there but could not be read.
    Unreadable { file: String, msg: String },
}

/// What the search does after looking in a directory.
#[derive(Debug)]
pub enum WalkStep {
    /// Go on to the parent directory.
    Continue,
    /// The search is over, with this result.
    Done(Result<ManifestInfo, CompilationError>),
}

/// How a search that found a manifest file at `file` with text `content`
/// ends: a malformed text is a load error naming the file and the cache stays
/// as it was; a well-formed one is recorded for every visited directory.
pub open spec fn found_outcome(
    before: Map<Seq<char>, ManifestView>,
    after: Map<Seq<char>, ManifestView>,
    visited: Seq<Seq<char>>,
    file: Seq<char>,
    content: Seq<char>,
    r: Result<ManifestInfo, CompilationError>,
) -> bool {
    match r {
        Ok(info) => {
            &&& is_json_object(content)
            &&& info@ == (ManifestView { raw: content, dir: visited.last() })
            &&& after == with_manifest(before, visited, info@)
        },
        Err(e) => {
            &&& !is_json_object(content)
            &&& after == before
            &&& match e {
                CompilationError::LoadPackageJson { package_json_path, err_message } => {
                    package_json_path@ == file && err_message@ == json_error_message(content)
                },
                _ => false,
            }
        },
    }
}

/// The directories of a list, as text.
pub open spec fn dir_views(dirs: Seq<String>) -> Seq<Seq<char>> {
    dirs.map_values(|d: String| d@)
}

/// How a search over candidate directories `dirs` from `start` ends, when
/// candidate `k` is the first that is cached or holds a manifest file (`k`
/// is the number of candidates when none does), given what was found by
/// looking in the candidates that were looked in.
pub open spec fn search_outcome(
    before: Map<Seq<char>, ManifestView>,
    after: Map<Seq<char>, ManifestView>,
    start: Seq<char>,
    dirs: Seq<Seq<char>>,
    k: int,
    probes: Seq<ManifestProbe>,
    r: Result<ManifestInfo, CompilationError>,
) -> bool {
    if k == dirs.len() {
        &&& after == before
        &&& match r {
            Err(CompilationError::PackageJsonNotFound { package_json_path, err_message }) => {
                package_json_path@ == start && err_message@ == not_found_message()
            },
            _ => false,
        }
    } else if before.contains_key(dirs[k]) {
        &&& probes.len() == k
        &&& after == before
        &&& match r {
            Ok(info) => info@ == before[dirs[k]],
            _ => false,
        }
    } else {
        &&& probes.len() == k + 1
        &&& match probes[k] {
            ManifestProbe::Missing => false,
            ManifestProbe::Unreadable { file, msg } => after == before && r == Err::<ManifestInfo, CompilationError>(
                CompilationError::Io { path: file, msg },
            ),
            ManifestProbe::Found { file, content } => found_outcome(
                before,
                after,
                dirs.subrange(0, k + 1),
                file@,
                content@,
                r,
            ),
        }
    }
}

/// The cache after `info` was recorded for each of `dirs`.
pub open spec fn with_manifest(
    cache: Map<Seq<char>, ManifestView>,
    dirs: Seq<Seq<char>>,
    info: ManifestView,
) -> Map<Seq<char>, ManifestView> {
    Map::new(
        |k: Seq<char>| cache.contains_key(k) || dirs.contains(k),
        |k: Seq<char>|
            if dirs.contains(k) {
                info
            } else {
                cache[k]
            },
    )
}

pub open spec fn not_found_message() -> Seq<char> {
    "Can not find package.json in all ancestor directories"@
}

/// An upward search in progress: where it started, and the directories
/// checked so far, deepest first.
pub struct ManifestWalk {
    pub start: String,
    pub visited: Vec<String>,
}

impl ManifestWalk {
    pub open spec fn visited_view(&self) -> Seq<Seq<char>> {
        self.visited@.map_values(|d: String| d@)
    }

    pub fn new(start: String) -> (r: ManifestWalk)
        ensures
            r.start@ == start@,
            r.visited_view() == Seq::<Seq<char>>::empty(),
    {
        let r = ManifestWalk { start, visited: Vec::new() };
        assert(r.visited_view() =~= Seq::<Seq<char>>::empty());
        r
    }
}

/// Resolves the nearest package manifest of a directory and remembers the
/// answer for every directory that a successful search passed through.
/// Searches that write to the cache take the loader by `&mut`; threads that
/// share one loader hold it behind a lock.
pub struct PackageJsonLoader {
    cache: DashMap<String, ManifestInfo>,
}

impl View for PackageJsonLoader {
    type V = Map<Seq<char>, ManifestView>;

    closed spec fn view(&self) -> Map<Seq<char>, ManifestView> {
        cache_contents(self.cache)
    }
}

impl PackageJsonLoader {
    pub fn new() -> (r: PackageJsonLoader)
        ensures
            r@ == empty_cache(),
    {
        PackageJsonLoader { cache: cache_new() }
    }

    /// The manifest cached for `dir`, if any.
    pub fn get(&self, dir: &String) -> (r: Option<ManifestInfo>)
        ensures
            r is None <==> !self@.contains_key(dir@),
            r matches Some(info) ==> info@ == self@[dir@],
    {
        cache_get(&self.cache, dir)
    }

    /// One step of the upward search: `dir` is the next candidate. A cached
    /// answer ends the search at once; otherwise `dir` joins the visited list
    /// and the caller looks for a manifest file inside it.
    pub fn visit(&self, walk: &mut ManifestWalk, dir: String) -> (r: Option<ManifestInfo>)
        ensures
            r is None <==> !self@.contains_key(dir@),
            r matches Some(info) ==> info@ == self@[dir@],
            final(walk).start == old(walk).start,
            r is Some ==> final(walk).visited_view() == old(walk).visited_view(),
            r is None ==> final(walk).visited_view() == old(walk).visited_view().push(dir@),
    {
        let hit = self.get(&dir);
        if hit.is_none() {
            walk.visited.push(dir);
            assert(walk.visited_view() =~= old(walk).visited_view().push(dir@));
        }
        hit
    }

    /// Ends the search at the last visited directory, which holds a manifest
    /// file at `file` with text `content`. A malformed manifest is an error
    /// and leaves the cache as it was; a well-formed one is recorded for every
    /// visited directory and returned.
    pub fn found(&mut self, walk: &ManifestWalk, file: String, content: String) -> (r: Result<
        ManifestInfo,
        CompilationError,
    >)
        requires
            walk.visited@.len() > 0,
        ensures
            found_outcome(old(self)@, final(self)@, walk.visited_view(), file@, content@, r),
    {
        match json_object_error(content.as_str()) {
            Some(msg) => Err(CompilationError::LoadPackageJson { package_json_path: file, err_message: msg }),
            None => Ok(self.record(walk, content)),
        }
    }

    /// Decides what a look for a manifest file in the last visited directory
    /// means: none there sends the search on to the parent directory; a file
    /// that cannot be read is an error; a file that was read ends the search
    /// as `found` does.
    pub fn after_probe(&mut self, walk: &ManifestWalk, probe: ManifestProbe) -> (r: WalkStep)
        requires
            walk.visited@.len() > 0,
        ensures
            probe is Missing ==> r is Continue && final(self)@ == old(self)@,
            probe matches ManifestProbe::Unreadable { file, msg } ==> final(self)@ == old(self)@
                && r == WalkStep::Done(Err(CompilationError::Io { path: file, msg })),
            probe matches ManifestProbe::Found { file, content } ==> (r matches WalkStep::Done(res)
                && found_outcome(old(self)@, final(self)@, walk.visited_view(), file@, content@, res)),
    {
        match probe {
            ManifestProbe::Missing => WalkStep::Continue,
            ManifestProbe::Unreadable { file, msg } => WalkStep::Done(
                Err(CompilationError::Io { path: file, msg }),
            ),
            ManifestProbe::Found { file, content } => WalkStep::Done(self.found(walk, file, content)),
        }
    }

    /// Records the well-formed manifest with text `content`, found in the
    /// last visited directory, for every directory of the search.
    pub fn record(&mut self, walk: &ManifestWalk, content: String) -> (info: ManifestInfo)
        requires
            walk.visited@.len() > 0,
        ensures
            info@ == (ManifestView { raw: content@, dir: walk.visited_view().last() }),
            final(self)@ == with_manifest(old(self)@, walk.visited_view(), info@),
    {
        let n = walk.visited.len();
        let info = ManifestInfo { raw: content, dir: walk.visited[n - 1].clone() };
        let ghost old_cache = self@;
        let ghost dirs = walk.visited_view();
        let mut i: usize = 0;
        assert(with_manifest(old_cache, dirs.subrange(0, 0), info@) =~= old_cache);
        while i < n
            invariant
                n == walk.visited@.len(),
                dirs == walk.visited_view(),
                i <= n,
                self@ == with_manifest(old_cache, dirs.subrange(0, i as int), info@),
            decreases n - i,
        {
            cache_insert(&mut self.cache, walk.visited[i].clone(), info.duplicate());
            let ghost before = dirs.subrange(0, i as int);
            let ghost after = dirs.subrange(0, i + 1);
            assert(after =~= before.push(dirs[i as int]));
            assert forall|k: Seq<char>| after.contains(k) == (before.contains(k) || k == dirs[i as int]) by {
                if before.contains(k) {
                    let j = choose|j: int| 0 <= j < before.len() && before[j] == k;
                    assert(after[j] == k);
                }
                if k == dirs[i as int] {
                    assert(after[i as int] == k);
                }
                if after.contains(k) && k != dirs[i as int] {
                    let j = choose|j: int| 0 <= j < after.len() && after[j] == k;
                    assert(before[j] == k);
                }
            }
            assert(self@ =~= with_manifest(old_cache, after, info@));
            i = i + 1;
        }
        assert(dirs.subrange(0, n as int) =~= dirs);
        info
    }

    /// The whole upward search. `ancestors` lists the candidate directories,
    /// deepest first: the start directory and each ancestor that still has a
    /// parent. `probe` looks for a manifest file in one of them. The search
    /// stops at the first candidate that is cached or holds a manifest file,
    /// and probes nothing after it; it ends in the not-found error when no
    /// candidate does.
    pub fn resolve<P: Fn(&String) -> ManifestProbe>(
        &mut self,
        start: &String,
        ancestors: &Vec<String>,
        probe: P,
    ) -> (r: Result<ManifestInfo, CompilationError>)
        requires
            forall|d: &String| probe.requires((d,)),
        ensures
            exists|k: int, probes: Seq<ManifestProbe>|
                {
                    &&& 0 <= k <= ancestors@.len()
                    &&& k <= probes.len() <= k + 1
                    &&& forall|j: int| 0 <= j < probes.len() ==> probe.ensures((&ancestors@[j],), #[trigger] probes[j])
                    &&& forall|j: int| 0 <= j < k ==> !old(self)@.contains_key(#[trigger] ancestors@[j]@) && probes[j] is Missing
                    &&& #[trigger] search_outcome(old(self)@, final(self)@, start@, dir_views(ancestors@), k, probes, r)
                },
    {
        let n = ancestors.len();
        let mut walk = ManifestWalk::new(start.clone());
        let ghost mut probes: Seq<ManifestProbe> = Seq::empty();
        let ghost dirs = dir_views(ancestors@);
        let ghost old_cache = self@;
        let mut i: usize = 0;
        while i < n
            invariant
                n == ancestors@.len(),
                dirs == dir_views(ancestors@),
                i <= n,
                self@ == old_cache,
                old_cache == old(self)@,
                walk.start@ == start@,
                walk.visited_view() == dirs.subrange(0, i as int),
                probes.len() == i,
                forall|d: &String| probe.requires((d,)),
                forall|j: int| 0 <= j < i ==> probe.ensures((&ancestors@[j],), #[trigger] probes[j]),
                forall|j: int| 0 <= j < i ==> !old_cache.contains_key(#[trigger] ancestors@[j]@) && probes[j] is Missing,
            decreases n - i,
        {
            let dir = ancestors[i].clone();
            if let Some(hit) = self.visit(&mut walk, dir) {
                assert(search_outcome(old_cache, self@, start@, dirs, i as int, probes, Ok(hit)));
                assert(forall|j: int| 0 <= j < probes.len() ==> probe.ensures((&ancestors@[j],), #[trigger] probes[j]));
                assert(forall|j: int| 0 <= j < i ==> !old_cache.contains_key(#[trigger] ancestors@[j]@) && probes[j] is Missing);
                return Ok(hit);
            }
            assert(walk.visited_view() =~= dirs.subrange(0, i + 1));
            let found = probe(&ancestors[i]);
            proof {
                probes = probes.push(found);
                assert(probe.ensures((&ancestors@[i as int],), probes[i as int]));
            }
            match self.after_probe(&walk, found) {
                WalkStep::Continue => {},
                WalkStep::Done(res) => {
                    assert(search_outcome(old_cache, self@, start@, dirs, i as int, probes, res));
                    assert(forall|j: int| 0 <= j < probes.len() ==> probe.ensures((&ancestors@[j],), #[trigger] probes[j]));
                    return res;
                },
            }
            i = i + 1;
        }
        let e = PackageJsonLoader::not_found(walk);
        let outcome: Result<ManifestInfo, CompilationError> = Err(e);
        assert(search_outcome(old(self)@, self@, start@, dir_views(ancestors@), n as int, probes, outcome));
        assert(exists|k: int, pr: Seq<ManifestProbe>|
            {
                &&& 0 <= k <= ancestors@.len()
                &&& k <= pr.len() <= k + 1
                &&& forall|j: int| 0 <= j < pr.len() ==> probe.ensures((&ancestors@[j],), #[trigger] pr[j])
                &&& forall|j: int| 0 <= j < k ==> !old(self)@.contains_key(#[trigger] ancestors@[j]@) && pr[j] is Missing
                &&& #[trigger] search_outcome(old(self)@, self@, start@, dir_views(ancestors@), k, pr, outcome)
            });
        outcome
    }

    /// The error that ends a search which reached the top of the file system.
    pub fn not_found(walk: ManifestWalk) -> (e: CompilationError)
        ensures
            e matches CompilationError::PackageJsonNotFound { package_json_path, err_message }
                && package_json_path@ == walk.start@ && err_message@ == not_found_message(),
    {
        CompilationError::PackageJsonNotFound {
            package_json_path: walk.start,
            err_message: String::from_str("Can not find package.json in all ancestor directories"),
        }
    }

    /// A copy of the cache: each directory resolved so far, once, with its
    /// nearest manifest, in no particular order.
    pub fn cache(&self) -> (r: Vec<(String, ManifestInfo)>)
        ensures
            forall|i: int| 0 <= i < r@.len() ==> self@.contains_key(#[trigger] r@[i].0@) && self@[r@[i].0@] == r@[i].1@,
            forall|k: Seq<char>| self@.contains_key(k) ==> exists|i: int| 0 <= i < r@.len() && #[trigger] r@[i].0@ == k,
            forall|i: int, j: int| 0 <= i < j < r@.len() ==> r@[i].0@ != r@[j].0@,
    {
        cache_entries(&self.cache)
    }
}

/// Once a search has recorded a manifest for the directories it visited,
/// each of those directories resolves from the cache to that same manifest,
/// whatever the cache held before; directories it did not visit keep what
/// they had.
pub proof fn lemma_visited_dirs_resolve_to_found(
    cache: Map<Seq<char>, ManifestView>,
    visited: Seq<Seq<char>>,
    info: ManifestView,
    d: Seq<char>,
)
    ensures
        visited.contains(d) ==> with_manifest(cache, visited, info).contains_key(d)
            && with_manifest(cache, visited, info)[d] == info,
        !visited.contains(d) ==> with_manifest(cache, visited, info).contains_key(d)
            == cache.contains_key(d),
        !visited.contains(d) && cache.contains_key(d) ==> with_manifest(cache, visited, info)[d]
            == cache[d],
{
}

} // verus!
