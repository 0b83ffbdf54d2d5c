use vstd::prelude::*;
use crate::cache::{cache_entry_from_url, cache_entry_name, local_slot_name, modules_path, slot_name, under_modules};
use crate::json::Json;
use crate::manifest::{
    add_dependency, dependency_added, is_fresh_lock, lock_or_default, lock_recorded,
    lock_well_formed, upsert_lock_entry,
};
use crate::registry::{AddCommandError, Package, metadata_address, metadata_url};
use crate::request::{
    PackageRequest, dependency_requests, manifest_requests, request_name, request_view,
    requested_version, selector_view,
};
use crate::text::same_text;

verus! {

/// What to do first for a requested package.
#[derive(Debug, Clone, PartialEq)]
pub enum Step {
    /// Its local slot already exists: nothing is fetched or recorded.
    AlreadyInstalled,
    /// Fetch the registry metadata at this address and resolve from it.
    Resolve(String),
}

/// How to put a resolved package in place.
#[derive(Debug, Clone, PartialEq)]
pub enum Action {
    /// The cache already holds it: link the slot to the cache directory.
    Link { cache_dir: String, slot_dir: String },
    /// Download the tarball, unpack it into the cache directory, then link.
    FetchThenLink { url: String, cache_dir: String, slot_dir: String },
}

/// One install run over a project: the work still to do, the packages put in
/// place so far, and the manifest and lockfile documents, which only this
/// session updates and which are written back once at the end.
#[derive(Debug)]
pub struct Installer {
    pub project_root: String,
    pub cache_root: String,
    pub manifest: Json,
    pub lock: Option<Json>,
    pub present: Vec<String>,
    pub pending: Vec<PackageRequest>,
    pub failures: Vec<(String, AddCommandError)>,
}

/// Whether a slot named `name` was put in place during the session.
pub open spec fn is_present(present: Seq<String>, name: Seq<char>) -> bool {
    exists|i: int| 0 <= i < present.len() && (#[trigger] present[i])@ == name
}

/// The first step for a request named `name`, given whether its slot exists.
pub open spec fn first_step(present: Seq<String>, name: Seq<char>, version: Option<Seq<char>>, slot_exists: bool) -> Option<Seq<char>> {
    if slot_exists || is_present(present, name) {
        None
    } else {
        Some(metadata_address(name, version))
    }
}

pub open spec fn step_view(s: Step) -> Option<Seq<char>> {
    match s {
        Step::AlreadyInstalled => None,
        Step::Resolve(u) => Some(u@),
    }
}

/// The cache directory of a package: shared by every project that uses the
/// same cache root, named after its tarball.
pub open spec fn cache_dir_of(cache_root: Seq<char>, url: Seq<char>) -> Seq<char> {
    under_modules(cache_root, cache_entry_name(url))
}

/// The project-local slot that links to the cache directory of a package.
pub open spec fn slot_dir_of(project_root: Seq<char>, url: Seq<char>) -> Seq<char> {
    under_modules(project_root, slot_name(cache_entry_name(url)))
}

/// The action for a package: link on a cache hit, fetch first otherwise.
/// Fields: whether to fetch, tarball address, cache directory, slot.
pub open spec fn action_view(a: Action) -> (bool, Seq<char>, Seq<char>, Seq<char>) {
    match a {
        Action::Link { cache_dir, slot_dir } => (false, Seq::empty(), cache_dir@, slot_dir@),
        Action::FetchThenLink { url, cache_dir, slot_dir } => (true, url@, cache_dir@, slot_dir@),
    }
}

pub open spec fn planned_action(project_root: Seq<char>, cache_root: Seq<char>, url: Seq<char>, cache_hit: bool) -> (
    bool,
    Seq<char>,
    Seq<char>,
    Seq<char>,
) {
    (
        !cache_hit,
        if cache_hit { Seq::empty() } else { url },
        cache_dir_of(cache_root, url),
        slot_dir_of(project_root, url),
    )
}

/// A package put in place during a run stays present: a name present before
/// a package is recorded is present after.
pub proof fn law_presence_kept(before: Seq<String>, after: Seq<String>, name: Seq<char>)
    requires
        after.len() == before.len() + 1,
        after.drop_last() == before,
    ensures
        is_present(before, name) ==> is_present(after, name),
{
    if is_present(before, name) {
        let i = choose|i: int| 0 <= i < before.len() && (#[trigger] before[i])@ == name;
        assert(after[i] == after.drop_last()[i]);
    }
}

/// Once a package has been recorded in a run, a later request of the same
/// name is answered at once, whatever its version: nothing is resolved or
/// fetched again.
pub proof fn law_revisit_is_immediate(
    before: Seq<String>,
    after: Seq<String>,
    name: Seq<char>,
    version: Option<Seq<char>>,
    slot_exists: bool,
)
    requires
        after.len() == before.len() + 1,
        after.drop_last() == before,
        after.last()@ == name,
    ensures
        first_step(after, name, version, slot_exists) is None,
{
    assert(after[after.len() - 1]@ == name);
}

/// A dependency cycle closes: after `a` and then `b` are recorded, the
/// request for `a` that `b` declares is answered at once.
pub proof fn law_cycle_closes(
    start: Seq<String>,
    mid: Seq<String>,
    end: Seq<String>,
    a: Seq<char>,
    b: Seq<char>,
    version: Option<Seq<char>>,
    slot_exists: bool,
)
    requires
        mid.len() == start.len() + 1,
        mid.drop_last() == start,
        mid.last()@ == a,
        end.len() == mid.len() + 1,
        end.drop_last() == mid,
        end.last()@ == b,
    ensures
        first_step(end, a, version, slot_exists) is None,
{
    assert(mid[mid.len() - 1]@ == a);
    law_presence_kept(mid, end, a);
}

/// A package whose slot exists on disk is never resolved again: running the
/// same install a second time asks the registry nothing.
pub proof fn law_installed_slot_is_skipped(present: Seq<String>, name: Seq<char>, version: Option<Seq<char>>)
    ensures
        first_step(present, name, version, true) is None,
{
}

/// Two projects sharing a cache root use one cache directory for a package;
/// a project that finds it there only links, and each project gets its own
/// slot.
pub proof fn law_shared_cache(
    project_a: Seq<char>,
    project_b: Seq<char>,
    cache_root: Seq<char>,
    url: Seq<char>,
    a_hit: bool,
)
    ensures
        planned_action(project_a, cache_root, url, a_hit).2 == planned_action(project_b, cache_root, url, true).2,
        !planned_action(project_b, cache_root, url, true).0,
        project_a != project_b ==> planned_action(project_a, cache_root, url, a_hit).3 != planned_action(
            project_b,
            cache_root,
            url,
            true,
        ).3,
{
    let tail = "/node_modules/"@ + slot_name(cache_entry_name(url));
    let sa = slot_dir_of(project_a, url);
    let sb = slot_dir_of(project_b, url);
    assert(sa =~= project_a + tail);
    assert(sb =~= project_b + tail);
    if project_a != project_b && sa == sb {
        assert(project_a.len() == project_b.len());
        assert(sa.subrange(0, project_a.len() as int) =~= project_a);
        assert(sb.subrange(0, project_b.len() as int) =~= project_b);
    }
}

impl Installer {
    /// The manifest is an object and any lockfile has a `dependencies` object.
    pub open spec fn wf(&self) -> bool {
        &&& self.manifest is Object
        &&& (self.lock matches Some(l) ==> lock_well_formed(l))
    }

    /// Starts a run that installs `names` (each `name`, `name@latest` or
    /// `name@version`) into the project at `project_root`, with the shared
    /// cache under `cache_root`. Fails where the manifest is not an object or
    /// the lockfile has no `dependencies` object.
    pub fn new(
        project_root: &str,
        cache_root: &str,
        manifest: Json,
        lock: Option<Json>,
        names: &Vec<String>,
    ) -> (r: Result<Installer, crate::manifest::ManifestError>)
        ensures
            match r {
                Ok(s) => {
                    &&& s.wf()
                    &&& s.project_root@ == project_root@
                    &&& s.cache_root@ == cache_root@
                    &&& s.manifest == manifest
                    &&& s.lock == lock
                    &&& s.present@.len() == 0
                    &&& s.failures@.len() == 0
                    &&& s.pending@.len() == names@.len()
                    &&& forall|i: int| 0 <= i < names@.len() ==> request_view(#[trigger] s.pending@[i]) == (
                        request_name(names@[i]@),
                        requested_version(names@[i]@),
                    )
                },
                Err(e) => {
                    ||| (!(manifest is Object) && e is InvalidPackageJson)
                    ||| (manifest is Object && e is InvalidPackageLock && (lock matches Some(l) && !lock_well_formed(l)))
                },
            },
    {
        if !matches!(manifest, Json::Object(_)) {
            return Err(crate::manifest::ManifestError::InvalidPackageJson);
        }
        if let Some(l) = &lock {
            if !has_dependencies_object(l) {
                return Err(crate::manifest::ManifestError::InvalidPackageLock);
            }
        }
        let mut pending: Vec<PackageRequest> = Vec::new();
        let mut i: usize = 0;
        while i < names.len()
            invariant
                i <= names@.len(),
                pending@.len() == i,
                forall|j: int| 0 <= j < i ==> request_view(#[trigger] pending@[j]) == (
                    request_name(names@[j]@),
                    requested_version(names@[j]@),
                ),
            decreases names@.len() - i,
        {
            let q = PackageRequest::parse(names[i].as_str());
            pending.push(q);
            i = i + 1;
        }
        Ok(Installer {
            project_root: project_root.to_owned(),
            cache_root: cache_root.to_owned(),
            manifest,
            lock,
            present: Vec::new(),
            pending,
            failures: Vec::new(),
        })
    }

    /// The next request to work on, if any is left.
    pub fn next_request(&mut self) -> (r: Option<PackageRequest>)
        ensures
            final(self).project_root == old(self).project_root,
            final(self).cache_root == old(self).cache_root,
            final(self).manifest == old(self).manifest,
            final(self).lock == old(self).lock,
            final(self).present == old(self).present,
            final(self).failures == old(self).failures,
            match r {
                Some(q) => old(self).pending@.len() > 0 && final(self).pending@ == old(self).pending@.drop_last() && q
                    == old(self).pending@.last(),
                None => old(self).pending@.len() == 0 && final(self).pending@.len() == 0,
            },
    {
        self.pending.pop()
    }

    /// The local slot that a request is checked against before any work.
    pub fn slot_path(&self, req: &PackageRequest) -> (r: String)
        ensures
            r@ == under_modules(self.project_root@, req.name@),
    {
        modules_path(self.project_root.as_str(), req.name.as_str())
    }

    /// The first step for `req`: nothing where its slot exists on disk or was
    /// put in place earlier in this run, else resolving it at the registry.
    pub fn begin(&self, req: &PackageRequest, slot_exists: bool) -> (r: Step)
        ensures
            step_view(r) == first_step(self.present@, req.name@, selector_view(req.selector), slot_exists),
    {
        if slot_exists || self.has_slot(req.name.as_str()) {
            Step::AlreadyInstalled
        } else {
            Step::Resolve(metadata_url(req))
        }
    }

    /// Whether a slot named `name` was put in place during this run.
    pub fn has_slot(&self, name: &str) -> (r: bool)
        ensures
            r == is_present(self.present@, name@),
    {
        let mut i: usize = 0;
        while i < self.present.len()
            invariant
                i <= self.present@.len(),
                forall|j: int| 0 <= j < i ==> (#[trigger] self.present@[j])@ != name@,
            decreases self.present@.len() - i,
        {
            if same_text(self.present[i].as_str(), name) {
                return true;
            }
            i = i + 1;
        }
        false
    }

    /// The cache directory that holds `pkg`, to be checked for a cache hit.
    pub fn cache_dir(&self, pkg: &Package) -> (r: String)
        ensures
            r@ == cache_dir_of(self.cache_root@, pkg.tarball_url@),
    {
        let entry = cache_entry_from_url(pkg.tarball_url.as_str());
        modules_path(self.cache_root.as_str(), entry.as_str())
    }

    /// How to put a resolved package in place: link the slot to the cache
    /// directory on a cache hit, fetch into it first otherwise.
    pub fn action_for(&self, pkg: &Package, cache_hit: bool) -> (r: Action)
        ensures
            action_view(r) == planned_action(self.project_root@, self.cache_root@, pkg.tarball_url@, cache_hit),
    {
        let entry = cache_entry_from_url(pkg.tarball_url.as_str());
        let cache_dir = modules_path(self.cache_root.as_str(), entry.as_str());
        let slot = local_slot_name(entry.as_str());
        let slot_dir = modules_path(self.project_root.as_str(), slot.as_str());
        if cache_hit {
            Action::Link { cache_dir, slot_dir }
        } else {
            Action::FetchThenLink { url: pkg.tarball_url.clone(), cache_dir, slot_dir }
        }
    }

    /// Records a package once it is in place: its name and version go into
    /// the manifest's dependencies and its entry into the lockfile (a fresh
    /// one where there was none), and it counts as present from now on.
    pub fn record(&mut self, req_name: &str, pkg: &Package)
        requires
            old(self).wf(),
        ensures
            final(self).wf(),
            dependency_added(old(self).manifest, final(self).manifest, pkg.name@, pkg.version@),
            final(self).lock matches Some(l) && (match old(self).lock {
                Some(before) => lock_recorded(before, l, pkg.name@, pkg.version@, pkg.tarball_url@),
                None => exists|base: Json| #[trigger] is_fresh_lock(base, pkg.name@) && lock_recorded(base, l, pkg.name@, pkg.version@, pkg.tarball_url@),
            }),
            final(self).present@.len() == old(self).present@.len() + 1,
            final(self).present@.drop_last() == old(self).present@,
            final(self).present@.last()@ == req_name@,
            final(self).project_root == old(self).project_root,
            final(self).cache_root == old(self).cache_root,
            final(self).pending == old(self).pending,
            final(self).failures == old(self).failures,
    {
        let mut doc = Json::Null;
        std::mem::swap(&mut doc, &mut self.manifest);
        if let Ok(d) = add_dependency(doc, pkg.name.as_str(), pkg.version.as_str()) {
            self.manifest = d;
        }
        let mut held: Option<Json> = None;
        std::mem::swap(&mut held, &mut self.lock);
        let ghost was = held;
        let base = lock_or_default(held, pkg.name.as_str());
        let ghost b = base;
        if let Ok(l) = upsert_lock_entry(base, pkg.name.as_str(), pkg.version.as_str(), pkg.tarball_url.as_str(), Json::Object(Vec::new())) {
            self.lock = Some(l);
        }
        proof {
            if was is None {
                assert(is_fresh_lock(b, pkg.name@));
            }
        }
        self.present.push(req_name.to_owned());
    }

    /// Queues the dependencies that a package's own manifest declares; a
    /// package whose manifest could not be read declares none.
    pub fn discovered(&mut self, manifest: Option<&Json>)
        ensures
            final(self).pending@.map_values(|q: PackageRequest| request_view(q)) == old(self).pending@.map_values(
                |q: PackageRequest| request_view(q),
            ) + match manifest {
                Some(m) => manifest_requests(*m),
                None => Seq::empty(),
            },
            final(self).project_root == old(self).project_root,
            final(self).cache_root == old(self).cache_root,
            final(self).manifest == old(self).manifest,
            final(self).lock == old(self).lock,
            final(self).present == old(self).present,
            final(self).failures == old(self).failures,
    {
        let ghost before = self.pending@;
        if let Some(m) = manifest {
            let mut found = dependency_requests(m);
            let ghost added = found@;
            self.pending.append(&mut found);
            assert(self.pending@.map_values(|q: PackageRequest| request_view(q)) =~= before.map_values(
                |q: PackageRequest| request_view(q),
            ) + added.map_values(|q: PackageRequest| request_view(q)));
        } else {
            assert(self.pending@.map_values(|q: PackageRequest| request_view(q)) =~= before.map_values(
                |q: PackageRequest| request_view(q),
            ) + Seq::empty());
        }
    }

    /// Whether the run succeeded: no request of the whole tree failed.
    pub fn succeeded(&self) -> (r: bool)
        ensures
            r == (self.failures@.len() == 0),
    {
        self.failures.len() == 0
    }

    /// Notes that the work for `name` failed; the rest of the run goes on.
    pub fn fail(&mut self, name: &str, error: AddCommandError)
        ensures
            final(self).failures@.len() == old(self).failures@.len() + 1,
            final(self).failures@.drop_last() == old(self).failures@,
            final(self).failures@.last().0@ == name@,
            final(self).failures@.last().1 == error,
            final(self).project_root == old(self).project_root,
            final(self).cache_root == old(self).cache_root,
            final(self).manifest == old(self).manifest,
            final(self).lock == old(self).lock,
            final(self).present == old(self).present,
            final(self).pending == old(self).pending,
    {
        self.failures.push((name.to_owned(), error));
        assert(self.failures@.drop_last() =~= old(self).failures@);
    }
}

/// Whether `lock` has a `dependencies` object.
fn has_dependencies_object(lock: &Json) -> (r: bool)
    ensures
        r == lock_well_formed(*lock),
{
    match lock.get("dependencies") {
        Some(Json::Object(_)) => true,
        _ => false,
    }
}

} // verus!
