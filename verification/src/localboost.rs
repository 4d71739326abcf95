//! The shared cache of extracted plugins: the repositories that hold it.
//!
//! A repository is a volume with a cache directory, in which every directory
//! is one extracted plugin, named by its identity token. The repositories of
//! a run form a table; a place in a repository is named by position.

use vstd::prelude::*;
use vstd::string::*;
use crate::catalog::{FsNode, NodeKind};
use crate::metadata::{optional_identity, parsed_identity, same_identity, Identity, PluginMetadata};
use crate::profile::{ProfileEntry, ProfileType};

verus! {

/// One extracted plugin in a repository.
#[derive(Debug, Clone)]
pub struct BoostPluginEntry {
    /// The directory that holds the extracted plugin.
    pub path: String,
    pub meta: Option<PluginMetadata>,
    /// Path of the repository that the directory belongs to.
    pub from: String,
}

/// A repository: a profile and the extracted plugins found in its cache.
#[derive(Debug, Clone)]
pub struct BoostRepoEntry {
    pub profile: ProfileEntry,
    pub plugins: Vec<BoostPluginEntry>,
}

/// The table of repositories of one run.
#[derive(Debug, Clone)]
pub struct BoostRepoEntries(pub Vec<BoostRepoEntry>);

/// A repository profile together with the listing of its cache directory.
#[derive(Debug)]
pub struct RepoListing {
    pub profile: ProfileEntry,
    pub listing: Vec<FsNode>,
}

/// Why a profile cannot serve as a repository.
#[derive(Debug, Clone, Copy, PartialEq, Eq, Structural)]
pub enum RepoError {
    /// The profile carries no plugin cache.
    NotARepository,
}

/// A place in the table of repositories: a repository by its position in the
/// table and one of its plugins by its position in the repository.
#[derive(Debug, Clone, Copy, PartialEq, Eq, Structural)]
pub struct CacheHit {
    pub repo: usize,
    pub plugin: usize,
}

/// The mathematical value of an extracted plugin.
pub struct CachedView {
    pub path: Seq<char>,
    pub meta: Option<Identity>,
    pub from: Seq<char>,
}

impl View for BoostPluginEntry {
    type V = CachedView;

    open spec fn view(&self) -> CachedView {
        CachedView { path: self.path@, meta: optional_identity(self.meta), from: self.from@ }
    }
}

/// The views of a list of extracted plugins.
pub open spec fn cached_plugins(plugins: Seq<BoostPluginEntry>) -> Seq<CachedView> {
    Seq::new(plugins.len(), |i: int| plugins[i]@)
}

/// The identities of the plugins of one repository, in order.
pub open spec fn plugin_keys(plugins: Seq<BoostPluginEntry>) -> Seq<Option<Identity>> {
    Seq::new(plugins.len(), |p: int| optional_identity(plugins[p].meta))
}

/// The identities held by each repository of a table.
pub open spec fn table_of(repos: Seq<BoostRepoEntry>) -> Seq<Seq<Option<Identity>>> {
    Seq::new(repos.len(), |r: int| plugin_keys(repos[r].plugins@))
}

impl View for BoostRepoEntries {
    type V = Seq<Seq<Option<Identity>>>;

    open spec fn view(&self) -> Seq<Seq<Option<Identity>>> {
        table_of(self.0@)
    }
}

/// The places that a list of hits names.
pub open spec fn hit_views(hits: Seq<CacheHit>) -> Seq<(int, int)> {
    Seq::new(hits.len(), |i: int| (hits[i].repo as int, hits[i].plugin as int))
}

/// Whether a repository holds a plugin of the given identity.
pub open spec fn holds(keys: Seq<Option<Identity>>, key: Option<Identity>) -> bool {
    exists|p: int| 0 <= p < keys.len() && #[trigger] keys[p] == key
}

/// The extracted plugin that a directory of a repository's cache stands for.
pub open spec fn cached_of(node: FsNode, repo_path: Seq<char>) -> CachedView {
    CachedView { path: node.path@, meta: parsed_identity(node.name@), from: repo_path }
}

/// The extracted plugins among the first `n` nodes of a cache listing: one
/// for each directory, in order.
pub open spec fn cached_in(listing: Seq<FsNode>, repo_path: Seq<char>, n: nat) -> Seq<CachedView>
    decreases n,
{
    if n == 0 || n > listing.len() {
        Seq::<CachedView>::empty()
    } else {
        let before = cached_in(listing, repo_path, (n - 1) as nat);
        if listing[n - 1].kind == NodeKind::Directory {
            before.push(cached_of(listing[n - 1], repo_path))
        } else {
            before
        }
    }
}

/// Whether `repo` is the repository that `found` shows.
pub open spec fn repo_of(repo: BoostRepoEntry, found: RepoListing) -> bool {
    &&& repo.profile == found.profile
    &&& cached_plugins(repo.plugins@) == cached_in(
        found.listing@,
        found.profile.path@,
        found.listing@.len(),
    )
}

/// Every place in the first `m` repositories of a table.
pub open spec fn all_places(table: Seq<Seq<Option<Identity>>>, m: nat) -> Seq<(int, int)>
    decreases m,
{
    if m == 0 || m > table.len() {
        Seq::<(int, int)>::empty()
    } else {
        all_places(table, (m - 1) as nat) + Seq::new(table[m - 1].len(), |q: int| (m - 1, q))
    }
}

impl BoostRepoEntry {
    /// Makes a repository from a profile and the listing of its cache
    /// directory. Each directory directly in the listing is one extracted
    /// plugin, whose name is read as an identity token; files are passed over,
    /// and nothing below a directory is looked at. A profile without a cache
    /// is refused.
    pub fn new(profile: ProfileEntry, listing: &Vec<FsNode>) -> (repo: Result<
        BoostRepoEntry,
        RepoError,
    >)
        ensures
            match repo {
                Ok(r) => profile.profile_type != ProfileType::Default && r.profile == profile
                    && cached_plugins(r.plugins@) == cached_in(
                    listing@,
                    profile.path@,
                    listing@.len(),
                ),
                Err(e) => e == RepoError::NotARepository && profile.profile_type
                    == ProfileType::Default,
            },
    {
        if profile.profile_type == ProfileType::Default {
            return Err(RepoError::NotARepository);
        }
        let mut plugins: Vec<BoostPluginEntry> = Vec::new();
        let n: usize = listing.len();
        let mut i: usize = 0;
        assert(cached_plugins(plugins@) =~= Seq::<CachedView>::empty());
        while i < n
            invariant
                n == listing@.len(),
                i <= n,
                cached_plugins(plugins@) == cached_in(listing@, profile.path@, i as nat),
            decreases n - i,
        {
            let node = &listing[i];
            if node.kind == NodeKind::Directory {
                let ghost before = plugins@;
                let made = BoostPluginEntry {
                    path: node.path.clone(),
                    from: profile.path.clone(),
                    meta: PluginMetadata::parse(node.name.as_str()),
                };
                plugins.push(made);
                assert(cached_plugins(plugins@) =~= cached_plugins(before).push(
                    cached_of(*node, profile.path@),
                ));
            }
            i = i + 1;
        }
        Ok(BoostRepoEntry { profile, plugins })
    }
}

impl BoostRepoEntry {
    /// Makes the table of repositories from the repository profiles that
    /// were found, each with the listing of its cache, in the order given.
    /// One profile without a cache among them and there is no table.
    pub fn find(found: &Vec<RepoListing>) -> (table: Result<BoostRepoEntries, RepoError>)
        ensures
            table is Ok <==> forall|i: int|
                0 <= i < found@.len() ==> (#[trigger] found@[i]).profile.profile_type
                    != ProfileType::Default,
            match table {
                Ok(repos) => repos.0@.len() == found@.len() && forall|i: int|
                    0 <= i < found@.len() ==> repo_of(#[trigger] repos.0@[i], found@[i]),
                Err(e) => e == RepoError::NotARepository,
            },
    {
        let mut repos: Vec<BoostRepoEntry> = Vec::new();
        let n: usize = found.len();
        let mut i: usize = 0;
        while i < n
            invariant
                n == found@.len(),
                i <= n,
                repos@.len() == i,
                forall|j: int|
                    0 <= j < i ==> (#[trigger] found@[j]).profile.profile_type
                        != ProfileType::Default,
                forall|j: int| 0 <= j < i ==> repo_of(#[trigger] repos@[j], found@[j]),
            decreases n - i,
        {
            match Self::new(found[i].profile.duplicate(), &found[i].listing) {
                Ok(repo) => {
                    repos.push(repo);
                },
                Err(e) => {
                    assert(found@[i as int].profile.profile_type == ProfileType::Default);
                    return Err(e);
                },
            }
            i = i + 1;
        }
        Ok(BoostRepoEntries(repos))
    }
}

impl BoostRepoEntries {
    /// Every extracted plugin of every repository, as places in the table:
    /// repository by repository, and within a repository in plugin order.
    pub fn get_all_plugins(&self) -> (places: Vec<CacheHit>)
        ensures
            hit_views(places@) == all_places(self@, self@.len()),
    {
        let mut places: Vec<CacheHit> = Vec::new();
        let m: usize = self.0.len();
        let mut r: usize = 0;
        assert(hit_views(places@) =~= Seq::<(int, int)>::empty());
        while r < m
            invariant
                m == self.0@.len(),
                r <= m,
                hit_views(places@) == all_places(self@, r as nat),
            decreases m - r,
        {
            let n: usize = self.0[r].plugins.len();
            let mut p: usize = 0;
            let ghost base = hit_views(places@);
            assert(base + Seq::new(0, |q: int| (r as int, q)) =~= base);
            while p < n
                invariant
                    r < m,
                    m == self.0@.len(),
                    n == self.0@[r as int].plugins@.len(),
                    p <= n,
                    hit_views(places@) == base + Seq::new(p as nat, |q: int| (r as int, q)),
                decreases n - p,
            {
                let ghost before = places@;
                places.push(CacheHit { repo: r, plugin: p });
                assert(hit_views(places@) =~= hit_views(before).push((r as int, p as int)));
                assert(hit_views(places@) =~= base + Seq::new(
                    (p + 1) as nat,
                    |q: int| (r as int, q),
                ));
                p = p + 1;
            }
            r = r + 1;
        }
        places
    }
}

impl BoostRepoEntries {
    /// The repository and the extracted plugin at a place of the table; none
    /// where the table has no such place.
    pub fn resolve(&self, hit: CacheHit) -> (found: Option<(&BoostRepoEntry, &BoostPluginEntry)>)
        ensures
            match found {
                Some((repo, plugin)) => hit.repo < self.0@.len() && hit.plugin
                    < self.0@[hit.repo as int].plugins@.len() && *repo == self.0@[hit.repo as int]
                    && *plugin == self.0@[hit.repo as int].plugins@[hit.plugin as int],
                None => !(hit.repo < self.0@.len() && hit.plugin
                    < self.0@[hit.repo as int].plugins@.len()),
            },
    {
        if hit.repo < self.0.len() {
            let repo = &self.0[hit.repo];
            if hit.plugin < repo.plugins.len() {
                return Some((repo, &repo.plugins[hit.plugin]));
            }
        }
        None
    }
}

impl BoostRepoEntries {
    /// Adds a freshly extracted plugin to the repository at `repo`. A plugin
    /// without identity is refused, and so is one whose identity the
    /// repository holds already: the table is then left as it is.
    pub fn register(&mut self, repo: usize, plugin: BoostPluginEntry) -> (added: bool)
        ensures
            added == (repo < old(self)@.len() && plugin.meta is Some && !holds(
                old(self)@[repo as int],
                optional_identity(plugin.meta),
            )),
            added ==> {
                &&& final(self).0@.len() == old(self).0@.len()
                &&& final(self).0@[repo as int].profile == old(self).0@[repo as int].profile
                &&& final(self).0@[repo as int].plugins@ == old(self).0@[repo as int].plugins@.push(
                    plugin,
                )
                &&& forall|r: int|
                    0 <= r < old(self).0@.len() && r != repo ==> final(self).0@[r] == old(
                        self,
                    ).0@[r]
                &&& final(self)@ == old(self)@.update(
                    repo as int,
                    old(self)@[repo as int].push(optional_identity(plugin.meta)),
                )
            },
            !added ==> *final(self) == *old(self),
    {
        if repo >= self.0.len() || plugin.meta.is_none() {
            return false;
        }
        let ghost keys = self@[repo as int];
        let n: usize = self.0[repo].plugins.len();
        let mut p: usize = 0;
        while p < n
            invariant
                repo < self.0@.len(),
                *self == *old(self),
                keys == self@[repo as int],
                n == self.0@[repo as int].plugins@.len(),
                p <= n,
                forall|q: int| 0 <= q < p ==> #[trigger] keys[q] != optional_identity(plugin.meta),
            decreases n - p,
        {
            if same_identity(&self.0[repo].plugins[p].meta, &plugin.meta) {
                assert(keys[p as int] == optional_identity(plugin.meta));
                return false;
            }
            p = p + 1;
        }
        let ghost before = self.0@;
        let mut entry = self.0.remove(repo);
        let ghost old_plugins = entry.plugins@;
        entry.plugins.push(plugin);
        self.0.insert(repo, entry);
        proof {
            assert(plugin_keys(entry.plugins@) =~= keys.push(optional_identity(plugin.meta)));
            assert(self@ =~= table_of(before).update(
                repo as int,
                keys.push(optional_identity(plugin.meta)),
            )) by {
                assert forall|r: int| 0 <= r < self@.len() && r != repo implies self@[r]
                    == table_of(before)[r] by {
                    assert(self.0@[r] == before[r]);
                }
            }
        }
        true
    }
}

} // verus!
