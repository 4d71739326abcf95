//! The index of the shared cache: from plugin identity to the places in the
//! table of repositories that already hold it.
//!
//! A repository is never taken to hold one identity twice: where two of its
//! directories claim the same identity, the index knows the first and passes
//! over the others. Directories without an identity are all listed, under the
//! absent identity.

use vstd::prelude::*;
use crate::localboost::{hit_views, holds, plugin_keys, BoostRepoEntries, CacheHit};
use crate::metadata::{
    duplicate_identity, optional_identity, same_identity, Identity, PluginMetadata,
};

verus! {

/// Whether the plugin at `p` is listed in the index: one without identity
/// always, one with an identity where no earlier plugin of the repository
/// claims the same.
pub open spec fn is_listed(keys: Seq<Option<Identity>>, p: int) -> bool {
    keys[p] is None || forall|q: int| 0 <= q < p ==> #[trigger] keys[q] != keys[p]
}

/// The listed places among the first `n` plugins of repository `r` that carry
/// `key`, in order.
pub open spec fn repo_hits(keys: Seq<Option<Identity>>, r: int, key: Option<Identity>, n: nat) -> Seq<
    (int, int),
>
    decreases n,
{
    if n == 0 || n > keys.len() {
        Seq::<(int, int)>::empty()
    } else {
        let before = repo_hits(keys, r, key, (n - 1) as nat);
        if keys[n - 1] == key && is_listed(keys, n - 1) {
            before.push((r, n - 1))
        } else {
            before
        }
    }
}

/// The listed places in the first `m` repositories that carry `key`:
/// repository by repository, and within a repository in plugin order.
pub open spec fn all_hits(table: Seq<Seq<Option<Identity>>>, key: Option<Identity>, m: nat) -> Seq<
    (int, int),
>
    decreases m,
{
    if m == 0 || m > table.len() {
        Seq::<(int, int)>::empty()
    } else {
        all_hits(table, key, (m - 1) as nat) + repo_hits(
            table[m - 1],
            m - 1,
            key,
            table[m - 1].len(),
        )
    }
}

/// What a lookup of `key` in the index of `table` yields.
pub open spec fn lookup_result(table: Seq<Seq<Option<Identity>>>, key: Option<Identity>) -> Seq<
    (int, int),
> {
    all_hits(table, key, table.len())
}

/// Whether every hit names a place of the table that carries `key`.
pub open spec fn hits_carry(
    hits: Seq<(int, int)>,
    table: Seq<Seq<Option<Identity>>>,
    key: Option<Identity>,
) -> bool {
    forall|i: int|
        0 <= i < hits.len() ==> {
            let hit = #[trigger] hits[i];
            &&& 0 <= hit.0 < table.len()
            &&& 0 <= hit.1 < table[hit.0].len()
            &&& table[hit.0][hit.1] == key
            &&& is_listed(table[hit.0], hit.1)
        }
}

/// Whether `a` comes before `b` in table order.
pub open spec fn place_before(a: (int, int), b: (int, int)) -> bool {
    a.0 < b.0 || (a.0 == b.0 && a.1 < b.1)
}

impl BoostRepoEntries {
    /// The listed places that carry `key`, found by going through the table.
    pub fn find_hits(&self, key: &Option<PluginMetadata>) -> (hits: Vec<CacheHit>)
        ensures
            hit_views(hits@) == lookup_result(self@, optional_identity(*key)),
    {
        let ghost k = optional_identity(*key);
        let mut hits: Vec<CacheHit> = Vec::new();
        let m: usize = self.0.len();
        let mut r: usize = 0;
        assert(hit_views(hits@) =~= Seq::<(int, int)>::empty());
        while r < m
            invariant
                m == self.0@.len(),
                r <= m,
                k == optional_identity(*key),
                hit_views(hits@) == all_hits(self@, k, r as nat),
            decreases m - r,
        {
            let n: usize = self.0[r].plugins.len();
            let ghost keys = self@[r as int];
            let ghost base = hit_views(hits@);
            let mut found = false;
            let mut p: usize = 0;
            assert(base + Seq::<(int, int)>::empty() =~= base);
            while p < n
                invariant
                    r < m,
                    m == self.0@.len(),
                    n == self.0@[r as int].plugins@.len(),
                    keys == self@[r as int],
                    n == keys.len(),
                    p <= n,
                    k == optional_identity(*key),
                    hit_views(hits@) == base + repo_hits(keys, r as int, k, p as nat),
                    found == (exists|q: int| 0 <= q < p && #[trigger] keys[q] == k),
                decreases n - p,
            {
                let same = same_identity(&self.0[r].plugins[p].meta, key);
                assert(keys[p as int] == optional_identity(self.0@[r as int].plugins@[p as int].meta));
                if same {
                    if key.is_none() || !found {
                        let ghost before = hits@;
                        hits.push(CacheHit { repo: r, plugin: p });
                        assert(hit_views(hits@) =~= hit_views(before).push((r as int, p as int)));
                        assert(is_listed(keys, p as int));
                        assert(hit_views(hits@) =~= base + repo_hits(
                            keys,
                            r as int,
                            k,
                            (p + 1) as nat,
                        ));
                    } else {
                        assert(!is_listed(keys, p as int));
                    }
                    found = true;
                }
                p = p + 1;
            }
            r = r + 1;
        }
        hits
    }
}

/// One entry of the index: an identity and the listed places that carry it.
#[derive(Debug, Clone)]
pub struct IndexBucket {
    pub key: Option<PluginMetadata>,
    pub hits: Vec<CacheHit>,
}

/// The identities that a list of buckets is keyed by.
pub open spec fn bucket_keys(buckets: Seq<IndexBucket>) -> Seq<Option<Identity>> {
    Seq::new(buckets.len(), |i: int| optional_identity(buckets[i].key))
}

/// Whether each bucket lists exactly what a lookup of its key in `table`
/// yields.
pub open spec fn buckets_exact(buckets: Seq<IndexBucket>, table: Seq<Seq<Option<Identity>>>) -> bool {
    forall|i: int|
        0 <= i < buckets.len() ==> hit_views(#[trigger] buckets[i].hits@) == lookup_result(
            table,
            optional_identity(buckets[i].key),
        )
}

/// Whether no two buckets have the same key.
pub open spec fn buckets_distinct(buckets: Seq<IndexBucket>) -> bool {
    forall|i: int, j: int|
        0 <= i < j < buckets.len() ==> #[trigger] bucket_keys(buckets)[i] != #[trigger] bucket_keys(
            buckets,
        )[j]
}

/// Whether the identity at place (`r`, `p`) of the table keys a bucket.
pub open spec fn place_keyed(
    buckets: Seq<IndexBucket>,
    table: Seq<Seq<Option<Identity>>>,
    r: int,
    p: int,
) -> bool {
    exists|i: int| 0 <= i < buckets.len() && #[trigger] bucket_keys(buckets)[i] == table[r][p]
}

/// Whether every identity in the first `m` repositories, and among the first
/// `n` plugins of the next, keys a bucket.
pub open spec fn buckets_cover(
    buckets: Seq<IndexBucket>,
    table: Seq<Seq<Option<Identity>>>,
    m: int,
    n: int,
) -> bool {
    forall|r: int, p: int|
        0 <= r < table.len() && 0 <= p < table[r].len() && (r < m || (r == m && p < n))
            ==> #[trigger] place_keyed(buckets, table, r, p)
}

/// The index of a table of repositories: for each identity found in the
/// table, the listed places that carry it. Built once and read-only after.
#[derive(Debug)]
pub struct BoostRepoPluginMap<'p> {
    repos: &'p BoostRepoEntries,
    buckets: Vec<IndexBucket>,
}

/// Finds the bucket of a key.
pub fn find_bucket(buckets: &Vec<IndexBucket>, key: &Option<PluginMetadata>) -> (at: Option<usize>)
    ensures
        match at {
            Some(i) => i < buckets@.len() && bucket_keys(buckets@)[i as int] == optional_identity(
                *key,
            ),
            None => forall|i: int|
                0 <= i < buckets@.len() ==> #[trigger] bucket_keys(buckets@)[i]
                    != optional_identity(*key),
        },
{
    let n: usize = buckets.len();
    let mut i: usize = 0;
    while i < n
        invariant
            n == buckets@.len(),
            i <= n,
            forall|j: int|
                0 <= j < i ==> #[trigger] bucket_keys(buckets@)[j] != optional_identity(*key),
        decreases n - i,
    {
        if same_identity(&buckets[i].key, key) {
            return Some(i);
        }
        i = i + 1;
    }
    None
}

impl<'p> BoostRepoPluginMap<'p> {
    #[verifier::type_invariant]
    spec fn well_formed(&self) -> bool {
        &&& buckets_exact(self.buckets@, self.repos@)
        &&& buckets_distinct(self.buckets@)
        &&& buckets_cover(self.buckets@, self.repos@, self.repos@.len() as int, 0)
    }

    /// The identities held by each repository that the index was built from.
    pub closed spec fn table(&self) -> Seq<Seq<Option<Identity>>> {
        self.repos@
    }

    /// The repositories that the index was built from.
    pub fn repositories(&self) -> (repos: &'p BoostRepoEntries)
        ensures
            repos@ == self.table(),
    {
        self.repos
    }

    /// The listed places that carry `key`, in table order; none where no
    /// repository holds the identity.
    pub fn lookup(&self, key: &Option<PluginMetadata>) -> (hits: Vec<CacheHit>)
        ensures
            hit_views(hits@) == lookup_result(self.table(), optional_identity(*key)),
            hits_carry(hit_views(hits@), self.table(), optional_identity(*key)),
    {
        proof {
            use_type_invariant(self);
            lemma_hits_carry(self.repos@, optional_identity(*key), self.repos@.len());
        }
        match find_bucket(&self.buckets, key) {
            Some(i) => {
                let stored = &self.buckets[i].hits;
                let mut hits: Vec<CacheHit> = Vec::new();
                let n: usize = stored.len();
                let mut j: usize = 0;
                while j < n
                    invariant
                        n == stored@.len(),
                        j <= n,
                        hits@ == stored@.take(j as int),
                    decreases n - j,
                {
                    hits.push(stored[j]);
                    assert(hits@ =~= stored@.take(j as int + 1));
                    j = j + 1;
                }
                assert(hits@ =~= stored@);
                hits
            },
            None => {
                proof {
                    let table = self.repos@;
                    let k = optional_identity(*key);
                    assert forall|r: int| 0 <= r < table.len() implies !holds(
                        #[trigger] table[r],
                        k,
                    ) by {
                        if holds(table[r], k) {
                            let p = choose|p: int| 0 <= p < table[r].len() && #[trigger] table[r][p] == k;
                            assert(place_keyed(self.buckets@, table, r, p));
                        }
                    }
                    lemma_lookup_no_holder(table, k);
                }
                let hits: Vec<CacheHit> = Vec::new();
                assert(hit_views(hits@) =~= Seq::<(int, int)>::empty());
                hits
            },
        }
    }

    /// Whether the repository at `repo` of the table holds a plugin of the
    /// identity `key`.
    pub fn contains(&self, key: &Option<PluginMetadata>, repo: usize) -> (held: bool)
        ensures
            held == (repo < self.table().len() && holds(
                self.table()[repo as int],
                optional_identity(*key),
            )),
    {
        if repo >= self.repos.0.len() {
            return false;
        }
        let plugins = &self.repos.0[repo].plugins;
        let ghost keys = self.repos@[repo as int];
        let n: usize = plugins.len();
        let mut p: usize = 0;
        while p < n
            invariant
                n == plugins@.len(),
                keys == plugin_keys(plugins@),
                repo < self.table().len(),
                keys == self.table()[repo as int],
                p <= n,
                forall|q: int| 0 <= q < p ==> #[trigger] keys[q] != optional_identity(*key),
            decreases n - p,
        {
            if same_identity(&plugins[p].meta, key) {
                assert(keys[p as int] == optional_identity(*key));
                return true;
            }
            p = p + 1;
        }
        false
    }
}

impl BoostRepoEntries {
    /// Builds the index of this table.
    pub fn get_plugins(&self) -> (index: BoostRepoPluginMap<'_>)
        ensures
            index.table() == self@,
    {
        let ghost table = self@;
        let mut buckets: Vec<IndexBucket> = Vec::new();
        let m: usize = self.0.len();
        let mut r: usize = 0;
        while r < m
            invariant
                m == self.0@.len(),
                table == self@,
                r <= m,
                buckets_exact(buckets@, table),
                buckets_distinct(buckets@),
                buckets_cover(buckets@, table, r as int, 0),
            decreases m - r,
        {
            let n: usize = self.0[r].plugins.len();
            let mut p: usize = 0;
            while p < n
                invariant
                    r < m,
                    m == self.0@.len(),
                    table == self@,
                    n == self.0@[r as int].plugins@.len(),
                    p <= n,
                    buckets_exact(buckets@, table),
                    buckets_distinct(buckets@),
                    buckets_cover(buckets@, table, r as int, p as int),
                decreases n - p,
            {
                let key = &self.0[r].plugins[p].meta;
                assert(table[r as int][p as int] == optional_identity(*key));
                let ghost before = buckets@;
                if find_bucket(&buckets, key).is_none() {
                    let hits = self.find_hits(key);
                    buckets.push(IndexBucket { key: duplicate_identity(key), hits });
                    proof {
                        let last = before.len() as int;
                        assert(bucket_keys(buckets@) =~= bucket_keys(before).push(
                            optional_identity(*key),
                        ));
                        assert forall|i: int| 0 <= i < buckets@.len() implies hit_views(
                            #[trigger] buckets@[i].hits@,
                        ) == lookup_result(table, optional_identity(buckets@[i].key)) by {
                            if i < last {
                                assert(buckets@[i] == before[i]);
                            }
                        }
                        assert forall|i: int, j: int| 0 <= i < j < buckets@.len() implies #[trigger] bucket_keys(
                            buckets@,
                        )[i] != #[trigger] bucket_keys(buckets@)[j] by {
                            assert(bucket_keys(buckets@)[i] == bucket_keys(before)[i]);
                            if j < last {
                                assert(bucket_keys(buckets@)[j] == bucket_keys(before)[j]);
                            }
                        }
                    }
                }
                proof {
                    assert forall|row: int, col: int|
                        0 <= row < table.len() && 0 <= col < table[row].len() && (row < r || (row == r
                            && col < p + 1)) implies #[trigger] place_keyed(
                        buckets@,
                        table,
                        row,
                        col,
                    ) by {
                        if row == r && col == p {
                            if buckets@.len() == before.len() {
                                let i = choose|i: int|
                                    0 <= i < before.len() && #[trigger] bucket_keys(before)[i]
                                        == optional_identity(*key);
                                assert(bucket_keys(buckets@)[i] == table[row][col]);
                            } else {
                                assert(bucket_keys(buckets@)[before.len() as int] == table[row][col]);
                            }
                        } else {
                            assert(place_keyed(before, table, row, col));
                            let i = choose|i: int|
                                0 <= i < before.len() && #[trigger] bucket_keys(before)[i]
                                    == table[row][col];
                            assert(bucket_keys(buckets@)[i] == table[row][col]);
                        }
                    }
                }
                p = p + 1;
            }
            r = r + 1;
        }
        BoostRepoPluginMap { repos: self, buckets }
    }
}

/// The hits of repository `r` name plugins of `r` that carry the key.
pub proof fn lemma_repo_hits_carry(keys: Seq<Option<Identity>>, r: int, key: Option<Identity>, n: nat)
    requires
        n <= keys.len(),
    ensures
        forall|i: int|
            0 <= i < repo_hits(keys, r, key, n).len() ==> {
                let hit = #[trigger] repo_hits(keys, r, key, n)[i];
                hit.0 == r && 0 <= hit.1 < n && keys[hit.1] == key && is_listed(keys, hit.1)
            },
        forall|i: int, j: int|
            0 <= i < j < repo_hits(keys, r, key, n).len() ==> (#[trigger] repo_hits(
                keys,
                r,
                key,
                n,
            )[i]).1 < (#[trigger] repo_hits(keys, r, key, n)[j]).1,
    decreases n,
{
    if n > 0 {
        lemma_repo_hits_carry(keys, r, key, (n - 1) as nat);
    }
}

/// Whatever a lookup yields names places of the table that carry the key.
pub proof fn lemma_hits_carry(table: Seq<Seq<Option<Identity>>>, key: Option<Identity>, m: nat)
    requires
        m <= table.len(),
    ensures
        hits_carry(all_hits(table, key, m), table, key),
    decreases m,
{
    if m > 0 {
        lemma_hits_carry(table, key, (m - 1) as nat);
        lemma_repo_hits_carry(table[m - 1], m - 1, key, table[m - 1].len());
        let front = all_hits(table, key, (m - 1) as nat);
        let last = repo_hits(table[m - 1], m - 1, key, table[m - 1].len());
        let hits = all_hits(table, key, m);
        assert forall|i: int| 0 <= i < hits.len() implies {
            let hit = #[trigger] hits[i];
            &&& 0 <= hit.0 < table.len()
            &&& 0 <= hit.1 < table[hit.0].len()
            &&& table[hit.0][hit.1] == key
            &&& is_listed(table[hit.0], hit.1)
        } by {
            if i < front.len() {
                assert(hits[i] == front[i]);
            } else {
                assert(hits[i] == last[i - front.len()]);
            }
        }
    }
}

/// A lookup yields its places in table order, each once.
pub proof fn lemma_hits_in_order(table: Seq<Seq<Option<Identity>>>, key: Option<Identity>, m: nat)
    requires
        m <= table.len(),
    ensures
        forall|i: int|
            0 <= i < all_hits(table, key, m).len() ==> (#[trigger] all_hits(table, key, m)[i]).0
                < m,
        forall|i: int, j: int|
            0 <= i < j < all_hits(table, key, m).len() ==> place_before(
                #[trigger] all_hits(table, key, m)[i],
                #[trigger] all_hits(table, key, m)[j],
            ),
    decreases m,
{
    if m > 0 {
        lemma_hits_in_order(table, key, (m - 1) as nat);
        lemma_repo_hits_carry(table[m - 1], m - 1, key, table[m - 1].len());
        let front = all_hits(table, key, (m - 1) as nat);
        let last = repo_hits(table[m - 1], m - 1, key, table[m - 1].len());
        let hits = all_hits(table, key, m);
        assert forall|i: int| 0 <= i < hits.len() implies (#[trigger] hits[i]).0 < m by {
            if i < front.len() {
                assert(hits[i] == front[i]);
            } else {
                assert(hits[i] == last[i - front.len()]);
            }
        }
        assert forall|i: int, j: int| 0 <= i < j < hits.len() implies place_before(
            #[trigger] hits[i],
            #[trigger] hits[j],
        ) by {
            if j < front.len() {
                assert(hits[i] == front[i] && hits[j] == front[j]);
            } else if i < front.len() {
                assert(hits[i] == front[i]);
                assert(hits[j] == last[j - front.len()]);
            } else {
                assert(hits[i] == last[i - front.len()]);
                assert(hits[j] == last[j - front.len()]);
            }
        }
    }
}

/// The hits of a repository hold every listed plugin of it that carries the
/// key.
pub proof fn lemma_repo_hits_complete(
    keys: Seq<Option<Identity>>,
    r: int,
    key: Option<Identity>,
    n: nat,
    p: int,
)
    requires
        0 <= p < n <= keys.len(),
        keys[p] == key,
        is_listed(keys, p),
    ensures
        repo_hits(keys, r, key, n).contains((r, p)),
    decreases n,
{
    let before = repo_hits(keys, r, key, (n - 1) as nat);
    let hits = repo_hits(keys, r, key, n);
    if p == n - 1 {
        assert(hits[before.len() as int] == (r, p));
    } else {
        lemma_repo_hits_complete(keys, r, key, (n - 1) as nat, p);
        let i = before.index_of((r, p));
        assert(hits[i] == (r, p));
    }
}

/// A lookup yields every listed place of the table that carries the key:
/// together with the two laws before, this says what a lookup yields.
pub proof fn lemma_hits_complete(
    table: Seq<Seq<Option<Identity>>>,
    key: Option<Identity>,
    m: nat,
    r: int,
    p: int,
)
    requires
        0 <= r < m <= table.len(),
        0 <= p < table[r].len(),
        table[r][p] == key,
        is_listed(table[r], p),
    ensures
        all_hits(table, key, m).contains((r, p)),
    decreases m,
{
    let front = all_hits(table, key, (m - 1) as nat);
    let last = repo_hits(table[m - 1], m - 1, key, table[m - 1].len());
    let hits = all_hits(table, key, m);
    if r == m - 1 {
        lemma_repo_hits_complete(table[r], r, key, table[r].len(), p);
        let i = last.index_of((r, p));
        assert(hits[front.len() + i] == (r, p));
    } else {
        lemma_hits_complete(table, key, (m - 1) as nat, r, p);
        let i = front.index_of((r, p));
        assert(hits[i] == (r, p));
    }
}

/// Where no repository holds `key`, a lookup of it finds nothing.
pub proof fn lemma_lookup_no_holder(table: Seq<Seq<Option<Identity>>>, key: Option<Identity>)
    requires
        forall|r: int| 0 <= r < table.len() ==> !holds(#[trigger] table[r], key),
    ensures
        lookup_result(table, key) == Seq::<(int, int)>::empty(),
{
    lemma_all_hits_no_holder(table, key, table.len());
}

/// Where none of the first `m` repositories holds `key`, they have no hits.
pub proof fn lemma_all_hits_no_holder(
    table: Seq<Seq<Option<Identity>>>,
    key: Option<Identity>,
    m: nat,
)
    requires
        m <= table.len(),
        forall|r: int| 0 <= r < m ==> !holds(#[trigger] table[r], key),
    ensures
        all_hits(table, key, m) == Seq::<(int, int)>::empty(),
    decreases m,
{
    if m > 0 {
        lemma_all_hits_no_holder(table, key, (m - 1) as nat);
        assert(!holds(table[m - 1], key));
        lemma_repo_hits_no_holder(table[m - 1], m - 1, key, table[m - 1].len());
        assert(all_hits(table, key, m) =~= Seq::<(int, int)>::empty());
    }
}

/// A repository that does not hold `key` has no hits for it.
pub proof fn lemma_repo_hits_no_holder(
    keys: Seq<Option<Identity>>,
    r: int,
    key: Option<Identity>,
    n: nat,
)
    requires
        n <= keys.len(),
        !holds(keys, key),
    ensures
        repo_hits(keys, r, key, n) == Seq::<(int, int)>::empty(),
    decreases n,
{
    if n > 0 {
        lemma_repo_hits_no_holder(keys, r, key, (n - 1) as nat);
        assert(keys[n - 1] != key);
    }
}

/// Among the first `n` plugins of a repository, an identity has one hit where
/// one of them carries it and none otherwise; the hit names this repository
/// and a plugin that carries the identity.
pub proof fn lemma_repo_hits_of_identity(keys: Seq<Option<Identity>>, r: int, key: Identity, n: nat)
    requires
        n <= keys.len(),
    ensures
        (exists|p: int| 0 <= p < n && #[trigger] keys[p] == Some(key)) ==> repo_hits(
            keys,
            r,
            Some(key),
            n,
        ).len() == 1,
        !(exists|p: int| 0 <= p < n && #[trigger] keys[p] == Some(key)) ==> repo_hits(
            keys,
            r,
            Some(key),
            n,
        ).len() == 0,
        forall|i: int|
            0 <= i < repo_hits(keys, r, Some(key), n).len() ==> {
                let hit = #[trigger] repo_hits(keys, r, Some(key), n)[i];
                hit.0 == r && 0 <= hit.1 < n && keys[hit.1] == Some(key)
            },
    decreases n,
{
    if n > 0 {
        let k = Some(key);
        lemma_repo_hits_of_identity(keys, r, key, (n - 1) as nat);
        if keys[n - 1] == k {
            if is_listed(keys, n - 1) {
                assert(!(exists|p: int| 0 <= p < n - 1 && #[trigger] keys[p] == k));
            } else {
                let q = choose|q: int| 0 <= q < n - 1 && #[trigger] keys[q] == keys[n - 1];
                assert(keys[q] == k);
            }
        } else {
            if exists|p: int| 0 <= p < n && #[trigger] keys[p] == k {
                let p = choose|p: int| 0 <= p < n && #[trigger] keys[p] == k;
                assert(p < n - 1);
            }
        }
    }
}

/// The hits of an identity name repositories in rising order: no repository
/// is named twice, so the index never shows one repository as holding an
/// identity more than once.
pub proof fn lemma_one_hit_per_repository(
    table: Seq<Seq<Option<Identity>>>,
    key: Identity,
    m: nat,
)
    requires
        m <= table.len(),
    ensures
        forall|i: int|
            0 <= i < all_hits(table, Some(key), m).len() ==> {
                let hit = #[trigger] all_hits(table, Some(key), m)[i];
                0 <= hit.0 < m && 0 <= hit.1 < table[hit.0].len() && table[hit.0][hit.1] == Some(
                    key,
                )
            },
        forall|i: int, j: int|
            0 <= i < j < all_hits(table, Some(key), m).len() ==> (#[trigger] all_hits(
                table,
                Some(key),
                m,
            )[i]).0 < (#[trigger] all_hits(table, Some(key), m)[j]).0,
    decreases m,
{
    if m > 0 {
        lemma_one_hit_per_repository(table, key, (m - 1) as nat);
        lemma_repo_hits_of_identity(table[m - 1], m - 1, key, table[m - 1].len());
        let front = all_hits(table, Some(key), (m - 1) as nat);
        let last = repo_hits(table[m - 1], m - 1, Some(key), table[m - 1].len());
        let hits = all_hits(table, Some(key), m);
        assert(hits == front + last);
        assert forall|i: int| 0 <= i < hits.len() implies {
            let hit = #[trigger] hits[i];
            0 <= hit.0 < m && 0 <= hit.1 < table[hit.0].len() && table[hit.0][hit.1] == Some(key)
        } by {
            if i < front.len() {
                assert(hits[i] == front[i]);
            } else {
                assert(hits[i] == last[i - front.len()]);
            }
        }
        assert forall|i: int, j: int| 0 <= i < j < hits.len() implies (#[trigger] hits[i]).0 < (
        #[trigger] hits[j]).0 by {
            if j < front.len() {
                assert(hits[i] == front[i] && hits[j] == front[j]);
            } else {
                assert(hits[j] == last[j - front.len()]);
                assert(hits[i] == front[i]);
            }
        }
    }
}

/// The number of hits of an identity in the first `m` repositories when only
/// repository `r` holds it: one once `r` is among them, and that hit names
/// `r`.
pub proof fn lemma_all_hits_single_holder(
    table: Seq<Seq<Option<Identity>>>,
    key: Identity,
    r: int,
    m: nat,
)
    requires
        m <= table.len(),
        0 <= r < table.len(),
        holds(table[r], Some(key)),
        forall|other: int| 0 <= other < table.len() && other != r ==> !holds(#[trigger] table[other], Some(key)),
    ensures
        m <= r ==> all_hits(table, Some(key), m).len() == 0,
        m > r ==> all_hits(table, Some(key), m).len() == 1 && all_hits(table, Some(key), m)[0].0
            == r,
    decreases m,
{
    if m > 0 {
        lemma_all_hits_single_holder(table, key, r, (m - 1) as nat);
        let keys = table[m - 1];
        lemma_repo_hits_of_identity(keys, m - 1, key, keys.len());
        if m - 1 != r {
            assert(!holds(keys, Some(key)));
        }
    }
}

/// An identity that exactly one repository holds is found exactly once, in
/// that repository.
pub proof fn lemma_lookup_single_holder(table: Seq<Seq<Option<Identity>>>, key: Identity, r: int)
    requires
        0 <= r < table.len(),
        holds(table[r], Some(key)),
        forall|other: int| 0 <= other < table.len() && other != r ==> !holds(#[trigger] table[other], Some(key)),
    ensures
        lookup_result(table, Some(key)).len() == 1,
        lookup_result(table, Some(key))[0].0 == r,
{
    lemma_all_hits_single_holder(table, key, r, table.len());
}

/// A repository among the first `m` that holds an identity is named by one of
/// their hits.
pub proof fn lemma_found_up_to(table: Seq<Seq<Option<Identity>>>, key: Identity, r: int, m: nat)
    requires
        m <= table.len(),
        0 <= r < m,
        holds(table[r], Some(key)),
    ensures
        exists|i: int|
            0 <= i < all_hits(table, Some(key), m).len() && (#[trigger] all_hits(
                table,
                Some(key),
                m,
            )[i]).0 == r,
    decreases m,
{
    let front = all_hits(table, Some(key), (m - 1) as nat);
    let last = repo_hits(table[m - 1], m - 1, Some(key), table[m - 1].len());
    let hits = all_hits(table, Some(key), m);
    assert(hits == front + last);
    if r < m - 1 {
        lemma_found_up_to(table, key, r, (m - 1) as nat);
        let i = choose|i: int| 0 <= i < front.len() && (#[trigger] front[i]).0 == r;
        assert(hits[i] == front[i]);
    } else {
        lemma_repo_hits_of_identity(table[m - 1], m - 1, key, table[m - 1].len());
        assert(last.len() == 1);
        assert(hits[front.len() as int] == last[0]);
    }
}

/// A repository holds an identity exactly when a lookup of the identity names
/// that repository.
pub proof fn lemma_held_iff_found(table: Seq<Seq<Option<Identity>>>, key: Identity, r: int)
    requires
        0 <= r < table.len(),
    ensures
        holds(table[r], Some(key)) <==> exists|i: int|
            0 <= i < lookup_result(table, Some(key)).len() && (#[trigger] lookup_result(
                table,
                Some(key),
            )[i]).0 == r,
{
    if holds(table[r], Some(key)) {
        lemma_found_up_to(table, key, r, table.len());
    }
    lemma_one_hit_per_repository(table, key, table.len());
    let hits = lookup_result(table, Some(key));
    if exists|i: int| 0 <= i < hits.len() && (#[trigger] hits[i]).0 == r {
        let i = choose|i: int| 0 <= i < hits.len() && (#[trigger] hits[i]).0 == r;
        assert(table[r][hits[i].1] == Some(key));
    }
}

} // verus!
