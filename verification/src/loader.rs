//! Load sessions: for one catalog entry, the decision how its payload gets
//! onto the destination and the state machine that follows the work through.
//!
//! The session decides and keeps the record; whoever drives it does the work.
//! Each call hands back the next thing to do, and the driver reports how it
//! went with the next call.

use vstd::prelude::*;
use vstd::string::*;
use crate::catalog::{FsNode, NodeKind, PluginEntry};
use crate::extension::PluginExtension;
use crate::cache_index::{
    lemma_held_iff_found, lemma_one_hit_per_repository, lookup_result, BoostRepoPluginMap,
};
use crate::localboost::{hit_views, holds, CacheHit};
use crate::metadata::{optional_identity, string_views, Identity};
use crate::text::text_equals;

verus! {

/// The interpreter that an install script is written for.
#[derive(Debug, Clone, Copy, PartialEq, Eq, Structural)]
pub enum PluginScriptType {
    Batch,
    Pecmd,
}

/// Suffix of a script for the command interpreter.
pub const EXT_SCRIPT_BATCH: &'static str = "cmd";

/// Suffix of a script for the command runner.
pub const EXT_SCRIPT_PECMD: &'static str = "wcs";

/// The interpreter that a file of the given suffix is a script for, if it is
/// a script at all.
pub open spec fn script_type_of(ext: Seq<char>) -> Option<PluginScriptType> {
    if ext == seq!['c', 'm', 'd'] {
        Some(PluginScriptType::Batch)
    } else if ext == seq!['w', 'c', 's'] {
        Some(PluginScriptType::Pecmd)
    } else {
        None
    }
}

impl PluginScriptType {
    /// Tells scripts from other files by their suffix.
    pub fn of_extension(ext: &str) -> (script_type: Option<PluginScriptType>)
        ensures
            script_type == script_type_of(ext@),
    {
        proof {
            reveal_strlit("cmd");
            reveal_strlit("wcs");
            assert("cmd"@ =~= seq!['c', 'm', 'd']);
            assert("wcs"@ =~= seq!['w', 'c', 's']);
        }
        if text_equals(ext, EXT_SCRIPT_BATCH) {
            Some(PluginScriptType::Batch)
        } else if text_equals(ext, EXT_SCRIPT_PECMD) {
            Some(PluginScriptType::Pecmd)
        } else {
            None
        }
    }
}

/// An install script that a plugin brought along.
#[derive(Debug, Clone)]
pub struct PluginScriptEntry {
    pub script_type: PluginScriptType,
    pub path_original: String,
    pub path_mangled: String,
}

/// Where a session stands. `Pending` is where it starts; `Resolved` and
/// `Rejected` are where it ends.
#[derive(Debug, Clone, Copy, PartialEq, Eq, Structural)]
pub enum PluginLoadState {
    Pending,
    Released,
    Resolved,
    Rejected,
}

/// How an archive is to be deployed.
#[derive(Debug, Clone, Copy, PartialEq, Eq, Structural)]
pub enum PluginLoadTarget {
    Normal,
    Localboost,
    Disabled,
}

impl From<PluginExtension> for PluginLoadTarget {
    fn from(ext: PluginExtension) -> (target: PluginLoadTarget) {
        match ext {
            PluginExtension::Normal => PluginLoadTarget::Normal,
            PluginExtension::Localboost => PluginLoadTarget::Localboost,
            _ => PluginLoadTarget::Disabled,
        }
    }
}

impl vstd::std_specs::convert::FromSpecImpl<PluginExtension> for PluginLoadTarget {
    open spec fn obeys_from_spec() -> bool {
        true
    }

    open spec fn from_spec(ext: PluginExtension) -> PluginLoadTarget {
        match ext {
            PluginExtension::Normal => PluginLoadTarget::Normal,
            PluginExtension::Localboost => PluginLoadTarget::Localboost,
            _ => PluginLoadTarget::Disabled,
        }
    }
}

/// The target of an entry: that of its class, `Disabled` where it has none.
/// A cached deployment needs an identity to be found by, so an entry without
/// one is deployed as `Normal` even where its suffix asks for the cache.
pub open spec fn target_of(extension: Option<PluginExtension>, meta: Option<Identity>)
    -> PluginLoadTarget {
    match extension {
        Some(PluginExtension::Normal) => PluginLoadTarget::Normal,
        Some(PluginExtension::Localboost) => if meta is Some {
            PluginLoadTarget::Localboost
        } else {
            PluginLoadTarget::Normal
        },
        _ => PluginLoadTarget::Disabled,
    }
}

impl PluginLoadTarget {
    /// The target of a catalog entry.
    pub fn of_entry(entry: &PluginEntry) -> (target: PluginLoadTarget)
        ensures
            target == target_of(entry.extension, optional_identity(entry.meta)),
    {
        let class = match entry.extension {
            Some(ext) => ext,
            None => PluginExtension::Disabled,
        };
        match PluginLoadTarget::from(class) {
            PluginLoadTarget::Localboost => if entry.meta.is_some() {
                PluginLoadTarget::Localboost
            } else {
                PluginLoadTarget::Normal
            },
            other => other,
        }
    }
}

/// Directory below the program directory that plugins are deployed to.
pub const PATH_DEST: &'static str = "Edgeless";

/// Directory below the destination that payloads are staged in.
pub const PATH_RELEASE: &'static str = "__release__";

/// Where a run deploys to and where it stages.
#[derive(Debug, Clone)]
pub struct PluginLoadConfig {
    pub release: String,
    pub dest: String,
    pub mangle_id: u128,
}

/// Why a session was rejected.
#[derive(Debug, Clone, Copy, PartialEq, Eq, Structural)]
pub enum LoadFailure {
    /// The archive's class is never loaded.
    NotLoadable,
    /// The session was given no destination.
    NotFound,
    /// The archiver, or the link, did not start or did not succeed.
    ExecutorFailure,
    /// The work reported success but left nothing at the destination.
    VerificationFailure,
}

/// What the driver is to do next.
#[derive(Debug, Clone, Copy, PartialEq, Eq, Structural)]
pub enum LoadAction {
    /// Nothing.
    Idle,
    /// Extract the archive into the staging directory of this run.
    Extract,
    /// Extract the archive into the cache of the repository at `repo`, and
    /// deploy from there.
    ExtractIntoCache { repo: usize },
    /// Link the destination to the cached copy at `hit`.
    Link { hit: CacheHit },
    /// Look whether the destination is there and holds anything, and collect
    /// what the plugin brought.
    Verify,
    /// Remove whatever the failed work left at the destination.
    Cleanup,
}

/// How the work that the session asked for went.
#[derive(Debug, Clone, Copy, PartialEq, Eq, Structural)]
pub enum Signal {
    /// The archiver could not be started.
    ExecutorNotStarted,
    /// The archiver ran and ended, with exit status zero or not.
    ExecutorExited { success: bool },
    /// The link was made, or could not be made.
    Linked { success: bool },
    /// The destination was looked at, and holds something or not.
    Verified { populated: bool },
    /// The removal was attempted.
    CleanedUp,
}

/// What the driver reports: a signal, and with a verification what was found
/// at the destination.
#[derive(Debug, Clone)]
pub enum LoadEvent {
    ExecutorNotStarted,
    ExecutorExited { success: bool },
    Linked { success: bool },
    Verified {
        populated: bool,
        scripts: Vec<PluginScriptEntry>,
        files: Vec<String>,
        dirs: Vec<String>,
    },
    /// Whether the removal succeeded does not matter to the session.
    CleanedUp { success: bool },
}

/// The signal that an event carries.
pub open spec fn signal_of(event: LoadEvent) -> Signal {
    match event {
        LoadEvent::ExecutorNotStarted => Signal::ExecutorNotStarted,
        LoadEvent::ExecutorExited { success } => Signal::ExecutorExited { success },
        LoadEvent::Linked { success } => Signal::Linked { success },
        LoadEvent::Verified { populated, .. } => Signal::Verified { populated },
        LoadEvent::CleanedUp { .. } => Signal::CleanedUp,
    }
}

/// The paths of the nodes of one kind among the first `n` of a listing, in
/// order.
pub open spec fn paths_of_kind(listing: Seq<FsNode>, kind: NodeKind, n: nat) -> Seq<Seq<char>>
    decreases n,
{
    if n == 0 || n > listing.len() {
        Seq::<Seq<char>>::empty()
    } else if listing[n - 1].kind == kind {
        paths_of_kind(listing, kind, (n - 1) as nat).push(listing[n - 1].path@)
    } else {
        paths_of_kind(listing, kind, (n - 1) as nat)
    }
}

/// The paths of the nodes of one kind in a listing.
pub fn collect_paths(listing: &Vec<FsNode>, kind: NodeKind) -> (paths: Vec<String>)
    ensures
        string_views(paths@) == paths_of_kind(listing@, kind, listing@.len()),
{
    let mut paths: Vec<String> = Vec::new();
    let n: usize = listing.len();
    let mut i: usize = 0;
    assert(string_views(paths@) =~= Seq::<Seq<char>>::empty());
    while i < n
        invariant
            n == listing@.len(),
            i <= n,
            string_views(paths@) == paths_of_kind(listing@, kind, i as nat),
        decreases n - i,
    {
        if listing[i].kind == kind {
            let ghost before = paths@;
            paths.push(listing[i].path.clone());
            assert(string_views(paths@) =~= string_views(before).push(listing@[i as int].path@));
        }
        i = i + 1;
    }
    paths
}

/// What a run of the archiver means to a load session. A process that could
/// not be started never ran; one that ended counts as success only with exit
/// status zero, and an ending without exit status counts as failure.
pub fn executor_event(started: bool, exit_code: Option<i32>) -> (event: LoadEvent)
    ensures
        event == (if !started {
            LoadEvent::ExecutorNotStarted
        } else {
            LoadEvent::ExecutorExited { success: exit_code == Some(0i32) }
        }),
{
    if !started {
        return LoadEvent::ExecutorNotStarted;
    }
    let success = match exit_code {
        Some(code) => code == 0,
        None => false,
    };
    LoadEvent::ExecutorExited { success }
}

/// The report of a verification, from the listing of the destination: none
/// where the destination is missing. The destination counts as populated
/// where it is there and holds anything at all; its files and directories
/// are what the plugin brought. The scripts are handed on as given.
pub fn verification_event(listing: Option<&Vec<FsNode>>, scripts: Vec<PluginScriptEntry>) -> (event:
    LoadEvent)
    ensures
        match event {
            LoadEvent::Verified { populated, scripts: recorded, files, dirs } => {
                &&& recorded == scripts
                &&& populated == (listing is Some && listing->0@.len() > 0)
                &&& string_views(files@) == match listing {
                    Some(l) => paths_of_kind(l@, NodeKind::File, l@.len()),
                    None => Seq::<Seq<char>>::empty(),
                }
                &&& string_views(dirs@) == match listing {
                    Some(l) => paths_of_kind(l@, NodeKind::Directory, l@.len()),
                    None => Seq::<Seq<char>>::empty(),
                }
            },
            _ => false,
        },
{
    match listing {
        Some(found) => {
            let files = collect_paths(found, NodeKind::File);
            let dirs = collect_paths(found, NodeKind::Directory);
            LoadEvent::Verified { populated: found.len() > 0, scripts, files, dirs }
        },
        None => {
            let files: Vec<String> = Vec::new();
            let dirs: Vec<String> = Vec::new();
            assert(string_views(files@) =~= Seq::<Seq<char>>::empty());
            assert(string_views(dirs@) =~= Seq::<Seq<char>>::empty());
            LoadEvent::Verified { populated: false, scripts, files, dirs }
        },
    }
}

/// The part of a session that decides what happens next.
#[derive(Debug, Clone, Copy, PartialEq, Eq, Structural)]
pub struct Control {
    pub state: PluginLoadState,
    /// The work that was asked for and is not reported yet.
    pub awaiting: LoadAction,
    pub failure: Option<LoadFailure>,
}

/// Whether a state is final.
pub open spec fn is_terminal(state: PluginLoadState) -> bool {
    state == PluginLoadState::Resolved || state == PluginLoadState::Rejected
}

/// Whether an action changes the file system.
pub open spec fn mutates_files(action: LoadAction) -> bool {
    match action {
        LoadAction::Extract => true,
        LoadAction::ExtractIntoCache { .. } => true,
        LoadAction::Link { .. } => true,
        LoadAction::Cleanup => true,
        LoadAction::Idle => false,
        LoadAction::Verify => false,
    }
}

/// Whether an action runs the archiver.
pub open spec fn is_extraction(action: LoadAction) -> bool {
    action == LoadAction::Extract || action is ExtractIntoCache
}

/// Whether the session may go from `from` to `to` in one step: forward by one
/// state, or to rejection, or not at all.
pub open spec fn may_follow(from: PluginLoadState, to: PluginLoadState) -> bool {
    from == to || match from {
        PluginLoadState::Pending => to == PluginLoadState::Released || to
            == PluginLoadState::Rejected,
        PluginLoadState::Released => to == PluginLoadState::Resolved || to
            == PluginLoadState::Rejected,
        PluginLoadState::Resolved => false,
        PluginLoadState::Rejected => false,
    }
}

/// Whether a signal reports on the work that the session waits for.
pub open spec fn is_expected(c: Control, signal: Signal) -> bool {
    match signal {
        Signal::ExecutorNotStarted => c.state == PluginLoadState::Pending && is_extraction(
            c.awaiting,
        ),
        Signal::ExecutorExited { .. } => c.state == PluginLoadState::Pending && is_extraction(
            c.awaiting,
        ),
        Signal::Linked { .. } => c.state == PluginLoadState::Pending && c.awaiting is Link,
        Signal::Verified { .. } => c.state == PluginLoadState::Released && c.awaiting
            == LoadAction::Verify,
        Signal::CleanedUp => c.state == PluginLoadState::Released && c.awaiting
            == LoadAction::Cleanup,
    }
}

/// The session's control after a signal. A signal that reports on nothing the
/// session waits for changes nothing.
///
/// - The archiver did not start: rejected at once, nothing to remove.
/// - The archiver ended, or the link was tried: released; then verification
///   after success, removal after failure.
/// - The destination holds something: resolved. It holds nothing: removal.
/// - The removal was attempted: rejected, however the removal went.
pub open spec fn after_signal(c: Control, signal: Signal) -> Control {
    if !is_expected(c, signal) {
        c
    } else {
        match signal {
            Signal::ExecutorNotStarted => Control {
                state: PluginLoadState::Rejected,
                awaiting: LoadAction::Idle,
                failure: Some(LoadFailure::ExecutorFailure),
            },
            Signal::ExecutorExited { success } => released(success),
            Signal::Linked { success } => released(success),
            Signal::Verified { populated } => if populated {
                Control {
                    state: PluginLoadState::Resolved,
                    awaiting: LoadAction::Idle,
                    failure: None,
                }
            } else {
                Control {
                    state: PluginLoadState::Released,
                    awaiting: LoadAction::Cleanup,
                    failure: Some(LoadFailure::VerificationFailure),
                }
            },
            Signal::CleanedUp => Control {
                state: PluginLoadState::Rejected,
                awaiting: LoadAction::Idle,
                failure: c.failure,
            },
        }
    }
}

/// The control of a session whose payload work has ended.
pub open spec fn released(success: bool) -> Control {
    if success {
        Control { state: PluginLoadState::Released, awaiting: LoadAction::Verify, failure: None }
    } else {
        Control {
            state: PluginLoadState::Released,
            awaiting: LoadAction::Cleanup,
            failure: Some(LoadFailure::ExecutorFailure),
        }
    }
}

/// What the driver is told to do after a signal: the work that the session
/// now waits for, or nothing where the signal changed nothing.
pub open spec fn asked_by_signal(c: Control, signal: Signal) -> LoadAction {
    if is_expected(c, signal) {
        after_signal(c, signal).awaiting
    } else {
        LoadAction::Idle
    }
}

impl Control {
    /// The control of a session that has not begun.
    pub fn fresh() -> (c: Control)
        ensures
            c == (Control {
                state: PluginLoadState::Pending,
                awaiting: LoadAction::Idle,
                failure: None,
            }),
    {
        Control { state: PluginLoadState::Pending, awaiting: LoadAction::Idle, failure: None }
    }

    /// Takes a signal: the control afterwards and what to do next.
    pub fn step(self, signal: Signal) -> (next: (Control, LoadAction))
        ensures
            next.0 == after_signal(self, signal),
            next.1 == asked_by_signal(self, signal),
            may_follow(self.state, next.0.state),
            is_terminal(self.state) ==> next.0 == self && next.1 == LoadAction::Idle,
    {
        let pending = match self.state {
            PluginLoadState::Pending => true,
            _ => false,
        };
        let is_released = match self.state {
            PluginLoadState::Released => true,
            _ => false,
        };
        let extracting = match self.awaiting {
            LoadAction::Extract => true,
            LoadAction::ExtractIntoCache { .. } => true,
            _ => false,
        };
        let linking = match self.awaiting {
            LoadAction::Link { .. } => true,
            _ => false,
        };
        let verifying = match self.awaiting {
            LoadAction::Verify => true,
            _ => false,
        };
        let cleaning = match self.awaiting {
            LoadAction::Cleanup => true,
            _ => false,
        };
        let expected = match signal {
            Signal::ExecutorNotStarted => pending && extracting,
            Signal::ExecutorExited { .. } => pending && extracting,
            Signal::Linked { .. } => pending && linking,
            Signal::Verified { .. } => is_released && verifying,
            Signal::CleanedUp => is_released && cleaning,
        };
        if !expected {
            return (self, LoadAction::Idle);
        }
        let next = match signal {
            Signal::ExecutorNotStarted => Control {
                state: PluginLoadState::Rejected,
                awaiting: LoadAction::Idle,
                failure: Some(LoadFailure::ExecutorFailure),
            },
            Signal::ExecutorExited { success } => Self::after_release(success),
            Signal::Linked { success } => Self::after_release(success),
            Signal::Verified { populated } => if populated {
                Control {
                    state: PluginLoadState::Resolved,
                    awaiting: LoadAction::Idle,
                    failure: None,
                }
            } else {
                Control {
                    state: PluginLoadState::Released,
                    awaiting: LoadAction::Cleanup,
                    failure: Some(LoadFailure::VerificationFailure),
                }
            },
            Signal::CleanedUp => Control {
                state: PluginLoadState::Rejected,
                awaiting: LoadAction::Idle,
                failure: self.failure,
            },
        };
        (next, next.awaiting)
    }

    fn after_release(success: bool) -> (c: Control)
        ensures
            c == released(success),
    {
        if success {
            Control {
                state: PluginLoadState::Released,
                awaiting: LoadAction::Verify,
                failure: None,
            }
        } else {
            Control {
                state: PluginLoadState::Released,
                awaiting: LoadAction::Cleanup,
                failure: Some(LoadFailure::ExecutorFailure),
            }
        }
    }
}

/// How the payload of an entry is to get onto the destination.
#[derive(Debug, Clone, Copy, PartialEq, Eq, Structural)]
pub enum ReleasePlan {
    /// Not at all.
    Reject(LoadFailure),
    /// By extracting the archive for this run alone.
    ExtractFresh,
    /// By linking to the copy that a repository already holds.
    LinkFromCache(CacheHit),
    /// By extracting the archive into the cache of a repository that does not
    /// hold the identity yet.
    ExtractIntoCache { repo: usize },
}

/// The first repository from `from` on that does not hold `key`.
pub open spec fn first_lacking(table: Seq<Seq<Option<Identity>>>, key: Option<Identity>, from: nat)
    -> Option<int>
    decreases table.len() - from,
{
    if from >= table.len() {
        None
    } else if !holds(table[from as int], key) {
        Some(from as int)
    } else {
        first_lacking(table, key, from + 1)
    }
}

/// Whether one of the hits names a repository other than the entry's own.
pub open spec fn held_elsewhere(hits: Seq<(int, int)>, own_repo: Option<usize>) -> bool {
    exists|i: int| 0 <= i < hits.len() && Some((#[trigger] hits[i]).0) != own_view(own_repo)
}

/// The position of the entry's own repository, if it has one.
pub open spec fn own_view(own_repo: Option<usize>) -> Option<int> {
    match own_repo {
        Some(o) => Some(o as int),
        None => None,
    }
}

/// The repository whose cache receives an identity that no repository holds:
/// the entry's own where it has one, the first of the table otherwise.
pub open spec fn fresh_cache(repositories: nat, own_repo: Option<usize>) -> int {
    match own_repo {
        Some(o) => if o < repositories {
            o as int
        } else {
            0
        },
        None => 0,
    }
}

/// The plan for an entry with an identity that asks for the cache.
///
/// - Another repository than the entry's own holds the identity, and some
///   repository lacks it: the archive is extracted once more, into the first
///   repository that lacks it.
/// - Otherwise, some repository holds it: the first copy found is linked.
/// - Otherwise there is no copy: the archive is extracted into a cache, or,
///   where there is no repository at all, for this run alone.
pub open spec fn cached_plan(
    table: Seq<Seq<Option<Identity>>>,
    key: Identity,
    own_repo: Option<usize>,
) -> ReleasePlan {
    let hits = lookup_result(table, Some(key));
    let lacking = first_lacking(table, Some(key), 0);
    if held_elsewhere(hits, own_repo) && lacking is Some {
        ReleasePlan::ExtractIntoCache { repo: lacking->0 as usize }
    } else if hits.len() > 0 {
        ReleasePlan::LinkFromCache(
            CacheHit { repo: hits[0].0 as usize, plugin: hits[0].1 as usize },
        )
    } else if table.len() > 0 {
        ReleasePlan::ExtractIntoCache { repo: fresh_cache(table.len(), own_repo) as usize }
    } else {
        ReleasePlan::ExtractFresh
    }
}

/// The plan for an entry. An entry that is not loadable is rejected, and so
/// is any entry while the session has no destination. A `Normal` entry, and
/// one without identity, is extracted for this run alone, whatever the cache
/// holds.
pub open spec fn planned(
    target: PluginLoadTarget,
    meta: Option<Identity>,
    configured: bool,
    table: Seq<Seq<Option<Identity>>>,
    own_repo: Option<usize>,
) -> ReleasePlan {
    if target == PluginLoadTarget::Disabled {
        ReleasePlan::Reject(LoadFailure::NotLoadable)
    } else if !configured {
        ReleasePlan::Reject(LoadFailure::NotFound)
    } else if target == PluginLoadTarget::Localboost && meta is Some {
        cached_plan(table, meta->0, own_repo)
    } else {
        ReleasePlan::ExtractFresh
    }
}

/// The control of a session after it was begun with a plan. A session that
/// was begun before, or has ended, is left as it is.
pub open spec fn after_begin(c: Control, plan: ReleasePlan) -> Control {
    if c.state != PluginLoadState::Pending || c.awaiting != LoadAction::Idle {
        c
    } else {
        match plan {
            ReleasePlan::Reject(why) => Control {
                state: PluginLoadState::Rejected,
                awaiting: LoadAction::Idle,
                failure: Some(why),
            },
            ReleasePlan::ExtractFresh => Control {
                state: PluginLoadState::Pending,
                awaiting: LoadAction::Extract,
                failure: None,
            },
            ReleasePlan::LinkFromCache(hit) => Control {
                state: PluginLoadState::Pending,
                awaiting: LoadAction::Link { hit },
                failure: None,
            },
            ReleasePlan::ExtractIntoCache { repo } => Control {
                state: PluginLoadState::Pending,
                awaiting: LoadAction::ExtractIntoCache { repo },
                failure: None,
            },
        }
    }
}

/// What the driver is told to do when a session is begun: the work that the
/// plan asks for, or nothing where the session was begun before.
pub open spec fn asked_by_begin(c: Control, plan: ReleasePlan) -> LoadAction {
    if c.state != PluginLoadState::Pending || c.awaiting != LoadAction::Idle {
        LoadAction::Idle
    } else {
        after_begin(c, plan).awaiting
    }
}

/// The load session of one catalog entry.
#[derive(Debug)]
pub struct PluginLoadSession<'a> {
    pub entry: &'a PluginEntry,
    pub target: PluginLoadTarget,
    pub state: PluginLoadState,
    pub config: Option<PluginLoadConfig>,
    pub boostrepo: &'a BoostRepoPluginMap<'a>,
    pub dest: String,
    pub release: String,
    pub scripts: Vec<PluginScriptEntry>,
    pub depend_files: Vec<String>,
    pub depend_dirs: Vec<String>,
    /// The work that was asked for and is not reported yet.
    pub awaiting: LoadAction,
    /// Why the session was, or is about to be, rejected.
    pub failure: Option<LoadFailure>,
}

impl<'a> PluginLoadSession<'a> {
    /// The part of the session that decides what happens next.
    pub open spec fn control(&self) -> Control {
        Control { state: self.state, awaiting: self.awaiting, failure: self.failure }
    }

    /// The plan that this session follows when it is begun.
    pub open spec fn plan_for(&self, own_repo: Option<usize>) -> ReleasePlan {
        planned(
            self.target,
            optional_identity(self.entry.meta),
            self.config is Some,
            self.boostrepo.table(),
            own_repo,
        )
    }

    /// A pending session for `entry`, to be resolved against the index
    /// `repo`. It has no destination yet.
    pub fn new(entry: &'a PluginEntry, repo: &'a BoostRepoPluginMap<'a>) -> (session:
        PluginLoadSession<'a>)
        ensures
            session.entry == entry,
            session.boostrepo == repo,
            session.target == target_of(entry.extension, optional_identity(entry.meta)),
            session.control() == (Control {
                state: PluginLoadState::Pending,
                awaiting: LoadAction::Idle,
                failure: None,
            }),
            session.config is None,
            session.dest@.len() == 0,
            session.release@.len() == 0,
            session.scripts@.len() == 0,
            session.depend_files@.len() == 0,
            session.depend_dirs@.len() == 0,
    {
        let target = PluginLoadTarget::of_entry(entry);
        PluginLoadSession {
            target,
            entry,
            config: None,
            state: PluginLoadState::Pending,
            dest: String::new(),
            release: String::new(),
            scripts: Vec::new(),
            depend_files: Vec::new(),
            depend_dirs: Vec::new(),
            boostrepo: repo,
            awaiting: LoadAction::Idle,
            failure: None,
        }
    }

    /// Gives the session its destination, or takes it away, and hands the
    /// session back for the next call.
    pub fn with_config(&mut self, config: Option<PluginLoadConfig>) -> (session: &mut Self)
        ensures
            *session == (PluginLoadSession { config, ..*old(self) }),
            *final(self) == *final(session),
    {
        self.config = config;
        self
    }

    /// Whether the archive is to be extracted into the cache of the
    /// repository at `repo`. It is not where that repository holds the
    /// identity already; where another one holds it, only if `force` is set.
    pub fn release_as_localboost(&self, repo: usize, force: bool) -> (release: bool)
        ensures
            release == (repo < self.boostrepo.table().len() && !holds(
                self.boostrepo.table()[repo as int],
                optional_identity(self.entry.meta),
            ) && (force || lookup_result(
                self.boostrepo.table(),
                optional_identity(self.entry.meta),
            ).len() == 0)),
    {
        let repos = self.boostrepo.repositories();
        if repo >= repos.0.len() {
            return false;
        }
        if self.boostrepo.contains(&self.entry.meta, repo) {
            return false;
        }
        if force {
            return true;
        }
        let hits = self.boostrepo.lookup(&self.entry.meta);
        hits.len() == 0
    }

    /// Decides how the payload is to get onto the destination. `own_repo` is
    /// the place in the table of the repository that the entry itself lies
    /// on, if it lies on one.
    pub fn plan(&self, own_repo: Option<usize>) -> (plan: ReleasePlan)
        ensures
            plan == self.plan_for(own_repo),
            plan matches ReleasePlan::ExtractIntoCache { repo } ==> repo
                < self.boostrepo.table().len() && !holds(
                self.boostrepo.table()[repo as int],
                optional_identity(self.entry.meta),
            ),
            plan matches ReleasePlan::LinkFromCache(hit) ==> hit.repo
                < self.boostrepo.table().len() && hit.plugin
                < self.boostrepo.table()[hit.repo as int].len()
                && self.boostrepo.table()[hit.repo as int][hit.plugin as int] == optional_identity(
                self.entry.meta,
            ),
    {
        match self.target {
            PluginLoadTarget::Disabled => {
                return ReleasePlan::Reject(LoadFailure::NotLoadable);
            },
            _ => {},
        }
        if self.config.is_none() {
            return ReleasePlan::Reject(LoadFailure::NotFound);
        }
        let cached = match self.target {
            PluginLoadTarget::Localboost => self.entry.meta.is_some(),
            _ => false,
        };
        if !cached {
            return ReleasePlan::ExtractFresh;
        }
        let ghost table = self.boostrepo.table();
        let ghost key = optional_identity(self.entry.meta)->0;
        let hits = self.boostrepo.lookup(&self.entry.meta);
        let repos = self.boostrepo.repositories();
        let m: usize = repos.0.len();
        proof {
            lemma_one_hit_per_repository(table, key, table.len());
        }
        // Is the identity held by a repository other than the entry's own?
        let mut elsewhere = false;
        let mut i: usize = 0;
        while i < hits.len()
            invariant
                i <= hits@.len(),
                hit_views(hits@) == lookup_result(table, Some(key)),
                elsewhere == (exists|j: int|
                    0 <= j < i && Some((#[trigger] hit_views(hits@)[j]).0) != own_view(own_repo)),
            decreases hits@.len() - i,
        {
            let other = match own_repo {
                Some(o) => hits[i].repo != o,
                None => true,
            };
            assert(hit_views(hits@)[i as int].0 == hits@[i as int].repo);
            if other {
                elsewhere = true;
            }
            i = i + 1;
        }
        assert(elsewhere == held_elsewhere(hit_views(hits@), own_repo));
        // Which repository is the first to lack it?
        let mut lacking: Option<usize> = None;
        let mut r: usize = 0;
        while r < m && lacking.is_none()
            invariant
                m == table.len(),
                r <= m,
                table == self.boostrepo.table(),
                Some(key) == optional_identity(self.entry.meta),
                match lacking {
                    Some(l) => l < m && first_lacking(table, Some(key), 0) == Some(l as int)
                        && !holds(table[l as int], Some(key)),
                    None => first_lacking(table, Some(key), 0) == first_lacking(
                        table,
                        Some(key),
                        r as nat,
                    ),
                },
            decreases m - r + (if lacking is None { 1nat } else { 0nat }),
        {
            if !self.boostrepo.contains(&self.entry.meta, r) {
                lacking = Some(r);
            } else {
                r = r + 1;
            }
        }
        if elsewhere {
            match lacking {
                Some(l) => {
                    return ReleasePlan::ExtractIntoCache { repo: l };
                },
                None => {},
            }
        }
        if hits.len() > 0 {
            assert(hit_views(hits@)[0] == (hits@[0].repo as int, hits@[0].plugin as int));
            return ReleasePlan::LinkFromCache(hits[0]);
        }
        if m > 0 {
            let repo: usize = match own_repo {
                Some(o) => if o < m {
                    o
                } else {
                    0
                },
                None => 0,
            };
            proof {
                lemma_held_iff_found(table, key, repo as int);
            }
            return ReleasePlan::ExtractIntoCache { repo };
        }
        ReleasePlan::ExtractFresh
    }

    /// Begins the session: decides the plan and hands back the first work. A
    /// session that cannot be loaded is rejected here, before anything was
    /// done. With work to do, the session takes its destination and staging
    /// paths from its configuration. A session that was begun before is left
    /// as it is, and nothing is to be done.
    pub fn begin(&mut self, own_repo: Option<usize>) -> (action: LoadAction)
        ensures
            final(self).control() == after_begin(old(self).control(), old(self).plan_for(own_repo)),
            action == asked_by_begin(old(self).control(), old(self).plan_for(own_repo)),
            final(self).entry == old(self).entry,
            final(self).boostrepo == old(self).boostrepo,
            final(self).target == old(self).target,
            final(self).config == old(self).config,
            final(self).scripts == old(self).scripts,
            final(self).depend_files == old(self).depend_files,
            final(self).depend_dirs == old(self).depend_dirs,
            action != LoadAction::Idle ==> final(self).config is Some && final(self).dest@
                == final(self).config->0.dest@ && final(self).release@
                == final(self).config->0.release@,
            action == LoadAction::Idle ==> final(self).dest == old(self).dest
                && final(self).release == old(self).release,
    {
        let unstarted = match (self.state, self.awaiting) {
            (PluginLoadState::Pending, LoadAction::Idle) => true,
            _ => false,
        };
        if !unstarted {
            return LoadAction::Idle;
        }
        let plan = self.plan(own_repo);
        let action = match plan {
            ReleasePlan::Reject(why) => {
                self.state = PluginLoadState::Rejected;
                self.failure = Some(why);
                return LoadAction::Idle;
            },
            ReleasePlan::ExtractFresh => LoadAction::Extract,
            ReleasePlan::LinkFromCache(hit) => LoadAction::Link { hit },
            ReleasePlan::ExtractIntoCache { repo } => LoadAction::ExtractIntoCache { repo },
        };
        let (dest, release) = match &self.config {
            Some(config) => (config.dest.clone(), config.release.clone()),
            None => (String::new(), String::new()),
        };
        self.dest = dest;
        self.release = release;
        self.awaiting = action;
        self.failure = None;
        action
    }

    /// Takes the driver's report on the work that was asked for, and hands
    /// back what is to be done next. A verification that found the
    /// destination populated resolves the session, which then records the
    /// scripts, files and directories that the plugin brought. A report on
    /// anything the session does not wait for changes nothing.
    pub fn advance(&mut self, event: LoadEvent) -> (action: LoadAction)
        ensures
            final(self).control() == after_signal(old(self).control(), signal_of(event)),
            action == asked_by_signal(old(self).control(), signal_of(event)),
            may_follow(old(self).state, final(self).state),
            final(self).entry == old(self).entry,
            final(self).boostrepo == old(self).boostrepo,
            final(self).target == old(self).target,
            final(self).config == old(self).config,
            final(self).dest == old(self).dest,
            final(self).release == old(self).release,
            match event {
                LoadEvent::Verified { populated, scripts, files, dirs } => if populated
                    && is_expected(old(self).control(), signal_of(event)) {
                    final(self).scripts == scripts && final(self).depend_files == files
                        && final(self).depend_dirs == dirs
                } else {
                    final(self).scripts == old(self).scripts && final(self).depend_files == old(
                        self,
                    ).depend_files && final(self).depend_dirs == old(self).depend_dirs
                },
                _ => final(self).scripts == old(self).scripts && final(self).depend_files == old(
                    self,
                ).depend_files && final(self).depend_dirs == old(self).depend_dirs,
            },
    {
        let before = Control { state: self.state, awaiting: self.awaiting, failure: self.failure };
        let signal = match &event {
            LoadEvent::ExecutorNotStarted => Signal::ExecutorNotStarted,
            LoadEvent::ExecutorExited { success } => Signal::ExecutorExited { success: *success },
            LoadEvent::Linked { success } => Signal::Linked { success: *success },
            LoadEvent::Verified { populated, .. } => Signal::Verified { populated: *populated },
            LoadEvent::CleanedUp { .. } => Signal::CleanedUp,
        };
        let (next, action) = before.step(signal);
        let resolved_now = match (before.state, next.state) {
            (PluginLoadState::Released, PluginLoadState::Resolved) => true,
            _ => false,
        };
        self.state = next.state;
        self.awaiting = next.awaiting;
        self.failure = next.failure;
        if resolved_now {
            match event {
                LoadEvent::Verified { populated, scripts, files, dirs } => {
                    self.scripts = scripts;
                    self.depend_files = files;
                    self.depend_dirs = dirs;
                },
                _ => {},
            }
        }
        action
    }
}

/// The table after an extracted plugin of identity `key` was added to the
/// repository at `repo`.
pub open spec fn with_cached(table: Seq<Seq<Option<Identity>>>, repo: int, key: Identity) -> Seq<
    Seq<Option<Identity>>,
> {
    table.update(repo, table[repo].push(Some(key)))
}

/// `first_lacking` finds a repository that lacks the identity and before
/// which, from `from` on, every repository holds it; it finds none only where
/// every repository from `from` on holds the identity.
pub proof fn lemma_first_lacking(table: Seq<Seq<Option<Identity>>>, key: Option<Identity>, from: nat)
    ensures
        match first_lacking(table, key, from) {
            Some(r) => from <= r < table.len() && !holds(table[r], key) && forall|q: int|
                from <= q < r ==> holds(#[trigger] table[q], key),
            None => forall|q: int| from <= q < table.len() ==> holds(#[trigger] table[q], key),
        },
    decreases table.len() - from,
{
    if from < table.len() && holds(table[from as int], key) {
        lemma_first_lacking(table, key, from + 1);
    }
}

/// Where every repository holds the identity, the payload is linked from the
/// cache: nothing is extracted.
pub proof fn lemma_full_cache_links(
    table: Seq<Seq<Option<Identity>>>,
    key: Identity,
    own_repo: Option<usize>,
)
    requires
        table.len() > 0,
        forall|r: int| 0 <= r < table.len() ==> holds(#[trigger] table[r], Some(key)),
    ensures
        cached_plan(table, key, own_repo) is LinkFromCache,
{
    lemma_first_lacking(table, Some(key), 0);
    lemma_held_iff_found(table, key, 0);
    assert(holds(table[0], Some(key)));
}

/// An extraction into a cache always goes to a repository that lacks the
/// identity, and the repository holds it once the extracted plugin is added:
/// no repository receives the same identity twice.
pub proof fn lemma_extraction_fills_gap(
    table: Seq<Seq<Option<Identity>>>,
    key: Identity,
    own_repo: Option<usize>,
)
    requires
        table.len() <= usize::MAX,
        cached_plan(table, key, own_repo) is ExtractIntoCache,
    ensures
        ({
            let repo = cached_plan(table, key, own_repo)->repo as int;
            &&& 0 <= repo < table.len()
            &&& !holds(table[repo], Some(key))
            &&& holds(with_cached(table, repo, key)[repo], Some(key))
            &&& forall|r: int|
                0 <= r < table.len() && holds(#[trigger] table[r], Some(key)) ==> holds(
                    with_cached(table, repo, key)[r],
                    Some(key),
                )
        }),
{
    lemma_first_lacking(table, Some(key), 0);
    let hits = lookup_result(table, Some(key));
    let lacking = first_lacking(table, Some(key), 0);
    let repo = cached_plan(table, key, own_repo)->repo as int;
    if held_elsewhere(hits, own_repo) && lacking is Some {
        assert(repo == lacking->0);
    } else {
        assert(hits.len() == 0);
        assert(repo == fresh_cache(table.len(), own_repo));
        lemma_held_iff_found(table, key, repo);
    }
    let after = with_cached(table, repo, key);
    assert(after[repo][table[repo].len() as int] == Some(key));
    assert forall|r: int| 0 <= r < table.len() && holds(#[trigger] table[r], Some(key)) implies holds(
        after[r],
        Some(key),
    ) by {
        let p = choose|p: int| 0 <= p < table[r].len() && #[trigger] table[r][p] == Some(key);
        assert(after[r][p] == Some(key));
    }
}

/// A repository that received an identity by extraction never receives it
/// again: once the extracted plugin is added, no plan for that identity
/// extracts into the same repository, wherever the next entry lies.
pub proof fn lemma_no_second_extraction(
    table: Seq<Seq<Option<Identity>>>,
    key: Identity,
    own_repo: Option<usize>,
    next_own_repo: Option<usize>,
)
    requires
        table.len() <= usize::MAX,
        cached_plan(table, key, own_repo) is ExtractIntoCache,
    ensures
        cached_plan(
            with_cached(table, cached_plan(table, key, own_repo)->repo as int, key),
            key,
            next_own_repo,
        ) != cached_plan(table, key, own_repo),
{
    lemma_extraction_fills_gap(table, key, own_repo);
    let repo = cached_plan(table, key, own_repo)->repo;
    let after = with_cached(table, repo as int, key);
    if cached_plan(after, key, next_own_repo) is ExtractIntoCache {
        lemma_extraction_fills_gap(after, key, next_own_repo);
    }
}

/// Two sessions for one identity against one cache that does not hold it,
/// one after the other: the first extracts into that cache, and once its
/// plugin is added the second links. The archive is extracted once.
pub proof fn lemma_second_session_links(
    table: Seq<Seq<Option<Identity>>>,
    key: Identity,
    own_repo: Option<usize>,
)
    requires
        table.len() == 1,
        !holds(table[0], Some(key)),
    ensures
        cached_plan(table, key, own_repo) == (ReleasePlan::ExtractIntoCache { repo: 0 }),
        cached_plan(with_cached(table, 0, key), key, own_repo) is LinkFromCache,
{
    lemma_first_lacking(table, Some(key), 0);
    lemma_held_iff_found(table, key, 0);
    let hits = lookup_result(table, Some(key));
    if hits.len() > 0 {
        lemma_one_hit_per_repository(table, key, table.len());
        assert(hits[0].0 == 0);
    }
    assert(!held_elsewhere(hits, own_repo));
    let after = with_cached(table, 0, key);
    assert(after[0][table[0].len() as int] == Some(key));
    assert forall|r: int| 0 <= r < after.len() implies holds(#[trigger] after[r], Some(key)) by {
        assert(r == 0);
    }
    lemma_full_cache_links(after, key, own_repo);
}

/// One call on a session: it is begun with a plan, or it is told how the work
/// went.
pub enum SessionStep {
    Begin(ReleasePlan),
    Report(Signal),
}

/// The control of a session after one call.
pub open spec fn after_step(c: Control, step: SessionStep) -> Control {
    match step {
        SessionStep::Begin(plan) => after_begin(c, plan),
        SessionStep::Report(signal) => after_signal(c, signal),
    }
}

/// The work that one call asks the driver for.
pub open spec fn asked_by_step(c: Control, step: SessionStep) -> LoadAction {
    match step {
        SessionStep::Begin(plan) => asked_by_begin(c, plan),
        SessionStep::Report(signal) => asked_by_signal(c, signal),
    }
}

/// The control of a session after a run of calls, taken one after the other.
pub open spec fn run(c: Control, steps: Seq<SessionStep>) -> Control
    decreases steps.len(),
{
    if steps.len() == 0 {
        c
    } else {
        after_step(run(c, steps.drop_last()), steps.last())
    }
}

/// No call skips a state or goes back, and a call on a session that has
/// ended changes nothing and asks for no work.
pub proof fn lemma_step_in_order(c: Control, step: SessionStep)
    ensures
        may_follow(c.state, after_step(c, step).state),
        is_terminal(c.state) ==> after_step(c, step) == c && asked_by_step(c, step)
            == LoadAction::Idle,
{
}

/// A session that starts as pending and is resolved after some calls was
/// released after fewer of them: nothing is resolved that was not released.
pub proof fn lemma_resolved_was_released(c: Control, steps: Seq<SessionStep>)
    requires
        c.state == PluginLoadState::Pending,
    ensures
        run(c, steps).state == PluginLoadState::Resolved ==> exists|k: int|
            0 <= k < steps.len() && #[trigger] run(c, steps.take(k)).state
                == PluginLoadState::Released,
    decreases steps.len(),
{
    if steps.len() > 0 && run(c, steps).state == PluginLoadState::Resolved {
        let front = steps.drop_last();
        let before = run(c, front);
        assert(front =~= steps.take(steps.len() - 1));
        lemma_step_in_order(before, steps.last());
        if before.state == PluginLoadState::Resolved {
            lemma_resolved_was_released(c, front);
            let k = choose|k: int|
                0 <= k < front.len() && #[trigger] run(c, front.take(k)).state
                    == PluginLoadState::Released;
            assert(front.take(k) =~= steps.take(k));
        } else {
            assert(before.state == PluginLoadState::Released);
            assert(run(c, steps.take(steps.len() - 1)).state == PluginLoadState::Released);
        }
    }
}

/// Once a run of calls has brought a session to a final state, the rest of
/// the run leaves it there and asks for no work: after its end a session
/// never has the file system touched again.
pub proof fn lemma_no_work_after_end(c: Control, steps: Seq<SessionStep>, k: int)
    requires
        0 <= k <= steps.len(),
        is_terminal(run(c, steps.take(k)).state),
    ensures
        run(c, steps) == run(c, steps.take(k)),
        forall|j: int|
            k <= j < steps.len() ==> asked_by_step(#[trigger] run(c, steps.take(j)), steps[j])
                == LoadAction::Idle,
    decreases steps.len() - k,
{
    if k < steps.len() {
        let next = steps.take(k + 1);
        assert(next.drop_last() =~= steps.take(k));
        assert(next.last() == steps[k]);
        lemma_step_in_order(run(c, steps.take(k)), steps[k]);
        lemma_no_work_after_end(c, steps, k + 1);
        assert forall|j: int| k <= j < steps.len() implies asked_by_step(
            #[trigger] run(c, steps.take(j)),
            steps[j],
        ) == LoadAction::Idle by {
            if j == k {
            } else {
                assert(run(c, steps.take(k + 1)) == run(c, steps.take(k)));
            }
        }
    } else {
        assert(steps.take(k) =~= steps);
    }
}

/// Work that changes the file system is asked for only of a session that has
/// not ended: extraction and linking while it is pending, removal while it is
/// released.
pub proof fn lemma_work_only_before_end(c: Control, step: SessionStep)
    requires
        mutates_files(asked_by_step(c, step)),
    ensures
        !is_terminal(c.state),
        asked_by_step(c, step) == LoadAction::Cleanup ==> after_step(c, step).state
            == PluginLoadState::Released,
        asked_by_step(c, step) != LoadAction::Cleanup ==> c.state == PluginLoadState::Pending
            && after_step(c, step).state == PluginLoadState::Pending,
{
}

} // verus!
