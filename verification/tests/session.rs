use edgeless_plugin::catalog::{FileMeta, FsNode, NodeKind, PluginEntry};
use edgeless_plugin::loader::{
    collect_paths, executor_event, verification_event, Control, LoadAction, LoadEvent, LoadFailure, PluginLoadConfig, PluginLoadSession,
    PluginLoadState, PluginLoadTarget, PluginScriptEntry, PluginScriptType, ReleasePlan, Signal,
};
use edgeless_plugin::localboost::{BoostPluginEntry, BoostRepoEntries, BoostRepoEntry, CacheHit};
use edgeless_plugin::profile::{DiskKind, ProfileEntry, ProfileType};
use edgeless_plugin::extension::PluginExtension;
use edgeless_plugin::tools::{Pecmd, SevenZip, ToolError};

fn entry(name: &str) -> PluginEntry {
    PluginEntry::new(format!("P/Resource/{}", name), name, true, FileMeta { size: 3, modified: 4 })
        .unwrap()
}

fn repo(path: &str, names: &[&str]) -> BoostRepoEntry {
    let listing: Vec<FsNode> = names
        .iter()
        .map(|n| FsNode {
            path: format!("{}/BoostRepo/{}", path, n),
            name: n.to_string(),
            kind: NodeKind::Directory,
            filemeta: FileMeta { size: 0, modified: 0 },
            children: vec![],
        })
        .collect();
    let profile = ProfileEntry {
        version_text: String::new(),
        path: path.to_string(),
        mountpoint: "M".to_string(),
        name: "disk".to_string(),
        disk_type: DiskKind::Unknown(-1),
        removable: false,
        fs: "NTFS".to_string(),
        profile_type: ProfileType::BoostRepo,
    };
    BoostRepoEntry::new(profile, &listing).unwrap()
}

fn config() -> Option<PluginLoadConfig> {
    Some(PluginLoadConfig {
        release: "X/Edgeless/__release__".to_string(),
        dest: "X/Edgeless".to_string(),
        mangle_id: 42,
    })
}

fn verified(populated: bool) -> LoadEvent {
    LoadEvent::Verified {
        populated,
        scripts: vec![PluginScriptEntry {
            script_type: PluginScriptType::Batch,
            path_original: "X/Edgeless/setup.cmd".to_string(),
            path_mangled: "X/Edgeless/setup_42.cmd".to_string(),
        }],
        files: vec!["X/Edgeless/setup.cmd".to_string()],
        dirs: vec!["X/Edgeless/CoolTweak".to_string()],
    }
}

#[test]
fn normal_archive_is_extracted_and_resolved() {
    let e = entry("CoolTweak_1.0_Jane.7z");
    let repos = BoostRepoEntries(vec![]);
    let index = repos.get_plugins();
    let mut s = PluginLoadSession::new(&e, &index);
    assert_eq!(s.target, PluginLoadTarget::Normal);
    assert_eq!(s.state, PluginLoadState::Pending);
    s.with_config(config());
    assert_eq!(s.plan(None), ReleasePlan::ExtractFresh);
    assert_eq!(s.begin(None), LoadAction::Extract);
    assert_eq!(s.state, PluginLoadState::Pending);
    assert_eq!(s.dest, "X/Edgeless");
    assert_eq!(s.release, "X/Edgeless/__release__");
    assert_eq!(s.begin(None), LoadAction::Idle);
    assert_eq!(s.advance(executor_event(true, Some(0))), LoadAction::Verify);
    assert_eq!(s.state, PluginLoadState::Released);
    assert_eq!(s.advance(verified(true)), LoadAction::Idle);
    assert_eq!(s.state, PluginLoadState::Resolved);
    assert_eq!(s.failure, None);
    assert_eq!(s.scripts.len(), 1);
    assert_eq!(s.scripts[0].script_type, PluginScriptType::Batch);
    assert_eq!(s.depend_files, vec!["X/Edgeless/setup.cmd".to_string()]);
    assert_eq!(s.depend_dirs, vec!["X/Edgeless/CoolTweak".to_string()]);
}

#[test]
fn normal_archive_ignores_the_cache() {
    let e = entry("CoolTweak_1.0_Jane.7z");
    let repos = BoostRepoEntries(vec![repo("A", &["CoolTweak_1.0_Jane"])]);
    let index = repos.get_plugins();
    let mut s = PluginLoadSession::new(&e, &index);
    s.with_config(config());
    assert_eq!(s.begin(Some(0)), LoadAction::Extract);
}

#[test]
fn cached_archive_is_linked() {
    let e = entry("CoolTweak_1.0_Jane.7zl");
    let repos = BoostRepoEntries(vec![repo("A", &["Other_1_x", "CoolTweak_1.0_Jane"])]);
    let index = repos.get_plugins();
    let mut s = PluginLoadSession::new(&e, &index);
    assert_eq!(s.target, PluginLoadTarget::Localboost);
    s.with_config(config());
    let hit = CacheHit { repo: 0, plugin: 1 };
    assert_eq!(s.plan(None), ReleasePlan::LinkFromCache(hit));
    assert_eq!(s.begin(None), LoadAction::Link { hit });
    assert_eq!(s.advance(LoadEvent::ExecutorExited { success: true }), LoadAction::Idle);
    assert_eq!(s.state, PluginLoadState::Pending);
    assert_eq!(s.advance(LoadEvent::Linked { success: true }), LoadAction::Verify);
    assert_eq!(s.state, PluginLoadState::Released);
    assert_eq!(s.advance(verified(true)), LoadAction::Idle);
    assert_eq!(s.state, PluginLoadState::Resolved);
}

#[test]
fn failed_extraction_is_cleaned_up_and_rejected() {
    let e = entry("Broken.7z");
    let repos = BoostRepoEntries(vec![]);
    let index = repos.get_plugins();
    let mut s = PluginLoadSession::new(&e, &index);
    s.with_config(config());
    assert_eq!(s.begin(None), LoadAction::Extract);
    assert_eq!(s.advance(executor_event(true, Some(2))), LoadAction::Cleanup);
    assert_eq!(s.state, PluginLoadState::Released);
    assert_eq!(s.advance(verified(true)), LoadAction::Idle);
    assert_eq!(s.state, PluginLoadState::Released);
    assert_eq!(s.advance(LoadEvent::CleanedUp { success: false }), LoadAction::Idle);
    assert_eq!(s.state, PluginLoadState::Rejected);
    assert_eq!(s.failure, Some(LoadFailure::ExecutorFailure));
    assert!(s.scripts.is_empty());
    assert!(s.depend_files.is_empty());
    assert!(s.depend_dirs.is_empty());
}

#[test]
fn executor_that_never_started_rejects_at_once() {
    let e = entry("CoolTweak_1.0_Jane.7z");
    let repos = BoostRepoEntries(vec![]);
    let index = repos.get_plugins();
    let mut s = PluginLoadSession::new(&e, &index);
    s.with_config(config());
    assert_eq!(s.begin(None), LoadAction::Extract);
    assert_eq!(s.advance(executor_event(false, None)), LoadAction::Idle);
    assert_eq!(s.state, PluginLoadState::Rejected);
    assert_eq!(s.failure, Some(LoadFailure::ExecutorFailure));
}

#[test]
fn empty_destination_fails_verification() {
    let e = entry("CoolTweak_1.0_Jane.7z");
    let repos = BoostRepoEntries(vec![]);
    let index = repos.get_plugins();
    let mut s = PluginLoadSession::new(&e, &index);
    s.with_config(config());
    s.begin(None);
    assert_eq!(s.advance(executor_event(true, Some(0))), LoadAction::Verify);
    assert_eq!(s.advance(verified(false)), LoadAction::Cleanup);
    assert_eq!(s.state, PluginLoadState::Released);
    assert!(s.scripts.is_empty());
    assert_eq!(s.advance(LoadEvent::CleanedUp { success: true }), LoadAction::Idle);
    assert_eq!(s.state, PluginLoadState::Rejected);
    assert_eq!(s.failure, Some(LoadFailure::VerificationFailure));
}

#[test]
fn unknown_suffix_is_never_extracted() {
    let e = entry("weird.7zx");
    assert_eq!(e.extension, Some(PluginExtension::Unknown));
    let repos = BoostRepoEntries(vec![]);
    let index = repos.get_plugins();
    let mut s = PluginLoadSession::new(&e, &index);
    assert_eq!(s.target, PluginLoadTarget::Disabled);
    s.with_config(config());
    assert_eq!(s.plan(None), ReleasePlan::Reject(LoadFailure::NotLoadable));
    assert_eq!(s.begin(None), LoadAction::Idle);
    assert_eq!(s.state, PluginLoadState::Rejected);
    assert_eq!(s.failure, Some(LoadFailure::NotLoadable));
    assert_eq!(s.dest, "");
}

#[test]
fn targets_by_class() {
    assert_eq!(PluginLoadTarget::from(PluginExtension::Normal), PluginLoadTarget::Normal);
    assert_eq!(PluginLoadTarget::from(PluginExtension::Localboost), PluginLoadTarget::Localboost);
    assert_eq!(PluginLoadTarget::from(PluginExtension::Disabled), PluginLoadTarget::Disabled);
    assert_eq!(PluginLoadTarget::from(PluginExtension::Unknown), PluginLoadTarget::Disabled);
    let repos = BoostRepoEntries(vec![]);
    let index = repos.get_plugins();
    let disabled = entry("CoolTweak_1.0_Jane.7zf");
    assert_eq!(PluginLoadSession::new(&disabled, &index).target, PluginLoadTarget::Disabled);
    let outside = entry("notes.txt");
    assert_eq!(PluginLoadSession::new(&outside, &index).target, PluginLoadTarget::Disabled);
    let unidentified = entry("Broken.7zl");
    assert_eq!(PluginLoadSession::new(&unidentified, &index).target, PluginLoadTarget::Normal);
}

#[test]
fn session_without_destination_is_rejected() {
    let e = entry("CoolTweak_1.0_Jane.7z");
    let repos = BoostRepoEntries(vec![]);
    let index = repos.get_plugins();
    let mut s = PluginLoadSession::new(&e, &index);
    assert_eq!(s.begin(None), LoadAction::Idle);
    assert_eq!(s.state, PluginLoadState::Rejected);
    assert_eq!(s.failure, Some(LoadFailure::NotFound));
}

#[test]
fn terminal_states_take_no_more_work() {
    let e = entry("CoolTweak_1.0_Jane.7z");
    let repos = BoostRepoEntries(vec![]);
    let index = repos.get_plugins();
    let mut s = PluginLoadSession::new(&e, &index);
    s.with_config(config());
    s.begin(None);
    s.advance(executor_event(true, Some(0)));
    s.advance(verified(true));
    assert_eq!(s.state, PluginLoadState::Resolved);
    for event in [
        LoadEvent::ExecutorNotStarted,
        LoadEvent::ExecutorExited { success: false },
        LoadEvent::Linked { success: true },
        verified(false),
        LoadEvent::CleanedUp { success: true },
    ] {
        assert_eq!(s.advance(event), LoadAction::Idle);
        assert_eq!(s.state, PluginLoadState::Resolved);
    }
    assert_eq!(s.begin(None), LoadAction::Idle);
    assert_eq!(s.depend_files.len(), 1);
}

#[test]
fn uncached_archive_goes_into_the_cache_once() {
    let e = entry("CoolTweak_1.0_Jane.7zl");
    let mut repos = BoostRepoEntries(vec![repo("A", &[])]);
    {
        let index = repos.get_plugins();
        let mut first = PluginLoadSession::new(&e, &index);
        first.with_config(config());
        assert_eq!(first.begin(None), LoadAction::ExtractIntoCache { repo: 0 });
        assert_eq!(first.advance(executor_event(true, Some(0))), LoadAction::Verify);
        assert_eq!(first.advance(verified(true)), LoadAction::Idle);
        assert_eq!(first.state, PluginLoadState::Resolved);
    }
    let cached = BoostPluginEntry {
        path: "A/BoostRepo/CoolTweak_1.0_Jane".to_string(),
        meta: e.meta.as_ref().map(|m| m.duplicate()),
        from: "A".to_string(),
    };
    assert!(repos.register(0, cached));
    let index = repos.get_plugins();
    let mut second = PluginLoadSession::new(&e, &index);
    second.with_config(config());
    assert_eq!(second.begin(None), LoadAction::Link { hit: CacheHit { repo: 0, plugin: 0 } });
    assert_eq!(repos.0[0].plugins.len(), 1);
}

#[test]
fn plan_by_cache_contents() {
    let e = entry("CoolTweak_1.0_Jane.7zl");
    let none = BoostRepoEntries(vec![]);
    let index = none.get_plugins();
    let mut s = PluginLoadSession::new(&e, &index);
    s.with_config(config());
    assert_eq!(s.plan(None), ReleasePlan::ExtractFresh);

    let two = BoostRepoEntries(vec![repo("A", &[]), repo("B", &[])]);
    let index = two.get_plugins();
    let mut s = PluginLoadSession::new(&e, &index);
    s.with_config(config());
    assert_eq!(s.plan(None), ReleasePlan::ExtractIntoCache { repo: 0 });
    assert_eq!(s.plan(Some(1)), ReleasePlan::ExtractIntoCache { repo: 1 });
    assert_eq!(s.plan(Some(5)), ReleasePlan::ExtractIntoCache { repo: 0 });

    let fan = BoostRepoEntries(vec![repo("A", &["CoolTweak_1.0_Jane"]), repo("B", &[])]);
    let index = fan.get_plugins();
    let mut s = PluginLoadSession::new(&e, &index);
    s.with_config(config());
    assert_eq!(s.plan(Some(1)), ReleasePlan::ExtractIntoCache { repo: 1 });
    assert_eq!(s.plan(None), ReleasePlan::ExtractIntoCache { repo: 1 });
    assert_eq!(s.plan(Some(0)), ReleasePlan::LinkFromCache(CacheHit { repo: 0, plugin: 0 }));

    let full = BoostRepoEntries(vec![
        repo("A", &["CoolTweak_1.0_Jane"]),
        repo("B", &["x_1_y", "CoolTweak_1.0_Jane"]),
    ]);
    let index = full.get_plugins();
    let mut s = PluginLoadSession::new(&e, &index);
    s.with_config(config());
    assert_eq!(s.plan(Some(1)), ReleasePlan::LinkFromCache(CacheHit { repo: 0, plugin: 0 }));
}

#[test]
fn release_into_a_repository() {
    let e = entry("CoolTweak_1.0_Jane.7zl");
    let repos = BoostRepoEntries(vec![repo("A", &["CoolTweak_1.0_Jane"]), repo("B", &[])]);
    let index = repos.get_plugins();
    let s = PluginLoadSession::new(&e, &index);
    assert!(!s.release_as_localboost(0, true));
    assert!(!s.release_as_localboost(0, false));
    assert!(s.release_as_localboost(1, true));
    assert!(!s.release_as_localboost(1, false));
    assert!(!s.release_as_localboost(2, true));
    let other = entry("Other_1_x.7zl");
    let s = PluginLoadSession::new(&other, &index);
    assert!(s.release_as_localboost(0, false));
    assert!(s.release_as_localboost(1, false));
}

#[test]
fn control_steps() {
    let c = Control::fresh();
    assert_eq!(c.state, PluginLoadState::Pending);
    assert_eq!(c.awaiting, LoadAction::Idle);
    assert_eq!(c.step(Signal::ExecutorExited { success: true }), (c, LoadAction::Idle));
    let waiting = Control { state: PluginLoadState::Pending, awaiting: LoadAction::Extract, failure: None };
    let (next, action) = waiting.step(Signal::ExecutorExited { success: true });
    assert_eq!(next.state, PluginLoadState::Released);
    assert_eq!(action, LoadAction::Verify);
    let (done, action) = next.step(Signal::Verified { populated: true });
    assert_eq!(done.state, PluginLoadState::Resolved);
    assert_eq!(action, LoadAction::Idle);
    assert_eq!(done.step(Signal::CleanedUp), (done, LoadAction::Idle));
}

#[test]
fn archiver_command_line() {
    let zip = SevenZip::new("tools/7z.exe".to_string(), true).unwrap();
    assert_eq!(zip.exe_path(), "tools/7z.exe");
    assert_eq!(
        zip.extract_all_files("P/Resource/a_1_x.7z", "X/Edgeless/__release__"),
        vec!["x", "P/Resource/a_1_x.7z", "-y", "-aos", "-o\"X/Edgeless/__release__\""]
    );
    assert_eq!(SevenZip::new("tools/7z.exe".to_string(), false).err(), Some(ToolError::NotFound));
    let pecmd = Pecmd::new("tools/pecmd.exe".to_string(), true).unwrap();
    assert_eq!(pecmd.exe_path(), "tools/pecmd.exe");
    assert_eq!(Pecmd::new("tools/pecmd.exe".to_string(), false).err(), Some(ToolError::NotFound));
}

#[test]
fn executor_outcomes() {
    assert!(matches!(executor_event(false, Some(0)), LoadEvent::ExecutorNotStarted));
    assert!(matches!(executor_event(true, Some(0)), LoadEvent::ExecutorExited { success: true }));
    assert!(matches!(executor_event(true, Some(1)), LoadEvent::ExecutorExited { success: false }));
    assert!(matches!(executor_event(true, Some(-1)), LoadEvent::ExecutorExited { success: false }));
    assert!(matches!(executor_event(true, None), LoadEvent::ExecutorExited { success: false }));
}

#[test]
fn verification_reports() {
    let node = |path: &str, kind: NodeKind| FsNode {
        path: path.to_string(),
        name: path.to_string(),
        kind,
        filemeta: FileMeta { size: 0, modified: 0 },
        children: vec![],
    };
    let listing = vec![
        node("D/a.txt", NodeKind::File),
        node("D/sub", NodeKind::Directory),
        node("D/dev", NodeKind::Other),
        node("D/setup.cmd", NodeKind::File),
    ];
    assert_eq!(collect_paths(&listing, NodeKind::File), vec!["D/a.txt", "D/setup.cmd"]);
    match verification_event(Some(&listing), vec![]) {
        LoadEvent::Verified { populated, scripts, files, dirs } => {
            assert!(populated);
            assert!(scripts.is_empty());
            assert_eq!(files, vec!["D/a.txt", "D/setup.cmd"]);
            assert_eq!(dirs, vec!["D/sub"]);
        }
        _ => panic!("no verification"),
    }
    assert!(matches!(
        verification_event(Some(&vec![]), vec![]),
        LoadEvent::Verified { populated: false, .. }
    ));
    assert!(matches!(
        verification_event(None, vec![]),
        LoadEvent::Verified { populated: false, .. }
    ));
    assert!(matches!(
        verification_event(Some(&vec![node("D/dev", NodeKind::Other)]), vec![]),
        LoadEvent::Verified { populated: true, .. }
    ));
}

#[test]
fn config_can_be_chained() {
    let e = entry("CoolTweak_1.0_Jane.7z");
    let repos = BoostRepoEntries(vec![]);
    let index = repos.get_plugins();
    let mut s = PluginLoadSession::new(&e, &index);
    assert_eq!(s.with_config(config()).begin(None), LoadAction::Extract);
    let mut t = PluginLoadSession::new(&e, &index);
    t.with_config(config()).with_config(None);
    assert_eq!(t.begin(None), LoadAction::Idle);
    assert_eq!(t.state, PluginLoadState::Rejected);
}

#[test]
fn target_of_an_entry() {
    assert_eq!(PluginLoadTarget::of_entry(&entry("a_1_x.7z")), PluginLoadTarget::Normal);
    assert_eq!(PluginLoadTarget::of_entry(&entry("a_1_x.7zl")), PluginLoadTarget::Localboost);
    assert_eq!(PluginLoadTarget::of_entry(&entry("a.7zl")), PluginLoadTarget::Normal);
    assert_eq!(PluginLoadTarget::of_entry(&entry("a_1_x.7zf")), PluginLoadTarget::Disabled);
    assert_eq!(PluginLoadTarget::of_entry(&entry("a_1_x.7zq")), PluginLoadTarget::Disabled);
    assert_eq!(PluginLoadTarget::of_entry(&entry("a_1_x.zip")), PluginLoadTarget::Disabled);
}
