use remotefs_reconcile::exec::{hook_command, hook_outcome};
use remotefs_reconcile::listing::{under_scope, ScanTarget};
use remotefs_reconcile::{
    contents_equal, matches_any_globs, Acquire, ConnectorSshKeyStorage, FileContents, FileMeta,
    PlanRun, RemoteAction, RemoteEntry, RemoteFsConfig, RemoteFsConnectorOp, RemoteFsError,
    RemoteFsHook, RemoteFsHost, RemoteFsMount, SessionCache, StepReport, TreeWalk, WalkAction,
    WalkEvent,
};

fn hook(shell: &str, ignore_error: bool) -> RemoteFsHook {
    RemoteFsHook { work_dir: None, shell: shell.to_string(), ignore_error }
}

fn mount(dirs: &[&str], files: &[&str]) -> RemoteFsMount {
    RemoteFsMount {
        dirs: Some(dirs.iter().map(|s| s.to_string()).collect()),
        files: Some(files.iter().map(|s| s.to_string()).collect()),
        globs: None,
        uid: None,
        gid: None,
        mode: None,
        pre_hooks: None,
        post_hooks: None,
    }
}

fn host(user: &str, mounts: Vec<RemoteFsMount>) -> RemoteFsHost {
    RemoteFsHost {
        username: user.to_string(),
        port: 2222,
        mounts,
        ssh_private_key_path: "/keys/id".to_string(),
        ssh_config_path: Some("/ssh/config".to_string()),
    }
}

fn entry(path: &str, is_dir: bool) -> RemoteEntry {
    RemoteEntry { path: path.to_string(), is_dir }
}

fn check_target(a: &WalkAction) -> String {
    match a {
        WalkAction::CheckExists(d) => format!("exists {}", d),
        WalkAction::ListDir(d) => format!("list {}", d),
        WalkAction::Finished => "done".to_string(),
    }
}

#[test]
fn missing_root_lists_nothing() {
    let (mut w, a) = TreeWalk::start("/nope".to_string());
    assert_eq!(check_target(&a), "exists /nope");
    let a = w.step(WalkEvent::Exists(false));
    assert_eq!(check_target(&a), "done");
    assert!(w.files.is_empty());
    let a = w.step(WalkEvent::Listed(vec![entry("/nope/x", false)]));
    assert_eq!(check_target(&a), "done");
    assert!(w.files.is_empty());
}

#[test]
fn walk_descends_into_existing_directories() {
    let (mut w, a) = TreeWalk::start("/etc".to_string());
    assert_eq!(check_target(&a), "exists /etc");
    assert_eq!(check_target(&w.step(WalkEvent::Exists(true))), "list /etc");
    let a = w.step(WalkEvent::Listed(vec![
        entry("/etc/hosts", false),
        entry("/etc/cron", true),
        entry("/etc/ssh", true),
        entry("/etc/fstab", false),
    ]));
    assert_eq!(check_target(&a), "exists /etc/ssh");
    assert_eq!(check_target(&w.step(WalkEvent::Exists(false))), "exists /etc/cron");
    assert_eq!(check_target(&w.step(WalkEvent::Exists(true))), "list /etc/cron");
    let a = w.step(WalkEvent::Listed(vec![entry("/etc/cron/daily", false)]));
    assert_eq!(check_target(&a), "done");
    assert_eq!(w.files, vec!["/etc/hosts", "/etc/fstab", "/etc/cron/daily"]);
}

#[test]
fn walk_ignores_an_answer_that_was_not_asked_for() {
    let (mut w, _) = TreeWalk::start("/etc".to_string());
    let a = w.step(WalkEvent::Listed(vec![entry("/etc/hosts", false)]));
    assert_eq!(check_target(&a), "exists /etc");
    assert!(w.files.is_empty());
}

#[test]
fn ignored_hook_failure_lets_the_plan_continue() {
    let ops = vec![
        RemoteFsConnectorOp::Exec(hook("h1", true)),
        RemoteFsConnectorOp::Copy,
        RemoteFsConnectorOp::Exec(hook("h2", false)),
    ];
    let mut run = PlanRun::new(ops);
    assert!(matches!(run.pending(), Some(RemoteFsConnectorOp::Exec(_))));
    run.report(StepReport::HookExited(3));
    assert_eq!(run.ignored_exits, vec![3]);
    assert!(matches!(run.pending(), Some(RemoteFsConnectorOp::Copy)));
    assert_eq!(run.outcome(), None);
    run.report(StepReport::Succeeded);
    run.report(StepReport::HookExited(0));
    assert!(run.pending().is_none());
    assert_eq!(run.outcome(), Some(Ok(())));
}

#[test]
fn fatal_hook_failure_stops_the_plan() {
    let ops = vec![
        RemoteFsConnectorOp::Exec(hook("h1", false)),
        RemoteFsConnectorOp::Copy,
    ];
    let mut run = PlanRun::new(ops);
    run.report(StepReport::HookExited(1));
    assert!(run.pending().is_none());
    assert_eq!(run.outcome(), Some(Err(RemoteFsError::HookFailure(1))));
    run.report(StepReport::Succeeded);
    assert_eq!(run.next, 0);
    assert_eq!(run.outcome(), Some(Err(RemoteFsError::HookFailure(1))));
}

#[test]
fn transport_failure_stops_the_plan() {
    let mut run = PlanRun::new(vec![RemoteFsConnectorOp::Delete, RemoteFsConnectorOp::Copy]);
    run.report(StepReport::Failed(RemoteFsError::TransportError));
    assert_eq!(run.outcome(), Some(Err(RemoteFsError::TransportError)));
    let empty = PlanRun::new(vec![]);
    assert_eq!(empty.outcome(), Some(Ok(())));
}

#[test]
fn hook_outcome_depends_on_exit_and_flag() {
    assert_eq!(hook_outcome(&hook("x", false), 0), Ok(()));
    assert_eq!(hook_outcome(&hook("x", false), 2), Err(RemoteFsError::HookFailure(2)));
    assert_eq!(hook_outcome(&hook("x", true), 2), Ok(()));
}

#[test]
fn hook_command_changes_directory_for_the_command_only() {
    assert_eq!(hook_command(&hook("systemctl reload nginx", false)), "systemctl reload nginx");
    let h = RemoteFsHook { work_dir: Some("/srv/it's".to_string()), shell: "make".to_string(), ignore_error: false };
    assert_eq!(hook_command(&h), "cd '/srv/it'\\''s' && make");
}

#[test]
fn reload_drops_sessions_and_unknown_hosts() {
    let cfg = RemoteFsConfig { hosts: vec![("x".to_string(), host("alice", vec![])), ("y".to_string(), host("bob", vec![]))] };
    let mut cache: SessionCache<u32> = SessionCache::new(cfg);
    match cache.acquire("x").unwrap() {
        Acquire::Connect(p) => {
            assert_eq!(p.hostname, "x");
            assert_eq!(p.username, "alice");
            assert_eq!(p.port, 2222);
            assert_eq!(p.key_storage.key_path, "/keys/id");
            assert_eq!(p.ssh_config_path.as_deref(), Some("/ssh/config"));
            assert_eq!(p.generation, cache.generation);
        }
        Acquire::Cached(_) => panic!("no session yet"),
    }
    let gen = cache.generation;
    assert_eq!(cache.insert_session("x".to_string(), gen, 7), Ok(0));
    match cache.acquire("x").unwrap() {
        Acquire::Cached(i) => assert_eq!(*cache.session(i), 7),
        Acquire::Connect(_) => panic!("session was cached"),
    }
    assert_eq!(cache.insert_session("z".to_string(), gen, 9).unwrap_err(), RemoteFsError::ConfigError);
    assert_eq!(cache.acquire("z").unwrap_err(), RemoteFsError::ConfigError);

    cache.reload(RemoteFsConfig { hosts: vec![("y".to_string(), host("bob", vec![]))] });
    assert!(cache.sessions.is_empty());
    assert_eq!(cache.acquire("x").unwrap_err(), RemoteFsError::ConfigError);
    assert!(matches!(cache.acquire("y").unwrap(), Acquire::Connect(_)));
    assert_ne!(cache.generation, gen);
    assert_eq!(cache.insert_session("y".to_string(), gen, 1).unwrap_err(), RemoteFsError::ConfigError);
    assert!(cache.sessions.is_empty());
    let now = cache.generation;
    assert_eq!(cache.insert_session("y".to_string(), now, 1), Ok(0));
}

#[test]
fn one_session_per_host() {
    let cfg = RemoteFsConfig { hosts: vec![("x".to_string(), host("alice", vec![])), ("y".to_string(), host("bob", vec![]))] };
    let mut cache: SessionCache<u32> = SessionCache::new(cfg);
    let gen = cache.generation;
    assert_eq!(cache.insert_session("x".to_string(), gen, 1), Ok(0));
    assert_eq!(cache.insert_session("x".to_string(), gen, 2), Ok(0));
    assert_eq!(cache.sessions.len(), 1);
    assert_eq!(*cache.session(0), 1);
    match cache.acquire("x").unwrap() {
        Acquire::Cached(i) => assert_eq!(*cache.session(i), 1),
        Acquire::Connect(_) => panic!("session was cached"),
    }
    assert_eq!(cache.insert_session("y".to_string(), gen, 3), Ok(1));
    assert_eq!(cache.insert_session("y".to_string(), gen, 4), Ok(1));
    assert_eq!(cache.sessions.len(), 2);
}

#[test]
fn scope_keeps_addresses_below_it() {
    assert!(under_scope("remotefs/h/etc/hosts", "remotefs/h"));
    assert!(under_scope("remotefs/h/etc/hosts", "remotefs//h/etc/"));
    assert!(under_scope("remotefs/h/etc/hosts", ""));
    assert!(!under_scope("remotefs/h/etc/hosts", "remotefs/g"));
    assert!(!under_scope("remotefs/h/etcx", "remotefs/h/etc"));
    assert!(!under_scope("remotefs/h", "remotefs/h/etc"));
}

#[test]
fn key_storage_resolves_to_its_path() {
    let k = ConnectorSshKeyStorage::from_path("/home/me/.ssh/id_ed25519");
    assert_eq!(k.resolve("any", "one"), Some("/home/me/.ssh/id_ed25519".to_string()));
}

#[test]
fn prepare_turns_steps_into_remote_work() {
    let mut general = mount(&["/etc"], &[]);
    general.uid = Some(10);
    let mut specific = mount(&["/etc/cron"], &[]);
    specific.uid = Some(0);
    specific.gid = Some(0);
    specific.mode = Some(0o644);
    let cfg = RemoteFsConfig { hosts: vec![("srv".to_string(), host("root", vec![general, specific]))] };
    match cfg.prepare("remotefs/srv/etc/cron/daily", &RemoteFsConnectorOp::Copy).unwrap() {
        RemoteAction::Upload { remote_path, local_path, meta } => {
            assert_eq!(remote_path, "/etc/cron/daily");
            assert_eq!(local_path, "remotefs/srv/etc/cron/daily");
            assert_eq!(meta, FileMeta { uid: Some(0), gid: Some(0), mode: Some(0o644) });
        }
        other => panic!("unexpected {:?}", other),
    }
    match cfg.prepare("remotefs/srv/opt/x", &RemoteFsConnectorOp::Copy).unwrap() {
        RemoteAction::Upload { meta, .. } => assert_eq!(meta, FileMeta { uid: None, gid: None, mode: None }),
        other => panic!("unexpected {:?}", other),
    }
    match cfg.prepare("remotefs/srv/etc/hosts", &RemoteFsConnectorOp::Delete).unwrap() {
        RemoteAction::Remove { remote_path } => assert_eq!(remote_path, "/etc/hosts"),
        other => panic!("unexpected {:?}", other),
    }
    let h = RemoteFsHook { work_dir: Some("/tmp".to_string()), shell: "ls".to_string(), ignore_error: true };
    match cfg.prepare("remotefs/srv/etc/hosts", &RemoteFsConnectorOp::Exec(h)).unwrap() {
        RemoteAction::RunHook { command, work_dir } => {
            assert_eq!(command, "cd '/tmp' && ls");
            assert_eq!(work_dir.as_deref(), Some("/tmp"));
        }
        other => panic!("unexpected {:?}", other),
    }
    assert_eq!(cfg.prepare("bad/addr", &RemoteFsConnectorOp::Delete).unwrap_err(), RemoteFsError::AddressError);
    assert_eq!(cfg.prepare("remotefs/nohost/etc", &RemoteFsConnectorOp::Delete).unwrap_err(), RemoteFsError::ConfigError);
}

#[test]
fn scan_targets_cover_every_mount() {
    let cfg = RemoteFsConfig {
        hosts: vec![
            ("a".to_string(), host("root", vec![mount(&["/etc", "/srv"], &["/root/.profile"])])),
            ("b".to_string(), host("root", vec![mount(&[], &["/x"]), mount(&["/y"], &[])])),
        ],
    };
    let got: Vec<String> = cfg
        .scan_targets()
        .iter()
        .map(|t| match t {
            ScanTarget::Tree { hostname, dir } => format!("tree {} {}", hostname, dir),
            ScanTarget::File { hostname, path } => format!("file {} {}", hostname, path),
        })
        .collect();
    assert_eq!(got, vec!["tree a /etc", "tree a /srv", "file a /root/.profile", "file b /x", "tree b /y"]);
}

#[test]
fn glob_filter_matches_any_pattern() {
    assert!(matches_any_globs("/etc/anything", &vec![]));
    let globs = vec!["/etc/*.conf".to_string(), "/srv/**/*.toml".to_string()];
    assert!(matches_any_globs("/etc/resolv.conf", &globs));
    assert!(matches_any_globs("/srv/a/b/c.toml", &globs));
    assert!(!matches_any_globs("/etc/hosts", &globs));
    assert!(!matches_any_globs("/var/x.conf", &globs));
}

#[test]
fn contents_round_trip_and_compare() {
    let c = FileContents::from_bytes(&[1, 2, 3]);
    assert_eq!(c.to_bytes(), vec![1, 2, 3]);
    assert!(contents_equal(&[1, 2], &[1, 2]));
    assert!(!contents_equal(&[1, 2], &[1, 3]));
    assert!(!contents_equal(&[1], &[1, 2]));
    assert!(contents_equal(&[], &[]));
}
