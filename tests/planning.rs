use remotefs_reconcile::{
    RemoteFsConfig, RemoteFsConnectorOp, RemoteFsError, RemoteFsHook, RemoteFsHost, RemoteFsMount,
};

fn hook(shell: &str) -> RemoteFsHook {
    RemoteFsHook { work_dir: None, shell: shell.to_string(), ignore_error: false }
}

fn mount(dirs: &[&str], files: &[&str]) -> RemoteFsMount {
    RemoteFsMount {
        dirs: if dirs.is_empty() { None } else { Some(dirs.iter().map(|s| s.to_string()).collect()) },
        files: if files.is_empty() { None } else { Some(files.iter().map(|s| s.to_string()).collect()) },
        globs: None,
        uid: None,
        gid: None,
        mode: None,
        pre_hooks: None,
        post_hooks: None,
    }
}

fn host(mounts: Vec<RemoteFsMount>) -> RemoteFsHost {
    RemoteFsHost {
        username: "root".to_string(),
        port: 22,
        mounts,
        ssh_private_key_path: "/keys/id".to_string(),
        ssh_config_path: None,
    }
}

fn shells(ops: &[RemoteFsConnectorOp]) -> Vec<String> {
    ops.iter()
        .map(|o| match o {
            RemoteFsConnectorOp::Copy => "Copy".to_string(),
            RemoteFsConnectorOp::Delete => "Delete".to_string(),
            RemoteFsConnectorOp::Exec(h) => format!("Exec({})", h.shell),
        })
        .collect()
}

#[test]
fn mount_matches_files_and_dirs() {
    let m = mount(&["/etc"], &["/root/.bashrc"]);
    assert!(m.path_matches_mount("/root/.bashrc"));
    assert!(!m.path_matches_mount("/root/.bashrc2"));
    assert!(m.path_matches_mount("/etc"));
    assert!(m.path_matches_mount("/etc/cron/daily"));
    assert!(!m.path_matches_mount("/etcx/file"));
    assert!(!m.path_matches_mount("/var/log"));
    let slash = mount(&["/etc/"], &[]);
    assert!(slash.path_matches_mount("/etc/hosts"));
    assert!(slash.path_matches_mount("/etc"));
    let doubled = mount(&[], &["/etc//hosts"]);
    assert!(doubled.path_matches_mount("/etc/hosts"));
    assert!(doubled.path_matches_mount("/etc/hosts/"));
    assert!(!doubled.path_matches_mount("etc/hosts"));
    assert!(m.path_matches_mount("/etc//cron/"));
    let root = mount(&["/"], &[]);
    assert!(root.path_matches_mount("/anything/at/all"));
}

#[test]
fn mount_without_files_or_dirs_matches_nothing() {
    let m = mount(&[], &[]);
    assert!(!m.path_matches_mount("/etc/hosts"));
    assert!(!m.path_matches_mount(""));
}

#[test]
fn later_mount_takes_precedence() {
    let mut a = mount(&["/etc"], &[]);
    a.uid = Some(1);
    let mut b = mount(&["/etc/cron"], &[]);
    b.uid = Some(2);
    let h = host(vec![a, b]);
    assert_eq!(h.governing_mount("/etc/cron/daily"), Some(1));
    assert_eq!(h.governing_mount("/etc/hosts"), Some(0));
    assert_eq!(h.governing_mount("/var/log"), None);
}

#[test]
fn plan_follows_presence_without_hooks() {
    let h = host(vec![mount(&["/etc"], &[])]);
    assert!(h.plan_ops("/etc/hosts", false, false).is_empty());
    assert_eq!(shells(&h.plan_ops("/etc/hosts", true, false)), vec!["Delete"]);
    assert_eq!(shells(&h.plan_ops("/etc/hosts", false, true)), vec!["Copy"]);
    assert_eq!(shells(&h.plan_ops("/etc/hosts", true, true)), vec!["Copy"]);
    assert_eq!(shells(&h.plan_ops("/unmanaged", true, false)), vec!["Delete"]);
}

#[test]
fn hooks_bracket_the_core_step() {
    let mut m = mount(&["/etc"], &[]);
    m.pre_hooks = Some(vec![hook("h1")]);
    m.post_hooks = Some(vec![hook("h2")]);
    let h = host(vec![m]);
    assert_eq!(shells(&h.plan_ops("/etc/hosts", false, true)), vec!["Exec(h1)", "Copy", "Exec(h2)"]);
    assert_eq!(shells(&h.plan_ops("/etc/hosts", true, false)), vec!["Exec(h1)", "Delete", "Exec(h2)"]);
    assert!(h.plan_ops("/etc/hosts", false, false).is_empty());
}

#[test]
fn hooks_come_from_the_governing_mount_only() {
    let mut general = mount(&["/etc"], &[]);
    general.pre_hooks = Some(vec![hook("general")]);
    let mut specific = mount(&["/etc/cron"], &[]);
    specific.post_hooks = Some(vec![hook("a"), hook("b")]);
    let h = host(vec![general, specific]);
    assert_eq!(shells(&h.plan_ops("/etc/cron/daily", true, true)), vec!["Copy", "Exec(a)", "Exec(b)"]);
    assert_eq!(shells(&h.plan_ops("/etc/fstab", true, true)), vec!["Exec(general)", "Copy"]);
}

#[test]
fn config_plan_decodes_the_address() {
    let mut m = mount(&["/etc"], &[]);
    m.pre_hooks = Some(vec![hook("reload")]);
    let cfg = RemoteFsConfig { hosts: vec![("srv".to_string(), host(vec![m]))] };
    let ops = cfg.plan("remotefs/srv/etc/hosts", None, Some(vec![1, 2])).unwrap();
    assert_eq!(shells(&ops), vec!["Exec(reload)", "Copy"]);
    let ops = cfg.plan("remotefs/srv/etc/hosts", Some(vec![1]), None).unwrap();
    assert_eq!(shells(&ops), vec!["Exec(reload)", "Delete"]);
    assert!(cfg.plan("remotefs/srv/etc/hosts", None, None).unwrap().is_empty());
    assert_eq!(cfg.plan("remotefs/other/etc/hosts", Some(vec![1]), Some(vec![2])).unwrap_err(), RemoteFsError::ConfigError);
    assert_eq!(cfg.plan("not/ours", None, Some(vec![])).unwrap_err(), RemoteFsError::AddressError);
}
