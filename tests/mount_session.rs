use onyx::mount::{Action, MountGuard, Phase};

fn mount_args(a: &Action) -> Option<Vec<String>> {
    match a {
        Action::Mount { args } => Some(args.clone()),
        _ => None,
    }
}

fn unmounts(acts: &[Action]) -> Vec<String> {
    let mut out = Vec::new();
    for a in acts {
        if let Action::Unmount { path } = a {
            out.push(path.clone());
        }
    }
    out
}

/// Runs construction, failing at step `fail_at` if given; returns the guard
/// and the mount points established, in order.
fn drive(g: &mut MountGuard, fail_at: Option<usize>) -> Vec<String> {
    let mut established = Vec::new();
    let mut index = 0;
    loop {
        let rec = match g.next_step() {
            Some(step) => step.records.as_ref().map(|r| r.path.clone()),
            None => break,
        };
        let ok = fail_at != Some(index);
        g.record(ok);
        if ok {
            if let Some(p) = rec {
                established.push(p);
            }
        }
        index += 1;
    }
    established
}

fn plan_len(delta: &Option<String>) -> usize {
    let mut g = MountGuard::new("/store/sys/deb", delta);
    let mut n = 0;
    while g.next_step().is_some() {
        g.record(true);
        n += 1;
    }
    n
}

#[test]
fn full_session_teardown_is_reverse_of_mounts() {
    let delta = Some("/store/delta/1000/deb".to_string());
    let mut g = MountGuard::new("/store/sys/deb", &delta);
    assert_eq!(g.root(), "/store/delta/1000/deb/merged");
    let established = drive(&mut g, None);
    assert_eq!(g.phase(), Phase::Active);
    assert_eq!(
        established,
        vec![
            "/store/delta/1000/deb/merged".to_string(),
            "/store/delta/1000/deb/merged/proc".to_string(),
            "/store/delta/1000/deb/merged/dev".to_string(),
            "/store/delta/1000/deb/merged/dev/pts".to_string(),
            "/store/delta/1000/deb/merged/sys".to_string(),
        ]
    );
    let acts = g.teardown();
    let un = unmounts(&acts);
    assert_eq!(un.len(), established.len());
    let mut rev = established.clone();
    rev.reverse();
    assert_eq!(un, rev);
    // the merged directory goes last, after its unmount
    match acts.last() {
        Some(Action::RemoveDir { path }) => assert_eq!(path, "/store/delta/1000/deb/merged"),
        other => panic!("unexpected last action {:?}", other),
    }
}

#[test]
fn session_without_delta_uses_image_root() {
    let mut g = MountGuard::new("/store/sys/deb", &None);
    assert_eq!(g.root(), "/store/sys/deb");
    let established = drive(&mut g, None);
    assert_eq!(established.len(), 4);
    let acts = g.teardown();
    assert_eq!(acts.len(), 4);
    assert_eq!(
        unmounts(&acts),
        vec![
            "/store/sys/deb/sys".to_string(),
            "/store/sys/deb/dev/pts".to_string(),
            "/store/sys/deb/dev".to_string(),
            "/store/sys/deb/proc".to_string(),
        ]
    );
}

#[test]
fn private_marking_comes_first() {
    let g = MountGuard::new("/store/sys/deb", &Some("/d".to_string()));
    let first = g.next_step().unwrap();
    assert_eq!(
        mount_args(&first.action),
        Some(vec!["--make-rprivate".to_string(), "/".to_string()])
    );
    assert!(first.records.is_none());
}

#[test]
fn failure_at_each_step_releases_earlier_mounts() {
    for delta in [None, Some("/store/delta/7/alp".to_string())] {
        let n = plan_len(&delta);
        assert!(n > 10);
        for fail_at in 0..n {
            let mut g = MountGuard::new("/store/sys/alp", &delta);
            let established = drive(&mut g, Some(fail_at));
            assert_eq!(g.phase(), Phase::Failed);
            assert!(g.next_step().is_none());
            let mut rev = established.clone();
            rev.reverse();
            assert_eq!(unmounts(&g.teardown()), rev);
        }
    }
}

#[test]
fn failure_at_first_step_mounts_nothing() {
    let mut g = MountGuard::new("/img", &Some("/d".to_string()));
    g.record(false);
    assert!(g.teardown().is_empty());
}

#[test]
fn sys_is_remounted_read_only_and_dev_made_slave() {
    let mut g = MountGuard::new("/img", &None);
    let mut all = Vec::new();
    while let Some(step) = g.next_step() {
        if let Some(a) = mount_args(&step.action) {
            all.push(a);
        }
        g.record(true);
    }
    assert!(all.contains(&vec!["--make-slave".to_string(), "/img/dev".to_string()]));
    assert!(all.contains(&vec![
        "-o".to_string(),
        "remount,ro,bind".to_string(),
        "/img/sys".to_string()
    ]));
    assert_eq!(
        all[1],
        vec!["-t".to_string(), "proc".to_string(), "proc".to_string(), "/img/proc".to_string()]
    );
}

#[test]
fn overlay_mount_options() {
    let mut g = MountGuard::new("/s/sys/deb", &Some("/s/delta/0/deb".to_string()));
    let mut seen = None;
    while let Some(step) = g.next_step() {
        if let Some(a) = mount_args(&step.action) {
            if a.first().map(|s| s.as_str()) == Some("-t") && a[1] == "overlay" {
                seen = Some(a);
            }
        }
        g.record(true);
    }
    let a = seen.expect("overlay mount");
    assert_eq!(
        a[4],
        "lowerdir=/s/sys/deb,upperdir=/s/delta/0/deb/upper,workdir=/s/delta/0/deb/work"
    );
    assert_eq!(a[5], "/s/delta/0/deb/merged");
}
