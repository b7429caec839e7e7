use onyx::mount::Action;
use onyx::strategy::{
    after_make_private, after_unshare, chroot_args, find_shell, injected_var, join_command,
    plan_unprivileged, profile_flag, session_env, shell_candidates, strategy_for, use_overlay,
    AfterUnshare, Isolation, Launch, SessionError, Strategy,
};

fn s(v: &[&str]) -> Vec<String> {
    v.iter().map(|x| x.to_string()).collect()
}

#[test]
fn root_takes_privileged_path() {
    assert_eq!(strategy_for(0), Strategy::Privileged);
    assert_eq!(strategy_for(1000), Strategy::Unprivileged);
}

#[test]
fn namespace_failure_degrades_then_refuses() {
    assert_eq!(after_unshare(true), AfterUnshare::Proceed(Isolation::Namespaced));
    assert_eq!(after_unshare(false), AfterUnshare::MakePrivate);
    assert_eq!(after_make_private(true), Ok(Isolation::Degraded));
    assert_eq!(after_make_private(false), Err(SessionError::Unisolated));
}

#[test]
fn shell_is_first_present_candidate() {
    assert_eq!(find_shell(&vec![false, true, true, false, false]), "/bin/bash");
    assert_eq!(find_shell(&vec![true, true, true, true, true]), "/usr/bin/zsh");
    assert_eq!(find_shell(&vec![false, false, false, false, true]), "/usr/bin/bash");
    assert_eq!(find_shell(&vec![false; 5]), "/bin/sh");
    assert_eq!(find_shell(&Vec::new()), "/bin/sh");
    assert_eq!(shell_candidates().len(), 5);
}

#[test]
fn command_words_are_joined() {
    assert_eq!(join_command(&s(&["ls", "-la", "/tmp"])), "ls -la /tmp");
    assert_eq!(join_command(&s(&["uname"])), "uname");
    assert_eq!(join_command(&Vec::new()), "");
}

#[test]
fn last_profile_flag_wins() {
    let args = s(&["onyx", "box", "open", "deb", "--profile=a", "--profile=b"]);
    assert_eq!(profile_flag(&args), Some("b".to_string()));
    assert_eq!(profile_flag(&s(&["onyx", "box", "open", "deb"])), None);
    assert_eq!(profile_flag(&s(&["--profile="])), Some(String::new()));
}

#[test]
fn chroot_environment_is_sanitized() {
    let env = session_env(&None);
    assert_eq!(
        env,
        vec![
            ("HOME".to_string(), "/root".to_string()),
            ("TERM".to_string(), "xterm-256color".to_string()),
            (
                "PATH".to_string(),
                "/usr/local/sbin:/usr/local/bin:/usr/sbin:/usr/bin:/sbin:/bin".to_string()
            ),
        ]
    );
    let env = session_env(&Some("vt100".to_string()));
    assert_eq!(env[1].1, "vt100");
    assert_eq!(injected_var(), "LD_PRELOAD");
}

#[test]
fn chroot_arguments() {
    assert_eq!(chroot_args("/r", "/bin/sh", &None), s(&["/r", "/bin/sh"]));
    assert_eq!(
        chroot_args("/r", "/bin/sh", &Some("ls -l".to_string())),
        s(&["/r", "/bin/sh", "-c", "ls -l"])
    );
}

#[test]
fn overlay_only_where_fuse_can_work() {
    assert!(use_overlay(false, false));
    assert!(use_overlay(true, true));
    assert!(!use_overlay(true, false));
}

#[test]
fn failed_chain_falls_back_to_base_image() {
    let plan = plan_unprivileged(
        "/s/bin/fuse-overlayfs",
        "/s/bin/proot",
        "/s/sys/deb",
        "/s/delta/1000/deb",
        "/bin/bash",
        &Some("echo hi".to_string()),
        true,
    );
    match &plan.first {
        Launch::Unshare { args } => {
            assert_eq!(&args[..5], &s(&["-U", "-r", "-m", "bash", "-c"])[..]);
            assert_eq!(
                args[5],
                "/s/bin/fuse-overlayfs -f -o lowerdir=/s/sys/deb,upperdir=/s/delta/1000/deb/upper,\
                 workdir=/s/delta/1000/deb/work,squash_to_root /s/delta/1000/deb/merged & sleep 1 && \
                 /s/bin/proot -r /s/delta/1000/deb/merged -0 -b /dev -b /proc -b /sys --link2symlink \
                 -w / /bin/bash -c echo hi"
            );
        }
        other => panic!("unexpected first launch {:?}", other),
    }
    assert!(plan.after_first(true).is_none());
    match plan.after_first(false) {
        Some(Launch::Helper { args }) => {
            assert_eq!(args[0], "-r");
            assert_eq!(args[1], "/s/sys/deb");
            assert_eq!(
                args,
                &s(&[
                    "-r", "/s/sys/deb", "-0", "-b", "/dev", "-b", "/proc", "-b", "/sys",
                    "--link2symlink", "-w", "/", "/bin/bash", "-c", "echo hi"
                ])
            );
        }
        other => panic!("unexpected fallback {:?}", other),
    }
    assert_eq!(plan.prepare.len(), 3);
    match &plan.cleanup[0] {
        Action::Unmount { path } => assert_eq!(path, "/s/delta/1000/deb/merged"),
        other => panic!("unexpected cleanup {:?}", other),
    }
}

#[test]
fn standalone_mode_has_no_fallback() {
    let plan = plan_unprivileged("/f", "/p", "/img", "/d", "/bin/sh", &None, false);
    match &plan.first {
        Launch::Helper { args } => assert_eq!(args.len(), 13),
        other => panic!("unexpected first launch {:?}", other),
    }
    assert!(plan.after_first(false).is_none());
    assert!(plan.prepare.is_empty());
    assert!(plan.cleanup.is_empty());
}
