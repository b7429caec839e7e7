use onyx::delta::{
    confirmed, entry_kind, finish_commit, plan_commit, resolve_uid, CommitError, Entry, EntryKind,
};
use onyx::layout::{current_profile_file, delta_dir, image_dir, join, profile_path, profiles_dir};
use onyx::store::{plan_create, plan_delete, Populate, StoreError};

fn entry(p: &str, kind: EntryKind) -> Entry {
    Entry { path: p.to_string(), kind }
}

#[test]
fn create_twice_fails() {
    assert_eq!(plan_create(false, false), Ok(Populate::Copy));
    assert_eq!(plan_create(false, true), Ok(Populate::Move));
    assert_eq!(plan_create(true, false), Err(StoreError::AlreadyExists));
    assert_eq!(plan_create(true, true), Err(StoreError::AlreadyExists));
}

#[test]
fn delete_needs_an_image() {
    assert_eq!(plan_delete(false), Err(StoreError::NotFound));
    assert_eq!(plan_delete(true), Ok(()));
}

#[test]
fn store_layout() {
    assert_eq!(image_dir("/home/onyx", "deb"), "/home/onyx/sys/deb");
    assert_eq!(delta_dir("/home/onyx", "1000", "deb"), "/home/onyx/delta/1000/deb");
    assert_eq!(profiles_dir("/home/onyx"), "/home/onyx/profiles");
    assert_eq!(current_profile_file("/home/onyx"), "/home/onyx/current-profile");
    assert_eq!(profile_path("/home/onyx", "fast"), "/home/onyx/profiles/fast.toml");
    assert_eq!(join("a", "b"), "a/b");
}

#[test]
fn commit_removes_whiteouts_then_syncs() {
    let entries = vec![entry("a.txt", EntryKind::Regular), entry("b.txt", EntryKind::Whiteout)];
    let plan = plan_commit("/s/sys/deb", "/s/delta/1000/deb", true, true, "y\n", &entries).unwrap();
    assert_eq!(plan.removals, vec!["/s/sys/deb/b.txt".to_string()]);
    assert_eq!(
        plan.sync_args,
        vec![
            "-a".to_string(),
            "-v".to_string(),
            "--ignore-times".to_string(),
            "/s/delta/1000/deb/upper/".to_string(),
            "/s/sys/deb".to_string(),
        ]
    );
    assert_eq!(plan.delta_dir, "/s/delta/1000/deb");
    assert_eq!(finish_commit(true, true), Ok(()));
}

#[test]
fn commit_failure_keeps_delta() {
    assert_eq!(finish_commit(true, false), Err(CommitError::MergeFailed));
    assert_eq!(finish_commit(false, true), Err(CommitError::MergeFailed));
}

#[test]
fn commit_aborts_without_yes() {
    let entries = vec![entry("b.txt", EntryKind::Whiteout)];
    for answer in ["n", "", "yes", "yy", "y y", "N\n", "\n"] {
        let r = plan_commit("/img", "/d", true, true, answer, &entries);
        assert!(matches!(r, Err(CommitError::Aborted)), "answer {:?}", answer);
    }
    for answer in ["y", "Y", " y\n", "\tY  "] {
        assert!(plan_commit("/img", "/d", true, true, answer, &entries).is_ok());
    }
}

#[test]
fn commit_needs_image_and_delta() {
    let entries = Vec::new();
    assert!(matches!(
        plan_commit("/img", "/d", false, true, "y", &entries),
        Err(CommitError::ImageMissing)
    ));
    assert!(matches!(
        plan_commit("/img", "/d", true, false, "y", &entries),
        Err(CommitError::DeltaMissing)
    ));
}

#[test]
fn confirmation_answers() {
    assert!(confirmed("y"));
    assert!(confirmed("Y\r\n"));
    assert!(!confirmed("ye"));
    assert!(!confirmed(""));
}

#[test]
fn entry_kinds() {
    assert_eq!(entry_kind(false, false, false, true), EntryKind::Whiteout);
    assert_eq!(entry_kind(true, false, false, false), EntryKind::Directory);
    assert_eq!(entry_kind(false, true, false, false), EntryKind::Regular);
    assert_eq!(entry_kind(false, false, true, false), EntryKind::Symlink);
    assert_eq!(entry_kind(false, false, false, false), EntryKind::OtherSpecial);
}

#[test]
fn users_resolve_in_order() {
    assert_eq!(resolve_uid("self", 1000, Some(5), &None, &None).unwrap(), "1000");
    assert_eq!(resolve_uid("", 42, None, &None, &None).unwrap(), "42");
    assert_eq!(resolve_uid("bob", 0, Some(1001), &Some("7".to_string()), &None).unwrap(), "1001");
    assert_eq!(resolve_uid("bob", 0, None, &Some("7".to_string()), &None).unwrap(), "7");
    assert_eq!(resolve_uid("1234", 0, None, &None, &None).unwrap(), "1234");
    assert_eq!(resolve_uid("me", 55, None, &None, &Some("me".to_string())).unwrap(), "55");
    assert_eq!(
        resolve_uid("ghost", 55, None, &None, &Some("me".to_string())),
        Err(CommitError::UnknownUser)
    );
}
