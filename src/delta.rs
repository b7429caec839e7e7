//! Committing a user's delta layer into the base image: whiteouts first,
//! then the content, then the delta goes.
use vstd::prelude::*;
use crate::layout::{join, joined};
use crate::text::{all_digits, char_is_space, decimal_string, decimal_text, is_space};

verus! {

broadcast use vstd::string::group_string_axioms;

/// The kind of an entry of a delta's `upper` tree.
#[derive(Debug, Clone, Copy, PartialEq, Eq, Structural)]
pub enum EntryKind {
    Regular,
    Directory,
    Symlink,
    /// A character device: the overlay's mark for "deleted in this delta".
    Whiteout,
    OtherSpecial,
}

/// Why a commit did not happen or did not finish.
#[derive(Debug, Clone, Copy, PartialEq, Eq, Structural)]
pub enum CommitError {
    /// The user could not be resolved by any method.
    UnknownUser,
    /// The image is not in the store.
    ImageMissing,
    /// The user has no delta over the image.
    DeltaMissing,
    /// The confirmation was not given.
    Aborted,
    /// Merging failed part way: the image may be partly updated, and the
    /// delta is kept so that the commit can be run again.
    MergeFailed,
}

/// An entry of the `upper` tree, by its path relative to `upper`.
#[derive(Debug)]
pub struct Entry {
    pub path: String,
    pub kind: EntryKind,
}

/// The kind of an entry from what its metadata says.
pub fn entry_kind(is_dir: bool, is_file: bool, is_symlink: bool, is_char_device: bool) -> (r:
    EntryKind)
    ensures
        r == (if is_char_device {
            EntryKind::Whiteout
        } else if is_symlink {
            EntryKind::Symlink
        } else if is_dir {
            EntryKind::Directory
        } else if is_file {
            EntryKind::Regular
        } else {
            EntryKind::OtherSpecial
        }),
{
    if is_char_device {
        EntryKind::Whiteout
    } else if is_symlink {
        EntryKind::Symlink
    } else if is_dir {
        EntryKind::Directory
    } else if is_file {
        EntryKind::Regular
    } else {
        EntryKind::OtherSpecial
    }
}

/// The user id whose delta is committed, found from `name` in this order:
/// `self` or empty is the current user; the user database (`looked_up`);
/// the invoking user under sudo (`sudo_uid`); a number taken as it is; the
/// current user's own name (`own_name`).
pub open spec fn resolved_uid(
    name: Seq<char>,
    euid: u32,
    looked_up: Option<u32>,
    sudo_uid: Option<Seq<char>>,
    own_name: Option<Seq<char>>,
) -> Option<Seq<char>> {
    if name == "self"@ || name.len() == 0 {
        Some(decimal_text(euid as nat))
    } else if looked_up is Some {
        Some(decimal_text(looked_up.unwrap() as nat))
    } else if sudo_uid is Some {
        sudo_uid
    } else if all_digits(name) {
        Some(name)
    } else if own_name == Some(name) {
        Some(decimal_text(euid as nat))
    } else {
        None
    }
}

fn all_digit_chars(s: &str) -> (r: bool)
    ensures
        r == all_digits(s@),
{
    let n = s.unicode_len();
    let mut i: usize = 0;
    while i < n
        invariant
            n == s@.len(),
            i <= n,
            forall|k: int| 0 <= k < i ==> crate::text::is_digit(#[trigger] s@[k]),
        decreases n - i,
    {
        let c = s.get_char(i);
        if !('0' <= c && c <= '9') {
            return false;
        }
        i = i + 1;
    }
    true
}

fn same_text(a: &str, b: &str) -> (r: bool)
    ensures
        r == (a@ == b@),
{
    let n = a.unicode_len();
    if n != b.unicode_len() {
        return false;
    }
    let mut i: usize = 0;
    while i < n
        invariant
            n == a@.len(),
            n == b@.len(),
            i <= n,
            forall|k: int| 0 <= k < i ==> a@[k] == b@[k],
        decreases n - i,
    {
        if a.get_char(i) != b.get_char(i) {
            return false;
        }
        i = i + 1;
    }
    assert(a@ =~= b@);
    true
}

/// Resolves the user whose delta is committed; see `resolved_uid`.
pub fn resolve_uid(
    name: &str,
    euid: u32,
    looked_up: Option<u32>,
    sudo_uid: &Option<String>,
    own_name: &Option<String>,
) -> (r: Result<String, CommitError>)
    ensures
        match resolved_uid(
            name@,
            euid,
            looked_up,
            match sudo_uid {
                Some(s) => Some(s@),
                None => None,
            },
            match own_name {
                Some(s) => Some(s@),
                None => None,
            },
        ) {
            Some(u) => r is Ok && r.unwrap()@ == u,
            None => r == Err::<String, CommitError>(CommitError::UnknownUser),
        },
{
    if same_text(name, "self") || name.unicode_len() == 0 {
        return Ok(decimal_string(euid as u64));
    }
    match looked_up {
        Some(u) => {
            return Ok(decimal_string(u as u64));
        },
        None => {},
    }
    match sudo_uid {
        Some(s) => {
            return Ok(s.clone());
        },
        None => {},
    }
    if all_digit_chars(name) {
        return Ok(String::from_str(name));
    }
    match own_name {
        Some(o) => {
            if same_text(o.as_str(), name) {
                return Ok(decimal_string(euid as u64));
            }
        },
        None => {},
    }
    Err(CommitError::UnknownUser)
}

/// The characters of `s` that are not white space, in order.
pub open spec fn non_space(s: Seq<char>) -> Seq<char>
    decreases s.len(),
{
    if s.len() == 0 {
        Seq::empty()
    } else if is_space(s.last()) {
        non_space(s.drop_last())
    } else {
        non_space(s.drop_last()).push(s.last())
    }
}

/// The answer confirms: after trimming white space it is `y` or `Y`.
pub open spec fn is_confirmation(s: Seq<char>) -> bool {
    non_space(s) == seq!['y'] || non_space(s) == seq!['Y']
}

/// Whether the answer to the confirmation question is yes.
pub fn confirmed(input: &str) -> (r: bool)
    ensures
        r == is_confirmation(input@),
{
    let n = input.unicode_len();
    let mut count: usize = 0;
    let mut first: char = ' ';
    let mut i: usize = 0;
    while i < n
        invariant
            n == input@.len(),
            i <= n,
            count <= 2,
            count == (if non_space(input@.subrange(0, i as int)).len() >= 2 {
                2
            } else {
                non_space(input@.subrange(0, i as int)).len()
            }),
            count >= 1 ==> first == non_space(input@.subrange(0, i as int))[0],
        decreases n - i,
    {
        let c = input.get_char(i);
        let ghost pre = input@.subrange(0, i as int);
        let ghost next = input@.subrange(0, i + 1);
        assert(next.drop_last() =~= pre);
        assert(next.last() == c);
        if !char_is_space(c) {
            if count == 0 {
                first = c;
            }
            if count < 2 {
                count = count + 1;
            }
        }
        i = i + 1;
    }
    assert(input@.subrange(0, n as int) =~= input@);
    if count == 1 {
        assert(non_space(input@).len() == 1);
        if first == 'y' || first == 'Y' {
            assert(non_space(input@) =~= seq![first]);
            true
        } else {
            false
        }
    } else {
        false
    }
}

/// The paths in the image that the whiteouts among `entries` delete.
pub open spec fn whiteout_targets(image: Seq<char>, entries: Seq<(Seq<char>, EntryKind)>) -> Seq<
    Seq<char>,
>
    decreases entries.len(),
{
    if entries.len() == 0 {
        Seq::empty()
    } else {
        let rest = whiteout_targets(image, entries.drop_last());
        if entries.last().1 == EntryKind::Whiteout {
            rest.push(joined(image, entries.last().0))
        } else {
            rest
        }
    }
}

pub open spec fn entry_views(v: Seq<Entry>) -> Seq<(Seq<char>, EntryKind)> {
    v.map_values(|e: Entry| (e.path@, e.kind))
}

pub open spec fn texts(v: Seq<String>) -> Seq<Seq<char>> {
    v.map_values(|s: String| s@)
}

/// A commit that may go ahead: the image paths to remove, in order, then the
/// content sync from `upper` into the image, then the removal of the delta.
#[derive(Debug)]
pub struct CommitPlan {
    pub removals: Vec<String>,
    /// `rsync`'s arguments: the whole tree, comparing content rather than times.
    pub sync_args: Vec<String>,
    /// The delta layer (`upper` and `work`), removed after a successful merge.
    pub delta_dir: String,
}

/// `rsync -a -v --ignore-times <upper>/ <image>`.
pub open spec fn sync_args_of(image: Seq<char>, delta: Seq<char>) -> Seq<Seq<char>> {
    seq!["-a"@, "-v"@, "--ignore-times"@, joined(delta, "upper"@) + "/"@, image]
}

/// Plans the commit of the delta at `delta` into the image at `image`.
/// It is refused when the image or the delta's `upper` directory does not
/// exist, then unless `answer` confirms; nothing is touched in those cases.
pub fn plan_commit(
    image: &str,
    delta: &str,
    image_exists: bool,
    upper_exists: bool,
    answer: &str,
    entries: &Vec<Entry>,
) -> (r: Result<CommitPlan, CommitError>)
    ensures
        !image_exists ==> r == Err::<CommitPlan, CommitError>(CommitError::ImageMissing),
        image_exists && !upper_exists ==> r == Err::<CommitPlan, CommitError>(
            CommitError::DeltaMissing,
        ),
        image_exists && upper_exists && !is_confirmation(answer@) ==> r == Err::<
            CommitPlan,
            CommitError,
        >(CommitError::Aborted),
        image_exists && upper_exists && is_confirmation(answer@) ==> {
            &&& r is Ok
            &&& texts(r.unwrap().removals@) == whiteout_targets(image@, entry_views(entries@))
            &&& texts(r.unwrap().sync_args@) == sync_args_of(image@, delta@)
            &&& r.unwrap().delta_dir@ == delta@
        },
{
    if !image_exists {
        return Err(CommitError::ImageMissing);
    }
    if !upper_exists {
        return Err(CommitError::DeltaMissing);
    }
    if !confirmed(answer) {
        return Err(CommitError::Aborted);
    }
    let mut removals: Vec<String> = Vec::new();
    let mut i: usize = 0;
    while i < entries.len()
        invariant
            i <= entries@.len(),
            texts(removals@) == whiteout_targets(image@, entry_views(entries@.subrange(0, i as int))),
        decreases entries@.len() - i,
    {
        let ghost pre = entry_views(entries@.subrange(0, i as int));
        let ghost next = entry_views(entries@.subrange(0, i + 1));
        assert(next.drop_last() =~= pre);
        assert(next.last() == (entries@[i as int].path@, entries@[i as int].kind));
        let ghost before = removals@;
        if entries[i].kind == EntryKind::Whiteout {
            removals.push(join(image, entries[i].path.as_str()));
            assert(texts(removals@) =~= texts(before).push(joined(image@, entries@[i as int].path@)));
        }
        i = i + 1;
    }
    assert(entries@.subrange(0, i as int) =~= entries@);
    proof {
        reveal_strlit("/");
    }
    let upper = join(delta, "upper");
    let mut from = upper;
    from.append("/");
    let mut sync_args: Vec<String> = Vec::new();
    sync_args.push(String::from_str("-a"));
    sync_args.push(String::from_str("-v"));
    sync_args.push(String::from_str("--ignore-times"));
    sync_args.push(from);
    sync_args.push(String::from_str(image));
    assert(texts(sync_args@) =~= sync_args_of(image@, delta@));
    Ok(CommitPlan { removals, sync_args, delta_dir: String::from_str(delta) })
}

/// The end of a commit: it succeeded only when every whiteout removal and
/// the sync succeeded; only then is the delta removed.
pub fn finish_commit(removals_ok: bool, sync_ok: bool) -> (r: Result<(), CommitError>)
    ensures
        r is Ok <==> removals_ok && sync_ok,
        r is Err ==> r == Err::<(), CommitError>(CommitError::MergeFailed),
{
    if removals_ok && sync_ok {
        Ok(())
    } else {
        Err(CommitError::MergeFailed)
    }
}

} // verus!
