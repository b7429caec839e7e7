//! How a session is started: the privileged path (mount namespace, mount
//! tree, chroot) or the unprivileged one (user-space overlay and root
//! emulation), each with its one fallback.
use vstd::prelude::*;
use crate::layout::{join, joined};
use crate::mount::{Action, ActionModel};
use crate::text::{has_prefix, strip_prefix};

verus! {

broadcast use vstd::string::group_string_axioms;

/// Which path a session takes.
#[derive(Debug, Clone, Copy, PartialEq, Eq, Structural)]
pub enum Strategy {
    /// Real root: kernel mount namespace, mount tree and chroot.
    Privileged,
    /// Anyone else: user-space overlay and root emulation.
    Unprivileged,
}

/// The isolation that the privileged path reached.
#[derive(Debug, Clone, Copy, PartialEq, Eq, Structural)]
pub enum Isolation {
    /// A mount namespace of its own.
    Namespaced,
    /// No namespace: the host's mounts were only made non-propagating.
    Degraded,
}

/// Why a session did not start.
#[derive(Debug, Clone, Copy, PartialEq, Eq, Structural)]
pub enum SessionError {
    /// Neither a namespace nor private mounts could be had.
    Unisolated,
}

/// What the privileged path does after trying to enter a mount namespace.
#[derive(Debug, Clone, Copy, PartialEq, Eq, Structural)]
pub enum AfterUnshare {
    /// Go on with this isolation.
    Proceed(Isolation),
    /// Mark the host's mounts private (`mount --make-rprivate /`) and report back.
    MakePrivate,
}

/// The strategy for a process whose effective user id is `euid`.
pub fn strategy_for(euid: u32) -> (r: Strategy)
    ensures
        r == (if euid == 0 { Strategy::Privileged } else { Strategy::Unprivileged }),
{
    if euid == 0 {
        Strategy::Privileged
    } else {
        Strategy::Unprivileged
    }
}

/// After the attempt to enter a new mount namespace.
pub fn after_unshare(ok: bool) -> (r: AfterUnshare)
    ensures
        ok ==> r == AfterUnshare::Proceed(Isolation::Namespaced),
        !ok ==> r == AfterUnshare::MakePrivate,
{
    if ok {
        AfterUnshare::Proceed(Isolation::Namespaced)
    } else {
        AfterUnshare::MakePrivate
    }
}

/// After the fallback marking of the host's mounts as private: degraded
/// isolation, or no session at all.
pub fn after_make_private(ok: bool) -> (r: Result<Isolation, SessionError>)
    ensures
        ok ==> r == Ok::<Isolation, SessionError>(Isolation::Degraded),
        !ok ==> r == Err::<Isolation, SessionError>(SessionError::Unisolated),
{
    if ok {
        Ok(Isolation::Degraded)
    } else {
        Err(SessionError::Unisolated)
    }
}

/// The shells looked for inside a root, in order of preference.
pub open spec fn shell_candidate(i: int) -> Seq<char> {
    if i == 0 {
        "usr/bin/zsh"@
    } else if i == 1 {
        "bin/bash"@
    } else if i == 2 {
        "bin/ash"@
    } else if i == 3 {
        "bin/sh"@
    } else {
        "usr/bin/bash"@
    }
}

pub const SHELL_CANDIDATES: usize = 5;

/// The candidate shells, relative to a root.
pub fn shell_candidates() -> (r: Vec<String>)
    ensures
        r@.len() == SHELL_CANDIDATES,
        forall|i: int| 0 <= i < SHELL_CANDIDATES ==> (#[trigger] r@[i])@ == shell_candidate(i),
{
    let mut v: Vec<String> = Vec::new();
    v.push(String::from_str("usr/bin/zsh"));
    v.push(String::from_str("bin/bash"));
    v.push(String::from_str("bin/ash"));
    v.push(String::from_str("bin/sh"));
    v.push(String::from_str("usr/bin/bash"));
    v
}

/// The shell a session runs: `/` and the first candidate that `present`
/// marks as existing in the root, else `/bin/sh`.
pub open spec fn shell_of(present: Seq<bool>) -> Seq<char> {
    shell_from(present, 0)
}

pub open spec fn shell_from(present: Seq<bool>, i: int) -> Seq<char>
    decreases SHELL_CANDIDATES - i,
{
    if i >= SHELL_CANDIDATES || i < 0 {
        "/bin/sh"@
    } else if i < present.len() && present[i] {
        seq!['/'] + shell_candidate(i)
    } else {
        shell_from(present, i + 1)
    }
}

/// Picks the shell from which candidates exist: `present[i]` tells whether
/// candidate `i` of `shell_candidates` exists in the root.
pub fn find_shell(present: &Vec<bool>) -> (r: String)
    ensures
        r@ == shell_of(present@),
{
    proof {
        reveal_strlit("/");
    }
    let names = shell_candidates();
    let mut i: usize = 0;
    while i < SHELL_CANDIDATES
        invariant
            i <= SHELL_CANDIDATES,
            names@.len() == SHELL_CANDIDATES,
            forall|k: int| 0 <= k < SHELL_CANDIDATES ==> (#[trigger] names@[k])@ == shell_candidate(k),
            shell_from(present@, 0) == shell_from(present@, i as int),
        decreases SHELL_CANDIDATES - i,
    {
        if i < present.len() && present[i] {
            assert(names@[i as int]@ == shell_candidate(i as int));
            proof {
                reveal_strlit("/");
            }
            let mut s = String::from_str("/");
            s.append(names[i].as_str());
            return s;
        }
        i = i + 1;
    }
    String::from_str("/bin/sh")
}

/// The words of a command joined by single spaces.
pub open spec fn spaced(words: Seq<Seq<char>>) -> Seq<char>
    decreases words.len(),
{
    if words.len() == 0 {
        Seq::empty()
    } else if words.len() == 1 {
        words[0]
    } else {
        spaced(words.drop_last()) + seq![' '] + words.last()
    }
}

pub open spec fn views(v: Seq<String>) -> Seq<Seq<char>> {
    v.map_values(|s: String| s@)
}

/// Joins the words of a command with single spaces.
pub fn join_command(words: &Vec<String>) -> (r: String)
    ensures
        r@ == spaced(views(words@)),
{
    proof {
        reveal_strlit(" ");
    }
    let mut s = String::new();
    let mut i: usize = 0;
    while i < words.len()
        invariant
            i <= words@.len(),
            s@ == spaced(views(words@.subrange(0, i as int))),
        decreases words@.len() - i,
    {
        let ghost pre = views(words@.subrange(0, i as int));
        let ghost next = views(words@.subrange(0, i + 1));
        assert(next.drop_last() =~= pre);
        assert(next.last() == words@[i as int]@);
        let ghost before = s@;
        if i > 0 {
            s.append(" ");
            proof {
                reveal_strlit(" ");
            }
        } else {
            assert(pre =~= Seq::<Seq<char>>::empty());
        }
        s.append(words[i].as_str());
        proof {
            if i > 0 {
                assert(s@ =~= before + seq![' '] + words@[i as int]@);
            } else {
                assert(s@ =~= words@[i as int]@);
            }
        }
        i = i + 1;
    }
    assert(words@.subrange(0, i as int) =~= words@);
    s
}

/// The profile named by the last `--profile=` argument, if any.
pub open spec fn profile_flag_of(args: Seq<Seq<char>>) -> Option<Seq<char>>
    decreases args.len(),
{
    if args.len() == 0 {
        None
    } else if has_prefix(args.last(), "--profile="@) {
        Some(args.last().subrange(10, args.last().len() as int))
    } else {
        profile_flag_of(args.drop_last())
    }
}

/// Finds the profile that the arguments ask for.
pub fn profile_flag(args: &Vec<String>) -> (r: Option<String>)
    ensures
        match r {
            Some(p) => profile_flag_of(views(args@)) == Some(p@),
            None => profile_flag_of(views(args@)) is None,
        },
{
    proof {
        reveal_strlit("--profile=");
    }
    let mut found: Option<String> = None;
    let mut i: usize = 0;
    while i < args.len()
        invariant
            i <= args@.len(),
            match found {
                Some(p) => profile_flag_of(views(args@.subrange(0, i as int))) == Some(p@),
                None => profile_flag_of(views(args@.subrange(0, i as int))) is None,
            },
        decreases args@.len() - i,
    {
        let ghost next = views(args@.subrange(0, i + 1));
        assert(next.drop_last() =~= views(args@.subrange(0, i as int)));
        assert(next.last() == args@[i as int]@);
        proof {
            reveal_strlit("--profile=");
        }
        match strip_prefix(args[i].as_str(), "--profile=") {
            Some(p) => {
                found = Some(p);
            },
            None => {},
        }
        i = i + 1;
    }
    assert(args@.subrange(0, i as int) =~= args@);
    found
}

/// The environment of a chrooted session, set after the inherited one is
/// cleared: `HOME`, `TERM` (the caller's, else `xterm-256color`) and `PATH`.
pub open spec fn session_env_of(term: Option<Seq<char>>) -> Seq<(Seq<char>, Seq<char>)> {
    seq![
        ("HOME"@, "/root"@),
        ("TERM"@, match term {
            Some(t) => t,
            None => "xterm-256color"@,
        }),
        ("PATH"@, "/usr/local/sbin:/usr/local/bin:/usr/sbin:/usr/bin:/sbin:/bin"@),
    ]
}

pub open spec fn pair_views(v: Seq<(String, String)>) -> Seq<(Seq<char>, Seq<char>)> {
    v.map_values(|p: (String, String)| (p.0@, p.1@))
}

/// The variable that must never reach a session: dynamic-linker injection.
pub fn injected_var() -> (r: String)
    ensures
        r@ == "LD_PRELOAD"@,
{
    String::from_str("LD_PRELOAD")
}

/// The variables of a chrooted session.
pub fn session_env(term: &Option<String>) -> (r: Vec<(String, String)>)
    ensures
        pair_views(r@) == session_env_of(match term {
            Some(t) => Some(t@),
            None => None,
        }),
{
    let mut v: Vec<(String, String)> = Vec::new();
    v.push((String::from_str("HOME"), String::from_str("/root")));
    let t = match term {
        Some(t) => t.clone(),
        None => String::from_str("xterm-256color"),
    };
    v.push((String::from_str("TERM"), t));
    v.push(
        (
            String::from_str("PATH"),
            String::from_str("/usr/local/sbin:/usr/local/bin:/usr/sbin:/usr/bin:/sbin:/bin"),
        ),
    );
    proof {
        let ghost tm = match term {
            Some(t) => Some(t@),
            None => None,
        };
        assert(pair_views(v@) =~= session_env_of(tm));
    }
    v
}

/// The arguments of `chroot`: the root, the shell, and `-c <command>` for a
/// single command.
pub open spec fn chroot_args_of(root: Seq<char>, shell: Seq<char>, command: Option<Seq<char>>) -> Seq<
    Seq<char>,
> {
    match command {
        Some(c) => seq![root, shell, "-c"@, c],
        None => seq![root, shell],
    }
}

pub fn chroot_args(root: &str, shell: &str, command: &Option<String>) -> (r: Vec<String>)
    ensures
        views(r@) == chroot_args_of(
            root@,
            shell@,
            match command {
                Some(c) => Some(c@),
                None => None,
            },
        ),
{
    let mut v: Vec<String> = Vec::new();
    v.push(String::from_str(root));
    v.push(String::from_str(shell));
    match command {
        Some(c) => {
            v.push(String::from_str("-c"));
            v.push(c.clone());
            assert(views(v@) =~= seq![root@, shell@, "-c"@, c@]);
        },
        None => {
            assert(views(v@) =~= seq![root@, shell@]);
        },
    }
    v
}

/// Whether the unprivileged path layers the delta with the user-space
/// overlay: everywhere but on Android without `/dev/fuse`.
pub fn use_overlay(is_android: bool, has_fuse: bool) -> (r: bool)
    ensures
        r == (!is_android || has_fuse),
{
    !is_android || has_fuse
}

/// The root-emulation helper's arguments: the root, an emulated root user,
/// `/dev`, `/proc` and `/sys` bound from the host, `/` as working
/// directory, then the shell, and `-c <command>` for a single command.
pub open spec fn helper_args_of(root: Seq<char>, shell: Seq<char>, command: Option<Seq<char>>) -> Seq<
    Seq<char>,
> {
    seq![
        "-r"@,
        root,
        "-0"@,
        "-b"@,
        "/dev"@,
        "-b"@,
        "/proc"@,
        "-b"@,
        "/sys"@,
        "--link2symlink"@,
        "-w"@,
        "/"@,
        shell,
    ] + match command {
        Some(c) => seq!["-c"@, c],
        None => Seq::empty(),
    }
}

fn push_view(v: &mut Vec<String>, s: &str)
    ensures
        views(final(v)@) == views(old(v)@).push(s@),
{
    let ghost before = v@;
    v.push(String::from_str(s));
    assert(views(v@) =~= views(before).push(s@));
}

pub fn helper_args(root: &str, shell: &str, command: &Option<String>) -> (r: Vec<String>)
    ensures
        views(r@) == helper_args_of(root@, shell@, opt_text(command)),
{
    let mut v: Vec<String> = Vec::new();
    assert(views(v@) =~= Seq::<Seq<char>>::empty());
    push_view(&mut v, "-r");
    push_view(&mut v, root);
    push_view(&mut v, "-0");
    push_view(&mut v, "-b");
    push_view(&mut v, "/dev");
    push_view(&mut v, "-b");
    push_view(&mut v, "/proc");
    push_view(&mut v, "-b");
    push_view(&mut v, "/sys");
    push_view(&mut v, "--link2symlink");
    push_view(&mut v, "-w");
    push_view(&mut v, "/");
    push_view(&mut v, shell);
    let ghost base = views(v@);
    match command {
        Some(c) => {
            push_view(&mut v, "-c");
            push_view(&mut v, c.as_str());
            assert(views(v@) =~= base + seq!["-c"@, c@]);
        },
        None => {
            assert(views(v@) =~= base + Seq::<Seq<char>>::empty());
        },
    }
    assert(base =~= seq![
        "-r"@,
        root@,
        "-0"@,
        "-b"@,
        "/dev"@,
        "-b"@,
        "/proc"@,
        "-b"@,
        "/sys"@,
        "--link2symlink"@,
        "-w"@,
        "/"@,
        shell@,
    ]);
    v
}

pub open spec fn opt_text(o: &Option<String>) -> Option<Seq<char>> {
    match o {
        Some(s) => Some(s@),
        None => None,
    }
}

/// The shell command run inside a fresh user and mount namespace: start
/// the user-space overlay of the delta over the image at the delta's
/// `merged` directory, wait a moment, then run the root-emulation helper
/// on the merged view.
pub open spec fn chain_of(
    fuse: Seq<char>,
    helper: Seq<char>,
    image: Seq<char>,
    delta: Seq<char>,
    shell: Seq<char>,
    command: Option<Seq<char>>,
) -> Seq<char> {
    let merged = joined(delta, "merged"@);
    fuse + " -f -o lowerdir="@ + image + ",upperdir="@ + joined(delta, "upper"@) + ",workdir="@
        + joined(delta, "work"@) + ",squash_to_root "@ + merged + " & sleep 1 && "@ + helper
        + " -r "@ + merged + " -0 -b /dev -b /proc -b /sys --link2symlink -w / "@ + shell
        + match command {
        Some(c) => " -c "@ + c,
        None => Seq::empty(),
    }
}

pub fn chain_command(
    fuse: &str,
    helper: &str,
    image: &str,
    delta: &str,
    shell: &str,
    command: &Option<String>,
) -> (r: String)
    ensures
        r@ == chain_of(fuse@, helper@, image@, delta@, shell@, opt_text(command)),
{
    let upper = join(delta, "upper");
    let work = join(delta, "work");
    let merged = join(delta, "merged");
    let mut s = String::from_str(fuse);
    s.append(" -f -o lowerdir=");
    s.append(image);
    s.append(",upperdir=");
    s.append(upper.as_str());
    s.append(",workdir=");
    s.append(work.as_str());
    s.append(",squash_to_root ");
    s.append(merged.as_str());
    s.append(" & sleep 1 && ");
    s.append(helper);
    s.append(" -r ");
    s.append(merged.as_str());
    s.append(" -0 -b /dev -b /proc -b /sys --link2symlink -w / ");
    s.append(shell);
    let ghost base = s@;
    match command {
        Some(c) => {
            s.append(" -c ");
            s.append(c.as_str());
            assert(s@ =~= base + (" -c "@ + c@));
        },
        None => {
            assert(s@ =~= base + Seq::<char>::empty());
        },
    }
    s
}

/// `unshare`'s arguments: new user namespace mapped to root, new mount
/// namespace, and `bash -c <chain>`.
pub open spec fn unshare_args_of(chain: Seq<char>) -> Seq<Seq<char>> {
    seq!["-U"@, "-r"@, "-m"@, "bash"@, "-c"@, chain]
}

/// A program to start.
#[derive(Debug)]
pub enum Launch {
    /// `unshare` with these arguments.
    Unshare { args: Vec<String> },
    /// The root-emulation helper with these arguments.
    Helper { args: Vec<String> },
}

pub struct LaunchModel {
    /// Whether it is the namespaced overlay chain (else the helper alone).
    pub chain: bool,
    pub args: Seq<Seq<char>>,
}

impl Launch {
    pub open spec fn model(&self) -> LaunchModel {
        match self {
            Launch::Unshare { args } => LaunchModel { chain: true, args: views(args@) },
            Launch::Helper { args } => LaunchModel { chain: false, args: views(args@) },
        }
    }
}

/// The unprivileged session: what to prepare, what to start, what to
/// start instead if that fails, and what to undo at the end.
#[derive(Debug)]
pub struct UnprivilegedPlan {
    pub prepare: Vec<Action>,
    pub first: Launch,
    pub fallback: Option<Launch>,
    pub cleanup: Vec<Action>,
}

pub struct UnprivilegedModel {
    pub prepare: Seq<ActionModel>,
    pub first: LaunchModel,
    pub fallback: Option<LaunchModel>,
    pub cleanup: Seq<ActionModel>,
}

pub open spec fn action_views(s: Seq<Action>) -> Seq<ActionModel> {
    s.map_values(|a: Action| a.model())
}

impl UnprivilegedPlan {
    pub open spec fn model(&self) -> UnprivilegedModel {
        UnprivilegedModel {
            prepare: action_views(self.prepare@),
            first: self.first.model(),
            fallback: match self.fallback {
                Some(l) => Some(l.model()),
                None => None,
            },
            cleanup: action_views(self.cleanup@),
        }
    }
}

/// The plan. With the overlay: create the delta's directories, run the
/// chain, fall back to the helper directly on the image (nothing persists),
/// and unmount the merged view at the end. Without it: the helper directly
/// on the image, with no fallback.
pub open spec fn unprivileged_plan_of(
    fuse: Seq<char>,
    helper: Seq<char>,
    image: Seq<char>,
    delta: Seq<char>,
    shell: Seq<char>,
    command: Option<Seq<char>>,
    overlay: bool,
) -> UnprivilegedModel {
    let direct = LaunchModel { chain: false, args: helper_args_of(image, shell, command) };
    if overlay {
        UnprivilegedModel {
            prepare: seq![
                ActionModel::CreateDir(joined(delta, "upper"@)),
                ActionModel::CreateDir(joined(delta, "work"@)),
                ActionModel::CreateDir(joined(delta, "merged"@)),
            ],
            first: LaunchModel {
                chain: true,
                args: unshare_args_of(chain_of(fuse, helper, image, delta, shell, command)),
            },
            fallback: Some(direct),
            cleanup: seq![ActionModel::Unmount(joined(delta, "merged"@))],
        }
    } else {
        UnprivilegedModel {
            prepare: Seq::empty(),
            first: direct,
            fallback: None,
            cleanup: Seq::empty(),
        }
    }
}

fn push_action(v: &mut Vec<Action>, a: Action)
    ensures
        action_views(final(v)@) == action_views(old(v)@).push(a.model()),
{
    let ghost before = v@;
    v.push(a);
    assert(action_views(v@) =~= action_views(before).push(a.model()));
}

/// Plans an unprivileged session on the image at `image`, with the delta
/// layer at `delta`, the user-space overlay at `fuse` and the root-emulation
/// helper at `helper`.
pub fn plan_unprivileged(
    fuse: &str,
    helper: &str,
    image: &str,
    delta: &str,
    shell: &str,
    command: &Option<String>,
    overlay: bool,
) -> (r: UnprivilegedPlan)
    ensures
        r.model() == unprivileged_plan_of(
            fuse@,
            helper@,
            image@,
            delta@,
            shell@,
            opt_text(command),
            overlay,
        ),
{
    let direct = Launch::Helper { args: helper_args(image, shell, command) };
    if overlay {
        let mut prepare: Vec<Action> = Vec::new();
        assert(action_views(prepare@) =~= Seq::<ActionModel>::empty());
        push_action(&mut prepare, Action::CreateDir { path: join(delta, "upper") });
        push_action(&mut prepare, Action::CreateDir { path: join(delta, "work") });
        push_action(&mut prepare, Action::CreateDir { path: join(delta, "merged") });
        let chain = chain_command(fuse, helper, image, delta, shell, command);
        let mut args: Vec<String> = Vec::new();
        assert(views(args@) =~= Seq::<Seq<char>>::empty());
        push_view(&mut args, "-U");
        push_view(&mut args, "-r");
        push_view(&mut args, "-m");
        push_view(&mut args, "bash");
        push_view(&mut args, "-c");
        push_view(&mut args, chain.as_str());
        let mut cleanup: Vec<Action> = Vec::new();
        assert(action_views(cleanup@) =~= Seq::<ActionModel>::empty());
        push_action(&mut cleanup, Action::Unmount { path: join(delta, "merged") });
        let r = UnprivilegedPlan {
            prepare,
            first: Launch::Unshare { args },
            fallback: Some(direct),
            cleanup,
        };
        assert(r.model().prepare =~= unprivileged_plan_of(
            fuse@,
            helper@,
            image@,
            delta@,
            shell@,
            opt_text(command),
            overlay,
        ).prepare);
        assert(r.model().first.args =~= unshare_args_of(chain@));
        assert(r.model().cleanup =~= seq![ActionModel::Unmount(joined(delta@, "merged"@))]);
        r
    } else {
        let prepare: Vec<Action> = Vec::new();
        let cleanup: Vec<Action> = Vec::new();
        assert(action_views(prepare@) =~= Seq::<ActionModel>::empty());
        assert(action_views(cleanup@) =~= Seq::<ActionModel>::empty());
        UnprivilegedPlan { prepare, first: direct, fallback: None, cleanup }
    }
}

/// What to start after the first launch ended: nothing when it succeeded,
/// else the fallback, if there is one. There is never a second fallback.
pub open spec fn next_launch_of(plan: UnprivilegedModel, first_ok: bool) -> Option<LaunchModel> {
    if first_ok {
        None
    } else {
        plan.fallback
    }
}

impl UnprivilegedPlan {
    pub fn after_first(&self, first_ok: bool) -> (r: Option<&Launch>)
        ensures
            match r {
                Some(l) => next_launch_of(self.model(), first_ok) == Some(l.model()),
                None => next_launch_of(self.model(), first_ok) is None,
            },
    {
        if first_ok {
            None
        } else {
            match &self.fallback {
                Some(l) => Some(l),
                None => None,
            }
        }
    }
}

/// When the overlay chain exits non-zero, the session falls back to the
/// root-emulation helper run directly on the base image, without the delta:
/// its root argument is the image, and the merged view is not used.
pub proof fn lemma_chain_failure_falls_back_to_image(
    fuse: Seq<char>,
    helper: Seq<char>,
    image: Seq<char>,
    delta: Seq<char>,
    shell: Seq<char>,
    command: Option<Seq<char>>,
)
    ensures
        ({
            let plan = unprivileged_plan_of(fuse, helper, image, delta, shell, command, true);
            &&& plan.first.chain
            &&& next_launch_of(plan, false) == Some(
                LaunchModel { chain: false, args: helper_args_of(image, shell, command) },
            )
            &&& next_launch_of(plan, false).unwrap().args[1] == image
            &&& next_launch_of(plan, true) is None
        }),
{
}

} // verus!
