//! The mount tree of a privileged session, built step by step and torn down
//! in reverse.
//!
//! A `MountGuard` holds the plan of a session's mount operations. Whoever
//! drives it runs `next_step`, reports the outcome with `record`, and, on
//! every exit path, runs the actions of `teardown`. A mount point is recorded
//! as soon as the operation that establishes it succeeds, before the next
//! operation is handed out, so a failure at any step still leaves every
//! established mount in the teardown.
use vstd::prelude::*;
use crate::layout::{join, joined};

verus! {

broadcast use vstd::string::group_string_axioms;

/// One operation on the file system.
#[derive(Debug)]
pub enum Action {
    /// Create a directory and its parents.
    CreateDir { path: String },
    /// Run `mount` with these arguments.
    Mount { args: Vec<String> },
    /// Detach the mount at `path` (a lazy unmount).
    Unmount { path: String },
    /// Remove the empty directory `path`.
    RemoveDir { path: String },
}

/// A mount point that teardown must release.
#[derive(Debug)]
pub struct Record {
    pub path: String,
    /// Whether the directory itself goes once it is unmounted.
    pub remove_dir: bool,
}

/// One step of construction: an action and the mount point that it
/// establishes, if any.
#[derive(Debug)]
pub struct Step {
    pub action: Action,
    pub records: Option<Record>,
}

/// What an action is, over plain text.
pub enum ActionModel {
    CreateDir(Seq<char>),
    Mount(Seq<Seq<char>>),
    Unmount(Seq<char>),
    RemoveDir(Seq<char>),
}

pub struct StepModel {
    pub action: ActionModel,
    pub records: Option<(Seq<char>, bool)>,
}

pub open spec fn texts(v: Seq<String>) -> Seq<Seq<char>> {
    v.map_values(|a: String| a@)
}

impl Action {
    pub open spec fn model(&self) -> ActionModel {
        match self {
            Action::CreateDir { path } => ActionModel::CreateDir(path@),
            Action::Mount { args } => ActionModel::Mount(texts(args@)),
            Action::Unmount { path } => ActionModel::Unmount(path@),
            Action::RemoveDir { path } => ActionModel::RemoveDir(path@),
        }
    }
}

impl Step {
    pub open spec fn model(&self) -> StepModel {
        StepModel {
            action: self.action.model(),
            records: match self.records {
                Some(r) => Some((r.path@, r.remove_dir)),
                None => None,
            },
        }
    }
}

pub open spec fn step_models(s: Seq<Step>) -> Seq<StepModel> {
    s.map_values(|x: Step| x.model())
}

pub open spec fn action_models(s: Seq<Action>) -> Seq<ActionModel> {
    s.map_values(|x: Action| x.model())
}

pub open spec fn plain(a: ActionModel) -> StepModel {
    StepModel { action: a, records: None }
}

pub open spec fn establishing(a: ActionModel, path: Seq<char>, remove_dir: bool) -> StepModel {
    StepModel { action: a, records: Some((path, remove_dir)) }
}

/// `mount --make-rprivate /`: the host's mounts stop propagating.
pub open spec fn make_private_step() -> StepModel {
    plain(ActionModel::Mount(seq!["--make-rprivate"@, "/"@]))
}

/// The overlay of `upper` (with `work`) over `lower`, mounted at `merged`.
pub open spec fn overlay_steps(lower: Seq<char>, delta: Seq<char>) -> Seq<StepModel> {
    let upper = joined(delta, "upper"@);
    let work = joined(delta, "work"@);
    let merged = joined(delta, "merged"@);
    let opts = "lowerdir="@ + lower + ",upperdir="@ + upper + ",workdir="@ + work;
    seq![
        plain(ActionModel::CreateDir(upper)),
        plain(ActionModel::CreateDir(work)),
        plain(ActionModel::CreateDir(merged)),
        establishing(
            ActionModel::Mount(seq!["-t"@, "overlay"@, "overlay"@, "-o"@, opts, merged]),
            merged,
            true,
        ),
    ]
}

/// The kernel file systems under `root`: proc, dev (then made a slave),
/// dev/pts, sys (then remounted read-only), in that order.
pub open spec fn kernel_steps(root: Seq<char>) -> Seq<StepModel> {
    let p = joined(root, "proc"@);
    let d = joined(root, "dev"@);
    let t = joined(root, "dev/pts"@);
    let s = joined(root, "sys"@);
    seq![
        plain(ActionModel::CreateDir(p)),
        establishing(ActionModel::Mount(seq!["-t"@, "proc"@, "proc"@, p]), p, false),
        plain(ActionModel::CreateDir(d)),
        establishing(ActionModel::Mount(seq!["--bind"@, "/dev"@, d]), d, false),
        plain(ActionModel::Mount(seq!["--make-slave"@, d])),
        plain(ActionModel::CreateDir(t)),
        establishing(ActionModel::Mount(seq!["--bind"@, "/dev/pts"@, t]), t, false),
        plain(ActionModel::CreateDir(s)),
        establishing(ActionModel::Mount(seq!["--bind"@, "/sys"@, s]), s, false),
        plain(ActionModel::Mount(seq!["-o"@, "remount,ro,bind"@, s])),
    ]
}

/// The whole construction: the private marking first, then the overlay when
/// a delta layer is given, then the kernel file systems under the effective root.
pub open spec fn session_plan(image: Seq<char>, delta: Option<Seq<char>>) -> Seq<StepModel> {
    match delta {
        Some(d) => seq![make_private_step()] + overlay_steps(image, d) + kernel_steps(
            joined(d, "merged"@),
        ),
        None => seq![make_private_step()] + kernel_steps(image),
    }
}

/// The mount points that the first `n` steps establish, in order.
pub open spec fn recorded(plan: Seq<StepModel>, n: int) -> Seq<(Seq<char>, bool)>
    decreases n,
{
    if n <= 0 || plan.len() < n {
        Seq::empty()
    } else {
        match plan[n - 1].records {
            Some(r) => recorded(plan, n - 1).push(r),
            None => recorded(plan, n - 1),
        }
    }
}

/// Teardown of the records `recs`: the last one first, each unmounted and,
/// where it says so, its directory removed.
pub open spec fn teardown_of(recs: Seq<(Seq<char>, bool)>) -> Seq<ActionModel>
    decreases recs.len(),
{
    if recs.len() == 0 {
        Seq::empty()
    } else {
        let r = recs.last();
        let head = if r.1 {
            seq![ActionModel::Unmount(r.0), ActionModel::RemoveDir(r.0)]
        } else {
            seq![ActionModel::Unmount(r.0)]
        };
        head + teardown_of(recs.drop_last())
    }
}

/// The paths that a list of actions unmounts, in order.
pub open spec fn unmounted(acts: Seq<ActionModel>) -> Seq<Seq<char>>
    decreases acts.len(),
{
    if acts.len() == 0 {
        Seq::empty()
    } else {
        let rest = unmounted(acts.drop_first());
        match acts[0] {
            ActionModel::Unmount(p) => seq![p] + rest,
            _ => rest,
        }
    }
}

pub open spec fn paths_of(recs: Seq<(Seq<char>, bool)>) -> Seq<Seq<char>> {
    recs.map_values(|r: (Seq<char>, bool)| r.0)
}

/// Where construction stands.
#[derive(Debug, Clone, Copy, PartialEq, Eq, Structural)]
pub enum Phase {
    /// Steps remain to be run.
    Building,
    /// Every step succeeded: the session can run.
    Active,
    /// A step failed: the session cannot start, and teardown is still owed.
    Failed,
}

/// The mounts of one privileged session.
pub struct MountGuard {
    plan: Vec<Step>,
    done: usize,
    phase: Phase,
    mounts: Vec<Record>,
    root: String,
}

fn text(s: &str) -> (r: String)
    ensures
        r@ == s@,
{
    String::from_str(s)
}

fn push_text(v: &mut Vec<String>, s: &str)
    ensures
        texts(final(v)@) == texts(old(v)@).push(s@),
{
    let ghost before = v@;
    v.push(text(s));
    assert(texts(v@) =~= texts(before).push(s@));
}

fn args2(a: &str, b: &str) -> (r: Vec<String>)
    ensures
        texts(r@) == seq![a@, b@],
{
    let mut v: Vec<String> = Vec::new();
    assert(texts(v@) =~= Seq::<Seq<char>>::empty());
    push_text(&mut v, a);
    push_text(&mut v, b);
    assert(texts(v@) =~= seq![a@, b@]);
    v
}

fn args3(a: &str, b: &str, c: &str) -> (r: Vec<String>)
    ensures
        texts(r@) == seq![a@, b@, c@],
{
    let mut v = args2(a, b);
    push_text(&mut v, c);
    assert(texts(v@) =~= seq![a@, b@, c@]);
    v
}

fn args4(a: &str, b: &str, c: &str, d: &str) -> (r: Vec<String>)
    ensures
        texts(r@) == seq![a@, b@, c@, d@],
{
    let mut v = args3(a, b, c);
    push_text(&mut v, d);
    assert(texts(v@) =~= seq![a@, b@, c@, d@]);
    v
}

fn create_dir(path: &str) -> (r: Step)
    ensures
        r.model() == plain(ActionModel::CreateDir(path@)),
{
    Step { action: Action::CreateDir { path: text(path) }, records: None }
}

fn mount_plain(args: Vec<String>) -> (r: Step)
    ensures
        r.model() == plain(ActionModel::Mount(texts(args@))),
{
    Step { action: Action::Mount { args }, records: None }
}

fn mount_recorded(args: Vec<String>, path: &str, remove_dir: bool) -> (r: Step)
    ensures
        r.model() == establishing(ActionModel::Mount(texts(args@)), path@, remove_dir),
{
    Step { action: Action::Mount { args }, records: Some(Record { path: text(path), remove_dir }) }
}

fn push_step(plan: &mut Vec<Step>, s: Step)
    ensures
        step_models(final(plan)@) == step_models(old(plan)@).push(s.model()),
{
    let ghost before = plan@;
    plan.push(s);
    assert(step_models(plan@) =~= step_models(before).push(s.model()));
}

fn push_overlay_steps(plan: &mut Vec<Step>, image: &str, delta: &str)
    ensures
        step_models(final(plan)@) == step_models(old(plan)@) + overlay_steps(image@, delta@),
{
    proof {
        reveal_strlit("lowerdir=");
        reveal_strlit(",upperdir=");
        reveal_strlit(",workdir=");
    }
    let ghost start = step_models(plan@);
    let upper = join(delta, "upper");
    let work = join(delta, "work");
    let merged = join(delta, "merged");
    let mut opts = text("lowerdir=");
    opts.append(image);
    opts.append(",upperdir=");
    opts.append(upper.as_str());
    opts.append(",workdir=");
    opts.append(work.as_str());
    push_step(plan, create_dir(upper.as_str()));
    push_step(plan, create_dir(work.as_str()));
    push_step(plan, create_dir(merged.as_str()));
    let mut args = args4("-t", "overlay", "overlay", "-o");
    push_text(&mut args, opts.as_str());
    push_text(&mut args, merged.as_str());
    let ghost o = "lowerdir="@ + image@ + ",upperdir="@ + upper@ + ",workdir="@ + work@;
    assert(opts@ == o);
    assert(texts(args@) =~= seq!["-t"@, "overlay"@, "overlay"@, "-o"@, o, merged@]);
    push_step(plan, mount_recorded(args, merged.as_str(), true));
    assert(step_models(plan@) =~= start + overlay_steps(image@, delta@));
}

fn push_kernel_steps(plan: &mut Vec<Step>, root: &str)
    ensures
        step_models(final(plan)@) == step_models(old(plan)@) + kernel_steps(root@),
{
    let ghost start = step_models(plan@);
    let p = join(root, "proc");
    let d = join(root, "dev");
    let t = join(root, "dev/pts");
    let s = join(root, "sys");
    push_step(plan, create_dir(p.as_str()));
    push_step(plan, mount_recorded(args4("-t", "proc", "proc", p.as_str()), p.as_str(), false));
    push_step(plan, create_dir(d.as_str()));
    push_step(plan, mount_recorded(args3("--bind", "/dev", d.as_str()), d.as_str(), false));
    push_step(plan, mount_plain(args2("--make-slave", d.as_str())));
    push_step(plan, create_dir(t.as_str()));
    push_step(plan, mount_recorded(args3("--bind", "/dev/pts", t.as_str()), t.as_str(), false));
    push_step(plan, create_dir(s.as_str()));
    push_step(plan, mount_recorded(args3("--bind", "/sys", s.as_str()), s.as_str(), false));
    push_step(plan, mount_plain(args3("-o", "remount,ro,bind", s.as_str())));
    assert(step_models(plan@) =~= start + kernel_steps(root@));
}

pub open spec fn record_models(s: Seq<Record>) -> Seq<(Seq<char>, bool)> {
    s.map_values(|r: Record| (r.path@, r.remove_dir))
}

fn copy_record(r: &Record) -> (c: Record)
    ensures
        c.path@ == r.path@,
        c.remove_dir == r.remove_dir,
{
    Record { path: r.path.clone(), remove_dir: r.remove_dir }
}

impl MountGuard {
    /// The planned steps.
    pub closed spec fn plan_model(&self) -> Seq<StepModel> {
        step_models(self.plan@)
    }

    /// How many steps have succeeded.
    pub closed spec fn done_count(&self) -> nat {
        self.done as nat
    }

    pub closed spec fn phase_model(&self) -> Phase {
        self.phase
    }

    /// The mount points recorded so far, in the order they were established.
    pub closed spec fn records_model(&self) -> Seq<(Seq<char>, bool)> {
        record_models(self.mounts@)
    }

    pub closed spec fn root_model(&self) -> Seq<char> {
        self.root@
    }

    pub closed spec fn wf(&self) -> bool {
        &&& self.done <= self.plan@.len()
        &&& self.plan@.len() > 0
        &&& record_models(self.mounts@) == recorded(step_models(self.plan@), self.done as int)
        &&& (self.phase == Phase::Active <==> self.done == self.plan@.len())
        &&& (self.phase == Phase::Building ==> self.done < self.plan@.len())
    }

    /// A session over the image at `image`, with the delta layer at `delta`
    /// when one is given. Nothing is mounted yet: the plan starts with the
    /// private marking of the host's mounts.
    pub fn new(image: &str, delta: &Option<String>) -> (g: MountGuard)
        ensures
            g.wf(),
            g.plan_model() == session_plan(
                image@,
                match delta {
                    Some(d) => Some(d@),
                    None => None,
                },
            ),
            g.done_count() == 0,
            g.phase_model() == Phase::Building,
            g.records_model() == Seq::<(Seq<char>, bool)>::empty(),
            g.root_model() == match delta {
                Some(d) => joined(d@, "merged"@),
                None => image@,
            },
    {
        proof {
            reveal_strlit("--make-rprivate");
            reveal_strlit("/");
        }
        let mut plan: Vec<Step> = Vec::new();
        assert(step_models(plan@) =~= Seq::<StepModel>::empty());
        push_step(&mut plan, mount_plain(args2("--make-rprivate", "/")));
        let root = match delta {
            Some(d) => {
                push_overlay_steps(&mut plan, image, d.as_str());
                join(d.as_str(), "merged")
            },
            None => text(image),
        };
        push_kernel_steps(&mut plan, root.as_str());
        proof {
            match delta {
                Some(d) => {
                    assert(step_models(plan@) =~= session_plan(image@, Some(d@)));
                },
                None => {
                    assert(step_models(plan@) =~= session_plan(image@, None));
                },
            }
        }
        let mounts: Vec<Record> = Vec::new();
        assert(record_models(mounts@) =~= Seq::<(Seq<char>, bool)>::empty());
        MountGuard { plan, done: 0, phase: Phase::Building, mounts, root }
    }

    /// The effective root: the merged view with a delta layer, else the image.
    pub fn root(&self) -> (r: &str)
        ensures
            r@ == self.root_model(),
    {
        self.root.as_str()
    }

    pub fn phase(&self) -> (r: Phase)
        ensures
            r == self.phase_model(),
    {
        self.phase
    }

    /// The step to run now, while construction goes on.
    pub fn next_step(&self) -> (r: Option<&Step>)
        requires
            self.wf(),
        ensures
            self.phase_model() == Phase::Building ==> r is Some && r.unwrap().model()
                == self.plan_model()[self.done_count() as int],
            self.phase_model() != Phase::Building ==> r is None,
    {
        if self.phase == Phase::Building {
            Some(&self.plan[self.done])
        } else {
            None
        }
    }

    /// Takes the outcome of the step that `next_step` gave. On success the
    /// mount point it establishes, if any, is recorded at once; on failure
    /// construction stops and the records stay as they are.
    pub fn record(&mut self, ok: bool)
        requires
            old(self).wf(),
            old(self).phase_model() == Phase::Building,
        ensures
            final(self).wf(),
            final(self).plan_model() == old(self).plan_model(),
            final(self).root_model() == old(self).root_model(),
            ok ==> final(self).done_count() == old(self).done_count() + 1,
            ok ==> final(self).records_model() == recorded(
                old(self).plan_model(),
                old(self).done_count() + 1 as int,
            ),
            ok ==> (final(self).phase_model() == Phase::Active <==> final(self).done_count()
                == final(self).plan_model().len()),
            !ok ==> final(self).done_count() == old(self).done_count(),
            !ok ==> final(self).records_model() == old(self).records_model(),
            !ok ==> final(self).phase_model() == Phase::Failed,
    {
        if !ok {
            self.phase = Phase::Failed;
            return;
        }
        let ghost before = self.mounts@;
        let i = self.done;
        let n = self.plan.len();
        assert(i < n);
        match &self.plan[i].records {
            Some(r) => {
                let c = copy_record(r);
                self.mounts.push(c);
                assert(record_models(self.mounts@) =~= record_models(before).push(
                    (c.path@, c.remove_dir),
                ));
            },
            None => {},
        }
        self.done = i + 1;
        if self.done == self.plan.len() {
            self.phase = Phase::Active;
        }
    }

    /// What releases the session: each recorded mount point unmounted, the
    /// last one first, and the overlay's merged directory removed once its
    /// mount is gone. It never fails: the runner ignores each action's outcome.
    pub fn teardown(&self) -> (r: Vec<Action>)
        requires
            self.wf(),
        ensures
            action_models(r@) == teardown_of(self.records_model()),
    {
        let mut acts: Vec<Action> = Vec::new();
        let n = self.mounts.len();
        let mut k: usize = n;
        assert(self.mounts@.subrange(0, n as int) =~= self.mounts@);
        while k > 0
            invariant
                k <= n,
                n == self.mounts@.len(),
                action_models(acts@) + teardown_of(record_models(self.mounts@.subrange(0, k as int)))
                    == teardown_of(record_models(self.mounts@)),
            decreases k,
        {
            let ghost pre = record_models(self.mounts@.subrange(0, k as int));
            let ghost rest = record_models(self.mounts@.subrange(0, k - 1));
            assert(pre.drop_last() =~= rest);
            let r = &self.mounts[k - 1];
            let ghost before = acts@;
            acts.push(Action::Unmount { path: r.path.clone() });
            if r.remove_dir {
                acts.push(Action::RemoveDir { path: r.path.clone() });
            }
            assert(action_models(acts@) =~= action_models(before) + if r.remove_dir {
                seq![ActionModel::Unmount(r.path@), ActionModel::RemoveDir(r.path@)]
            } else {
                seq![ActionModel::Unmount(r.path@)]
            });
            k = k - 1;
        }
        assert(record_models(self.mounts@.subrange(0, 0)) =~= Seq::<(Seq<char>, bool)>::empty());
        assert(action_models(acts@) =~= action_models(acts@) + Seq::<ActionModel>::empty());
        acts
    }
}

proof fn lemma_unmounted_concat(a: Seq<ActionModel>, b: Seq<ActionModel>)
    ensures
        unmounted(a + b) == unmounted(a) + unmounted(b),
    decreases a.len(),
{
    if a.len() == 0 {
        assert(a + b =~= b);
        assert(unmounted(a) + unmounted(b) =~= unmounted(b));
    } else {
        assert((a + b).drop_first() =~= a.drop_first() + b);
        lemma_unmounted_concat(a.drop_first(), b);
        match a[0] {
            ActionModel::Unmount(p) => {
                assert(seq![p] + unmounted(a.drop_first()) + unmounted(b) =~= seq![p] + (unmounted(
                    a.drop_first(),
                ) + unmounted(b)));
            },
            _ => {},
        }
    }
}

/// Teardown unmounts exactly the recorded mount points, each once, in the
/// reverse of the order in which they were recorded: as many unmounts as
/// records, the last mount released first.
pub proof fn lemma_teardown_reverses_records(recs: Seq<(Seq<char>, bool)>)
    ensures
        unmounted(teardown_of(recs)) == paths_of(recs).reverse(),
        unmounted(teardown_of(recs)).len() == recs.len(),
    decreases recs.len(),
{
    if recs.len() > 0 {
        let r = recs.last();
        let rest = recs.drop_last();
        lemma_teardown_reverses_records(rest);
        let head = if r.1 {
            seq![ActionModel::Unmount(r.0), ActionModel::RemoveDir(r.0)]
        } else {
            seq![ActionModel::Unmount(r.0)]
        };
        lemma_unmounted_concat(head, teardown_of(rest));
        if r.1 {
            assert(head.drop_first() =~= seq![ActionModel::RemoveDir(r.0)]);
            assert(head.drop_first().drop_first() =~= Seq::<ActionModel>::empty());
            assert(unmounted(head.drop_first().drop_first()) =~= Seq::<Seq<char>>::empty());
            assert(unmounted(head.drop_first()) =~= Seq::<Seq<char>>::empty());
        } else {
            assert(head.drop_first() =~= Seq::<ActionModel>::empty());
            assert(unmounted(head.drop_first()) =~= Seq::<Seq<char>>::empty());
        }
        assert(unmounted(head) =~= seq![r.0]);
        assert(paths_of(recs).reverse() =~= seq![r.0] + paths_of(rest).reverse());
    } else {
        assert(paths_of(recs).reverse() =~= Seq::<Seq<char>>::empty());
    }
}

proof fn lemma_recorded_keeps(plan: Seq<StepModel>, n: int, i: int)
    requires
        0 <= i < n <= plan.len(),
        plan[i].records is Some,
    ensures
        recorded(plan, n).contains(plan[i].records.unwrap()),
    decreases n,
{
    if i == n - 1 {
        assert(recorded(plan, n).last() == plan[i].records.unwrap());
    } else {
        lemma_recorded_keeps(plan, n - 1, i);
        let k = choose|k: int|
            0 <= k < recorded(plan, n - 1).len() && #[trigger] recorded(plan, n - 1)[k]
                == plan[i].records.unwrap();
        match plan[n - 1].records {
            Some(r) => {
                assert(recorded(plan, n)[k] == plan[i].records.unwrap());
            },
            None => {},
        }
    }
}

/// When step `n` of construction fails, teardown still releases every mount
/// point that the steps before it established.
pub proof fn lemma_failed_step_releases_earlier_mounts(plan: Seq<StepModel>, n: int)
    requires
        0 <= n < plan.len(),
    ensures
        forall|i: int|
            0 <= i < n && (#[trigger] plan[i]).records is Some ==> unmounted(
                teardown_of(recorded(plan, n)),
            ).contains(plan[i].records.unwrap().0),
{
    assert forall|i: int|
        0 <= i < n && (#[trigger] plan[i]).records is Some implies unmounted(
            teardown_of(recorded(plan, n)),
        ).contains(plan[i].records.unwrap().0) by {
        let recs = recorded(plan, n);
        lemma_recorded_keeps(plan, n, i);
        lemma_teardown_reverses_records(recs);
        let k = choose|k: int| 0 <= k < recs.len() && #[trigger] recs[k] == plan[i].records.unwrap();
        assert(paths_of(recs)[k] == plan[i].records.unwrap().0);
        assert(paths_of(recs).reverse()[recs.len() - 1 - k] == plan[i].records.unwrap().0);
    }
}

/// The mount point that an action creates: the target of a `mount -t` or
/// `mount --bind`. Marking, remounting and everything else create none.
pub open spec fn new_mount_target(a: ActionModel) -> Option<Seq<char>> {
    match a {
        ActionModel::Mount(args) => if args.len() > 0 && (args[0] == "-t"@ || args[0] == "--bind"@) {
            Some(args.last())
        } else {
            None
        },
        _ => None,
    }
}

/// Each step that creates a mount point records it, and no other step records anything.
pub open spec fn records_every_mount(plan: Seq<StepModel>) -> bool {
    forall|i: int|
        0 <= i < plan.len() ==> match new_mount_target((#[trigger] plan[i]).action) {
            Some(p) => plan[i].records is Some && plan[i].records.unwrap().0 == p,
            None => plan[i].records is None,
        }
}

proof fn lemma_records_every_mount_concat(a: Seq<StepModel>, b: Seq<StepModel>)
    requires
        records_every_mount(a),
        records_every_mount(b),
    ensures
        records_every_mount(a + b),
{
    assert forall|i: int| 0 <= i < (a + b).len() implies match new_mount_target(
        (#[trigger] (a + b)[i]).action,
    ) {
        Some(p) => (a + b)[i].records is Some && (a + b)[i].records.unwrap().0 == p,
        None => (a + b)[i].records is None,
    } by {
        if i < a.len() {
            assert((a + b)[i] == a[i]);
        } else {
            assert((a + b)[i] == b[i - a.len()]);
        }
    }
}

proof fn reveal_mount_words()
    ensures
        "-t"@ != "--bind"@,
        "--make-rprivate"@ != "-t"@,
        "--make-rprivate"@ != "--bind"@,
        "--make-slave"@ != "-t"@,
        "--make-slave"@ != "--bind"@,
        "-o"@ != "-t"@,
        "-o"@ != "--bind"@,
{
    reveal_strlit("-t");
    reveal_strlit("--bind");
    reveal_strlit("--make-rprivate");
    reveal_strlit("--make-slave");
    reveal_strlit("-o");
    assert("-t"@[1] != "--bind"@[1]);
    assert("--make-rprivate"@.len() != "-t"@.len());
    assert("--make-rprivate"@[2] != "--bind"@[2]);
    assert("--make-slave"@.len() != "-t"@.len());
    assert("--make-slave"@[2] != "--bind"@[2]);
    assert("-o"@[1] != "-t"@[1]);
    assert("-o"@.len() != "--bind"@.len());
}

/// In every session plan, each mount point is recorded by the very step that
/// creates it: the overlay at the delta's `merged` directory and each kernel
/// file system. The private marking, `--make-slave` and the read-only
/// remount create none and record none.
pub proof fn lemma_session_plan_records_every_mount(image: Seq<char>, delta: Option<Seq<char>>)
    ensures
        records_every_mount(session_plan(image, delta)),
{
    reveal_mount_words();
    let first = seq![make_private_step()];
    assert(records_every_mount(first)) by {
        assert(first[0] == make_private_step());
    }
    let root = match delta {
        Some(d) => joined(d, "merged"@),
        None => image,
    };
    let k = kernel_steps(root);
    assert(records_every_mount(k)) by {
        assert forall|i: int| 0 <= i < k.len() implies match new_mount_target((#[trigger] k[i]).action) {
            Some(p) => k[i].records is Some && k[i].records.unwrap().0 == p,
            None => k[i].records is None,
        } by {
            assert(0 <= i < 10);
        }
    }
    match delta {
        Some(d) => {
            let o = overlay_steps(image, d);
            assert(records_every_mount(o)) by {
                assert forall|i: int| 0 <= i < o.len() implies match new_mount_target(
                    (#[trigger] o[i]).action,
                ) {
                    Some(p) => o[i].records is Some && o[i].records.unwrap().0 == p,
                    None => o[i].records is None,
                } by {
                    assert(0 <= i < 4);
                }
            }
            lemma_records_every_mount_concat(first, o);
            lemma_records_every_mount_concat(first + o, k);
        },
        None => {
            lemma_records_every_mount_concat(first, k);
        },
    }
}

} // verus!
