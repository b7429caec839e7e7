//! Resource profiles: how a session's niceness, memory ceiling and CPU
//! pinning are chosen, and how profiles are ranked for display.
use vstd::prelude::*;
use crate::text::{
    decimal_string, decimal_text, eq_ignore_case, equals_ignoring_case, has_prefix, parse_i32,
    parse_unsigned, signed_value, strip_prefix, unsigned_within,
};

verus! {

broadcast use vstd::string::group_string_axioms;

/// How many cores a profile pins the process to.
#[derive(Debug, Clone, Copy, PartialEq, Eq, Structural)]
pub struct CpuConfig {
    pub cores: usize,
}

/// A profile's memory policy.
#[derive(Debug, Clone, Copy, PartialEq, Eq, Structural)]
pub enum MemoryConfig {
    Unlimited,
    /// A share of the total physical memory, in percent.
    Percent { value: u8 },
    /// A fixed ceiling in megabytes.
    Fixed { mb: u64 },
}

/// A named bundle of resource limits.
#[derive(Debug, Clone)]
pub struct Profile {
    pub name: String,
    pub description: Option<String>,
    pub nice: i32,
    pub memory: MemoryConfig,
    pub cpu: Option<CpuConfig>,
}

/// Bytes in a megabyte.
pub const MIB: u64 = 1048576;

pub open spec fn memory_weight_of(m: MemoryConfig) -> int {
    match m {
        MemoryConfig::Unlimited => 0,
        MemoryConfig::Percent { value } => 100000int / (if value >= 1 { value as int } else { 1int }),
        MemoryConfig::Fixed { mb } => if 100000 - mb * 90 > 0 { 100000 - mb * 90 } else { 0int },
    }
}

pub open spec fn cpu_weight_of(c: Option<CpuConfig>) -> int {
    match c {
        None => 0,
        Some(cpu) => 1000 - cpu.cores * 100,
    }
}

/// A profile's rank: lower is more generous.
pub open spec fn score_of(p: Profile) -> int {
    memory_weight_of(p.memory) * 10 + cpu_weight_of(p.cpu) * 2 + p.nice
}

/// The memory ceiling in bytes that a policy asks for, given the total
/// physical memory in megabytes; `None` for no ceiling.
pub open spec fn memory_ceiling(m: MemoryConfig, total_mb: nat) -> Option<int> {
    match m {
        MemoryConfig::Unlimited => None,
        MemoryConfig::Percent { value } => Some((total_mb * value / 100) * MIB),
        MemoryConfig::Fixed { mb } => Some(mb * MIB),
    }
}

/// The ceiling as the operating system takes it: a value too large for
/// `u64` becomes the largest one, which means no limit.
pub open spec fn clamp_u64(x: int) -> u64 {
    if x > u64::MAX { u64::MAX } else { x as u64 }
}

/// The built-in profile used whenever no other can be resolved.
pub open spec fn is_backup(p: Profile) -> bool {
    &&& p.name@ == "backup"@
    &&& p.nice == 0
    &&& p.memory == MemoryConfig::Unlimited
    &&& p.cpu is None
}

/// The name that resolution looks for: the requested one when it is given
/// and not empty, else the current-profile pointer when it is set and not empty.
pub open spec fn wanted_name(requested: Option<Seq<char>>, current: Option<Seq<char>>) -> Option<
    Seq<char>,
> {
    match requested {
        Some(r) if r.len() > 0 => Some(r),
        _ => match current {
            Some(c) if c.len() > 0 => Some(c),
            _ => None,
        },
    }
}

pub open spec fn opt_view(o: Option<String>) -> Option<Seq<char>> {
    match o {
        Some(s) => Some(s@),
        None => None,
    }
}

/// Whether the stored profile at `i` is the first one named `name`.
pub open spec fn first_named(stored: Seq<Profile>, name: Seq<char>, i: int) -> bool {
    &&& 0 <= i < stored.len()
    &&& stored[i].name@ == name
    &&& forall|k: int| 0 <= k < i ==> (#[trigger] stored[k]).name@ != name
}

pub open spec fn is_named(stored: Seq<Profile>, name: Seq<char>) -> bool {
    exists|i: int| 0 <= i < stored.len() && (#[trigger] stored[i]).name@ == name
}

/// Order for display: by score, then by name.
pub open spec fn ranks_before(a: Profile, b: Profile) -> bool {
    score_of(a) < score_of(b) || (score_of(a) == score_of(b) && !text_less(b.name@, a.name@))
}

/// Lexicographic order of text by code point, as `String`'s order.
pub open spec fn text_less(a: Seq<char>, b: Seq<char>) -> bool
    decreases a.len(),
{
    if a.len() == 0 {
        b.len() > 0
    } else if b.len() == 0 {
        false
    } else if a[0] != b[0] {
        a[0] < b[0]
    } else {
        text_less(a.drop_first(), b.drop_first())
    }
}

fn copy_text(s: &Option<String>) -> (r: Option<String>)
    ensures
        r == *s,
{
    match s {
        Some(t) => Some(t.clone()),
        None => None,
    }
}

impl Profile {
    /// The built-in fallback profile: `backup`, nice 0, unlimited memory, no pinning.
    pub fn backup() -> (p: Profile)
        ensures
            is_backup(p),
            p.description is Some,
            p.description.unwrap()@ == "Temporary backup profile"@,
    {
        Profile {
            name: String::from_str("backup"),
            description: Some(String::from_str("Temporary backup profile")),
            nice: 0,
            memory: MemoryConfig::Unlimited,
            cpu: None,
        }
    }

    /// A copy that keeps every field.
    pub fn duplicate(&self) -> (r: Profile)
        ensures
            r == *self,
    {
        Profile {
            name: self.name.clone(),
            description: copy_text(&self.description),
            nice: self.nice,
            memory: self.memory,
            cpu: self.cpu,
        }
    }

    pub fn memory_weight(&self) -> (r: u64)
        ensures
            r == memory_weight_of(self.memory),
    {
        match self.memory {
            MemoryConfig::Unlimited => 0,
            MemoryConfig::Percent { value } => {
                let v: u64 = if value >= 1 { value as u64 } else { 1 };
                100000 / v
            },
            MemoryConfig::Fixed { mb } => {
                if mb > 1111 {
                    0
                } else {
                    100000 - mb * 90
                }
            },
        }
    }

    pub fn cpu_weight(&self) -> (r: i128)
        ensures
            r == cpu_weight_of(self.cpu),
    {
        match self.cpu {
            None => 0,
            Some(cpu) => 1000 - cpu.cores as i128 * 100,
        }
    }

    pub fn nice_weight(&self) -> (r: i64)
        ensures
            r == self.nice,
    {
        self.nice as i64
    }

    /// `memory_weight × 10 + cpu_weight × 2 + nice`.
    pub fn score(&self) -> (r: i128)
        ensures
            r == score_of(*self),
    {
        self.memory_weight() as i128 * 10 + self.cpu_weight() * 2 + self.nice_weight() as i128
    }

    /// How tight the memory policy is: 0 generous, 1 moderate, 2 tight.
    pub fn memory_severity(&self) -> (r: u8)
        ensures
            r == (match self.memory {
                MemoryConfig::Unlimited => 0u8,
                MemoryConfig::Percent { value } => if value >= 60 {
                    0u8
                } else if value >= 30 {
                    1u8
                } else {
                    2u8
                },
                MemoryConfig::Fixed { mb } => if mb >= 512 {
                    1u8
                } else {
                    2u8
                },
            }),
    {
        match self.memory {
            MemoryConfig::Unlimited => 0,
            MemoryConfig::Percent { value } => if value >= 60 {
                0
            } else if value >= 30 {
                1
            } else {
                2
            },
            MemoryConfig::Fixed { mb } => if mb >= 512 {
                1
            } else {
                2
            },
        }
    }

    /// `unlimited`, `<p>% RAM` or `<mb> MB`.
    pub fn memory_display(&self) -> (r: String)
        ensures
            r@ == (match self.memory {
                MemoryConfig::Unlimited => "unlimited"@,
                MemoryConfig::Percent { value } => decimal_text(value as nat) + "% RAM"@,
                MemoryConfig::Fixed { mb } => decimal_text(mb as nat) + " MB"@,
            }),
    {
        match self.memory {
            MemoryConfig::Unlimited => String::from_str("unlimited"),
            MemoryConfig::Percent { value } => {
                let mut s = decimal_string(value as u64);
                s.append("% RAM");
                s
            },
            MemoryConfig::Fixed { mb } => {
                let mut s = decimal_string(mb);
                s.append(" MB");
                s
            },
        }
    }

    /// `all` without pinning, else the number of cores.
    pub fn cpu_display(&self) -> (r: String)
        ensures
            r@ == (match self.cpu {
                None => "all"@,
                Some(c) => decimal_text(c.cores as nat),
            }),
    {
        match self.cpu {
            None => String::from_str("all"),
            Some(c) => decimal_string(c.cores as u64),
        }
    }

    /// The memory ceiling in bytes, given the total physical memory in
    /// megabytes; `None` when the policy sets none.
    pub fn memory_limit_bytes(&self, total_mb: u64) -> (r: Option<u64>)
        ensures
            r == (match memory_ceiling(self.memory, total_mb as nat) {
                Some(b) => Some(clamp_u64(b)),
                None => None::<u64>,
            }),
    {
        match self.memory {
            MemoryConfig::Unlimited => None,
            MemoryConfig::Percent { value } => {
                proof {
                    let t = total_mb as int;
                    let v = value as int;
                    assert(t * v <= 18446744073709551615 * 255) by (nonlinear_arith)
                        requires
                            0 <= t <= 18446744073709551615,
                            0 <= v <= 255,
                    ;
                    assert((t * v / 100) * 1048576 <= 18446744073709551615 * 255 * 1048576)
                        by (nonlinear_arith)
                        requires
                            0 <= t * v <= 18446744073709551615 * 255,
                    ;
                }
                let part: u128 = total_mb as u128 * value as u128 / 100;
                let bytes: u128 = part * MIB as u128;
                Some(if bytes > u64::MAX as u128 { u64::MAX } else { bytes as u64 })
            },
            MemoryConfig::Fixed { mb } => {
                assert(mb as int * 1048576 <= 18446744073709551615 * 1048576) by (nonlinear_arith)
                    requires
                        0 <= mb as int <= 18446744073709551615,
                ;
                let bytes: u128 = mb as u128 * MIB as u128;
                Some(if bytes > u64::MAX as u128 { u64::MAX } else { bytes as u64 })
            },
        }
    }

    /// The core indices to pin the process to: `0..N` for `N` cores, none
    /// without a bound.
    pub fn cores_to_pin(&self) -> (r: Vec<usize>)
        ensures
            r@ == (match self.cpu {
                None => Seq::<usize>::empty(),
                Some(c) => Seq::new(c.cores as nat, |i: int| i as usize),
            }),
    {
        let mut v: Vec<usize> = Vec::new();
        match self.cpu {
            None => v,
            Some(c) => {
                let mut i: usize = 0;
                while i < c.cores
                    invariant
                        i <= c.cores,
                        v@ == Seq::new(i as nat, |k: int| k as usize),
                    decreases c.cores - i,
                {
                    v.push(i);
                    i = i + 1;
                    assert(v@ =~= Seq::new(i as nat, |k: int| k as usize));
                }
                v
            },
        }
    }
}

/// Whether text `a` sorts before text `b`.
pub fn name_less(a: &str, b: &str) -> (r: bool)
    ensures
        r == text_less(a@, b@),
{
    let n = a.unicode_len();
    let m = b.unicode_len();
    let mut i: usize = 0;
    assert(a@.subrange(0, n as int) =~= a@);
    assert(b@.subrange(0, m as int) =~= b@);
    while i < n && i < m
        invariant
            n == a@.len(),
            m == b@.len(),
            i <= n,
            i <= m,
            text_less(a@, b@) == text_less(
                a@.subrange(i as int, n as int),
                b@.subrange(i as int, m as int),
            ),
        decreases n - i,
    {
        let x = a.get_char(i);
        let y = b.get_char(i);
        let ghost sa = a@.subrange(i as int, n as int);
        let ghost sb = b@.subrange(i as int, m as int);
        assert(sa[0] == x && sb[0] == y);
        if x != y {
            return x < y;
        }
        assert(sa.drop_first() =~= a@.subrange(i + 1, n as int));
        assert(sb.drop_first() =~= b@.subrange(i + 1, m as int));
        i = i + 1;
    }
    i < m
}

proof fn lemma_text_less_asymmetric(a: Seq<char>, b: Seq<char>)
    ensures
        text_less(a, b) ==> !text_less(b, a),
    decreases a.len(),
{
    if a.len() > 0 && b.len() > 0 && a[0] == b[0] {
        lemma_text_less_asymmetric(a.drop_first(), b.drop_first());
    }
}

/// Whether `p` goes strictly before `q` in the display order.
pub open spec fn goes_before(p: Profile, q: Profile) -> bool {
    score_of(p) < score_of(q) || (score_of(p) == score_of(q) && text_less(p.name@, q.name@))
}

/// Every profile ranks no later than the one after it.
pub open spec fn is_ranked(s: Seq<Profile>) -> bool {
    forall|i: int| 0 <= i < s.len() - 1 ==> ranks_before(#[trigger] s[i], s[i + 1])
}

/// The profiles in display order: by score, lowest first, then by name.
pub fn rank_profiles(profiles: &Vec<Profile>) -> (r: Vec<Profile>)
    ensures
        r@.to_multiset() == profiles@.to_multiset(),
        is_ranked(r@),
{
    broadcast use vstd::seq_lib::group_to_multiset_ensures;

    let mut r: Vec<Profile> = Vec::new();
    let mut i: usize = 0;
    assert(profiles@.subrange(0, 0) =~= Seq::<Profile>::empty());
    while i < profiles.len()
        invariant
            i <= profiles@.len(),
            r@.to_multiset() == profiles@.subrange(0, i as int).to_multiset(),
            is_ranked(r@),
        decreases profiles@.len() - i,
    {
        let p = profiles[i].duplicate();
        let sp = p.score();
        let mut k: usize = 0;
        let mut found = false;
        while !found && k < r.len()
            invariant
                k <= r@.len(),
                sp == score_of(p),
                forall|j: int| 0 <= j < k ==> !goes_before(p, #[trigger] r@[j]),
                found ==> k < r@.len() && goes_before(p, r@[k as int]),
            decreases r@.len() - k + (if found { 0int } else { 1int }),
        {
            let sq = r[k].score();
            if sp < sq || (sp == sq && name_less(p.name.as_str(), r[k].name.as_str())) {
                found = true;
            } else {
                k = k + 1;
            }
        }
        proof {
            if k < r@.len() {
                lemma_text_less_asymmetric(p.name@, r@[k as int].name@);
            }
        }
        let ghost old_r = r@;
        r.insert(k, p);
        proof {
            assert(profiles@.subrange(0, i + 1) =~= profiles@.subrange(0, i as int).push(profiles@[i as int]));
            vstd::seq_lib::to_multiset_build(profiles@.subrange(0, i as int), profiles@[i as int]);
            vstd::seq_lib::to_multiset_insert(old_r, k as int, p);
            assert(r@ == old_r.insert(k as int, p));
            assert forall|j: int| 0 <= j < r@.len() - 1 implies ranks_before(#[trigger] r@[j], r@[j + 1]) by {
                if j + 1 < k {
                    assert(r@[j] == old_r[j] && r@[j + 1] == old_r[j + 1]);
                } else if j + 1 == k {
                    assert(!goes_before(p, old_r[j]));
                } else if j == k {
                } else {
                    assert(r@[j] == old_r[j - 1] && r@[j + 1] == old_r[j]);
                }
            }
        }
        i = i + 1;
    }
    assert(profiles@.subrange(0, i as int) =~= profiles@);
    r
}

/// Reads a memory policy: `unlimited` in any ASCII case, `percent:<n>`
/// (100 when `<n>` is no number of 0 to 255), `fixed:<mb>` (0 when `<mb>`
/// is no number); anything else is `unlimited`.
pub fn parse_memory(s: &str) -> (r: MemoryConfig)
    ensures
        r == memory_policy_of(s@),
{
    proof {
        reveal_strlit("unlimited");
        reveal_strlit("percent:");
        reveal_strlit("fixed:");
    }
    if eq_ignore_case(s, "unlimited") {
        MemoryConfig::Unlimited
    } else {
        match strip_prefix(s, "percent:") {
            Some(rest) => {
                let value = match parse_unsigned(rest.as_str(), 255) {
                    Some(v) => v as u8,
                    None => 100,
                };
                MemoryConfig::Percent { value }
            },
            None => match strip_prefix(s, "fixed:") {
                Some(rest) => {
                    let mb = match parse_unsigned(rest.as_str(), u64::MAX) {
                        Some(v) => v,
                        None => 0,
                    };
                    MemoryConfig::Fixed { mb }
                },
                None => MemoryConfig::Unlimited,
            },
        }
    }
}

pub open spec fn memory_policy_of(s: Seq<char>) -> MemoryConfig {
    if equals_ignoring_case(s, "unlimited"@) {
        MemoryConfig::Unlimited
    } else if has_prefix(s, "percent:"@) {
        MemoryConfig::Percent {
            value: match unsigned_within(s.subrange(8, s.len() as int), 255) {
                Some(v) => v as u8,
                None => 100,
            },
        }
    } else if has_prefix(s, "fixed:"@) {
        MemoryConfig::Fixed {
            mb: match unsigned_within(s.subrange(6, s.len() as int), u64::MAX as nat) {
                Some(v) => v as u64,
                None => 0,
            },
        }
    } else {
        MemoryConfig::Unlimited
    }
}

/// Finds the first stored profile named `name`.
pub fn find_profile(stored: &Vec<Profile>, name: &str) -> (r: Option<usize>)
    ensures
        match r {
            Some(i) => first_named(stored@, name@, i as int),
            None => !is_named(stored@, name@),
        },
{
    let mut i: usize = 0;
    while i < stored.len()
        invariant
            i <= stored@.len(),
            forall|k: int| 0 <= k < i ==> (#[trigger] stored@[k]).name@ != name@,
        decreases stored@.len() - i,
    {
        if stored[i].name.as_str().unicode_len() == name.unicode_len() && text_equal(
            stored[i].name.as_str(),
            name,
        ) {
            return Some(i);
        }
        i = i + 1;
    }
    None
}

fn text_equal(a: &str, b: &str) -> (r: bool)
    ensures
        r == (a@ == b@),
{
    let n = a.unicode_len();
    if n != b.unicode_len() {
        return false;
    }
    let mut i: usize = 0;
    while i < n
        invariant
            n == a@.len(),
            n == b@.len(),
            i <= n,
            forall|k: int| 0 <= k < i ==> a@[k] == b@[k],
        decreases n - i,
    {
        if a.get_char(i) != b.get_char(i) {
            return false;
        }
        i = i + 1;
    }
    assert(a@ =~= b@);
    true
}

/// The profile a session runs under. The requested name wins when given and
/// not empty, then the current-profile pointer when set and not empty; the
/// first stored profile of that name is taken, and the built-in `backup`
/// profile when there is no name or no profile of it.
pub fn resolve_profile(
    requested: &Option<String>,
    current: &Option<String>,
    stored: &Vec<Profile>,
) -> (p: Profile)
    ensures
        match wanted_name(opt_view(*requested), opt_view(*current)) {
            Some(n) => if is_named(stored@, n) {
                exists|i: int| first_named(stored@, n, i) && p == stored@[i]
            } else {
                is_backup(p)
            },
            None => is_backup(p),
        },
{
    let name: Option<&String> = match requested {
        Some(r) if r.as_str().unicode_len() > 0 => Some(r),
        _ => match current {
            Some(c) if c.as_str().unicode_len() > 0 => Some(c),
            _ => None,
        },
    };
    match name {
        Some(n) => match find_profile(stored, n.as_str()) {
            Some(i) => stored[i].duplicate(),
            None => Profile::backup(),
        },
        None => Profile::backup(),
    }
}

/// A profile over plain values.
pub struct ProfileView {
    pub name: Seq<char>,
    pub description: Option<Seq<char>>,
    pub nice: i32,
    pub memory: MemoryConfig,
    pub cpu: Option<CpuConfig>,
}

impl Profile {
    pub open spec fn view(&self) -> ProfileView {
        ProfileView {
            name: self.name@,
            description: opt_view(self.description),
            nice: self.nice,
            memory: self.memory,
            cpu: self.cpu,
        }
    }

    /// A new profile named `name`: nice 0, unlimited memory, no pinning, no description.
    pub fn named(name: &str) -> (p: Profile)
        ensures
            p.view() == (ProfileView {
                name: name@,
                description: None,
                nice: 0,
                memory: MemoryConfig::Unlimited,
                cpu: None,
            }),
    {
        Profile {
            name: String::from_str(name),
            description: None,
            nice: 0,
            memory: MemoryConfig::Unlimited,
            cpu: None,
        }
    }
}

/// One `--flag=value` argument applied to a profile: `--description=`,
/// `--nice=` (kept when not a number), `--memory=` (see `parse_memory`),
/// `--cpu-cores=` (else the current count, else 0). Others change nothing.
pub open spec fn apply_flag_of(p: ProfileView, arg: Seq<char>) -> ProfileView {
    if has_prefix(arg, "--description="@) {
        ProfileView { description: Some(arg.subrange(14, arg.len() as int)), ..p }
    } else if has_prefix(arg, "--nice="@) {
        let v = arg.subrange(7, arg.len() as int);
        ProfileView {
            nice: match signed_value(v) {
                Some(n) => if i32::MIN <= n <= i32::MAX {
                    n as i32
                } else {
                    p.nice
                },
                None => p.nice,
            },
            ..p
        }
    } else if has_prefix(arg, "--memory="@) {
        ProfileView { memory: memory_policy_of(arg.subrange(9, arg.len() as int)), ..p }
    } else if has_prefix(arg, "--cpu-cores="@) {
        let v = arg.subrange(12, arg.len() as int);
        ProfileView {
            cpu: Some(
                CpuConfig {
                    cores: match unsigned_within(v, usize::MAX as nat) {
                        Some(n) => n as usize,
                        None => match p.cpu {
                            Some(c) => c.cores,
                            None => 0,
                        },
                    },
                },
            ),
            ..p
        }
    } else {
        p
    }
}

/// The arguments applied in order.
pub open spec fn apply_flags_of(p: ProfileView, args: Seq<Seq<char>>) -> ProfileView
    decreases args.len(),
{
    if args.len() == 0 {
        p
    } else {
        apply_flag_of(apply_flags_of(p, args.drop_last()), args.last())
    }
}

pub open spec fn arg_views(v: Seq<String>) -> Seq<Seq<char>> {
    v.map_values(|s: String| s@)
}

fn apply_flag(p: &mut Profile, arg: &str)
    ensures
        final(p).view() == apply_flag_of(old(p).view(), arg@),
{
    proof {
        reveal_strlit("--description=");
        reveal_strlit("--nice=");
        reveal_strlit("--memory=");
        reveal_strlit("--cpu-cores=");
    }
    if let Some(v) = strip_prefix(arg, "--description=") {
        p.description = Some(v);
    } else if let Some(v) = strip_prefix(arg, "--nice=") {
        if let Some(n) = parse_i32(v.as_str()) {
            p.nice = n;
        }
    } else if let Some(v) = strip_prefix(arg, "--memory=") {
        p.memory = parse_memory(v.as_str());
    } else if let Some(v) = strip_prefix(arg, "--cpu-cores=") {
        let cores = match parse_unsigned(v.as_str(), usize::MAX as u64) {
            Some(n) => n as usize,
            None => match p.cpu {
                Some(c) => c.cores,
                None => 0,
            },
        };
        p.cpu = Some(CpuConfig { cores });
    }
}

/// Applies `--flag=value` arguments to a profile, in order, as `profile
/// create` and `profile edit` do.
pub fn apply_profile_flags(profile: Profile, args: &Vec<String>) -> (r: Profile)
    ensures
        r.view() == apply_flags_of(profile.view(), arg_views(args@)),
{
    let mut p = profile;
    let mut i: usize = 0;
    while i < args.len()
        invariant
            i <= args@.len(),
            p.view() == apply_flags_of(profile.view(), arg_views(args@.subrange(0, i as int))),
        decreases args@.len() - i,
    {
        let ghost next = arg_views(args@.subrange(0, i + 1));
        assert(next.drop_last() =~= arg_views(args@.subrange(0, i as int)));
        assert(next.last() == args@[i as int]@);
        apply_flag(&mut p, args[i].as_str());
        i = i + 1;
    }
    assert(args@.subrange(0, i as int) =~= args@);
    p
}

/// What a session applies to its process: the resolved profile, the cores
/// to pin to (none: leave unpinned), the niceness, and the memory ceiling in
/// bytes (none: no ceiling).
#[derive(Debug)]
pub struct Limits {
    pub profile: Profile,
    pub pin: Vec<usize>,
    pub nice: i32,
    pub memory_bytes: Option<u64>,
}

/// Resolves the session's profile (see `resolve_profile`) and what it asks
/// of the process, given the total physical memory in megabytes.
pub fn limit_box(
    requested: &Option<String>,
    current: &Option<String>,
    stored: &Vec<Profile>,
    total_mb: u64,
) -> (r: Limits)
    ensures
        match wanted_name(opt_view(*requested), opt_view(*current)) {
            Some(n) => if is_named(stored@, n) {
                exists|i: int| first_named(stored@, n, i) && r.profile == stored@[i]
            } else {
                is_backup(r.profile)
            },
            None => is_backup(r.profile),
        },
        r.pin@ == (match r.profile.cpu {
            None => Seq::<usize>::empty(),
            Some(c) => Seq::new(c.cores as nat, |i: int| i as usize),
        }),
        r.nice == r.profile.nice,
        r.memory_bytes == (match memory_ceiling(r.profile.memory, total_mb as nat) {
            Some(b) => Some(clamp_u64(b)),
            None => None::<u64>,
        }),
{
    let profile = resolve_profile(requested, current, stored);
    let pin = profile.cores_to_pin();
    let nice = profile.nice;
    let memory_bytes = profile.memory_limit_bytes(total_mb);
    Limits { profile, pin, nice, memory_bytes }
}

} // verus!
