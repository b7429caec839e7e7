use onyx::profile::{
    apply_profile_flags, find_profile, parse_memory, rank_profiles, resolve_profile, CpuConfig,
    MemoryConfig, Profile,
};

fn prof(name: &str, nice: i32, memory: MemoryConfig, cores: Option<usize>) -> Profile {
    Profile {
        name: name.to_string(),
        description: None,
        nice,
        memory,
        cpu: cores.map(|c| CpuConfig { cores: c }),
    }
}

#[test]
fn resolution_defaults_to_backup() {
    let p = resolve_profile(&None, &None, &Vec::new());
    assert_eq!(p.name, "backup");
    assert_eq!(p.nice, 0);
    assert_eq!(p.memory, MemoryConfig::Unlimited);
    assert!(p.cpu.is_none());
}

#[test]
fn resolution_prefers_requested_then_current() {
    let stored = vec![
        prof("fast", 0, MemoryConfig::Unlimited, None),
        prof("slow", 10, MemoryConfig::Fixed { mb: 256 }, Some(1)),
    ];
    let p = resolve_profile(&Some("slow".to_string()), &Some("fast".to_string()), &stored);
    assert_eq!(p.name, "slow");
    assert_eq!(p.nice, 10);
    let p = resolve_profile(&None, &Some("fast".to_string()), &stored);
    assert_eq!(p.name, "fast");
    let p = resolve_profile(&Some(String::new()), &Some("slow".to_string()), &stored);
    assert_eq!(p.name, "slow");
    let p = resolve_profile(&Some("missing".to_string()), &Some("fast".to_string()), &stored);
    assert_eq!(p.name, "backup");
    let p = resolve_profile(&None, &Some(String::new()), &stored);
    assert_eq!(p.name, "backup");
}

#[test]
fn find_profile_takes_first_match() {
    let stored = vec![
        prof("a", 1, MemoryConfig::Unlimited, None),
        prof("b", 2, MemoryConfig::Unlimited, None),
        prof("b", 3, MemoryConfig::Unlimited, None),
    ];
    assert_eq!(find_profile(&stored, "b"), Some(1));
    assert_eq!(find_profile(&stored, "c"), None);
}

#[test]
fn generous_profile_scores_zero() {
    let p = prof("open", 0, MemoryConfig::Unlimited, None);
    assert_eq!(p.score(), 0);
}

#[test]
fn tight_profile_scores_higher() {
    let tight = prof("tight", 0, MemoryConfig::Fixed { mb: 12 }, Some(1));
    let roomy = prof("roomy", 0, MemoryConfig::Fixed { mb: 1024 }, None);
    assert_eq!(tight.score(), 991000);
    assert_eq!(roomy.score(), 78400);
    assert!(tight.score() > roomy.score());
}

#[test]
fn weights() {
    assert_eq!(prof("p", 0, MemoryConfig::Percent { value: 50 }, None).memory_weight(), 2000);
    assert_eq!(prof("p", 0, MemoryConfig::Percent { value: 0 }, None).memory_weight(), 100000);
    assert_eq!(prof("p", 0, MemoryConfig::Fixed { mb: 2000 }, None).memory_weight(), 0);
    assert_eq!(prof("p", 0, MemoryConfig::Unlimited, Some(4)).cpu_weight(), 600);
    assert_eq!(prof("p", 0, MemoryConfig::Unlimited, Some(16)).cpu_weight(), -600);
    assert_eq!(prof("p", -5, MemoryConfig::Unlimited, None).nice_weight(), -5);
    assert_eq!(prof("p", -5, MemoryConfig::Unlimited, None).score(), -5);
}

#[test]
fn severity_and_display() {
    let p = prof("p", 0, MemoryConfig::Percent { value: 45 }, Some(2));
    assert_eq!(p.memory_severity(), 1);
    assert_eq!(p.memory_display(), "45% RAM");
    assert_eq!(p.cpu_display(), "2");
    let q = prof("q", 0, MemoryConfig::Fixed { mb: 300 }, None);
    assert_eq!(q.memory_severity(), 2);
    assert_eq!(q.memory_display(), "300 MB");
    assert_eq!(q.cpu_display(), "all");
    let u = prof("u", 0, MemoryConfig::Unlimited, None);
    assert_eq!(u.memory_severity(), 0);
    assert_eq!(u.memory_display(), "unlimited");
}

#[test]
fn memory_limits_in_bytes() {
    let f = prof("f", 0, MemoryConfig::Fixed { mb: 512 }, None);
    assert_eq!(f.memory_limit_bytes(8000), Some(512 * 1024 * 1024));
    let p = prof("p", 0, MemoryConfig::Percent { value: 50 }, None);
    assert_eq!(p.memory_limit_bytes(8000), Some(4000 * 1024 * 1024));
    let u = prof("u", 0, MemoryConfig::Unlimited, None);
    assert_eq!(u.memory_limit_bytes(8000), None);
    let huge = prof("h", 0, MemoryConfig::Fixed { mb: u64::MAX }, None);
    assert_eq!(huge.memory_limit_bytes(1), Some(u64::MAX));
}

#[test]
fn pinning_uses_first_cores() {
    assert_eq!(prof("p", 0, MemoryConfig::Unlimited, Some(3)).cores_to_pin(), vec![0, 1, 2]);
    assert!(prof("p", 0, MemoryConfig::Unlimited, None).cores_to_pin().is_empty());
}

#[test]
fn memory_policies_parse() {
    assert_eq!(parse_memory("UnLimited"), MemoryConfig::Unlimited);
    assert_eq!(parse_memory("percent:40"), MemoryConfig::Percent { value: 40 });
    assert_eq!(parse_memory("percent:abc"), MemoryConfig::Percent { value: 100 });
    assert_eq!(parse_memory("percent:300"), MemoryConfig::Percent { value: 100 });
    assert_eq!(parse_memory("fixed:2048"), MemoryConfig::Fixed { mb: 2048 });
    assert_eq!(parse_memory("fixed:"), MemoryConfig::Fixed { mb: 0 });
    assert_eq!(parse_memory("lots"), MemoryConfig::Unlimited);
}

#[test]
fn ranking_orders_by_score_then_name() {
    let v = vec![
        prof("zeta", 0, MemoryConfig::Unlimited, None),
        prof("tight", 0, MemoryConfig::Fixed { mb: 12 }, Some(1)),
        prof("alpha", 0, MemoryConfig::Unlimited, None),
        prof("mid", 0, MemoryConfig::Fixed { mb: 1024 }, None),
    ];
    let r = rank_profiles(&v);
    let names: Vec<&str> = r.iter().map(|p| p.name.as_str()).collect();
    assert_eq!(names, vec!["alpha", "zeta", "mid", "tight"]);
}

#[test]
fn flags_edit_a_profile() {
    let p = Profile::named("work");
    let args = vec![
        "--description=daily".to_string(),
        "--nice=7".to_string(),
        "--memory=fixed:900".to_string(),
        "--cpu-cores=2".to_string(),
        "--nice=oops".to_string(),
        "--cpu-cores=x".to_string(),
        "--other=1".to_string(),
    ];
    let r = apply_profile_flags(p, &args);
    assert_eq!(r.name, "work");
    assert_eq!(r.description.as_deref(), Some("daily"));
    assert_eq!(r.nice, 7);
    assert_eq!(r.memory, MemoryConfig::Fixed { mb: 900 });
    assert_eq!(r.cpu, Some(CpuConfig { cores: 2 }));
    let r = apply_profile_flags(Profile::named("n"), &vec!["--nice=-3".to_string(), "--cpu-cores=q".to_string()]);
    assert_eq!(r.nice, -3);
    assert_eq!(r.cpu, Some(CpuConfig { cores: 0 }));
}

#[test]
fn backup_profile() {
    let b = Profile::backup();
    assert_eq!(b.name, "backup");
    assert_eq!(b.description.as_deref(), Some("Temporary backup profile"));
    let d = b.duplicate();
    assert_eq!(d.name, b.name);
}

#[test]
fn limits_follow_the_resolved_profile() {
    let stored = vec![prof("lean", 5, MemoryConfig::Percent { value: 25 }, Some(2))];
    let l = onyx::profile::limit_box(&Some("lean".to_string()), &None, &stored, 4000);
    assert_eq!(l.profile.name, "lean");
    assert_eq!(l.pin, vec![0, 1]);
    assert_eq!(l.nice, 5);
    assert_eq!(l.memory_bytes, Some(1000 * 1024 * 1024));
    let l = onyx::profile::limit_box(&None, &None, &stored, 4000);
    assert_eq!(l.profile.name, "backup");
    assert!(l.pin.is_empty());
    assert_eq!(l.nice, 0);
    assert_eq!(l.memory_bytes, None);
}
