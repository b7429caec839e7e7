//! Readings of the host that sessions and diagnostics rely on: memory
//! totals, kernel versions, core classes.
use vstd::prelude::*;
use crate::text::{is_space, char_is_space, parse_unsigned, unsigned_within, has_prefix, starts_with};

verus! {

broadcast use vstd::string::group_string_axioms;

/// Frequency, in kHz, from which a core counts as a performance core.
pub const BIG_CORE_KHZ: u64 = 1_900_000;

/// Whether a core whose top frequency is `max_khz` counts as a performance core.
pub fn is_big_core(max_khz: u64) -> (r: bool)
    ensures
        r == (max_khz >= BIG_CORE_KHZ),
{
    max_khz >= BIG_CORE_KHZ
}

/// The first index from `i` on that is not white space.
pub open spec fn skip_space(s: Seq<char>, i: int) -> int
    decreases s.len() - i,
{
    if i < 0 || i >= s.len() {
        if i < 0 { 0 } else { s.len() as int }
    } else if is_space(s[i]) {
        skip_space(s, i + 1)
    } else {
        i
    }
}

/// The first index from `i` on that is white space.
pub open spec fn skip_word(s: Seq<char>, i: int) -> int
    decreases s.len() - i,
{
    if i < 0 || i >= s.len() {
        if i < 0 { 0 } else { s.len() as int }
    } else if !is_space(s[i]) {
        skip_word(s, i + 1)
    } else {
        i
    }
}

/// The second white-space separated word of `s`, if there is one.
pub open spec fn second_word(s: Seq<char>) -> Option<Seq<char>> {
    let a = skip_word(s, skip_space(s, 0));
    let b = skip_space(s, a);
    if b < s.len() {
        Some(s.subrange(b, skip_word(s, b)))
    } else {
        None
    }
}

fn skip(s: &str, n: usize, from: usize, spaces: bool) -> (r: usize)
    requires
        n == s@.len(),
        from <= n,
    ensures
        spaces ==> r == skip_space(s@, from as int),
        !spaces ==> r == skip_word(s@, from as int),
        from <= r <= n,
{
    let mut i = from;
    while i < n
        invariant
            n == s@.len(),
            from <= i <= n,
            spaces ==> skip_space(s@, from as int) == skip_space(s@, i as int),
            !spaces ==> skip_word(s@, from as int) == skip_word(s@, i as int),
        decreases n - i,
    {
        if char_is_space(s.get_char(i)) != spaces {
            return i;
        }
        i = i + 1;
    }
    i
}

/// The number in a line of `/proc/meminfo` (`MemTotal:   16318712 kB`): its
/// second word read as a number, 0 when there is none.
pub fn parse_mem_line(line: &str) -> (r: u64)
    ensures
        r == (match second_word(line@) {
            Some(w) => match unsigned_within(w, u64::MAX as nat) {
                Some(v) => v as u64,
                None => 0,
            },
            None => 0,
        }),
{
    let n = line.unicode_len();
    let a0 = skip(line, n, 0, true);
    let a = skip(line, n, a0, false);
    let b = skip(line, n, a, true);
    if b < n {
        let e = skip(line, n, b, false);
        let w = line.substring_char(b, e);
        match parse_unsigned(w, u64::MAX) {
            Some(v) => v,
            None => 0,
        }
    } else {
        0
    }
}

/// The parts of `s` between dots; at least one, possibly empty.
pub open spec fn dot_parts(s: Seq<char>) -> Seq<Seq<char>>
    decreases s.len(),
{
    if s.len() == 0 {
        seq![Seq::empty()]
    } else if s.last() == '.' {
        dot_parts(s.drop_last()).push(Seq::empty())
    } else {
        let p = dot_parts(s.drop_last());
        p.update(p.len() - 1, p.last().push(s.last()))
    }
}

/// A version's numbers: each part between dots as a `u32`, 0 where it is none.
pub open spec fn version_numbers(s: Seq<char>) -> Seq<nat> {
    dot_parts(s).map_values(|p: Seq<char>| part_number(p))
}

pub open spec fn part_number(p: Seq<char>) -> nat {
    match unsigned_within(p, u32::MAX as nat) {
        Some(v) => v,
        None => 0,
    }
}

/// `a` comes after `b` in lexicographic order.
pub open spec fn seq_greater(a: Seq<nat>, b: Seq<nat>) -> bool
    decreases a.len(),
{
    if a.len() == 0 {
        false
    } else if b.len() == 0 {
        true
    } else if a[0] != b[0] {
        a[0] > b[0]
    } else {
        seq_greater(a.drop_first(), b.drop_first())
    }
}

proof fn lemma_dot_parts_nonempty(s: Seq<char>)
    ensures
        dot_parts(s).len() >= 1,
    decreases s.len(),
{
    if s.len() > 0 {
        lemma_dot_parts_nonempty(s.drop_last());
    }
}

/// The last part of `dot_parts(s)` is what follows the last dot.
proof fn lemma_last_part(s: Seq<char>, start: int)
    requires
        0 <= start <= s.len(),
        start == 0 || s[start - 1] == '.',
        forall|k: int| start <= k < s.len() ==> s[k] != '.',
    ensures
        dot_parts(s).len() >= 1,
        dot_parts(s).last() == s.subrange(start, s.len() as int),
    decreases s.len(),
{
    lemma_dot_parts_nonempty(s);
    if s.len() > 0 {
        if s.len() as int == start {
            assert(s.last() == '.');
        } else {
            lemma_last_part(s.drop_last(), start);
            assert(s.subrange(start, s.len() as int) =~= s.drop_last().subrange(
                start,
                s.len() - 1,
            ).push(s.last()));
        }
    }
}

/// The numbers of a version string.
pub fn version_parts(s: &str) -> (r: Vec<u32>)
    ensures
        r@.map_values(|v: u32| v as nat) == version_numbers(s@),
{
    let n = s.unicode_len();
    let mut out: Vec<u32> = Vec::new();
    let mut start: usize = 0;
    let mut i: usize = 0;
    while i < n
        invariant
            n == s@.len(),
            start <= i <= n,
            start == 0 || s@[start - 1] == '.',
            forall|k: int| start <= k < i ==> s@[k] != '.',
            out@.map_values(|v: u32| v as nat) == version_numbers(s@.subrange(0, i as int)).drop_last(),
        decreases n - i,
    {
        let ghost pre = s@.subrange(0, i as int);
        let ghost next = s@.subrange(0, i + 1);
        assert(next.drop_last() =~= pre);
        proof {
            lemma_dot_parts_nonempty(pre);
            lemma_last_part(pre, start as int);
        }
        let c = s.get_char(i);
        if c == '.' {
            let part = s.substring_char(start, i);
            let v: u32 = match parse_unsigned(part, 4294967295) {
                Some(v) => v as u32,
                None => 0,
            };
            let ghost before = out@;
            out.push(v);
            proof {
                assert(part@ == pre.subrange(start as int, i as int));
                assert(dot_parts(next) == dot_parts(pre).push(Seq::empty()));
                let vp = version_numbers(pre);
                assert(vp.len() >= 1);
                assert(vp.last() == part_number(part@));
                assert(v as nat == part_number(part@));
                assert(version_numbers(next) =~= vp.push(part_number(Seq::empty())));
                assert(version_numbers(next).drop_last() =~= vp);
                assert(vp =~= vp.drop_last().push(vp.last()));
                assert(out@.map_values(|v: u32| v as nat) =~= version_numbers(next).drop_last());
            }
            start = i + 1;
        } else {
            proof {
                let p = dot_parts(pre);
                assert(dot_parts(next) == p.update(p.len() - 1, p.last().push(c)));
                assert(version_numbers(next).drop_last() =~= version_numbers(pre).drop_last());
            }
        }
        i = i + 1;
    }
    assert(s@.subrange(0, n as int) =~= s@);
    proof {
        lemma_last_part(s@, start as int);
    }
    let last = s.substring_char(start, n);
    let v: u32 = match parse_unsigned(last, 4294967295) {
        Some(v) => v as u32,
        None => 0,
    };
    let ghost before = out@;
    out.push(v);
    proof {
        lemma_dot_parts_nonempty(s@);
        let vn = version_numbers(s@);
        assert(vn =~= vn.drop_last().push(vn.last()));
        assert(out@.map_values(|v: u32| v as nat) =~= vn);
    }
    out
}

/// Whether version `current` is above `target`: their dot-separated numbers
/// compared in lexicographic order (`6.8.0` is above `4.14`).
pub fn is_version_higher(current: &str, target: &str) -> (r: bool)
    ensures
        r == seq_greater(version_numbers(current@), version_numbers(target@)),
{
    let a = version_parts(current);
    let b = version_parts(target);
    let ghost sa = a@.map_values(|v: u32| v as nat);
    let ghost sb = b@.map_values(|v: u32| v as nat);
    let mut i: usize = 0;
    assert(sa.subrange(0, sa.len() as int) =~= sa);
    assert(sb.subrange(0, sb.len() as int) =~= sb);
    while i < a.len() && i < b.len()
        invariant
            i <= a@.len(),
            i <= b@.len(),
            sa == a@.map_values(|v: u32| v as nat),
            sb == b@.map_values(|v: u32| v as nat),
            sa == version_numbers(current@),
            sb == version_numbers(target@),
            seq_greater(sa, sb) == seq_greater(
                sa.subrange(i as int, sa.len() as int),
                sb.subrange(i as int, sb.len() as int),
            ),
        decreases a@.len() - i,
    {
        let ghost ta = sa.subrange(i as int, sa.len() as int);
        let ghost tb = sb.subrange(i as int, sb.len() as int);
        assert(ta.len() > 0 && tb.len() > 0);
        assert(ta[0] == a@[i as int] as nat);
        assert(tb[0] == b@[i as int] as nat);
        if a[i] != b[i] {
            return a[i] > b[i];
        }
        assert(ta.drop_first() =~= sa.subrange(i + 1, sa.len() as int));
        assert(tb.drop_first() =~= sb.subrange(i + 1, sb.len() as int));
        i = i + 1;
    }
    i < a.len()
}

/// The memory figures of `/proc/meminfo`, in kB: the last `MemTotal:` and
/// `MemAvailable:` lines' numbers, 0 for one that is missing.
pub fn meminfo_totals(lines: &Vec<String>) -> (r: (u64, u64))
    ensures
        r.0 == last_figure(lines@.map_values(|l: String| l@), "MemTotal:"@),
        r.1 == last_figure(lines@.map_values(|l: String| l@), "MemAvailable:"@),
{
    let mut total: u64 = 0;
    let mut available: u64 = 0;
    let mut i: usize = 0;
    let ghost ls = lines@.map_values(|l: String| l@);
    while i < lines.len()
        invariant
            i <= lines@.len(),
            ls == lines@.map_values(|l: String| l@),
            total == last_figure(ls.subrange(0, i as int), "MemTotal:"@),
            available == last_figure(ls.subrange(0, i as int), "MemAvailable:"@),
        decreases lines@.len() - i,
    {
        let ghost next = ls.subrange(0, i + 1);
        assert(next.drop_last() =~= ls.subrange(0, i as int));
        assert(next.last() == lines@[i as int]@);
        let line = lines[i].as_str();
        if starts_with(line, "MemTotal:") {
            total = parse_mem_line(line);
            proof {
                lemma_prefixes_differ(line@);
            }
        } else if starts_with(line, "MemAvailable:") {
            available = parse_mem_line(line);
        }
        i = i + 1;
    }
    assert(ls.subrange(0, i as int) =~= ls);
    (total, available)
}

proof fn lemma_prefixes_differ(s: Seq<char>)
    ensures
        has_prefix(s, "MemTotal:"@) ==> !has_prefix(s, "MemAvailable:"@),
{
    reveal_strlit("MemTotal:");
    reveal_strlit("MemAvailable:");
    if has_prefix(s, "MemTotal:"@) && has_prefix(s, "MemAvailable:"@) {
        assert(s[3] == "MemTotal:"@[3]);
        assert(s[3] == "MemAvailable:"@[3]);
    }
}

/// The figure of the last line that starts with `key`, 0 if none does.
pub open spec fn last_figure(lines: Seq<Seq<char>>, key: Seq<char>) -> u64
    decreases lines.len(),
{
    if lines.len() == 0 {
        0
    } else if has_prefix(lines.last(), key) {
        match second_word(lines.last()) {
            Some(w) => match unsigned_within(w, u64::MAX as nat) {
                Some(v) => v as u64,
                None => 0,
            },
            None => 0,
        }
    } else {
        last_figure(lines.drop_last(), key)
    }
}

} // verus!
