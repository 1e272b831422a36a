//! System statistics: the CPU counters of `/proc/stat`, the memory figures of
//! `/proc/meminfo`, and the titles of the statistics buttons.

use vstd::prelude::*;
use crate::text::{chars_are, decimal, lemma_parse_decimal, decimal_string, lines, parse_u64, parse_u64_spec, split_lines, split_words, str_is, to_chars, views, words};

verus! {

/// Cumulative CPU time from the first line of `/proc/stat`: all jiffies, and the
/// jiffies spent idle or waiting for I/O.
#[derive(Clone, Copy, Debug, PartialEq, Eq, Structural)]
pub struct CpuRaw {
    pub total: u64,
    pub idle: u64,
}

/// The numbers among `ws`, in order: each word that parses as a `u64`.
pub open spec fn parsed_fields(ws: Seq<Seq<char>>) -> Seq<u64>
    decreases ws.len(),
{
    if ws.len() == 0 {
        seq![]
    } else {
        let prev = parsed_fields(ws.drop_last());
        match parse_u64_spec(ws.last()) {
            Some(v) => prev.push(v),
            None => prev,
        }
    }
}

/// The words of a line after the first.
pub open spec fn after_first(ws: Seq<Seq<char>>) -> Seq<Seq<char>> {
    if ws.len() > 0 {
        ws.subrange(1, ws.len() as int)
    } else {
        ws
    }
}

/// The numeric fields of the first line of `/proc/stat` text, after its label;
/// `None` when the text has no line.
pub open spec fn spec_cpu_fields(text: Seq<char>) -> Option<Seq<u64>> {
    let ls = lines(text);
    if ls.len() == 0 {
        None
    } else {
        Some(parsed_fields(after_first(words(ls[0]))))
    }
}

/// The sum of `s`.
pub open spec fn seq_sum(s: Seq<u64>) -> nat
    decreases s.len(),
{
    if s.len() == 0 {
        0
    } else {
        seq_sum(s.drop_last()) + s.last() as nat
    }
}

/// The field at `i`, or 0 where there is none.
pub open spec fn field_or_zero(s: Seq<u64>, i: int) -> nat {
    if 0 <= i < s.len() {
        s[i] as nat
    } else {
        0
    }
}

/// The counters that a line of fields gives: their sum, and the idle and
/// iowait fields (the fourth and fifth) added.
pub open spec fn spec_cpu_raw(nums: Seq<u64>) -> (nat, nat) {
    (seq_sum(nums), field_or_zero(nums, 3) + field_or_zero(nums, 4))
}

/// The numeric fields of the first line of `/proc/stat` text (the words after the
/// first that parse as `u64`); `None` when the text is empty.
pub fn cpu_fields(text: &str) -> (r: Option<Vec<u64>>)
    ensures
        match spec_cpu_fields(text@) {
            Some(f) => r is Some && r->0@ == f,
            None => r is None,
        },
{
    let chars = to_chars(text);
    let ls = split_lines(&chars);
    if ls.len() == 0 {
        return None;
    }
    let w = split_words(&ls[0]);
    let ghost ws = words(views(ls@)[0]);
    assert(views(w@) == ws);
    let mut nums: Vec<u64> = Vec::new();
    let mut j: usize = 1;
    if w.len() == 0 {
        assert(after_first(ws) =~= Seq::<Seq<char>>::empty());
        return Some(nums);
    }
    let ghost rest = after_first(ws);
    while j < w.len()
        invariant
            1 <= j <= w.len(),
            views(w@) == ws,
            rest == ws.subrange(1, ws.len() as int),
            nums@ == parsed_fields(rest.take(j - 1)),
        decreases w.len() - j,
    {
        let ghost pre = rest.take(j - 1);
        let ghost cur = rest.take(j as int);
        assert(cur.drop_last() =~= pre);
        assert(cur.last() == w@[j as int]@);
        match parse_u64(&w[j]) {
            Some(v) => {
                nums.push(v);
            },
            None => {},
        }
        j += 1;
    }
    assert(rest.take(w.len() - 1) =~= rest);
    Some(nums)
}

proof fn lemma_sum_prefix(s: Seq<u64>, k: int)
    requires
        0 <= k <= s.len(),
    ensures
        seq_sum(s.take(k)) <= seq_sum(s),
    decreases s.len(),
{
    if k < s.len() {
        assert(s.drop_last().take(k) =~= s.take(k));
        lemma_sum_prefix(s.drop_last(), k);
    } else {
        assert(s.take(k) =~= s);
    }
}

proof fn lemma_sum_two(s: Seq<u64>, i: int, j: int)
    requires
        0 <= i < j < s.len(),
    ensures
        s[i] + s[j] <= seq_sum(s),
    decreases s.len(),
{
    if j < s.len() - 1 {
        lemma_sum_two(s.drop_last(), i, j);
    } else {
        lemma_sum_prefix(s.drop_last(), i + 1);
        let p = s.drop_last().take(i + 1);
        assert(p.drop_last() =~= s.drop_last().take(i));
        assert(p.last() == s[i]);
    }
}

proof fn lemma_sum_one(s: Seq<u64>, i: int)
    requires
        0 <= i < s.len(),
    ensures
        s[i] <= seq_sum(s),
{
    lemma_sum_prefix(s, i + 1);
    let p = s.take(i + 1);
    assert(p.drop_last() =~= s.take(i));
    assert(p.last() == s[i]);
}

/// Whether the fields add up to at most `u64::MAX`.
pub fn fields_sum_fits(nums: &Vec<u64>) -> (r: bool)
    ensures
        r == (seq_sum(nums@) <= u64::MAX),
{
    let mut acc: u64 = 0;
    let mut i: usize = 0;
    while i < nums.len()
        invariant
            i <= nums.len(),
            acc as nat == seq_sum(nums@.take(i as int)),
        decreases nums.len() - i,
    {
        let ghost cur = nums@.take(i + 1);
        assert(cur.drop_last() =~= nums@.take(i as int));
        match acc.checked_add(nums[i]) {
            Some(a) => {
                acc = a;
            },
            None => {
                proof {
                    lemma_sum_prefix(nums@, i + 1);
                }
                return false;
            },
        }
        i += 1;
    }
    assert(nums@.take(nums.len() as int) =~= nums@);
    true
}

/// The CPU counters of a line of fields: the sum of all fields, and the fourth
/// and fifth fields (idle, iowait) added, a missing field counting 0.
pub fn cpu_raw_from_fields(nums: &Vec<u64>) -> (r: CpuRaw)
    requires
        seq_sum(nums@) <= u64::MAX,
    ensures
        r.total as nat == spec_cpu_raw(nums@).0,
        r.idle as nat == spec_cpu_raw(nums@).1,
        r.idle == (if nums.len() > 3 { nums@[3] as nat } else { 0 }) + (if nums.len() > 4 { nums@[4] as nat } else { 0 }),
        r.idle <= r.total,
{
    let mut total: u64 = 0;
    let mut i: usize = 0;
    while i < nums.len()
        invariant
            i <= nums.len(),
            seq_sum(nums@) <= u64::MAX,
            total as nat == seq_sum(nums@.take(i as int)),
        decreases nums.len() - i,
    {
        let ghost cur = nums@.take(i + 1);
        assert(cur.drop_last() =~= nums@.take(i as int));
        proof {
            lemma_sum_prefix(nums@, i + 1);
        }
        total = total + nums[i];
        i += 1;
    }
    assert(nums@.take(nums.len() as int) =~= nums@);
    let a: u64 = if nums.len() > 3 { nums[3] } else { 0 };
    let b: u64 = if nums.len() > 4 { nums[4] } else { 0 };
    proof {
        if nums.len() > 4 {
            lemma_sum_two(nums@, 3, 4);
        } else if nums.len() > 3 {
            lemma_sum_one(nums@, 3);
        }
    }
    CpuRaw { total, idle: a + b }
}

/// The jiffies that passed between two samples, in all and idle, each counted
/// as 0 where the counter went back.
pub fn cpu_delta(prev: &CpuRaw, cur: &CpuRaw) -> (r: (u64, u64))
    ensures
        r.0 == (if cur.total >= prev.total { cur.total - prev.total } else { 0 }),
        r.1 == (if cur.idle >= prev.idle { cur.idle - prev.idle } else { 0 }),
{
    (cur.total.saturating_sub(prev.total), cur.idle.saturating_sub(prev.idle))
}

/// One step of the statistics poll: the deltas between the previous and the
/// current sample where both were read, and the sample to keep for next time.
pub fn cpu_poll_step(prev: Option<CpuRaw>, cur: Option<CpuRaw>) -> (r: (Option<(u64, u64)>, Option<CpuRaw>))
    ensures
        r.1 == cur,
        match (prev, cur) {
            (Some(p), Some(c)) => r.0 == Some((
                (if c.total >= p.total { (c.total - p.total) as u64 } else { 0u64 }),
                (if c.idle >= p.idle { (c.idle - p.idle) as u64 } else { 0u64 }),
            )),
            _ => r.0 is None,
        },
{
    let d = match (&prev, &cur) {
        (Some(p), Some(c)) => Some(cpu_delta(p, c)),
        _ => None,
    };
    (d, cur)
}


/// What the memory scan has found so far: the total and the available memory.
pub type MemFound = (Option<u64>, Option<u64>);

/// The number after the label of a line's words, if it parses.
pub open spec fn second_word_value(w: Seq<Seq<char>>) -> Option<u64> {
    if w.len() > 1 {
        parse_u64_spec(w[1])
    } else {
        None
    }
}

/// One line of the memory scan: a `MemTotal:` or `MemAvailable:` line sets its
/// figure (to `None` where the number does not parse); other lines change nothing.
pub open spec fn meminfo_step(st: MemFound, line: Seq<char>) -> MemFound {
    let w = words(line);
    if w.len() > 0 && w[0] == "MemTotal:"@ {
        (second_word_value(w), st.1)
    } else if w.len() > 0 && w[0] == "MemAvailable:"@ {
        (st.0, second_word_value(w))
    } else {
        st
    }
}

/// The scan over `ls`, which stops at the first line after which both figures
/// are known.
pub open spec fn meminfo_scan(ls: Seq<Seq<char>>) -> MemFound
    decreases ls.len(),
{
    if ls.len() == 0 {
        (None, None)
    } else {
        let st = meminfo_scan(ls.drop_last());
        if st.0 is Some && st.1 is Some {
            st
        } else {
            meminfo_step(st, ls.last())
        }
    }
}

/// Total and available memory from `/proc/meminfo` text, where both were found
/// and the total is not 0.
pub open spec fn spec_meminfo(text: Seq<char>) -> Option<(u64, u64)> {
    match meminfo_scan(lines(text)) {
        (Some(t), Some(a)) => if t > 0 {
            Some((t, a))
        } else {
            None
        },
        _ => None,
    }
}

/// Total and available memory (in the units of the text) from `/proc/meminfo`
/// text; `None` where either figure is missing or the total is 0.
pub fn parse_meminfo(text: &str) -> (r: Option<(u64, u64)>)
    ensures
        r == spec_meminfo(text@),
{
    let chars = to_chars(text);
    let ls = split_lines(&chars);
    let ghost all = views(ls@);
    let mut total: Option<u64> = None;
    let mut avail: Option<u64> = None;
    let mut i: usize = 0;
    assert(all.take(ls.len() as int) =~= all);
    while i < ls.len()
        invariant
            i <= ls.len(),
            all == views(ls@),
            all.take(ls.len() as int) == all,
            (total, avail) == meminfo_scan(all.take(i as int)),
            !(total is Some && avail is Some) || meminfo_scan(all) == meminfo_scan(all.take(i as int)),
        ensures
            (total, avail) == meminfo_scan(all),
        decreases ls.len() - i,
    {
        let ghost pre = all.take(i as int);
        let ghost cur = all.take(i + 1);
        assert(cur.drop_last() =~= pre);
        if total.is_some() && avail.is_some() {
            break;
        }
        let w = split_words(&ls[i]);
        assert(cur.last() == ls@[i as int]@);
        let ghost ww = words(ls@[i as int]@);
        if w.len() > 0 && chars_are(&w[0], "MemTotal:") {
            total = if w.len() > 1 { parse_u64(&w[1]) } else { None };
        } else if w.len() > 0 && chars_are(&w[0], "MemAvailable:") {
            avail = if w.len() > 1 { parse_u64(&w[1]) } else { None };
        }
        i += 1;
        proof {
            if total is Some && avail is Some {
                lemma_scan_settled(all, i as int);
            }
            if i == ls.len() {
                assert(all.take(i as int) =~= all);
            }
        }
    }
    match (total, avail) {
        (Some(t), Some(a)) => if t > 0 {
            Some((t, a))
        } else {
            None
        },
        _ => None,
    }
}

/// Once both figures are known, later lines change nothing.
proof fn lemma_scan_settled(ls: Seq<Seq<char>>, k: int)
    requires
        0 <= k <= ls.len(),
        meminfo_scan(ls.take(k)).0 is Some,
        meminfo_scan(ls.take(k)).1 is Some,
    ensures
        meminfo_scan(ls) == meminfo_scan(ls.take(k)),
    decreases ls.len(),
{
    if k < ls.len() {
        assert(ls.drop_last().take(k) =~= ls.take(k));
        lemma_scan_settled(ls.drop_last(), k);
    } else {
        assert(ls.take(k) =~= ls);
    }
}

/// Which figure a statistics button shows.
#[derive(Clone, Copy, Debug, PartialEq, Eq, Structural)]
pub enum StatKind {
    Cpu,
    Ram,
    Docker,
}

/// The figure a `stat` setting names: `"ram"`, `"docker"`, and CPU load for any
/// other value.
pub open spec fn spec_stat_kind(stat: Seq<char>) -> StatKind {
    if stat == "ram"@ {
        StatKind::Ram
    } else if stat == "docker"@ {
        StatKind::Docker
    } else {
        StatKind::Cpu
    }
}

pub fn stat_kind(stat: &str) -> (k: StatKind)
    ensures
        k == spec_stat_kind(stat@),
{
    if str_is(stat, "ram") {
        StatKind::Ram
    } else if str_is(stat, "docker") {
        StatKind::Docker
    } else {
        StatKind::Cpu
    }
}

/// The title of a statistics button. The CPU and RAM figures come as the text
/// of the whole-number percentage; the container count as a number.
pub open spec fn spec_stat_title(stat: Seq<char>, cpu: Seq<char>, ram: Seq<char>, docker: nat) -> Seq<char> {
    match spec_stat_kind(stat) {
        StatKind::Cpu => "CPU\n"@ + cpu + "%"@,
        StatKind::Ram => "RAM\n"@ + ram + "%"@,
        StatKind::Docker => "\u{1f433} "@ + decimal(docker),
    }
}

/// The title of a statistics button for the setting `stat`.
pub fn stat_title(stat: &str, cpu_pct: &str, ram_pct: &str, docker: usize) -> (r: String)
    ensures
        r@ == spec_stat_title(stat@, cpu_pct@, ram_pct@, docker as nat),
{
    let mut r = String::new();
    match stat_kind(stat) {
        StatKind::Cpu => {
            r.append("CPU\n");
            r.append(cpu_pct);
            r.append("%");
        },
        StatKind::Ram => {
            r.append("RAM\n");
            r.append(ram_pct);
            r.append("%");
        },
        StatKind::Docker => {
            r.append("\u{1f433} ");
            let d = decimal_string(docker as u64);
            r.append(d.as_str());
        },
    }
    r
}

/// The title of a container-count button: the count in decimal.
pub fn docker_count_title(count: usize) -> (r: String)
    ensures
        r@ == decimal(count as nat),
{
    decimal_string(count as u64)
}

/// The CPU counters of a `/proc/stat` line: the total is every field added up,
/// the idle time is the fourth field (idle) plus the fifth (iowait), each 0
/// where the line is shorter, and the idle time never exceeds the total.
pub proof fn lemma_cpu_raw_fields(nums: Seq<u64>)
    ensures
        spec_cpu_raw(nums).0 == (if nums.len() == 0 { 0 } else { spec_cpu_raw(nums.drop_last()).0 + nums.last() }),
        spec_cpu_raw(nums).1 == (if nums.len() > 3 { nums[3] as nat } else { 0 }) + (if nums.len() > 4 {
            nums[4] as nat
        } else {
            0
        }),
        spec_cpu_raw(nums).1 <= spec_cpu_raw(nums).0,
{
    if nums.len() > 4 {
        lemma_sum_two(nums, 3, 4);
    } else if nums.len() > 3 {
        lemma_sum_one(nums, 3);
    }
}

/// The title of each statistic: `CPU` or `RAM` over the whole-number
/// percentage of that figure, or the whale and the container count; a setting
/// other than `ram` or `docker` shows the CPU load.
pub proof fn lemma_stat_titles(stat: Seq<char>, cpu: Seq<char>, ram: Seq<char>, docker: nat)
    ensures
        stat == "ram"@ ==> spec_stat_title(stat, cpu, ram, docker) == "RAM\n"@ + ram + "%"@,
        stat == "docker"@ ==> spec_stat_title(stat, cpu, ram, docker) == "\u{1f433} "@ + decimal(docker),
        (stat != "ram"@ && stat != "docker"@) ==> spec_stat_title(stat, cpu, ram, docker) == "CPU\n"@ + cpu + "%"@,
{
    reveal_strlit("ram");
    reveal_strlit("docker");
    reveal_strlit("cpu");
    reveal_strlit("MemTotal:");
    reveal_strlit("MemAvailable:");
    assert("ram"@.len() == 3 && "docker"@.len() == 6);
    assert("ram"@ != "docker"@);
    assert("MemTotal:"@.len() == 9 && "MemAvailable:"@.len() == 13);
    assert("MemTotal:"@ != "MemAvailable:"@);
}

/// A `MemTotal:` line sets the total and a `MemAvailable:` line the available
/// memory to the number after the label, leaving the other figure as it was.
pub proof fn lemma_meminfo_labels(st: MemFound, line: Seq<char>, n: u64)
    ensures
        words(line) == seq!["MemTotal:"@, decimal(n as nat)] ==> meminfo_step(st, line) == (Some(n), st.1),
        words(line) == seq!["MemAvailable:"@, decimal(n as nat)] ==> meminfo_step(st, line) == (st.0, Some(n)),
        (words(line).len() == 0 || (words(line)[0] != "MemTotal:"@ && words(line)[0] != "MemAvailable:"@))
            ==> meminfo_step(st, line) == st,
{
    reveal_strlit("ram");
    reveal_strlit("docker");
    reveal_strlit("cpu");
    reveal_strlit("MemTotal:");
    reveal_strlit("MemAvailable:");
    assert("ram"@.len() == 3 && "docker"@.len() == 6);
    assert("ram"@ != "docker"@);
    assert("MemTotal:"@.len() == 9 && "MemAvailable:"@.len() == 13);
    assert("MemTotal:"@ != "MemAvailable:"@);
    lemma_parse_decimal(n as nat, u64::MAX as nat);
}

} // verus!
