//! Parsing and decisions of the EVO-X2 metrics service: system metrics from
//! `/proc`, sysfs, `df` and the Ollama API, the response cache, and the GPU
//! agent's memory figures.
use vstd::prelude::*;
use crate::json::{items_of, member_array, member_of, member_str, member_u64, text_of, unsigned_of, JsonValue};
use crate::text::{
    chars_eq, chars_of, contains, contains_exec, digits_value, extend_chars, lines, lines_of,
    parse_unsigned, parse_unsigned_exec, slice_chars, split_char, split_on, split_whitespace,
    starts_with, starts_with_exec, string_of, strip_prefix, trim, trim_bounds, trim_matches,
    trim_matches_exec, words,
};

verus! {

// ---------------------------------------------------------------------------
// Response cache
// ---------------------------------------------------------------------------

#[verifier::external_type_specification]
#[verifier::external_body]
pub struct ExInstant(std::time::Instant);

/// `Instant::now`: the current time; nothing is stated of it.
pub assume_specification[ std::time::Instant::now ]() -> std::time::Instant;

/// `Instant::elapsed`: the time since `t`; nothing is stated of it (it
/// depends on the clock).
pub assume_specification[ std::time::Instant::elapsed ](t: &std::time::Instant) -> std::time::Duration;

/// `Duration::as_secs`: the whole seconds of `d`; nothing is stated of it,
/// as durations are opaque here.
pub assume_specification[ core::time::Duration::as_secs ](d: &core::time::Duration) -> u64;

/// A value that stays valid for `ttl_secs` seconds after it was stored.
pub struct TimedCache<T> {
    pub data: Option<T>,
    /// When `data` was stored; `None` before the first store.
    pub last_update: Option<std::time::Instant>,
    pub ttl_secs: u64,
}

impl<T: Clone> TimedCache<T> {
    /// An empty cache.
    pub fn new(ttl_secs: u64) -> (c: Self)
        ensures
            c.data is None,
            c.ttl_secs == ttl_secs,
    {
        TimedCache { data: None, last_update: None, ttl_secs }
    }

    /// The stored value when `age_secs` seconds after storing it is less
    /// than the time-to-live.
    pub fn lookup(&self, age_secs: u64) -> (r: Option<T>)
        ensures
            match r {
                Some(v) => age_secs < self.ttl_secs && self.data is Some && vstd::pervasive::cloned(
                    self.data->0,
                    v,
                ),
                None => age_secs >= self.ttl_secs || self.data is None,
            },
    {
        if age_secs < self.ttl_secs {
            match &self.data {
                Some(d) => Some(d.clone()),
                None => None,
            }
        } else {
            None
        }
    }

    /// The stored value if it is still fresh. Whether it is depends on the
    /// clock (`Instant::elapsed`); `lookup` states the answer for each age.
    /// A cache that never stored a value, or whose time-to-live is zero,
    /// answers nothing.
    pub fn get(&self) -> (r: Option<T>)
        ensures
            r is Some ==> self.data is Some && vstd::pervasive::cloned(self.data->0, r->0),
            self.data is None ==> r is None,
            self.last_update is None ==> r is None,
            self.ttl_secs == 0 ==> r is None,
    {
        match &self.last_update {
            Some(t) => {
                let age = t.elapsed().as_secs();
                self.lookup(age)
            },
            None => None,
        }
    }

    /// Stores a value, fresh from now on.
    pub fn set(&mut self, value: T)
        ensures
            final(self).data == Some(value),
            final(self).last_update is Some,
            final(self).ttl_secs == old(self).ttl_secs,
    {
        self.data = Some(value);
        self.last_update = Some(std::time::Instant::now());
    }
}

// ---------------------------------------------------------------------------
// /proc and df parsing
// ---------------------------------------------------------------------------

/// Second word of a line read as a `u64`, else 0 (`/proc/meminfo` values).
pub open spec fn meminfo_kb(line: Seq<char>) -> u64 {
    let w = words(line);
    if w.len() >= 2 {
        match parse_unsigned(w[1], u64::MAX as nat) {
            Some(v) => v as u64,
            None => 0,
        }
    } else {
        0
    }
}

/// Value of a `/proc/meminfo` line in kB (0 when it cannot be read).
pub fn parse_meminfo_kb(line: &str) -> (r: u64)
    ensures
        r == meminfo_kb(line@),
{
    let w = split_whitespace(&chars_of(line));
    if w.len() >= 2 {
        match parse_unsigned_exec(&w[1], u64::MAX) {
            Some(v) => v,
            None => 0,
        }
    } else {
        0
    }
}

/// `(total, available)` bytes from `/proc/meminfo` text, scanning `lines`
/// up to `k`: the last `MemTotal:` and `MemAvailable:` lines win; a kB value
/// is multiplied by 1024 with wrap-around.
pub open spec fn meminfo_totals(ls: Seq<Seq<char>>, k: int) -> (u64, u64)
    decreases k,
{
    if k <= 0 {
        (0, 0)
    } else {
        let (t, a) = meminfo_totals(ls, k - 1);
        let l = ls[k - 1];
        if starts_with(l, "MemTotal:"@) {
            ((meminfo_kb(l) * 1024) as u64, a)
        } else if starts_with(l, "MemAvailable:"@) {
            (t, (meminfo_kb(l) * 1024) as u64)
        } else {
            (t, a)
        }
    }
}

/// Memory use in bytes.
pub struct MemUsage {
    pub used_bytes: u64,
    pub total_bytes: u64,
}

/// The `MemTotal` and `MemAvailable` lines of `ls` give byte counts that
/// fit in 64 bits.
pub open spec fn meminfo_in_range(ls: Seq<Seq<char>>) -> bool {
    forall|k: int|
        0 <= k < ls.len() && (starts_with(ls[k], "MemTotal:"@) || starts_with(
            ls[k],
            "MemAvailable:"@,
        )) ==> #[trigger] meminfo_kb(ls[k]) * 1024 <= u64::MAX
}

/// Whether the `/proc/meminfo` text can be read without overflow.
pub fn meminfo_fits(content: &str) -> (r: bool)
    ensures
        r == meminfo_in_range(lines(content@)),
{
    let ls = lines_of(&chars_of(content));
    let ghost lsv = lines(content@);
    let mut k: usize = 0;
    while k < ls.len()
        invariant
            k <= ls.len(),
            ls@.len() == lsv.len(),
            lsv == lines(content@),
            forall|j: int| 0 <= j < ls@.len() ==> #[trigger] ls@[j]@ == lsv[j],
            forall|j: int|
                0 <= j < k && (starts_with(lsv[j], "MemTotal:"@) || starts_with(
                    lsv[j],
                    "MemAvailable:"@,
                )) ==> #[trigger] meminfo_kb(lsv[j]) * 1024 <= u64::MAX,
        decreases ls.len() - k,
    {
        assert(ls@[k as int]@ == lsv[k as int]);
        if starts_with_exec(&ls[k], &chars_of("MemTotal:")) || starts_with_exec(
            &ls[k],
            &chars_of("MemAvailable:"),
        ) {
            let line = string_of(&ls[k]);
            if parse_meminfo_kb(line.as_str()) > u64::MAX / 1024 {
                return false;
            }
        }
        k = k + 1;
    }
    true
}

/// Used and total memory from `/proc/meminfo` text (used = total minus
/// available, not below zero).
pub fn memory_from_meminfo(content: &str) -> (m: MemUsage)
    requires
        meminfo_in_range(lines(content@)),
    ensures
        ({
            let ls = lines(content@);
            let (t, a) = meminfo_totals(ls, ls.len() as int);
            m.total_bytes == t && m.used_bytes == (if t >= a { (t - a) as u64 } else { 0 })
        }),
{
    let ls = lines_of(&chars_of(content));
    let ghost lsv = lines(content@);
    let mut total: u64 = 0;
    let mut available: u64 = 0;
    let mut k: usize = 0;
    while k < ls.len()
        invariant
            k <= ls.len(),
            ls@.len() == lsv.len(),
            lsv == lines(content@),
            forall|j: int| 0 <= j < ls@.len() ==> #[trigger] ls@[j]@ == lsv[j],
            (total, available) == meminfo_totals(lsv, k as int),
            meminfo_in_range(lsv),
        decreases ls.len() - k,
    {
        let line = string_of(&ls[k]);
        assert(ls@[k as int]@ == lsv[k as int]);
        if starts_with_exec(&ls[k], &chars_of("MemTotal:")) {
            assert(meminfo_kb(lsv[k as int]) * 1024 <= u64::MAX);
            total = parse_meminfo_kb(line.as_str()) * 1024;
        } else if starts_with_exec(&ls[k], &chars_of("MemAvailable:")) {
            assert(meminfo_kb(lsv[k as int]) * 1024 <= u64::MAX);
            available = parse_meminfo_kb(line.as_str()) * 1024;
        }
        k = k + 1;
    }
    let used = total.saturating_sub(available);
    MemUsage { used_bytes: used, total_bytes: total }
}

/// One filesystem line of `df -B1 --output=target,size,used,avail`.
pub struct DiskUsage {
    pub mount: String,
    pub total_bytes: u64,
    pub used_bytes: u64,
    pub available_bytes: u64,
}

pub open spec fn u64_or_zero(s: Seq<char>) -> u64 {
    match parse_unsigned(s, u64::MAX as nat) {
        Some(v) => v as u64,
        None => 0,
    }
}

/// The disk row of a line, if it has four fields and a non-zero size.
pub open spec fn df_row(l: Seq<char>) -> Option<(Seq<char>, u64, u64, u64)> {
    let w = words(l);
    if w.len() >= 4 && u64_or_zero(w[1]) > 0 {
        Some((w[0], u64_or_zero(w[1]), u64_or_zero(w[2]), u64_or_zero(w[3])))
    } else {
        None
    }
}

/// Disk rows of `df` lines `ls[1..k]` (the header line is skipped).
pub open spec fn df_rows(ls: Seq<Seq<char>>, k: int) -> Seq<(Seq<char>, u64, u64, u64)>
    decreases k,
{
    if k <= 1 {
        Seq::empty()
    } else {
        let rest = df_rows(ls, k - 1);
        match df_row(ls[k - 1]) {
            Some(r) => rest.push(r),
            None => rest,
        }
    }
}

pub open spec fn disk_view(d: DiskUsage) -> (Seq<char>, u64, u64, u64) {
    (d.mount@, d.total_bytes, d.used_bytes, d.available_bytes)
}

fn u64_or_zero_exec(s: &Vec<char>) -> (r: u64)
    ensures
        r == u64_or_zero(s@),
{
    match parse_unsigned_exec(s, u64::MAX) {
        Some(v) => v,
        None => 0,
    }
}

/// Disk usage rows of `df` output.
pub fn parse_df_output(text: &str) -> (r: Vec<DiskUsage>)
    ensures
        r@.map_values(|d: DiskUsage| disk_view(d)) == ({
            let ls = lines(text@);
            df_rows(ls, ls.len() as int)
        }),
{
    let ls = lines_of(&chars_of(text));
    let ghost lsv = lines(text@);
    let mut disks: Vec<DiskUsage> = Vec::new();
    let mut k: usize = 1;
    if ls.len() == 0 {
        assert(disks@.map_values(|d: DiskUsage| disk_view(d)) =~= df_rows(lsv, 0));
        return disks;
    }
    assert(disks@.map_values(|d: DiskUsage| disk_view(d)) =~= df_rows(lsv, 1));
    while k < ls.len()
        invariant
            1 <= k <= ls.len(),
            ls@.len() == lsv.len(),
            lsv == lines(text@),
            forall|j: int| 0 <= j < ls@.len() ==> #[trigger] ls@[j]@ == lsv[j],
            disks@.map_values(|d: DiskUsage| disk_view(d)) == df_rows(lsv, k as int),
        decreases ls.len() - k,
    {
        let w = split_whitespace(&ls[k]);
        assert(ls@[k as int]@ == lsv[k as int]);
        let ghost before = disks@;
        if w.len() >= 4 {
            let total = u64_or_zero_exec(&w[1]);
            if total > 0 {
                disks.push(
                    DiskUsage {
                        mount: string_of(&w[0]),
                        total_bytes: total,
                        used_bytes: u64_or_zero_exec(&w[2]),
                        available_bytes: u64_or_zero_exec(&w[3]),
                    },
                );
            }
        }
        assert(disks@.map_values(|d: DiskUsage| disk_view(d)) =~= df_rows(lsv, k + 1));
        k = k + 1;
    }
    disks
}

proof fn lemma_df_rows_upto(ls: Seq<Seq<char>>, n: int)
    ensures
        forall|j: int| 1 <= j < n && j < ls.len() && (#[trigger] df_row(ls[j])) is Some
            ==> df_rows(ls, n).contains(df_row(ls[j])->0),
        forall|r: (Seq<char>, u64, u64, u64)| #[trigger] df_rows(ls, n).contains(r)
            ==> exists|j: int| 1 <= j < n && #[trigger] df_row(ls[j]) == Some(r),
    decreases n,
{
    if n > 1 {
        lemma_df_rows_upto(ls, n - 1);
        let rest = df_rows(ls, n - 1);
        assert forall|j: int| 1 <= j < n && j < ls.len() && (#[trigger] df_row(ls[j])) is Some
            implies df_rows(ls, n).contains(df_row(ls[j])->0) by {
            if j < n - 1 {
                let r = df_row(ls[j])->0;
                let i = choose|i: int| 0 <= i < rest.len() && rest[i] == r;
                match df_row(ls[n - 1]) {
                    Some(x) => {
                        assert(rest.push(x)[i] == r);
                    },
                    None => {},
                }
            } else {
                let x = df_row(ls[n - 1])->0;
                assert(rest.push(x)[rest.len() as int] == x);
            }
        }
        assert forall|r: (Seq<char>, u64, u64, u64)| #[trigger] df_rows(ls, n).contains(r)
            implies exists|j: int| 1 <= j < n && #[trigger] df_row(ls[j]) == Some(r) by {
            let i = choose|i: int| 0 <= i < df_rows(ls, n).len() && df_rows(ls, n)[i] == r;
            if i < rest.len() {
                assert(rest[i] == r);
                assert(rest.contains(r));
            } else {
                assert(df_row(ls[n - 1]) == Some(r));
            }
        }
    }
}

/// Every line after the header with at least four fields and a non-zero
/// size gives a disk row, the last line included; and every disk row
/// comes from such a line.
pub proof fn law_df_rows_from_lines(ls: Seq<Seq<char>>)
    ensures
        forall|j: int| 1 <= j < ls.len() && (#[trigger] df_row(ls[j])) is Some
            ==> df_rows(ls, ls.len() as int).contains(df_row(ls[j])->0),
        forall|r: (Seq<char>, u64, u64, u64)| #[trigger] df_rows(ls, ls.len() as int).contains(r)
            ==> exists|j: int| 1 <= j < ls.len() && #[trigger] df_row(ls[j]) == Some(r),
{
    lemma_df_rows_upto(ls, ls.len() as int);
}

/// First line starting with `p`, at or after `k`.
pub open spec fn first_line_with(ls: Seq<Seq<char>>, p: Seq<char>, k: int) -> Option<Seq<char>>
    decreases ls.len() - k,
{
    if k < 0 || k >= ls.len() {
        None
    } else if starts_with(ls[k], p) {
        Some(ls[k])
    } else {
        first_line_with(ls, p, k + 1)
    }
}

fn first_line_with_exec(ls: &Vec<Vec<char>>, p: &Vec<char>) -> (r: Option<usize>)
    ensures
        match r {
            Some(k) => k < ls@.len() && first_line_with(ls@.map_values(|l: Vec<char>| l@), p@, 0) == Some(ls@[k as int]@),
            None => first_line_with(ls@.map_values(|l: Vec<char>| l@), p@, 0) is None,
        },
{
    let ghost lv = ls@.map_values(|l: Vec<char>| l@);
    let mut k: usize = 0;
    while k < ls.len()
        invariant
            k <= ls.len(),
            lv == ls@.map_values(|l: Vec<char>| l@),
            first_line_with(lv, p@, 0) == first_line_with(lv, p@, k as int),
        decreases ls.len() - k,
    {
        assert(lv[k as int] == ls@[k as int]@);
        if starts_with_exec(&ls[k], p) {
            return Some(k);
        }
        k = k + 1;
    }
    None
}

/// CPU model from `/proc/cpuinfo`: the text after the first `:` of the
/// first `model name` line, trimmed; empty when there is none.
pub open spec fn cpu_model_of(cpuinfo: Seq<char>) -> Seq<char> {
    let ls = lines(cpuinfo);
    match first_line_with(ls, "model name"@, 0) {
        Some(l) => {
            let parts = split_on(l, ':');
            if parts.len() >= 2 { trim(parts[1]) } else { Seq::empty() }
        },
        None => Seq::empty(),
    }
}

/// CPU model name from `/proc/cpuinfo` text.
pub fn cpu_model_name(cpuinfo: &str) -> (r: String)
    ensures
        r@ == cpu_model_of(cpuinfo@),
{
    let ls = lines_of(&chars_of(cpuinfo));
    proof {
        assert(ls@.map_values(|l: Vec<char>| l@) =~= lines(cpuinfo@));
    }
    match first_line_with_exec(&ls, &chars_of("model name")) {
        Some(k) => {
            let parts = split_char(&ls[k], ':');
            if parts.len() >= 2 {
                let (lo, hi) = trim_bounds(&parts[1]);
                string_of(&slice_chars(&parts[1], lo, hi))
            } else {
                String::new()
            }
        },
        None => String::new(),
    }
}

/// The `DRIVER=` value of a device `uevent` is `amdgpu`.
pub open spec fn uevent_amdgpu(uevent: Seq<char>) -> bool {
    match first_line_with(lines(uevent), "DRIVER="@, 0) {
        Some(l) => crate::text::trim_start_matches(l, "DRIVER="@) == "amdgpu"@,
        None => false,
    }
}

/// Whether a device `uevent` names the `amdgpu` driver.
pub fn uevent_is_amdgpu(uevent: &str) -> (r: bool)
    ensures
        r == uevent_amdgpu(uevent@),
{
    let ls = lines_of(&chars_of(uevent));
    proof {
        assert(ls@.map_values(|l: Vec<char>| l@) =~= lines(uevent@));
    }
    match first_line_with_exec(&ls, &chars_of("DRIVER=")) {
        Some(k) => {
            let v = crate::text::trim_start_matches_exec(&ls[k], &chars_of("DRIVER="));
            chars_eq(&v, &chars_of("amdgpu"))
        },
        None => false,
    }
}

/// A sysfs counter: the trimmed text read as a `u64`, when it is one.
pub fn sysfs_u64(content: &str) -> (r: Option<u64>)
    ensures
        match parse_unsigned(trim(content@), u64::MAX as nat) {
            Some(v) => r == Some(v as u64),
            None => r is None,
        },
{
    let v = chars_of(content);
    let (lo, hi) = trim_bounds(&v);
    parse_unsigned_exec(&slice_chars(&v, lo, hi), u64::MAX)
}

// ---------------------------------------------------------------------------
// GPU agent figures
// ---------------------------------------------------------------------------

/// A sysfs byte count in whole MiB, when the trimmed text is a `u64`.
pub fn bytes_text_to_mib(content: &str) -> (r: Option<u64>)
    ensures
        match parse_unsigned(trim(content@), u64::MAX as nat) {
            Some(b) => r == Some((b / (1024 * 1024)) as u64),
            None => r is None,
        },
{
    let v = chars_of(content);
    let (lo, hi) = trim_bounds(&v);
    match parse_unsigned_exec(&slice_chars(&v, lo, hi), u64::MAX) {
        Some(b) => Some(b / (1024 * 1024)),
        None => None,
    }
}

/// Free GTT memory reported in heartbeats: total minus used, not below zero.
pub fn free_gtt_mib(total_mib: u64, used_mib: u64) -> (r: u64)
    ensures
        r == (if total_mib >= used_mib { (total_mib - used_mib) as u64 } else { 0 }),
{
    total_mib.saturating_sub(used_mib)
}

/// Where the agent's bearer token comes from: the token given on the command
/// line wins; else the token file's trimmed text (`file_text` is `None` when
/// the file could not be read); else neither was given.
pub fn resolve_token(token: Option<String>, token_path: Option<&str>, file_text: Option<&str>) -> (r:
    Result<String, String>)
    ensures
        match token {
            Some(t) => r matches Ok(x) && x@ == t@,
            None => match token_path {
                Some(p) => match file_text {
                    Some(text) => r matches Ok(x) && x@ == trim(text@),
                    None => r matches Err(e) && e@ == "Token-Datei nicht lesbar: "@ + p@,
                },
                None => r matches Err(e) && e@ == "Weder --token noch --token-path angegeben"@,
            },
        },
{
    match token {
        Some(t) => Ok(t),
        None => match token_path {
            Some(p) => match file_text {
                Some(text) => Ok(crate::text::trim_str(text)),
                None => Err(crate::text::concat_str("Token-Datei nicht lesbar: ", p)),
            },
            None => Err(String::from_str("Weder --token noch --token-path angegeben")),
        },
    }
}

// ---------------------------------------------------------------------------
// Sysfs scans
// ---------------------------------------------------------------------------

/// The GTT counters of one DRM entry: `None` when it has no
/// `mem_info_gtt_total`; otherwise the readings of total and used (`None`
/// for a file that could not be read or parsed).
pub type GttProbe = Option<(Option<u64>, Option<u64>)>;

/// `(used, total)` of the first entry with a non-zero GTT total; `(0, 0)`
/// when there is none.
pub open spec fn gtt_of(probes: Seq<GttProbe>) -> (u64, u64)
    decreases probes.len(),
{
    if probes.len() == 0 {
        (0, 0)
    } else {
        match probes[0] {
            Some((Some(total), used)) => if total > 0 {
                (
                    match used {
                        Some(u) => u,
                        None => 0,
                    },
                    total,
                )
            } else {
                gtt_of(probes.drop_first())
            },
            _ => gtt_of(probes.drop_first()),
        }
    }
}

pub fn gtt_usage(probes: &Vec<GttProbe>) -> (r: (u64, u64))
    ensures
        r == gtt_of(probes@),
{
    let mut i: usize = 0;
    assert(probes@.skip(0) =~= probes@);
    while i < probes.len()
        invariant
            i <= probes.len(),
            gtt_of(probes@.skip(i as int)) == gtt_of(probes@),
        decreases probes.len() - i,
    {
        assert(probes@.skip(i as int)[0] == probes@[i as int]);
        assert(probes@.skip(i as int).drop_first() =~= probes@.skip(i + 1));
        match probes[i] {
            Some((Some(total), used)) => {
                if total > 0 {
                    let u = match used {
                        Some(u) => u,
                        None => 0,
                    };
                    return (u, total);
                }
            },
            _ => {},
        }
        i = i + 1;
    }
    (0, 0)
}

/// The readings of one DRM device for the GPU figures: `gpu_busy_percent`
/// and the `temp1_input` of each of its hwmon entries (millidegrees).
pub struct GpuProbe {
    pub busy_percent: Option<u64>,
    pub temps_millideg: Vec<Option<u64>>,
}

/// The first reading of `s` that exists.
pub open spec fn first_some(s: Seq<Option<u64>>) -> Option<u64>
    decreases s.len(),
{
    if s.len() == 0 {
        None
    } else if s[0] is Some {
        s[0]
    } else {
        first_some(s.drop_first())
    }
}

pub open spec fn busy_readings(p: Seq<GpuProbe>) -> Seq<Option<u64>> {
    p.map_values(|g: GpuProbe| g.busy_percent)
}

/// The temperature readings of all devices, in order.
pub open spec fn temp_readings(p: Seq<GpuProbe>) -> Seq<Option<u64>>
    decreases p.len(),
{
    if p.len() == 0 {
        Seq::<Option<u64>>::empty()
    } else {
        temp_readings(p.drop_last()) + p.last().temps_millideg@
    }
}

fn first_some_exec(v: &Vec<Option<u64>>) -> (r: Option<u64>)
    ensures
        r == first_some(v@),
{
    let mut i: usize = 0;
    assert(v@.skip(0) =~= v@);
    while i < v.len()
        invariant
            i <= v.len(),
            first_some(v@.skip(i as int)) == first_some(v@),
        decreases v.len() - i,
    {
        assert(v@.skip(i as int)[0] == v@[i as int]);
        assert(v@.skip(i as int).drop_first() =~= v@.skip(i + 1));
        if v[i].is_some() {
            return v[i];
        }
        i = i + 1;
    }
    None
}

/// Temperature (whole degrees) and utilisation of the first devices that
/// report them.
pub fn gpu_readings(probes: &Vec<GpuProbe>) -> (r: crate::evo::GpuInfo)
    ensures
        r.utilization_pct == match first_some(busy_readings(probes@)) {
            Some(v) => Some(v as u32),
            None => None,
        },
        r.temperature_c == match first_some(temp_readings(probes@)) {
            Some(v) => Some((v / 1000) as u32),
            None => None,
        },
{
    let mut busy: Vec<Option<u64>> = Vec::new();
    let mut temps: Vec<Option<u64>> = Vec::new();
    let mut i: usize = 0;
    assert(probes@.take(0) =~= Seq::<GpuProbe>::empty());
    assert(busy@ =~= busy_readings(probes@.take(0)));
    while i < probes.len()
        invariant
            i <= probes.len(),
            busy@ == busy_readings(probes@.take(i as int)),
            temps@ == temp_readings(probes@.take(i as int)),
        decreases probes.len() - i,
    {
        assert(probes@.take(i + 1).drop_last() =~= probes@.take(i as int));
        busy.push(probes[i].busy_percent);
        let t = &probes[i].temps_millideg;
        let mut k: usize = 0;
        let ghost before = temps@;
        while k < t.len()
            invariant
                k <= t.len(),
                temps@ == before + t@.take(k as int),
            decreases t.len() - k,
        {
            temps.push(t[k]);
            k = k + 1;
            assert(temps@ =~= before + t@.take(k as int));
        }
        assert(t@.take(t@.len() as int) =~= t@);
        assert(busy@ =~= busy_readings(probes@.take(i + 1)));
        i = i + 1;
    }
    assert(probes@.take(probes@.len() as int) =~= probes@);
    let util = match first_some_exec(&busy) {
        Some(v) => Some(v as u32),
        None => None,
    };
    let temp = match first_some_exec(&temps) {
        Some(m) => Some((m / 1000) as u32),
        None => None,
    };
    crate::evo::GpuInfo { temperature_c: temp, utilization_pct: util }
}

/// What is read of one DRM device to name the GPU architecture.
pub struct ArchProbe {
    /// The device has `mem_info_gtt_total` (it is a real GPU).
    pub has_gtt: bool,
    pub product_name: Option<String>,
    pub uevent: Option<String>,
}

/// The architecture named by the first GPU device: its product name
/// (trimmed), or `RDNA 3.5 (amdgpu)` when its `uevent` names the amdgpu
/// driver.
pub open spec fn gpu_arch_of(p: Seq<ArchProbe>) -> Option<Seq<char>>
    decreases p.len(),
{
    if p.len() == 0 {
        None
    } else if p[0].has_gtt && p[0].product_name is Some {
        Some(trim(p[0].product_name->0@))
    } else if p[0].has_gtt && p[0].uevent is Some && uevent_amdgpu(p[0].uevent->0@) {
        Some("RDNA 3.5 (amdgpu)"@)
    } else {
        gpu_arch_of(p.drop_first())
    }
}

pub fn gpu_arch(probes: &Vec<ArchProbe>) -> (r: Option<String>)
    ensures
        crate::text::opt_view(r) == gpu_arch_of(probes@),
{
    let mut i: usize = 0;
    assert(probes@.skip(0) =~= probes@);
    while i < probes.len()
        invariant
            i <= probes.len(),
            gpu_arch_of(probes@.skip(i as int)) == gpu_arch_of(probes@),
        decreases probes.len() - i,
    {
        assert(probes@.skip(i as int)[0] == probes@[i as int]);
        assert(probes@.skip(i as int).drop_first() =~= probes@.skip(i + 1));
        let p = &probes[i];
        if p.has_gtt {
            match &p.product_name {
                Some(name) => {
                    return Some(crate::text::trim_str(name.as_str()));
                },
                None => {},
            }
            match &p.uevent {
                Some(u) => {
                    if uevent_is_amdgpu(u.as_str()) {
                        return Some(String::from_str("RDNA 3.5 (amdgpu)"));
                    }
                },
                None => {},
            }
        }
        i = i + 1;
    }
    None
}

/// The state printed by `systemctl is-active` (trimmed), or `unknown` when
/// the command could not be run.
pub fn service_state_text(stdout: Option<&str>) -> (r: String)
    ensures
        r@ == match stdout {
            Some(o) => trim(o@),
            None => "unknown"@,
        },
{
    match stdout {
        Some(o) => crate::text::trim_str(o),
        None => String::from_str("unknown"),
    }
}

/// The Tailscale identity: the trimmed address (when the command succeeded
/// and printed one) and the trimmed host name; nothing without an address.
pub fn tailscale_info(ip_output: Option<&str>, hostname_output: Option<&str>) -> (r: Option<
    crate::evo::TailscaleInfo,
>)
    ensures
        match ip_output {
            Some(o) if trim(o@).len() > 0 => r matches Some(info) && crate::text::opt_view(info.ip)
                == Some(trim(o@)) && crate::text::opt_view(info.hostname) == match hostname_output {
                Some(h) => Some(trim(h@)),
                None => None::<Seq<char>>,
            },
            _ => r is None,
        },
{
    let ip = match ip_output {
        Some(o) => {
            let t = crate::text::trim_str(o);
            if t.as_str().is_empty() {
                None
            } else {
                Some(t)
            }
        },
        None => None,
    };
    match ip {
        None => None,
        Some(addr) => {
            let hostname = match hostname_output {
                Some(h) => Some(crate::text::trim_str(h)),
                None => None,
            };
            Some(crate::evo::TailscaleInfo { ip: Some(addr), hostname })
        },
    }
}

// ---------------------------------------------------------------------------
// Ollama
// ---------------------------------------------------------------------------

/// A loaded model as `/api/ps` lists it (sizes in bytes).
pub struct OllamaModelStats {
    pub name: String,
    pub size_bytes: u64,
    pub vram_bytes: u64,
    pub processor: String,
    pub expires_at: Option<String>,
}

pub struct ModelView {
    pub name: Seq<char>,
    pub size_bytes: u64,
    pub vram_bytes: u64,
    pub processor: Seq<char>,
    pub expires_at: Option<Seq<char>>,
}

impl View for OllamaModelStats {
    type V = ModelView;

    open spec fn view(&self) -> ModelView {
        ModelView {
            name: self.name@,
            size_bytes: self.size_bytes,
            vram_bytes: self.vram_bytes,
            processor: self.processor@,
            expires_at: crate::text::opt_view(self.expires_at),
        }
    }
}

/// One entry of `/api/ps`: it needs a textual `name`, a whole `size` and a
/// `size_vram` member (counted as 0 when not a whole number); entries
/// without them are left out.
pub open spec fn model_entry(m: JsonValue) -> Option<ModelView> {
    match (text_of(m.member("name"@)), unsigned_of(m.member("size"@)), m.member("size_vram"@)) {
        (Some(name), Some(size), Some(vram)) => Some(
            ModelView {
                name: name,
                size_bytes: size,
                vram_bytes: match vram.unsigned() {
                    Some(v) => v,
                    None => 0,
                },
                processor: match text_of(member_of(m.member("details"@), "processor"@)) {
                    Some(p) => p,
                    None => Seq::<char>::empty(),
                },
                expires_at: text_of(m.member("expires_at"@)),
            },
        ),
        _ => None,
    }
}

pub open spec fn model_entries(ms: Seq<JsonValue>) -> Seq<ModelView>
    decreases ms.len(),
{
    if ms.len() == 0 {
        Seq::<ModelView>::empty()
    } else {
        match model_entry(ms.last()) {
            Some(v) => model_entries(ms.drop_last()).push(v),
            None => model_entries(ms.drop_last()),
        }
    }
}

pub open spec fn model_views(v: Seq<OllamaModelStats>) -> Seq<ModelView> {
    v.map_values(|m: OllamaModelStats| m@)
}

fn model_from(m: &JsonValue) -> (r: Option<OllamaModelStats>)
    ensures
        match r {
            Some(x) => model_entry(*m) == Some(x@),
            None => model_entry(*m) is None,
        },
{
    let name = match member_str(m, "name") {
        Some(n) => n,
        None => {
            return None;
        },
    };
    let size = match member_u64(m, "size") {
        Some(n) => n,
        None => {
            return None;
        },
    };
    let vram = match m.get("size_vram") {
        Some(v) => match v.as_u64() {
            Some(n) => n,
            None => 0,
        },
        None => {
            return None;
        },
    };
    let processor = match m.get("details") {
        Some(d) => match member_str(d, "processor") {
            Some(p) => String::from_str(p),
            None => String::new(),
        },
        None => String::new(),
    };
    let expires_at = match member_str(m, "expires_at") {
        Some(e) => Some(String::from_str(e)),
        None => None,
    };
    Some(
        OllamaModelStats {
            name: String::from_str(name),
            size_bytes: size,
            vram_bytes: vram,
            processor,
            expires_at,
        },
    )
}

/// The loaded models of an `/api/ps` reply; nothing when it has no
/// `models` array.
pub fn running_models(ps: &JsonValue) -> (r: Option<Vec<OllamaModelStats>>)
    ensures
        match items_of(ps.member("models"@)) {
            Some(ms) => r matches Some(v) && model_views(v@) == model_entries(ms),
            None => r is None,
        },
{
    let ms = match member_array(ps, "models") {
        Some(a) => a,
        None => {
            return None;
        },
    };
    let mut out: Vec<OllamaModelStats> = Vec::new();
    let mut i: usize = 0;
    assert(ms@.take(0) =~= Seq::<JsonValue>::empty());
    assert(model_views(out@) =~= model_entries(ms@.take(0)));
    while i < ms.len()
        invariant
            i <= ms.len(),
            model_views(out@) == model_entries(ms@.take(i as int)),
        decreases ms.len() - i,
    {
        assert(ms@.take(i + 1).drop_last() =~= ms@.take(i as int));
        match model_from(&ms[i]) {
            Some(x) => {
                out.push(x);
                assert(model_views(out@) =~= model_entries(ms@.take(i as int)).push(
                    model_entry(ms@[i as int])->0,
                ));
            },
            None => {},
        }
        i = i + 1;
    }
    assert(ms@.take(ms@.len() as int) =~= ms@);
    Some(out)
}

/// The textual `name`s of the entries of `ms`.
pub open spec fn model_names(ms: Seq<JsonValue>) -> Seq<Seq<char>>
    decreases ms.len(),
{
    if ms.len() == 0 {
        Seq::<Seq<char>>::empty()
    } else {
        match text_of(ms.last().member("name"@)) {
            Some(n) => model_names(ms.drop_last()).push(n),
            None => model_names(ms.drop_last()),
        }
    }
}

/// The installed models of an `/api/tags` reply (empty when it lists none).
pub fn available_models(tags: &JsonValue) -> (r: Vec<String>)
    ensures
        crate::text::string_views(r@) == match items_of(tags.member("models"@)) {
            Some(ms) => model_names(ms),
            None => Seq::<Seq<char>>::empty(),
        },
{
    let mut out: Vec<String> = Vec::new();
    let ms = match member_array(tags, "models") {
        Some(a) => a,
        None => {
            assert(crate::text::string_views(out@) =~= Seq::<Seq<char>>::empty());
            return out;
        },
    };
    let mut i: usize = 0;
    assert(ms@.take(0) =~= Seq::<JsonValue>::empty());
    assert(crate::text::string_views(out@) =~= model_names(ms@.take(0)));
    while i < ms.len()
        invariant
            i <= ms.len(),
            crate::text::string_views(out@) == model_names(ms@.take(i as int)),
        decreases ms.len() - i,
    {
        assert(ms@.take(i + 1).drop_last() =~= ms@.take(i as int));
        match member_str(&ms[i], "name") {
            Some(n) => {
                out.push(String::from_str(n));
                assert(crate::text::string_views(out@) =~= model_names(ms@.take(i as int)).push(
                    text_of(ms@[i as int].member("name"@))->0,
                ));
            },
            None => {},
        }
        i = i + 1;
    }
    assert(ms@.take(ms@.len() as int) =~= ms@);
    out
}

} // verus!
