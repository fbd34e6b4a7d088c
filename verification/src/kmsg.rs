//! Kernel-log pattern matching for an external GPU on a given PCI address.
//!
//! The monitor recognises three kinds of lines: PCIe completion timeouts
//! (`CmpltTO`) for its device, nvidia-modeset "waiting for GPU progress"
//! errors for its GPU index, and `NVRM: Xid` reports for its device.
use vstd::prelude::*;
use crate::text::{opt_view, lowercase, to_lowercase, trim_end_matches, trim_end_matches_exec, trim_start_matches, 
    chars_eq, chars_of, contains, contains_exec, decimal, decimal_string, digit_prefix_len,
    digit_run_end, digits_value, ends_with, starts_with, extend_chars, find_index, find_seq, last_index_of,
    occurs_at_exec, parse_digits_u32, rfind_char, slice_chars, string_views, utf8_len, utf8_len_exceeds,
};

verus! {

/// What a matching kernel-log line asks the warning logic to do.
#[derive(Debug, Clone, PartialEq, Eq)]
pub enum WarningTrigger {
    CmpltToPattern,
    GpuProgressError,
    XidError { xid: u32 },
}

/// Watches the kernel log for errors of one external GPU.
pub struct KmsgMonitor {
    /// Full PCI address, e.g. `0000:05:00.0`.
    pub pci_address: String,
    /// GPU index used by nvidia-modeset messages (`GPU:1:`), if known.
    pub gpu_index: Option<String>,
    /// Path of the kernel log device.
    pub kmsg_path: String,
}

/// Index of the first entry whose lowercase form equals `target`, at or after `k`.
pub open spec fn first_lowercase_match(entries: Seq<Seq<char>>, target: Seq<char>, k: int) -> Option<int>
    decreases entries.len() - k,
{
    if k < 0 || k >= entries.len() {
        None
    } else if lowercase(entries[k]) == target {
        Some(k)
    } else {
        first_lowercase_match(entries, target, k + 1)
    }
}

/// GPU index of `pci` among the nvidia GPU directory names (in listing
/// order); `None` when the directory could not be listed or has no entry
/// for the address. Names and address are compared in lowercase.
pub open spec fn gpu_index_of(pci: Seq<char>, entries: Option<Seq<Seq<char>>>) -> Option<Seq<char>> {
    match entries {
        None => None,
        Some(es) => match first_lowercase_match(es, lowercase(pci), 0) {
            Some(k) => Some(decimal(k as nat)),
            None => None,
        },
    }
}

/// The shortened address form (`05:00.0` for `0000:05:00.0`): the text after
/// the next-to-last `:` (the whole address when there is none), used when the
/// last `:` lies more than two bytes in.
pub open spec fn short_pci_form(p: Seq<char>) -> Option<Seq<char>> {
    match last_index_of(p, ':') {
        Some(ci) => if utf8_len(p.subrange(0, ci)) > 2 {
            let start = match last_index_of(p.subrange(0, ci), ':') {
                Some(j) => j + 1,
                None => 0,
            };
            Some(p.subrange(start, p.len() as int))
        } else {
            None
        },
        None => None,
    }
}

/// The line names the address, in full or in its short form.
pub open spec fn line_names_pci(p: Seq<char>, line: Seq<char>) -> bool {
    contains(line, p) || match short_pci_form(p) {
        Some(s) => contains(line, s),
        None => false,
    }
}

pub open spec fn is_cmplto_line(p: Seq<char>, line: Seq<char>) -> bool {
    contains(line, "CmpltTO"@) && line_names_pci(p, line)
}

pub open spec fn is_gpu_progress_line(gpu_index: Option<Seq<char>>, line: Seq<char>) -> bool {
    &&& contains(line, "nvidia-modeset"@)
    &&& contains(line, "Error while waiting for GPU progress"@)
    &&& match gpu_index {
        Some(idx) => contains(line, "GPU:"@ + idx + ":"@),
        None => true,
    }
}

/// The Xid line names the device, in full, short, or `PCI:<domain:bus:dev>` form.
pub open spec fn xid_names_pci(p: Seq<char>, line: Seq<char>) -> bool {
    ||| line_names_pci(p, line)
    ||| contains(line, "PCI:"@ + trim_end_matches(p, ".0"@))
    ||| contains(line, "PCI:"@ + p)
}

/// The Xid number: the digits right after the first `"): "`, read as a `u32`.
pub open spec fn xid_number(p: Seq<char>, line: Seq<char>) -> Option<u32> {
    if !contains(line, "NVRM"@) || !contains(line, "Xid"@) || !xid_names_pci(p, line) {
        None
    } else {
        match find_index(line, "): "@) {
            Some(i) => {
                let after = line.subrange(i + 3, line.len() as int);
                let digits = after.subrange(0, digit_prefix_len(after) as int);
                if digits.len() > 0 && digits_value(digits) <= u32::MAX {
                    Some(digits_value(digits) as u32)
                } else {
                    None
                }
            },
            None => None,
        }
    }
}

/// Which trigger a line raises; the checks are tried in this order.
pub open spec fn trigger_for(p: Seq<char>, gpu_index: Option<Seq<char>>, line: Seq<char>) -> Option<WarningTrigger> {
    if is_cmplto_line(p, line) {
        Some(WarningTrigger::CmpltToPattern)
    } else if is_gpu_progress_line(gpu_index, line) {
        Some(WarningTrigger::GpuProgressError)
    } else {
        match xid_number(p, line) {
            Some(x) => Some(WarningTrigger::XidError { xid: x }),
            None => None,
        }
    }
}

pub open spec fn entries_view(o: Option<Vec<String>>) -> Option<Seq<Seq<char>>> {
    match o {
        Some(v) => Some(string_views(v@)),
        None => None,
    }
}

impl KmsgMonitor {
    /// A monitor on `/dev/kmsg` for `pci_address`. `nvidia_gpu_dirs` are the
    /// entry names of `/proc/driver/nvidia/gpus` in listing order, or `None`
    /// when that directory does not exist or cannot be read.
    pub fn new(pci_address: String, nvidia_gpu_dirs: Option<Vec<String>>) -> (m: Self)
        ensures
            m.pci_address@ == pci_address@,
            opt_view(m.gpu_index) == gpu_index_of(pci_address@, entries_view(nvidia_gpu_dirs)),
            m.kmsg_path@ == "/dev/kmsg"@,
    {
        let gpu_index = Self::detect_gpu_index(pci_address.as_str(), &nvidia_gpu_dirs);
        let kmsg_path = String::from_str("/dev/kmsg");
        KmsgMonitor { pci_address, gpu_index, kmsg_path }
    }

    /// A monitor reading the kernel log from `path`.
    pub fn with_path(pci_address: String, path: String, nvidia_gpu_dirs: Option<Vec<String>>) -> (m: Self)
        ensures
            m.pci_address@ == pci_address@,
            opt_view(m.gpu_index) == gpu_index_of(pci_address@, entries_view(nvidia_gpu_dirs)),
            m.kmsg_path@ == path@,
    {
        let gpu_index = Self::detect_gpu_index(pci_address.as_str(), &nvidia_gpu_dirs);
        KmsgMonitor { pci_address, gpu_index, kmsg_path: path }
    }

    /// GPU index of `pci_address` among the nvidia GPU directory names.
    pub fn detect_gpu_index(pci_address: &str, nvidia_gpu_dirs: &Option<Vec<String>>) -> (r: Option<String>)
        ensures
            opt_view(r) == gpu_index_of(pci_address@, entries_view(*nvidia_gpu_dirs)),
    {
        match nvidia_gpu_dirs {
            None => None,
            Some(entries) => {
                let target = to_lowercase(pci_address);
                let tv = chars_of(target.as_str());
                let ghost es = string_views(entries@);
                let mut k: usize = 0;
                assert(entries_view(*nvidia_gpu_dirs) == Some(es));
                while k < entries.len()
                    invariant
                        k <= entries.len(),
                        es == string_views(entries@),
                        entries_view(*nvidia_gpu_dirs) == Some(es),
                        tv@ == lowercase(pci_address@),
                        first_lowercase_match(es, tv@, 0) == first_lowercase_match(es, tv@, k as int),
                    decreases entries.len() - k,
                {
                    let name = to_lowercase(entries[k].as_str());
                    let nv = chars_of(name.as_str());
                    assert(es.len() == entries.len());
                    assert(es[k as int] == entries@[k as int]@);
                    if chars_eq(&nv, &tv) {
                        assert(first_lowercase_match(es, tv@, k as int) == Some(k as int));
                        assert(entries_view(*nvidia_gpu_dirs) == Some(es));
                        let r = decimal_string(k as u64);
                        assert(opt_view(Some(r)) == Some(decimal(k as nat)));
                        return Some(r);
                    }
                    k = k + 1;
                }
                None
            },
        }
    }

    /// Whether the line names this monitor's PCI address (full or short form).
    fn line_matches_pci(&self, line: &Vec<char>) -> (r: bool)
        ensures
            r == line_names_pci(self.pci_address@, line@),
    {
        let p = chars_of(self.pci_address.as_str());
        if contains_exec(line, &p) {
            return true;
        }
        match rfind_char(&p, ':') {
            Some(ci) => {
                if utf8_len_exceeds(&p, ci, 2) {
                    let pv = slice_chars(&p, 0, ci);
                    let start = match rfind_char(&pv, ':') {
                        Some(j) => j + 1,
                        None => 0,
                    };
                    let short = slice_chars(&p, start, p.len());
                    contains_exec(line, &short)
                } else {
                    false
                }
            },
            None => false,
        }
    }

    /// Whether a kernel log line reports a completion timeout for this device.
    pub fn matches_cmplto(&self, line: &str) -> (r: bool)
        ensures
            r == is_cmplto_line(self.pci_address@, line@),
    {
        let lv = chars_of(line);
        let pat = chars_of("CmpltTO");
        let has_cmplto = contains_exec(&lv, &pat);
        let has_pci = self.line_matches_pci(&lv);
        has_cmplto && has_pci
    }

    /// Whether a kernel log line is an nvidia-modeset "waiting for GPU
    /// progress" error for this GPU (any GPU when the index is unknown).
    pub fn matches_gpu_progress_error(&self, line: &str) -> (r: bool)
        ensures
            r == is_gpu_progress_line(opt_view(self.gpu_index), line@),
    {
        let lv = chars_of(line);
        if !contains_exec(&lv, &chars_of("nvidia-modeset")) || !contains_exec(
            &lv,
            &chars_of("Error while waiting for GPU progress"),
        ) {
            return false;
        }
        match &self.gpu_index {
            Some(idx) => {
                let mut pat = chars_of("GPU:");
                extend_chars(&mut pat, &chars_of(idx.as_str()));
                extend_chars(&mut pat, &chars_of(":"));
                contains_exec(&lv, &pat)
            },
            None => true,
        }
    }

    /// The Xid number of an `NVRM: Xid` line for this device, if the line is one.
    pub fn matches_xid_error(&self, line: &str) -> (r: Option<u32>)
        ensures
            r == xid_number(self.pci_address@, line@),
    {
        let lv = chars_of(line);
        if !contains_exec(&lv, &chars_of("NVRM")) || !contains_exec(&lv, &chars_of("Xid")) {
            return None;
        }
        if !self.line_matches_pci(&lv) {
            let p = chars_of(self.pci_address.as_str());
            let short = trim_end_matches_exec(&p, &chars_of(".0"));
            let mut pat1 = chars_of("PCI:");
            extend_chars(&mut pat1, &short);
            let mut pat2 = chars_of("PCI:");
            extend_chars(&mut pat2, &p);
            if !contains_exec(&lv, &pat1) && !contains_exec(&lv, &pat2) {
                return None;
            }
        }
        proof {
            reveal_strlit("): ");
        }
        match find_seq(&lv, &chars_of("): ")) {
            Some(i) => {
                let ghost sep = "): "@;
                assert(sep.len() == 3);
                assert(i + sep.len() <= lv.len());
                let start = i + 3;
                let end = digit_run_end(&lv, start);
                let ghost after = lv@.subrange(start as int, lv@.len() as int);
                assert(after.subrange(0, digit_prefix_len(after) as int) =~= lv@.subrange(
                    start as int,
                    end as int,
                ));
                parse_digits_u32(&lv, start, end)
            },
            None => None,
        }
    }

    /// The trigger a kernel log line raises for this device, if any.
    pub fn classify_line(&self, line: &str) -> (r: Option<WarningTrigger>)
        ensures
            r == trigger_for(self.pci_address@, opt_view(self.gpu_index), line@),
    {
        if self.matches_cmplto(line) {
            Some(WarningTrigger::CmpltToPattern)
        } else if self.matches_gpu_progress_error(line) {
            Some(WarningTrigger::GpuProgressError)
        } else {
            match self.matches_xid_error(line) {
                Some(xid) => Some(WarningTrigger::XidError { xid }),
                None => None,
            }
        }
    }
}

// ── Monitoring loop ──

/// Where the monitoring loop stands.
#[derive(Clone, Copy, PartialEq, Eq)]
pub enum MonitorPhase {
    /// Opening the kernel log.
    Starting,
    /// Skipping the messages buffered before start; `drained` so far.
    Draining { drained: u32 },
    /// Reacting to new messages.
    Watching,
    Stopped,
}

/// What the loop observed.
pub enum MonitorEvent {
    /// The kernel log was opened.
    Opened,
    /// The kernel log could not be opened.
    OpenFailed,
    /// A line was read.
    Line(String),
    /// No buffered line arrived in time while draining (or reading failed).
    DrainTimeout,
    /// The log reported end of file.
    EndOfFile,
    /// Reading failed (the kernel log reports overruns this way).
    ReadError,
    /// Shutdown was requested.
    Cancelled,
    /// The trigger channel is closed.
    SendFailed,
}

/// What the loop does next.
pub enum MonitorAction {
    /// Read the next buffered line.
    SkipNext,
    /// Start watching; `skipped` old lines were drained.
    StartWatching { skipped: u32 },
    /// Read the next line.
    ReadNext,
    /// Report a trigger, then read the next line.
    Send(WarningTrigger),
    /// Wait, then read again.
    Sleep { millis: u64 },
    Stop,
}

/// Events that can happen in a phase (opening is only reported at the
/// start; shutdown and a closed channel are only observed while watching).
pub open spec fn monitor_event_fits(phase: MonitorPhase, event: MonitorEvent) -> bool {
    match phase {
        MonitorPhase::Starting => event is Opened || event is OpenFailed,
        MonitorPhase::Draining { drained } => match event {
            MonitorEvent::Line(_) => drained < u32::MAX,
            MonitorEvent::DrainTimeout => true,
            _ => false,
        },
        MonitorPhase::Watching => !(event is DrainTimeout || event is Opened || event is OpenFailed),
        MonitorPhase::Stopped => true,
    }
}

/// What one step of the monitoring loop does: a log that cannot be opened
/// stops the loop; old messages are then drained without reacting;
/// afterwards each line that raises a trigger is reported, end of file waits
/// a second, read errors wait 100 ms, and shutdown or a closed channel stops
/// the loop.
pub open spec fn monitor_next(m: KmsgMonitor, phase: MonitorPhase, event: MonitorEvent) -> (
    MonitorPhase,
    MonitorAction,
) {
    match phase {
        MonitorPhase::Starting => match event {
            MonitorEvent::Opened => (MonitorPhase::Draining { drained: 0 }, MonitorAction::SkipNext),
            _ => (MonitorPhase::Stopped, MonitorAction::Stop),
        },
        MonitorPhase::Draining { drained } => match event {
            MonitorEvent::Line(_) => (
                MonitorPhase::Draining { drained: (drained + 1) as u32 },
                MonitorAction::SkipNext,
            ),
            _ => (MonitorPhase::Watching, MonitorAction::StartWatching { skipped: drained }),
        },
        MonitorPhase::Watching => match event {
            MonitorEvent::Line(l) => (
                MonitorPhase::Watching,
                match trigger_for(m.pci_address@, opt_view(m.gpu_index), l@) {
                    Some(t) => MonitorAction::Send(t),
                    None => MonitorAction::ReadNext,
                },
            ),
            MonitorEvent::EndOfFile => (MonitorPhase::Watching, MonitorAction::Sleep { millis: 1000 }),
            MonitorEvent::ReadError => (MonitorPhase::Watching, MonitorAction::Sleep { millis: 100 }),
            _ => (MonitorPhase::Stopped, MonitorAction::Stop),
        },
        MonitorPhase::Stopped => (MonitorPhase::Stopped, MonitorAction::Stop),
    }
}

/// The outcome of one step (see `monitor_next`).
pub open spec fn monitor_step_post(
    m: KmsgMonitor,
    phase: MonitorPhase,
    event: MonitorEvent,
    r: (MonitorPhase, MonitorAction),
) -> bool {
    r == monitor_next(m, phase, event)
}

impl KmsgMonitor {
    /// One step of the monitoring loop (see `monitor_next`).
    pub fn monitor_step(&self, phase: MonitorPhase, event: &MonitorEvent) -> (r: (
        MonitorPhase,
        MonitorAction,
    ))
        requires
            monitor_event_fits(phase, *event),
        ensures
            monitor_step_post(*self, phase, *event, r),
    {
        match phase {
            MonitorPhase::Starting => match event {
                MonitorEvent::Opened => (MonitorPhase::Draining { drained: 0 }, MonitorAction::SkipNext),
                _ => (MonitorPhase::Stopped, MonitorAction::Stop),
            },
            MonitorPhase::Draining { drained } => match event {
                MonitorEvent::Line(_) => (
                    MonitorPhase::Draining { drained: drained + 1 },
                    MonitorAction::SkipNext,
                ),
                _ => (MonitorPhase::Watching, MonitorAction::StartWatching { skipped: drained }),
            },
            MonitorPhase::Watching => match event {
                MonitorEvent::Line(l) => match self.classify_line(l.as_str()) {
                    Some(t) => (MonitorPhase::Watching, MonitorAction::Send(t)),
                    None => (MonitorPhase::Watching, MonitorAction::ReadNext),
                },
                MonitorEvent::EndOfFile => (
                    MonitorPhase::Watching,
                    MonitorAction::Sleep { millis: 1000 },
                ),
                MonitorEvent::ReadError => (
                    MonitorPhase::Watching,
                    MonitorAction::Sleep { millis: 100 },
                ),
                _ => (MonitorPhase::Stopped, MonitorAction::Stop),
            },
            MonitorPhase::Stopped => (MonitorPhase::Stopped, MonitorAction::Stop),
        }
    }
}

// ── The loop over a run of events ──

/// The phase reached and the actions taken when the loop meets `events` in
/// turn, starting in `phase`.
pub open spec fn monitor_run(m: KmsgMonitor, phase: MonitorPhase, events: Seq<MonitorEvent>) -> (
    MonitorPhase,
    Seq<MonitorAction>,
)
    decreases events.len(),
{
    if events.len() == 0 {
        (phase, Seq::empty())
    } else {
        let (p1, a) = monitor_next(m, phase, events[0]);
        let (pn, rest) = monitor_run(m, p1, events.drop_first());
        (pn, seq![a] + rest)
    }
}

/// The triggers that `actions` report, in order.
pub open spec fn sent(actions: Seq<MonitorAction>) -> Seq<WarningTrigger>
    decreases actions.len(),
{
    if actions.len() == 0 {
        Seq::empty()
    } else {
        match actions[0] {
            MonitorAction::Send(t) => seq![t] + sent(actions.drop_first()),
            _ => sent(actions.drop_first()),
        }
    }
}

/// The triggers that the lines among `events` raise, in order.
pub open spec fn line_triggers(m: KmsgMonitor, events: Seq<MonitorEvent>) -> Seq<WarningTrigger>
    decreases events.len(),
{
    if events.len() == 0 {
        Seq::empty()
    } else {
        let rest = line_triggers(m, events.drop_first());
        match events[0] {
            MonitorEvent::Line(l) => match trigger_for(m.pci_address@, opt_view(m.gpu_index), l@) {
                Some(t) => seq![t] + rest,
                None => rest,
            },
            _ => rest,
        }
    }
}

pub open spec fn all_lines(events: Seq<MonitorEvent>) -> bool {
    forall|i: int| 0 <= i < events.len() ==> #[trigger] events[i] is Line
}

/// Events of an uninterrupted watch: lines, end of file, read errors.
pub open spec fn watch_events(events: Seq<MonitorEvent>) -> bool {
    forall|i: int|
        0 <= i < events.len() ==> (#[trigger] events[i] is Line || events[i] is EndOfFile
            || events[i] is ReadError)
}

proof fn lemma_sent_cons(a: MonitorAction, rest: Seq<MonitorAction>)
    ensures
        sent(seq![a] + rest) == match a {
            MonitorAction::Send(t) => seq![t] + sent(rest),
            _ => sent(rest),
        },
{
    let s = seq![a] + rest;
    assert(s[0] == a);
    assert(s.drop_first() =~= rest);
}

/// The run of a single event is that event's step.
proof fn lemma_run_one(m: KmsgMonitor, p: MonitorPhase, e: MonitorEvent)
    ensures
        monitor_run(m, p, seq![e]) == (monitor_next(m, p, e).0, seq![monitor_next(m, p, e).1]),
{
    let s = seq![e];
    let step = monitor_next(m, p, e);
    assert(s[0] == e);
    assert(s.drop_first() =~= Seq::<MonitorEvent>::empty());
    assert(monitor_run(m, step.0, s.drop_first()) == (step.0, Seq::<MonitorAction>::empty()));
    assert(monitor_run(m, p, s).1 =~= seq![step.1]);
    assert(monitor_run(m, p, s).0 == step.0);
}

proof fn lemma_sent_append(a: Seq<MonitorAction>, b: Seq<MonitorAction>)
    ensures
        sent(a + b) == sent(a) + sent(b),
    decreases a.len(),
{
    if a.len() == 0 {
        assert(a + b =~= b);
    } else {
        lemma_sent_append(a.drop_first(), b);
        assert((a + b).drop_first() =~= a.drop_first() + b);
        match a[0] {
            MonitorAction::Send(t) => {
                assert(seq![t] + (sent(a.drop_first()) + sent(b)) =~= (seq![t] + sent(a.drop_first())) + sent(b));
            },
            _ => {},
        }
    }
}

proof fn lemma_run_append(m: KmsgMonitor, p: MonitorPhase, a: Seq<MonitorEvent>, b: Seq<MonitorEvent>)
    ensures
        monitor_run(m, p, a + b) == (
            monitor_run(m, monitor_run(m, p, a).0, b).0,
            monitor_run(m, p, a).1 + monitor_run(m, monitor_run(m, p, a).0, b).1,
        ),
    decreases a.len(),
{
    if a.len() == 0 {
        assert(a + b =~= b);
        assert(Seq::<MonitorAction>::empty() + monitor_run(m, p, b).1 =~= monitor_run(m, p, b).1);
    } else {
        let p1 = monitor_next(m, p, a[0]).0;
        lemma_run_append(m, p1, a.drop_first(), b);
        assert((a + b).drop_first() =~= a.drop_first() + b);
        assert((a + b)[0] == a[0]);
        let x = monitor_next(m, p, a[0]).1;
        let r1 = monitor_run(m, p1, a.drop_first()).1;
        let r2 = monitor_run(m, monitor_run(m, p1, a.drop_first()).0, b).1;
        assert(seq![x] + (r1 + r2) =~= (seq![x] + r1) + r2);
    }
}

/// Draining lines only counts them and reports nothing.
proof fn lemma_drain(m: KmsgMonitor, d: u32, lines: Seq<MonitorEvent>)
    requires
        all_lines(lines),
        d + lines.len() <= u32::MAX,
    ensures
        monitor_run(m, MonitorPhase::Draining { drained: d }, lines).0 == (MonitorPhase::Draining {
            drained: (d + lines.len()) as u32,
        }),
        sent(monitor_run(m, MonitorPhase::Draining { drained: d }, lines).1) == Seq::<WarningTrigger>::empty(),
    decreases lines.len(),
{
    if lines.len() > 0 {
        assert(lines[0] is Line);
        assert forall|i: int| 0 <= i < lines.drop_first().len() implies #[trigger] lines.drop_first()[i] is Line by {
            assert(lines.drop_first()[i] == lines[i + 1]);
        }
        lemma_drain(m, (d + 1) as u32, lines.drop_first());
        let step = monitor_next(m, MonitorPhase::Draining { drained: d }, lines[0]);
        lemma_sent_cons(step.1, monitor_run(m, step.0, lines.drop_first()).1);
    }
}

/// While watching without interruption, the loop keeps watching and
/// reports exactly the triggers of the lines, in order.
proof fn lemma_watch(m: KmsgMonitor, events: Seq<MonitorEvent>)
    requires
        watch_events(events),
    ensures
        monitor_run(m, MonitorPhase::Watching, events).0 == MonitorPhase::Watching,
        sent(monitor_run(m, MonitorPhase::Watching, events).1) == line_triggers(m, events),
    decreases events.len(),
{
    if events.len() > 0 {
        assert(events[0] is Line || events[0] is EndOfFile || events[0] is ReadError);
        assert forall|i: int| 0 <= i < events.drop_first().len() implies (#[trigger] events.drop_first()[i] is Line
            || events.drop_first()[i] is EndOfFile || events.drop_first()[i] is ReadError) by {
            assert(events.drop_first()[i] == events[i + 1]);
        }
        lemma_watch(m, events.drop_first());
        let step = monitor_next(m, MonitorPhase::Watching, events[0]);
        lemma_sent_cons(step.1, monitor_run(m, step.0, events.drop_first()).1);
    }
}

/// A stopped loop stays stopped and reports nothing.
proof fn lemma_stopped(m: KmsgMonitor, events: Seq<MonitorEvent>)
    ensures
        monitor_run(m, MonitorPhase::Stopped, events).0 == MonitorPhase::Stopped,
        sent(monitor_run(m, MonitorPhase::Stopped, events).1) == Seq::<WarningTrigger>::empty(),
    decreases events.len(),
{
    if events.len() > 0 {
        lemma_stopped(m, events.drop_first());
        lemma_sent_cons(MonitorAction::Stop, monitor_run(m, MonitorPhase::Stopped, events.drop_first()).1);
    }
}

/// Messages already in the kernel log when monitoring starts never raise a
/// trigger: while draining, no step reports one.
pub proof fn law_old_messages_never_trigger(m: KmsgMonitor, drained: u32, event: MonitorEvent)
    requires
        monitor_event_fits(MonitorPhase::Draining { drained }, event),
    ensures
        forall|r: (MonitorPhase, MonitorAction)|
            monitor_step_post(m, MonitorPhase::Draining { drained }, event, r) ==> !(r.1 is Send),
{
}

/// Over a whole run: after the log is opened, the lines already buffered
/// are drained without any report; afterwards, each new line raises the
/// trigger of the first check it matches (completion timeout, GPU progress
/// error, Xid), at most one per line, in the order of the lines; end of
/// file and read errors report nothing, and the loop keeps watching.
pub proof fn law_monitor_reports_new_lines(m: KmsgMonitor, old: Seq<MonitorEvent>, new: Seq<MonitorEvent>)
    requires
        all_lines(old),
        old.len() < u32::MAX,
        watch_events(new),
    ensures
        ({
            let run = monitor_run(m, MonitorPhase::Starting, seq![MonitorEvent::Opened] + old + seq![MonitorEvent::DrainTimeout] + new);
            &&& run.0 == MonitorPhase::Watching
            &&& sent(run.1) == line_triggers(m, new)
        }),
{
    let start = seq![MonitorEvent::Opened];
    let timeout = seq![MonitorEvent::DrainTimeout];
    let d0 = MonitorPhase::Draining { drained: 0 };
    lemma_run_append(m, MonitorPhase::Starting, start, old);
    lemma_run_append(m, MonitorPhase::Starting, start + old, timeout);
    lemma_run_append(m, MonitorPhase::Starting, start + old + timeout, new);
    lemma_run_one(m, MonitorPhase::Starting, MonitorEvent::Opened);
    lemma_drain(m, 0, old);
    let dn = MonitorPhase::Draining { drained: old.len() as u32 };
    lemma_run_one(m, dn, MonitorEvent::DrainTimeout);
    lemma_watch(m, new);
    let a1 = monitor_run(m, MonitorPhase::Starting, start).1;
    let a2 = monitor_run(m, d0, old).1;
    let a3 = monitor_run(m, dn, timeout).1;
    let a4 = monitor_run(m, MonitorPhase::Watching, new).1;
    lemma_sent_append(a1, a2);
    lemma_sent_append(a1 + a2, a3);
    lemma_sent_append(a1 + a2 + a3, a4);
    lemma_sent_cons(MonitorAction::SkipNext, Seq::empty());
    lemma_sent_cons(MonitorAction::StartWatching { skipped: old.len() as u32 }, Seq::empty());
    assert(seq![MonitorAction::SkipNext] + Seq::<MonitorAction>::empty() =~= a1);
    assert(seq![MonitorAction::StartWatching { skipped: old.len() as u32 }] + Seq::<MonitorAction>::empty() =~= a3);
    assert(sent(a1 + a2 + a3 + a4) =~= line_triggers(m, new));
}

/// The loop stops for good, reporting nothing more: when the log cannot be
/// opened, and when shutdown is requested or the trigger channel is closed
/// while watching; whatever happens afterwards.
pub proof fn law_monitor_stops(m: KmsgMonitor, stop: MonitorEvent, after: Seq<MonitorEvent>)
    requires
        stop is Cancelled || stop is SendFailed,
    ensures
        monitor_run(m, MonitorPhase::Starting, seq![MonitorEvent::OpenFailed] + after).0
            == MonitorPhase::Stopped,
        sent(monitor_run(m, MonitorPhase::Starting, seq![MonitorEvent::OpenFailed] + after).1)
            == Seq::<WarningTrigger>::empty(),
        monitor_run(m, MonitorPhase::Watching, seq![stop] + after).0 == MonitorPhase::Stopped,
        sent(monitor_run(m, MonitorPhase::Watching, seq![stop] + after).1) == Seq::<WarningTrigger>::empty(),
{
    lemma_stopped(m, after);
    let e1 = seq![MonitorEvent::OpenFailed] + after;
    assert(e1[0] == MonitorEvent::OpenFailed);
    assert(e1.drop_first() =~= after);
    lemma_sent_cons(MonitorAction::Stop, monitor_run(m, MonitorPhase::Stopped, after).1);
    let e2 = seq![stop] + after;
    assert(e2[0] == stop);
    assert(e2.drop_first() =~= after);
}

} // verus!
