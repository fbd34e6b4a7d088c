//! Paths and choices of the sysfs PCIe and Thunderbolt controls.
use vstd::prelude::*;
use crate::rebind::{DeviceProbe, is_device_responsive, is_pci_device_present, probe_responsive};
use crate::text::{chars_of, contains, contains_exec, extend_chars, string_of};

verus! {

/// `Path::join` on Unix: an absolute `p` replaces `base`; otherwise `p` is
/// appended, with a `/` in between unless `base` is empty or ends in `/`.
pub open spec fn path_join(base: Seq<char>, p: Seq<char>) -> Seq<char> {
    if p.len() > 0 && p[0] == '/' {
        p
    } else if base.len() > 0 && base.last() != '/' {
        base + "/"@ + p
    } else {
        base + p
    }
}

/// Joins two path strings as `Path::join` does on Unix.
pub fn join_path(base: &str, p: &str) -> (r: String)
    ensures
        r@ == path_join(base@, p@),
{
    let bv = chars_of(base);
    let pv = chars_of(p);
    if pv.len() > 0 && pv[0] == '/' {
        return string_of(&pv);
    }
    let mut v = chars_of(base);
    if bv.len() > 0 && bv[bv.len() - 1] != '/' {
        extend_chars(&mut v, &chars_of("/"));
    }
    extend_chars(&mut v, &pv);
    string_of(&v)
}

/// sysfs directory of a PCI device.
pub fn pci_device_path(pci_address: &str) -> (r: String)
    ensures
        r@ == path_join("/sys/bus/pci/devices"@, pci_address@),
{
    join_path("/sys/bus/pci/devices", pci_address)
}

/// The device is present and its config space is reachable.
pub fn device_ready(probe: &DeviceProbe) -> (r: bool)
    ensures
        r == (probe.vendor_exists && probe_responsive(*probe)),
{
    is_pci_device_present(probe) && is_device_responsive(probe)
}

/// One ancestor directory of a PCI device in the sysfs device tree.
pub struct AncestorProbe {
    /// The directory's last path component, when it is valid UTF-8.
    pub name: Option<String>,
    /// The directory's path.
    pub path: String,
    /// `reset_subordinate` exists in it.
    pub has_reset_subordinate: bool,
    /// `reset` exists in it.
    pub has_reset: bool,
}

/// The reset hook an ancestor offers: ancestors named like a PCI address
/// (holding `:` and `.`) offer `reset_subordinate`, or else `reset`.
pub open spec fn reset_hook(a: AncestorProbe) -> Option<Seq<char>> {
    match a.name {
        None => None,
        Some(n) => if !contains(n@, ":"@) || !contains(n@, "."@) {
            None
        } else if a.has_reset_subordinate {
            Some(path_join(a.path@, "reset_subordinate"@))
        } else if a.has_reset {
            Some(path_join(a.path@, "reset"@))
        } else {
            None
        },
    }
}

/// The reset hooks of the ancestors, nearest first.
pub open spec fn reset_hooks(s: Seq<AncestorProbe>) -> Seq<Seq<char>>
    decreases s.len(),
{
    if s.len() == 0 {
        Seq::empty()
    } else {
        let rest = reset_hooks(s.drop_last());
        match reset_hook(s.last()) {
            Some(p) => rest.push(p),
            None => rest,
        }
    }
}

/// Reset hooks of the upstream bridges of a device, given its ancestors
/// (nearest first, the device itself excluded).
pub fn upstream_reset_paths(ancestors: &Vec<AncestorProbe>) -> (r: Vec<String>)
    ensures
        crate::text::string_views(r@) == reset_hooks(ancestors@),
{
    let mut resets: Vec<String> = Vec::new();
    let mut i: usize = 0;
    while i < ancestors.len()
        invariant
            i <= ancestors.len(),
            crate::text::string_views(resets@) == reset_hooks(ancestors@.subrange(0, i as int)),
        decreases ancestors.len() - i,
    {
        let a = &ancestors[i];
        let ghost before = resets@;
        assert(ancestors@.subrange(0, i + 1).drop_last() =~= ancestors@.subrange(0, i as int));
        match &a.name {
            None => {},
            Some(n) => {
                let nv = chars_of(n.as_str());
                if contains_exec(&nv, &chars_of(":")) && contains_exec(&nv, &chars_of(".")) {
                    if a.has_reset_subordinate {
                        resets.push(join_path(a.path.as_str(), "reset_subordinate"));
                    } else if a.has_reset {
                        resets.push(join_path(a.path.as_str(), "reset"));
                    }
                }
            },
        }
        assert(crate::text::string_views(resets@) =~= reset_hooks(ancestors@.subrange(0, i + 1)));
        i = i + 1;
    }
    assert(ancestors@.subrange(0, ancestors@.len() as int) =~= ancestors@);
    resets
}

} // verus!

verus! {

// ---------------------------------------------------------------------------
// PCIe function-level reset with upstream fallbacks, as a state machine
// ---------------------------------------------------------------------------

/// Where a reset stands. `final_round` marks the last rescan-and-wait after
/// all upstream hooks were tried.
#[derive(Debug, Clone, Copy, PartialEq, Eq)]
pub enum ResetPhase {
    Start,
    CheckingDevice,
    PoweringDevice,
    CheckingResetHook,
    WritingDeviceReset,
    SettlingDevice,
    CheckingDeviceReady,
    Detaching,
    DetachSettle,
    PoweringParent,
    WritingUpstream,
    SettlingUpstream,
    Rescanning { final_round: bool },
    ClockStarted { final_round: bool },
    ReadingClock { final_round: bool },
    CheckingReady { final_round: bool },
    Polling { final_round: bool },
    Done,
}

/// What the caller reports after performing the last action.
pub enum ResetEvent {
    Started,
    /// Answer to a yes/no check (path exists, device ready).
    Flag(bool),
    WriteOk,
    WriteFailed(String),
    Completed,
    /// Milliseconds since the wait's clock was started.
    Elapsed(u64),
}

pub enum ResetEventView {
    Started,
    Flag(bool),
    WriteOk,
    WriteFailed(Seq<char>),
    Completed,
    Elapsed(u64),
}

impl View for ResetEvent {
    type V = ResetEventView;

    open spec fn view(&self) -> ResetEventView {
        match self {
            ResetEvent::Started => ResetEventView::Started,
            ResetEvent::Flag(b) => ResetEventView::Flag(*b),
            ResetEvent::WriteOk => ResetEventView::WriteOk,
            ResetEvent::WriteFailed(m) => ResetEventView::WriteFailed(m@),
            ResetEvent::Completed => ResetEventView::Completed,
            ResetEvent::Elapsed(ms) => ResetEventView::Elapsed(*ms),
        }
    }
}

/// The next thing the caller must do.
pub enum ResetAction {
    /// Report whether the device's sysfs directory exists.
    CheckDeviceExists,
    /// Set `power/control` to `on` in the device's directory.
    PowerOnDevice,
    /// Report whether this path exists.
    CheckExists { path: String },
    /// Write `1` to this path; report the outcome.
    WriteOne { path: String },
    /// Set `power/control` to `on` in the parent directory of this path.
    PowerOnParentOf { path: String },
    /// Set `driver_override` to `none`, keep the companion audio from
    /// auto-binding, remove it, unbind and remove the device.
    DetachDevice,
    Sleep { millis: u64 },
    /// Start the clock of a readiness wait.
    StartClock,
    /// Report the milliseconds elapsed on the wait's clock.
    ReadClock,
    /// Report whether the device is present and reachable.
    CheckReady,
    /// The reset is over: `Ok`, or an error reason.
    Finish(Result<(), String>),
}

pub enum ResetActionView {
    CheckDeviceExists,
    PowerOnDevice,
    CheckExists { path: Seq<char> },
    WriteOne { path: Seq<char> },
    PowerOnParentOf { path: Seq<char> },
    DetachDevice,
    Sleep { millis: u64 },
    StartClock,
    ReadClock,
    CheckReady,
    Finish(Result<(), Seq<char>>),
}

impl View for ResetAction {
    type V = ResetActionView;

    open spec fn view(&self) -> ResetActionView {
        match self {
            ResetAction::CheckDeviceExists => ResetActionView::CheckDeviceExists,
            ResetAction::PowerOnDevice => ResetActionView::PowerOnDevice,
            ResetAction::CheckExists { path } => ResetActionView::CheckExists { path: path@ },
            ResetAction::WriteOne { path } => ResetActionView::WriteOne { path: path@ },
            ResetAction::PowerOnParentOf { path } => ResetActionView::PowerOnParentOf { path: path@ },
            ResetAction::DetachDevice => ResetActionView::DetachDevice,
            ResetAction::Sleep { millis } => ResetActionView::Sleep { millis: *millis },
            ResetAction::StartClock => ResetActionView::StartClock,
            ResetAction::ReadClock => ResetActionView::ReadClock,
            ResetAction::CheckReady => ResetActionView::CheckReady,
            ResetAction::Finish(r) => ResetActionView::Finish(
                match r {
                    Ok(()) => Ok(()),
                    Err(m) => Err(m@),
                },
            ),
        }
    }
}

/// A function-level reset of one PCI device in progress.
pub struct PcieReset {
    pub pci_address: String,
    /// Upstream reset hooks, nearest first.
    pub upstream: Vec<String>,
    /// Wait after each reset write.
    pub settle_millis: u64,
    /// How long each readiness wait lasts.
    pub deadline_millis: u64,
    pub phase: ResetPhase,
    /// Next upstream hook to try.
    pub index: usize,
}

pub open spec fn reset_event_fits(p: ResetPhase, e: ResetEventView) -> bool {
    match p {
        ResetPhase::Start => e is Started,
        ResetPhase::CheckingDevice | ResetPhase::CheckingResetHook | ResetPhase::CheckingDeviceReady
        | ResetPhase::CheckingReady { .. } => e is Flag,
        ResetPhase::WritingDeviceReset | ResetPhase::WritingUpstream | ResetPhase::Rescanning { .. } =>
            e is WriteOk || e is WriteFailed,
        ResetPhase::ReadingClock { .. } => e is Elapsed,
        ResetPhase::Done => false,
        _ => e is Completed,
    }
}

pub open spec fn flag(e: ResetEventView) -> bool {
    match e {
        ResetEventView::Flag(b) => b,
        _ => false,
    }
}

pub open spec fn elapsed(e: ResetEventView) -> u64 {
    match e {
        ResetEventView::Elapsed(ms) => ms,
        _ => 0,
    }
}

pub open spec fn rescan_path_spec() -> Seq<char> {
    "/sys/bus/pci/rescan"@
}

pub open spec fn not_ready_reason(deadline_millis: u64) -> Seq<char> {
    "Device nach Reset/Rescan nicht bereit nach "@ + crate::text::decimal((deadline_millis / 1000) as nat)
        + "s"@
}

/// Try the upstream hook at `index`, or, when none is left, the final rescan.
pub open spec fn next_upstream(up: Seq<Seq<char>>, index: int) -> (ResetPhase, int, ResetActionView) {
    if index < up.len() {
        (ResetPhase::PoweringParent, index, ResetActionView::PowerOnParentOf { path: up[index] })
    } else {
        (ResetPhase::Rescanning { final_round: true }, index, ResetActionView::WriteOne { path: rescan_path_spec() })
    }
}

/// Next phase, next hook index and next action of a reset.
pub open spec fn reset_transition(
    pci: Seq<char>,
    up: Seq<Seq<char>>,
    settle: u64,
    deadline: u64,
    p: ResetPhase,
    index: int,
    e: ResetEventView,
) -> (ResetPhase, int, ResetActionView) {
    let dev = path_join("/sys/bus/pci/devices"@, pci);
    let hook = path_join(dev, "reset"@);
    match p {
        ResetPhase::Start => (ResetPhase::CheckingDevice, index, ResetActionView::CheckDeviceExists),
        ResetPhase::CheckingDevice => if flag(e) {
            (ResetPhase::PoweringDevice, index, ResetActionView::PowerOnDevice)
        } else {
            (ResetPhase::Done, index, ResetActionView::Finish(Err("PCI-Device nicht vorhanden"@)))
        },
        ResetPhase::PoweringDevice => (ResetPhase::CheckingResetHook, index, ResetActionView::CheckExists { path: hook }),
        ResetPhase::CheckingResetHook => if flag(e) {
            (ResetPhase::WritingDeviceReset, index, ResetActionView::WriteOne { path: hook })
        } else {
            (ResetPhase::Detaching, index, ResetActionView::DetachDevice)
        },
        ResetPhase::WritingDeviceReset => if e is WriteOk {
            (ResetPhase::SettlingDevice, index, ResetActionView::Sleep { millis: settle })
        } else {
            (ResetPhase::Detaching, index, ResetActionView::DetachDevice)
        },
        ResetPhase::SettlingDevice => (ResetPhase::CheckingDeviceReady, index, ResetActionView::CheckReady),
        ResetPhase::CheckingDeviceReady => if flag(e) {
            (ResetPhase::Done, index, ResetActionView::Finish(Ok(())))
        } else {
            (ResetPhase::Detaching, index, ResetActionView::DetachDevice)
        },
        ResetPhase::Detaching => (ResetPhase::DetachSettle, index, ResetActionView::Sleep { millis: 1000 }),
        ResetPhase::DetachSettle => next_upstream(up, 0),
        ResetPhase::PoweringParent => (ResetPhase::WritingUpstream, index, ResetActionView::WriteOne { path: up[index] }),
        ResetPhase::WritingUpstream => if e is WriteOk {
            (ResetPhase::SettlingUpstream, index, ResetActionView::Sleep { millis: settle })
        } else {
            next_upstream(up, index + 1)
        },
        ResetPhase::SettlingUpstream => (
            ResetPhase::Rescanning { final_round: false },
            index,
            ResetActionView::WriteOne { path: rescan_path_spec() },
        ),
        ResetPhase::Rescanning { final_round } => match e {
            ResetEventView::WriteFailed(m) => (
                ResetPhase::Done,
                index,
                ResetActionView::Finish(Err(rescan_path_spec() + ": "@ + m)),
            ),
            _ => (ResetPhase::ClockStarted { final_round }, index, ResetActionView::StartClock),
        },
        ResetPhase::ClockStarted { final_round } => (ResetPhase::ReadingClock { final_round }, index, ResetActionView::ReadClock),
        ResetPhase::ReadingClock { final_round } => if elapsed(e) < deadline {
            (ResetPhase::CheckingReady { final_round }, index, ResetActionView::CheckReady)
        } else if final_round {
            (ResetPhase::Done, index, ResetActionView::Finish(Err(not_ready_reason(deadline))))
        } else {
            next_upstream(up, index + 1)
        },
        ResetPhase::CheckingReady { final_round } => if flag(e) {
            (ResetPhase::Done, index, ResetActionView::Finish(Ok(())))
        } else {
            (ResetPhase::Polling { final_round }, index, ResetActionView::Sleep { millis: 500 })
        },
        ResetPhase::Polling { final_round } => (ResetPhase::ReadingClock { final_round }, index, ResetActionView::ReadClock),
        ResetPhase::Done => (ResetPhase::Done, index, ResetActionView::Finish(Ok(()))),
    }
}

impl PcieReset {
    /// Well-formed: the hook index stays within the hook list, and points at
    /// a hook while one is being tried.
    pub open spec fn wf(&self) -> bool {
        &&& self.index <= self.upstream.len()
        &&& (self.phase is PoweringParent || self.phase is WritingUpstream || self.phase is SettlingUpstream
            || self.phase matches ResetPhase::Rescanning { final_round: false }
            || self.phase matches ResetPhase::ClockStarted { final_round: false }
            || self.phase matches ResetPhase::ReadingClock { final_round: false }
            || self.phase matches ResetPhase::CheckingReady { final_round: false }
            || self.phase matches ResetPhase::Polling { final_round: false }) ==> self.index
            < self.upstream.len()
    }

    /// A reset of `pci_address` with the given upstream hooks (nearest first).
    pub fn new(pci_address: String, upstream: Vec<String>, settle_millis: u64, deadline_millis: u64) -> (r: Self)
        ensures
            r.wf(),
            r.phase == ResetPhase::Start,
            r.index == 0,
            r.pci_address == pci_address,
            r.upstream == upstream,
            r.settle_millis == settle_millis,
            r.deadline_millis == deadline_millis,
    {
        PcieReset { pci_address, upstream, settle_millis, deadline_millis, phase: ResetPhase::Start, index: 0 }
    }

    fn next_upstream_exec(&mut self, index: usize) -> (a: ResetAction)
        requires
            index <= old(self).upstream.len(),
        ensures
            (final(self).phase, final(self).index as int, a@) == next_upstream(
                crate::text::string_views(old(self).upstream@),
                index as int,
            ),
            final(self).upstream == old(self).upstream,
            final(self).pci_address == old(self).pci_address,
            final(self).settle_millis == old(self).settle_millis,
            final(self).deadline_millis == old(self).deadline_millis,
    {
        self.index = index;
        if index < self.upstream.len() {
            self.phase = ResetPhase::PoweringParent;
            let path = self.upstream[index].clone();
            ResetAction::PowerOnParentOf { path }
        } else {
            self.phase = ResetPhase::Rescanning { final_round: true };
            ResetAction::WriteOne { path: String::from_str("/sys/bus/pci/rescan") }
        }
    }

    /// One step of the reset: from the outcome of the last action, the next action.
    pub fn step(&mut self, event: &ResetEvent) -> (a: ResetAction)
        requires
            old(self).wf(),
            reset_event_fits(old(self).phase, event@),
        ensures
            final(self).wf(),
            (final(self).phase, final(self).index as int, a@) == reset_transition(
                old(self).pci_address@,
                crate::text::string_views(old(self).upstream@),
                old(self).settle_millis,
                old(self).deadline_millis,
                old(self).phase,
                old(self).index as int,
                event@,
            ),
            final(self).upstream == old(self).upstream,
            final(self).pci_address == old(self).pci_address,
            final(self).settle_millis == old(self).settle_millis,
            final(self).deadline_millis == old(self).deadline_millis,
    {
        let flag = match event {
            ResetEvent::Flag(b) => *b,
            _ => false,
        };
        let write_ok = match event {
            ResetEvent::WriteOk => true,
            _ => false,
        };
        let elapsed_ms = match event {
            ResetEvent::Elapsed(ms) => *ms,
            _ => 0,
        };
        let ghost up = crate::text::string_views(self.upstream@);
        match self.phase {
            ResetPhase::Start => {
                self.phase = ResetPhase::CheckingDevice;
                ResetAction::CheckDeviceExists
            },
            ResetPhase::CheckingDevice => if flag {
                self.phase = ResetPhase::PoweringDevice;
                ResetAction::PowerOnDevice
            } else {
                self.phase = ResetPhase::Done;
                ResetAction::Finish(Err(String::from_str("PCI-Device nicht vorhanden")))
            },
            ResetPhase::PoweringDevice => {
                self.phase = ResetPhase::CheckingResetHook;
                let dev = pci_device_path(self.pci_address.as_str());
                ResetAction::CheckExists { path: join_path(dev.as_str(), "reset") }
            },
            ResetPhase::CheckingResetHook => if flag {
                self.phase = ResetPhase::WritingDeviceReset;
                let dev = pci_device_path(self.pci_address.as_str());
                ResetAction::WriteOne { path: join_path(dev.as_str(), "reset") }
            } else {
                self.phase = ResetPhase::Detaching;
                ResetAction::DetachDevice
            },
            ResetPhase::WritingDeviceReset => if write_ok {
                self.phase = ResetPhase::SettlingDevice;
                ResetAction::Sleep { millis: self.settle_millis }
            } else {
                self.phase = ResetPhase::Detaching;
                ResetAction::DetachDevice
            },
            ResetPhase::SettlingDevice => {
                self.phase = ResetPhase::CheckingDeviceReady;
                ResetAction::CheckReady
            },
            ResetPhase::CheckingDeviceReady => if flag {
                self.phase = ResetPhase::Done;
                ResetAction::Finish(Ok(()))
            } else {
                self.phase = ResetPhase::Detaching;
                ResetAction::DetachDevice
            },
            ResetPhase::Detaching => {
                self.phase = ResetPhase::DetachSettle;
                ResetAction::Sleep { millis: 1000 }
            },
            ResetPhase::DetachSettle => self.next_upstream_exec(0),
            ResetPhase::PoweringParent => {
                self.phase = ResetPhase::WritingUpstream;
                let path = self.upstream[self.index].clone();
                ResetAction::WriteOne { path }
            },
            ResetPhase::WritingUpstream => if write_ok {
                self.phase = ResetPhase::SettlingUpstream;
                ResetAction::Sleep { millis: self.settle_millis }
            } else {
                let next = self.index + 1;
                self.next_upstream_exec(next)
            },
            ResetPhase::SettlingUpstream => {
                self.phase = ResetPhase::Rescanning { final_round: false };
                ResetAction::WriteOne { path: String::from_str("/sys/bus/pci/rescan") }
            },
            ResetPhase::Rescanning { final_round } => match event {
                ResetEvent::WriteFailed(m) => {
                    self.phase = ResetPhase::Done;
                    let mut v = chars_of("/sys/bus/pci/rescan");
                    extend_chars(&mut v, &chars_of(": "));
                    extend_chars(&mut v, &chars_of(m.as_str()));
                    ResetAction::Finish(Err(string_of(&v)))
                },
                _ => {
                    self.phase = ResetPhase::ClockStarted { final_round };
                    ResetAction::StartClock
                },
            },
            ResetPhase::ClockStarted { final_round } => {
                self.phase = ResetPhase::ReadingClock { final_round };
                ResetAction::ReadClock
            },
            ResetPhase::ReadingClock { final_round } => if elapsed_ms < self.deadline_millis {
                self.phase = ResetPhase::CheckingReady { final_round };
                ResetAction::CheckReady
            } else if final_round {
                self.phase = ResetPhase::Done;
                ResetAction::Finish(Err(not_ready_message(self.deadline_millis)))
            } else {
                let next = self.index + 1;
                self.next_upstream_exec(next)
            },
            ResetPhase::CheckingReady { final_round } => if flag {
                self.phase = ResetPhase::Done;
                ResetAction::Finish(Ok(()))
            } else {
                self.phase = ResetPhase::Polling { final_round };
                ResetAction::Sleep { millis: 500 }
            },
            ResetPhase::Polling { final_round } => {
                self.phase = ResetPhase::ReadingClock { final_round };
                ResetAction::ReadClock
            },
            ResetPhase::Done => ResetAction::Finish(Ok(())),
        }
    }
}

fn not_ready_message(deadline_millis: u64) -> (r: String)
    ensures
        r@ == not_ready_reason(deadline_millis),
{
    let mut v = chars_of("Device nach Reset/Rescan nicht bereit nach ");
    let secs = crate::text::decimal_string(deadline_millis / 1000);
    extend_chars(&mut v, &chars_of(secs.as_str()));
    extend_chars(&mut v, &chars_of("s"));
    string_of(&v)
}

/// A device that is not ready after its own reset is not given up on: the
/// reset falls back to detaching it (then the upstream hooks and rescans);
/// a ready device ends the reset with `Ok`.
pub proof fn law_reset_falls_back_after_device_reset(
    pci: Seq<char>,
    up: Seq<Seq<char>>,
    settle: u64,
    deadline: u64,
    index: int,
    ready: bool,
)
    ensures
        !ready ==> reset_transition(pci, up, settle, deadline, ResetPhase::CheckingDeviceReady, index, ResetEventView::Flag(ready))
            == (ResetPhase::Detaching, index, ResetActionView::DetachDevice),
        ready ==> reset_transition(pci, up, settle, deadline, ResetPhase::CheckingDeviceReady, index, ResetEventView::Flag(ready))
            == (ResetPhase::Done, index, ResetActionView::Finish(Ok(()))),
{
}

/// A reset fails in three cases only: the device is missing at the start, a
/// rescan write fails, or the last wait runs out of time; and that last
/// round of rescan and wait begins only once every upstream hook was tried.
pub proof fn law_reset_fails_only_at_the_end(
    pci: Seq<char>,
    up: Seq<Seq<char>>,
    settle: u64,
    deadline: u64,
    p: ResetPhase,
    index: int,
    e: ResetEventView,
)
    ensures
        reset_transition(pci, up, settle, deadline, p, index, e).2 matches ResetActionView::Finish(Err(_))
            ==> ((p == ResetPhase::CheckingDevice && !flag(e)) || (p is Rescanning && e is WriteFailed)
            || (p == ResetPhase::ReadingClock { final_round: true } && elapsed(e) >= deadline)),
        reset_transition(pci, up, settle, deadline, p, index, e).0 == (ResetPhase::Rescanning {
            final_round: true,
        }) && p != (ResetPhase::Rescanning { final_round: true }) ==> reset_transition(
            pci,
            up,
            settle,
            deadline,
            p,
            index,
            e,
        ).1 >= up.len(),
{
}

/// A reset ends with `Ok` only right after a readiness check answered yes.
pub proof fn law_reset_ok_only_when_ready(
    pci: Seq<char>,
    up: Seq<Seq<char>>,
    settle: u64,
    deadline: u64,
    p: ResetPhase,
    index: int,
    e: ResetEventView,
)
    requires
        reset_event_fits(p, e),
        reset_transition(pci, up, settle, deadline, p, index, e).2 == ResetActionView::Finish(Ok(())),
    ensures
        p is CheckingDeviceReady || p is CheckingReady,
        flag(e),
{
}

/// The upstream hooks are tried in order: the hook index never goes back,
/// and moves on by at most one per step.
pub proof fn law_reset_hooks_in_order(
    pci: Seq<char>,
    up: Seq<Seq<char>>,
    settle: u64,
    deadline: u64,
    p: ResetPhase,
    index: int,
    e: ResetEventView,
)
    requires
        reset_event_fits(p, e),
        p != ResetPhase::DetachSettle,
        0 <= index,
    ensures
        index <= reset_transition(pci, up, settle, deadline, p, index, e).1 <= index + 1,
{
}

/// A missing device ends the reset at once with "PCI-Device nicht vorhanden".
pub proof fn law_reset_missing_device(pci: Seq<char>, up: Seq<Seq<char>>, settle: u64, deadline: u64, index: int)
    ensures
        reset_transition(pci, up, settle, deadline, ResetPhase::CheckingDevice, index, ResetEventView::Flag(false))
            == (ResetPhase::Done, index, ResetActionView::Finish(Err("PCI-Device nicht vorhanden"@))),
{
}

/// Thunderbolt device authorisation through sysfs.
pub struct LinuxSysfsThunderboltControl;

impl LinuxSysfsThunderboltControl {
    /// The `authorized` attribute of a Thunderbolt device.
    pub fn authorized_path(device_path: &str) -> (r: String)
        ensures
            r@ == path_join(path_join("/sys/bus/thunderbolt/devices"@, device_path@), "authorized"@),
    {
        let d = join_path("/sys/bus/thunderbolt/devices", device_path);
        join_path(d.as_str(), "authorized")
    }

    /// The value written to `authorized` to authorise (`1`) or deauthorise
    /// (`0`) a device.
    pub fn authorized_value(authorize: bool) -> (r: &'static str)
        ensures
            r@ == if authorize {
                "1"@
            } else {
                "0"@
            },
    {
        if authorize {
            "1"
        } else {
            "0"
        }
    }

    /// A Thunderbolt `authorized` attribute reads as authorized.
    pub fn is_authorized_content(content: &str) -> (r: bool)
        ensures
            r == (crate::text::trim(content@) == "1"@),
    {
        let v = chars_of(content);
        let (lo, hi) = crate::text::trim_bounds(&v);
        let t = crate::text::slice_chars(&v, lo, hi);
        crate::text::chars_eq(&t, &chars_of("1"))
    }
}

/// PCIe function-level reset through sysfs: how long to let a reset settle
/// and how long to wait for the device after a rescan.
pub struct LinuxSysfsPcieControl {
    pub settle_millis: u64,
    pub rescan_deadline_millis: u64,
}

impl Default for LinuxSysfsPcieControl {
    fn default() -> (r: Self)
        ensures
            r.settle_millis == 2000,
            r.rescan_deadline_millis == 15000,
    {
        LinuxSysfsPcieControl { settle_millis: 2000, rescan_deadline_millis: 15000 }
    }
}

impl LinuxSysfsPcieControl {
    /// A reset of `pci_address` with these timings and the upstream hooks
    /// found for it (nearest first).
    pub fn reset(&self, pci_address: String, upstream: Vec<String>) -> (r: PcieReset)
        ensures
            r.wf(),
            r.phase == ResetPhase::Start,
            r.pci_address == pci_address,
            r.upstream == upstream,
            r.settle_millis == self.settle_millis,
            r.deadline_millis == self.rescan_deadline_millis,
    {
        PcieReset::new(pci_address, upstream, self.settle_millis, self.rescan_deadline_millis)
    }
}

} // verus!
