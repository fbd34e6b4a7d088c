//! Decisions for rebinding the nvidia driver to an external GPU through sysfs.
//!
//! The sysfs reads and writes are done by the caller; this module turns what
//! was read into facts about the device, and drives the recovery procedure as
//! a state machine: each step takes the outcome of the last action and names
//! the next one. Procedure:
//!   1. the device must be on the PCI bus (its `vendor` attribute exists);
//!   2. a device whose config space reads as `0xffff` is a ghost: it is
//!      removed and the bus rescanned;
//!   3. a reachable device without the nvidia driver is bound to it;
//!   4. when binding fails, a bus rescan is the fallback.
use vstd::prelude::*;
use crate::text::{
    chars_of, chars_eq, concat_str, contains, ends_with, ends_with_exec, slice_chars, string_of,
    extend_chars, is_ws, trim, trim_bounds, trim_end, trim_start,
};

verus! {

/// Outcome of a rebind attempt.
#[derive(Debug, Clone, PartialEq, Eq)]
pub enum RebindResult {
    /// The driver was bound already; nothing to do.
    AlreadyBound,
    /// The driver was bound.
    Bound,
    /// A ghost device was removed and a rescan triggered; the next poll checks.
    GhostRemoved,
    /// Binding failed; a PCI rescan was triggered as a fallback.
    RescanTriggered,
    /// The GPU is not on the PCI bus.
    DeviceNotPresent,
    /// The attempt failed.
    Failed(String),
}

/// `RebindResult` with the failure message taken by its characters.
pub enum RebindOutcome {
    AlreadyBound,
    Bound,
    GhostRemoved,
    RescanTriggered,
    DeviceNotPresent,
    Failed(Seq<char>),
}

impl View for RebindResult {
    type V = RebindOutcome;

    open spec fn view(&self) -> RebindOutcome {
        match self {
            RebindResult::AlreadyBound => RebindOutcome::AlreadyBound,
            RebindResult::Bound => RebindOutcome::Bound,
            RebindResult::GhostRemoved => RebindOutcome::GhostRemoved,
            RebindResult::RescanTriggered => RebindOutcome::RescanTriggered,
            RebindResult::DeviceNotPresent => RebindOutcome::DeviceNotPresent,
            RebindResult::Failed(m) => RebindOutcome::Failed(m@),
        }
    }
}

/// What was read from sysfs about one PCI device.
pub struct DeviceProbe {
    /// `/sys/bus/pci/devices/<addr>/vendor` exists.
    pub vendor_exists: bool,
    /// Contents of the `vendor` attribute, when it could be read.
    pub vendor: Option<String>,
    /// The `driver` link of the device exists (and resolves).
    pub driver_exists: bool,
    /// Target of the `driver` link, when it could be read.
    pub driver_link: Option<String>,
}

/// Facts about a device that the rebind procedure decides on.
#[derive(Debug, Clone, Copy, PartialEq, Eq)]
pub struct DeviceStatus {
    pub present: bool,
    pub responsive: bool,
    pub driver_exists: bool,
    pub nvidia_bound: bool,
}

/// The path of a sysfs attribute of a PCI device.
pub open spec fn sysfs_attr_path(pci: Seq<char>, attr: Seq<char>) -> Seq<char> {
    "/sys/bus/pci/devices/"@ + pci + "/"@ + attr
}

/// The companion audio function of a GPU: `xx.0` has its audio at `xx.1`.
pub open spec fn companion_audio(pci: Seq<char>) -> Option<Seq<char>> {
    if ends_with(pci, ".0"@) {
        Some(pci.subrange(0, pci.len() - 2) + ".1"@)
    } else {
        None
    }
}

/// A `vendor` attribute reads as a real vendor id (not empty, not `0xffff`).
pub open spec fn vendor_responsive(vendor: Seq<char>) -> bool {
    let v = trim(vendor);
    v != "0xffff"@ && v != "0xFFFF"@ && v.len() != 0
}

/// The `driver` link points at the nvidia driver.
pub open spec fn link_is_nvidia(target: Seq<char>) -> bool {
    ends_with(target, "/nvidia"@)
}

pub open spec fn probe_responsive(p: DeviceProbe) -> bool {
    match p.vendor {
        Some(v) => vendor_responsive(v@),
        None => false,
    }
}

pub open spec fn probe_nvidia_bound(p: DeviceProbe) -> bool {
    match p.driver_link {
        Some(t) => link_is_nvidia(t@),
        None => false,
    }
}

pub open spec fn status_of(p: DeviceProbe) -> DeviceStatus {
    DeviceStatus {
        present: p.vendor_exists,
        responsive: probe_responsive(p),
        driver_exists: p.driver_exists,
        nvidia_bound: probe_nvidia_bound(p),
    }
}

pub open spec fn is_ghost(s: DeviceStatus) -> bool {
    s.present && !s.responsive
}

/// Recovery is needed: the device is present and is a ghost or lacks the nvidia driver.
pub open spec fn rebind_needed(s: DeviceStatus) -> bool {
    s.present && (is_ghost(s) || !s.nvidia_bound)
}

/// Path of attribute `attr` of the PCI device `pci_address` in sysfs.
pub fn sysfs_device_attr(pci_address: &str, attr: &str) -> (r: String)
    ensures
        r@ == sysfs_attr_path(pci_address@, attr@),
{
    let mut v = chars_of("/sys/bus/pci/devices/");
    extend_chars(&mut v, &chars_of(pci_address));
    extend_chars(&mut v, &chars_of("/"));
    extend_chars(&mut v, &chars_of(attr));
    string_of(&v)
}

/// Address of the companion audio function (`.0` replaced by `.1`).
pub fn companion_audio_address(pci_address: &str) -> (r: Option<String>)
    ensures
        match r {
            Some(a) => companion_audio(pci_address@) == Some(a@),
            None => companion_audio(pci_address@) is None,
        },
{
    let p = chars_of(pci_address);
    if ends_with_exec(&p, &chars_of(".0")) {
        proof {
            reveal_strlit(".0");
        }
        let mut base = slice_chars(&p, 0, p.len() - 2);
        extend_chars(&mut base, &chars_of(".1"));
        Some(string_of(&base))
    } else {
        None
    }
}

/// The `drivers_autoprobe` setting reads as enabled: its trimmed text is
/// not `0`.
pub open spec fn autoprobe_on(content: Seq<char>) -> bool {
    trim(content) != "0"@
}

/// The text written to `drivers_autoprobe`: `1` to enable driver probing,
/// `0` to disable it.
pub open spec fn autoprobe_text(enabled: bool) -> Seq<char> {
    if enabled {
        "1"@
    } else {
        "0"@
    }
}

/// The value to write to `drivers_autoprobe`.
pub fn autoprobe_value(enabled: bool) -> (r: &'static str)
    ensures
        r@ == autoprobe_text(enabled),
{
    if enabled {
        "1"
    } else {
        "0"
    }
}

/// What is written to `drivers_autoprobe` reads back as the setting that
/// was written: `1` as enabled, `0` as disabled.
pub proof fn law_autoprobe_reads_back(enabled: bool)
    ensures
        autoprobe_on(autoprobe_text(enabled)) == enabled,
{
    reveal_strlit("1");
    reveal_strlit("0");
    let t = autoprobe_text(enabled);
    assert(t.len() == 1);
    assert(!is_ws(t[0]));
    assert(trim_start(t) == t);
    assert(trim_end(t) == t);
}

/// Whether `drivers_autoprobe` contents mean "enabled" (anything but `0`).
pub fn autoprobe_enabled(content: &str) -> (r: bool)
    ensures
        r == autoprobe_on(content@),
{
    let v = chars_of(content);
    let (lo, hi) = trim_bounds(&v);
    let t = slice_chars(&v, lo, hi);
    !chars_eq(&t, &chars_of("0"))
}

/// Whether an `enable` attribute reads as disabled (`0`), so it must be written.
pub fn enable_needs_write(content: &str) -> (r: bool)
    ensures
        r == (trim(content@) == "0"@),
{
    !autoprobe_enabled(content)
}

/// Whether a `vendor` attribute shows a reachable device.
pub fn vendor_is_responsive(vendor: &str) -> (r: bool)
    ensures
        r == vendor_responsive(vendor@),
{
    let v = chars_of(vendor);
    let (lo, hi) = trim_bounds(&v);
    let t = slice_chars(&v, lo, hi);
    !chars_eq(&t, &chars_of("0xffff")) && !chars_eq(&t, &chars_of("0xFFFF")) && t.len() != 0
}

/// Whether a `driver` link target names the nvidia driver.
pub fn driver_link_is_nvidia(target: &str) -> (r: bool)
    ensures
        r == link_is_nvidia(target@),
{
    ends_with_exec(&chars_of(target), &chars_of("/nvidia"))
}

/// The eGPU is on the PCI bus.
pub fn is_pci_device_present(probe: &DeviceProbe) -> (r: bool)
    ensures
        r == probe.vendor_exists,
{
    probe.vendor_exists
}

/// The device's config space is reachable (it is no ghost).
pub fn is_device_responsive(probe: &DeviceProbe) -> (r: bool)
    ensures
        r == probe_responsive(*probe),
{
    match &probe.vendor {
        Some(v) => vendor_is_responsive(v.as_str()),
        None => false,
    }
}

/// The device is present but its config space reads as all ones.
pub fn is_ghost_device(probe: &DeviceProbe) -> (r: bool)
    ensures
        r == is_ghost(status_of(*probe)),
{
    is_pci_device_present(probe) && !is_device_responsive(probe)
}

/// The nvidia driver is bound to the device.
pub fn is_nvidia_driver_bound(probe: &DeviceProbe) -> (r: bool)
    ensures
        r == probe_nvidia_bound(*probe),
{
    match &probe.driver_link {
        Some(t) => driver_link_is_nvidia(t.as_str()),
        None => false,
    }
}

/// The GPU needs recovery: a ghost device, or present without the nvidia driver.
pub fn needs_rebind(probe: &DeviceProbe) -> (r: bool)
    ensures
        r == rebind_needed(status_of(*probe)),
{
    if !is_pci_device_present(probe) {
        return false;
    }
    is_ghost_device(probe) || !is_nvidia_driver_bound(probe)
}

/// The facts about a probed device.
pub fn device_status(probe: &DeviceProbe) -> (s: DeviceStatus)
    ensures
        s == status_of(*probe),
{
    DeviceStatus {
        present: is_pci_device_present(probe),
        responsive: is_device_responsive(probe),
        driver_exists: probe.driver_exists,
        nvidia_bound: is_nvidia_driver_bound(probe),
    }
}

// ---------------------------------------------------------------------------
// The rebind procedure as a state machine
// ---------------------------------------------------------------------------

/// Where the procedure stands: each state waits for the outcome of the
/// action that was issued when entering it.
#[derive(Debug, Clone, Copy, PartialEq, Eq)]
pub enum RebindState {
    Start,
    Check,
    GhostBlockAudio,
    GhostRemoveAudio,
    GhostRemove,
    GhostSettle,
    GhostRescan,
    GhostWait,
    GhostVerify,
    BindPrepare,
    BindBlockAudio,
    BindProbeDriver,
    BindUnbind,
    BindUnbindSettle,
    BindOverride,
    BindWrite,
    BindSettle,
    BindVerify,
    BindClearOverride,
    FallbackRescan,
    FallbackSettle,
    FallbackVerify,
    Done,
}

/// What the caller reports after performing the last action.
pub enum RebindEvent {
    /// The procedure begins.
    Started,
    /// The device was probed.
    Probed(DeviceStatus),
    /// A sysfs write succeeded.
    WriteOk,
    /// A sysfs write failed with this message.
    WriteFailed(String),
    /// An action without an outcome (a wait, a best-effort write) is done.
    Completed,
}

pub enum RebindEventView {
    Started,
    Probed(DeviceStatus),
    WriteOk,
    WriteFailed(Seq<char>),
    Completed,
}

impl View for RebindEvent {
    type V = RebindEventView;

    open spec fn view(&self) -> RebindEventView {
        match self {
            RebindEvent::Started => RebindEventView::Started,
            RebindEvent::Probed(s) => RebindEventView::Probed(*s),
            RebindEvent::WriteOk => RebindEventView::WriteOk,
            RebindEvent::WriteFailed(m) => RebindEventView::WriteFailed(m@),
            RebindEvent::Completed => RebindEventView::Completed,
        }
    }
}

/// The next thing the caller must do.
pub enum RebindAction {
    /// Probe the device (`vendor`, `driver`); report `Probed`.
    ProbeDevice,
    /// Keep the companion audio function from auto-binding; report `Completed`.
    BlockCompanionAudio,
    /// Remove the companion audio function if it exists; report `Completed`.
    RemoveCompanionAudio,
    /// Write `1` to the device's `remove`; report the write's outcome.
    RemoveDevice,
    /// Write `1` to `/sys/bus/pci/rescan`; report the write's outcome.
    Rescan,
    /// Power the device on and enable it; report `Completed`.
    PrepareForBind,
    /// Unbind the current driver; report the write's outcome.
    UnbindCurrentDriver,
    /// Set `driver_override` to `nvidia` if it exists; report `Completed`.
    SetNvidiaOverride,
    /// Write the address to the nvidia `bind`; report the write's outcome.
    BindNvidia,
    /// Clear `driver_override`; report `Completed`.
    ClearDriverOverride,
    /// Wait; report `Completed`.
    Sleep { millis: u64 },
    /// The procedure is over with this result.
    Finish(RebindResult),
}

pub enum RebindActionView {
    ProbeDevice,
    BlockCompanionAudio,
    RemoveCompanionAudio,
    RemoveDevice,
    Rescan,
    PrepareForBind,
    UnbindCurrentDriver,
    SetNvidiaOverride,
    BindNvidia,
    ClearDriverOverride,
    Sleep { millis: u64 },
    Finish(RebindOutcome),
}

impl View for RebindAction {
    type V = RebindActionView;

    open spec fn view(&self) -> RebindActionView {
        match self {
            RebindAction::ProbeDevice => RebindActionView::ProbeDevice,
            RebindAction::BlockCompanionAudio => RebindActionView::BlockCompanionAudio,
            RebindAction::RemoveCompanionAudio => RebindActionView::RemoveCompanionAudio,
            RebindAction::RemoveDevice => RebindActionView::RemoveDevice,
            RebindAction::Rescan => RebindActionView::Rescan,
            RebindAction::PrepareForBind => RebindActionView::PrepareForBind,
            RebindAction::UnbindCurrentDriver => RebindActionView::UnbindCurrentDriver,
            RebindAction::SetNvidiaOverride => RebindActionView::SetNvidiaOverride,
            RebindAction::BindNvidia => RebindActionView::BindNvidia,
            RebindAction::ClearDriverOverride => RebindActionView::ClearDriverOverride,
            RebindAction::Sleep { millis } => RebindActionView::Sleep { millis: *millis },
            RebindAction::Finish(r) => RebindActionView::Finish(r@),
        }
    }
}

/// The event kind each state waits for.
pub open spec fn event_fits(s: RebindState, e: RebindEventView) -> bool {
    match s {
        RebindState::Start => e is Started,
        RebindState::Check | RebindState::GhostVerify | RebindState::BindProbeDriver
        | RebindState::BindVerify | RebindState::FallbackVerify => e is Probed,
        RebindState::GhostRemove | RebindState::GhostRescan | RebindState::BindUnbind
        | RebindState::BindWrite | RebindState::FallbackRescan => e is WriteOk || e is WriteFailed,
        RebindState::Done => false,
        _ => e is Completed,
    }
}

pub open spec fn failed(prefix: Seq<char>, e: RebindEventView) -> RebindActionView {
    match e {
        RebindEventView::WriteFailed(m) => RebindActionView::Finish(RebindOutcome::Failed(prefix + m)),
        _ => RebindActionView::Finish(RebindOutcome::Failed(prefix)),
    }
}

pub open spec fn probed(e: RebindEventView) -> DeviceStatus {
    match e {
        RebindEventView::Probed(s) => s,
        _ => DeviceStatus { present: false, responsive: false, driver_exists: false, nvidia_bound: false },
    }
}

/// The next state and action for state `s` and event `e`.
pub open spec fn rebind_transition(s: RebindState, e: RebindEventView) -> (RebindState, RebindActionView) {
    let finish = |o: RebindOutcome| (RebindState::Done, RebindActionView::Finish(o));
    match s {
        RebindState::Start => (RebindState::Check, RebindActionView::ProbeDevice),
        RebindState::Check => {
            let st = probed(e);
            if !st.present {
                finish(RebindOutcome::DeviceNotPresent)
            } else if st.nvidia_bound {
                finish(RebindOutcome::AlreadyBound)
            } else if is_ghost(st) {
                (RebindState::GhostBlockAudio, RebindActionView::BlockCompanionAudio)
            } else {
                (RebindState::BindPrepare, RebindActionView::PrepareForBind)
            }
        },
        RebindState::GhostBlockAudio => (RebindState::GhostRemoveAudio, RebindActionView::RemoveCompanionAudio),
        RebindState::GhostRemoveAudio => (RebindState::GhostRemove, RebindActionView::RemoveDevice),
        RebindState::GhostRemove => if e is WriteOk {
            (RebindState::GhostSettle, RebindActionView::Sleep { millis: 1000 })
        } else {
            (RebindState::Done, failed("remove fehlgeschlagen: "@, e))
        },
        RebindState::GhostSettle => (RebindState::GhostRescan, RebindActionView::Rescan),
        RebindState::GhostRescan => if e is WriteOk {
            (RebindState::GhostWait, RebindActionView::Sleep { millis: 5000 })
        } else {
            (RebindState::Done, failed("rescan nach remove fehlgeschlagen: "@, e))
        },
        RebindState::GhostWait => (RebindState::GhostVerify, RebindActionView::ProbeDevice),
        RebindState::GhostVerify => {
            let st = probed(e);
            if st.present && st.responsive {
                if st.nvidia_bound {
                    finish(RebindOutcome::Bound)
                } else {
                    (RebindState::BindPrepare, RebindActionView::PrepareForBind)
                }
            } else {
                finish(RebindOutcome::GhostRemoved)
            }
        },
        RebindState::BindPrepare => (RebindState::BindBlockAudio, RebindActionView::BlockCompanionAudio),
        RebindState::BindBlockAudio => (RebindState::BindProbeDriver, RebindActionView::ProbeDevice),
        RebindState::BindProbeDriver => {
            let st = probed(e);
            if st.driver_exists && !st.nvidia_bound {
                (RebindState::BindUnbind, RebindActionView::UnbindCurrentDriver)
            } else {
                (RebindState::BindOverride, RebindActionView::SetNvidiaOverride)
            }
        },
        RebindState::BindUnbind => if e is WriteOk {
            (RebindState::BindUnbindSettle, RebindActionView::Sleep { millis: 500 })
        } else {
            (RebindState::BindOverride, RebindActionView::SetNvidiaOverride)
        },
        RebindState::BindUnbindSettle => (RebindState::BindOverride, RebindActionView::SetNvidiaOverride),
        RebindState::BindOverride => (RebindState::BindWrite, RebindActionView::BindNvidia),
        RebindState::BindWrite => if e is WriteOk {
            (RebindState::BindSettle, RebindActionView::Sleep { millis: 2000 })
        } else {
            (RebindState::FallbackRescan, RebindActionView::Rescan)
        },
        RebindState::BindSettle => (RebindState::BindVerify, RebindActionView::ProbeDevice),
        RebindState::BindVerify => if probed(e).nvidia_bound {
            (RebindState::BindClearOverride, RebindActionView::ClearDriverOverride)
        } else {
            (RebindState::FallbackRescan, RebindActionView::Rescan)
        },
        RebindState::BindClearOverride => finish(RebindOutcome::Bound),
        RebindState::FallbackRescan => if e is WriteOk {
            (RebindState::FallbackSettle, RebindActionView::Sleep { millis: 3000 })
        } else {
            (RebindState::Done, failed("bind und rescan fehlgeschlagen: "@, e))
        },
        RebindState::FallbackSettle => (RebindState::FallbackVerify, RebindActionView::ProbeDevice),
        RebindState::FallbackVerify => if probed(e).nvidia_bound {
            finish(RebindOutcome::Bound)
        } else {
            finish(RebindOutcome::RescanTriggered)
        },
        RebindState::Done => (RebindState::Done, RebindActionView::Finish(RebindOutcome::RescanTriggered)),
    }
}

/// How many steps at most remain from a state until the procedure is over.
pub open spec fn rank(s: RebindState) -> nat {
    match s {
        RebindState::Start => 25,
        RebindState::Check => 24,
        RebindState::GhostBlockAudio => 23,
        RebindState::GhostRemoveAudio => 22,
        RebindState::GhostRemove => 21,
        RebindState::GhostSettle => 20,
        RebindState::GhostRescan => 19,
        RebindState::GhostWait => 18,
        RebindState::GhostVerify => 17,
        RebindState::BindPrepare => 16,
        RebindState::BindBlockAudio => 15,
        RebindState::BindProbeDriver => 14,
        RebindState::BindUnbind => 13,
        RebindState::BindUnbindSettle => 12,
        RebindState::BindOverride => 11,
        RebindState::BindWrite => 10,
        RebindState::BindSettle => 9,
        RebindState::BindVerify => 8,
        RebindState::BindClearOverride => 7,
        RebindState::FallbackRescan => 6,
        RebindState::FallbackSettle => 5,
        RebindState::FallbackVerify => 4,
        RebindState::Done => 0,
    }
}

fn failure(prefix: &str, event: &RebindEvent) -> (a: RebindAction)
    requires
        event@ is WriteFailed,
    ensures
        a@ == failed(prefix@, event@),
{
    match event {
        RebindEvent::WriteFailed(m) => RebindAction::Finish(RebindResult::Failed(concat_str(prefix, m.as_str()))),
        _ => RebindAction::Finish(RebindResult::Failed(String::from_str(prefix))),
    }
}

fn probed_status(event: &RebindEvent) -> (s: DeviceStatus)
    ensures
        s == probed(event@),
{
    match event {
        RebindEvent::Probed(s) => *s,
        _ => DeviceStatus { present: false, responsive: false, driver_exists: false, nvidia_bound: false },
    }
}

/// One step of the rebind procedure: from the current state and the outcome
/// of the last action, the next state and the action to perform.
pub fn rebind_step(state: RebindState, event: &RebindEvent) -> (r: (RebindState, RebindAction))
    requires
        event_fits(state, event@),
    ensures
        (r.0, r.1@) == rebind_transition(state, event@),
{
    let write_ok = match event {
        RebindEvent::WriteOk => true,
        _ => false,
    };
    match state {
        RebindState::Start => (RebindState::Check, RebindAction::ProbeDevice),
        RebindState::Check => {
            let st = probed_status(event);
            if !st.present {
                (RebindState::Done, RebindAction::Finish(RebindResult::DeviceNotPresent))
            } else if st.nvidia_bound {
                (RebindState::Done, RebindAction::Finish(RebindResult::AlreadyBound))
            } else if st.present && !st.responsive {
                (RebindState::GhostBlockAudio, RebindAction::BlockCompanionAudio)
            } else {
                (RebindState::BindPrepare, RebindAction::PrepareForBind)
            }
        },
        RebindState::GhostBlockAudio => (RebindState::GhostRemoveAudio, RebindAction::RemoveCompanionAudio),
        RebindState::GhostRemoveAudio => (RebindState::GhostRemove, RebindAction::RemoveDevice),
        RebindState::GhostRemove => if write_ok {
            (RebindState::GhostSettle, RebindAction::Sleep { millis: 1000 })
        } else {
            (RebindState::Done, failure("remove fehlgeschlagen: ", event))
        },
        RebindState::GhostSettle => (RebindState::GhostRescan, RebindAction::Rescan),
        RebindState::GhostRescan => if write_ok {
            (RebindState::GhostWait, RebindAction::Sleep { millis: 5000 })
        } else {
            (RebindState::Done, failure("rescan nach remove fehlgeschlagen: ", event))
        },
        RebindState::GhostWait => (RebindState::GhostVerify, RebindAction::ProbeDevice),
        RebindState::GhostVerify => {
            let st = probed_status(event);
            if st.present && st.responsive {
                if st.nvidia_bound {
                    (RebindState::Done, RebindAction::Finish(RebindResult::Bound))
                } else {
                    (RebindState::BindPrepare, RebindAction::PrepareForBind)
                }
            } else {
                (RebindState::Done, RebindAction::Finish(RebindResult::GhostRemoved))
            }
        },
        RebindState::BindPrepare => (RebindState::BindBlockAudio, RebindAction::BlockCompanionAudio),
        RebindState::BindBlockAudio => (RebindState::BindProbeDriver, RebindAction::ProbeDevice),
        RebindState::BindProbeDriver => {
            let st = probed_status(event);
            if st.driver_exists && !st.nvidia_bound {
                (RebindState::BindUnbind, RebindAction::UnbindCurrentDriver)
            } else {
                (RebindState::BindOverride, RebindAction::SetNvidiaOverride)
            }
        },
        RebindState::BindUnbind => if write_ok {
            (RebindState::BindUnbindSettle, RebindAction::Sleep { millis: 500 })
        } else {
            (RebindState::BindOverride, RebindAction::SetNvidiaOverride)
        },
        RebindState::BindUnbindSettle => (RebindState::BindOverride, RebindAction::SetNvidiaOverride),
        RebindState::BindOverride => (RebindState::BindWrite, RebindAction::BindNvidia),
        RebindState::BindWrite => if write_ok {
            (RebindState::BindSettle, RebindAction::Sleep { millis: 2000 })
        } else {
            (RebindState::FallbackRescan, RebindAction::Rescan)
        },
        RebindState::BindSettle => (RebindState::BindVerify, RebindAction::ProbeDevice),
        RebindState::BindVerify => if probed_status(event).nvidia_bound {
            (RebindState::BindClearOverride, RebindAction::ClearDriverOverride)
        } else {
            (RebindState::FallbackRescan, RebindAction::Rescan)
        },
        RebindState::BindClearOverride => (RebindState::Done, RebindAction::Finish(RebindResult::Bound)),
        RebindState::FallbackRescan => if write_ok {
            (RebindState::FallbackSettle, RebindAction::Sleep { millis: 3000 })
        } else {
            (RebindState::Done, failure("bind und rescan fehlgeschlagen: ", event))
        },
        RebindState::FallbackSettle => (RebindState::FallbackVerify, RebindAction::ProbeDevice),
        RebindState::FallbackVerify => if probed_status(event).nvidia_bound {
            (RebindState::Done, RebindAction::Finish(RebindResult::Bound))
        } else {
            (RebindState::Done, RebindAction::Finish(RebindResult::RescanTriggered))
        },
        RebindState::Done => (RebindState::Done, RebindAction::Finish(RebindResult::RescanTriggered)),
    }
}

// ---------------------------------------------------------------------------
// Laws of the procedure
// ---------------------------------------------------------------------------

/// Every step leaves a state of lower rank, so the procedure ends after at
/// most 25 steps whatever the outcomes of its actions are; and a state is
/// `Done` exactly when the action is `Finish`.
pub proof fn law_rebind_step_progresses(s: RebindState, e: RebindEventView)
    requires
        event_fits(s, e),
    ensures
        rank(rebind_transition(s, e).0) < rank(s),
        (rebind_transition(s, e).0 == RebindState::Done) <==> (rebind_transition(s, e).1 is Finish),
{
}

/// The first probe decides: an absent device ends with `DeviceNotPresent`, a
/// bound driver with `AlreadyBound`, a ghost device goes to removal and
/// rescan, any other device to binding.
pub proof fn law_rebind_first_check(st: DeviceStatus)
    ensures
        !st.present ==> rebind_transition(RebindState::Check, RebindEventView::Probed(st)).1
            == RebindActionView::Finish(RebindOutcome::DeviceNotPresent),
        st.present && st.nvidia_bound ==> rebind_transition(RebindState::Check, RebindEventView::Probed(st)).1
            == RebindActionView::Finish(RebindOutcome::AlreadyBound),
        st.present && !st.nvidia_bound && !st.responsive ==> rebind_transition(
            RebindState::Check,
            RebindEventView::Probed(st),
        ).0 == RebindState::GhostBlockAudio,
        st.present && !st.nvidia_bound && st.responsive ==> rebind_transition(
            RebindState::Check,
            RebindEventView::Probed(st),
        ).0 == RebindState::BindPrepare,
{
}

/// After the ghost removal's rescan and wait, the check decides: a device
/// that is now present, reachable and bound to nvidia ends with `Bound`; one
/// that is present and reachable but not bound goes on to a manual bind; only
/// a device that is still missing or unreachable ends with `GhostRemoved`.
pub proof fn law_rebind_after_ghost_rescan(st: DeviceStatus)
    ensures
        st.present && st.responsive && st.nvidia_bound ==> rebind_transition(
            RebindState::GhostVerify,
            RebindEventView::Probed(st),
        ) == (RebindState::Done, RebindActionView::Finish(RebindOutcome::Bound)),
        st.present && st.responsive && !st.nvidia_bound ==> rebind_transition(
            RebindState::GhostVerify,
            RebindEventView::Probed(st),
        ) == (RebindState::BindPrepare, RebindActionView::PrepareForBind),
        !(st.present && st.responsive) ==> rebind_transition(
            RebindState::GhostVerify,
            RebindEventView::Probed(st),
        ) == (RebindState::Done, RebindActionView::Finish(RebindOutcome::GhostRemoved)),
{
}

/// `GhostRemoved` is only ever reported right after the post-rescan probe
/// found the device missing or unreachable.
pub proof fn law_rebind_ghost_removed_only_when_unreachable(s: RebindState, e: RebindEventView)
    requires
        event_fits(s, e),
    ensures
        rebind_transition(s, e).1 == RebindActionView::Finish(RebindOutcome::GhostRemoved) ==> (s
            == RebindState::GhostVerify && e is Probed && !(probed(e).present && probed(e).responsive)),
{
}

/// A `Failed` result is only given right after a failed write, and its
/// message ends with that write's error.
pub proof fn law_rebind_failed_only_after_failed_write(s: RebindState, e: RebindEventView)
    requires
        event_fits(s, e),
    ensures
        rebind_transition(s, e).1 matches RebindActionView::Finish(RebindOutcome::Failed(m)) ==> (
        e matches RebindEventView::WriteFailed(x) && ends_with(m, x)),
{
    if let RebindActionView::Finish(RebindOutcome::Failed(m)) = rebind_transition(s, e).1 {
        if let RebindEventView::WriteFailed(x) = e {
            let p = if s == RebindState::GhostRemove {
                "remove fehlgeschlagen: "@
            } else if s == RebindState::GhostRescan {
                "rescan nach remove fehlgeschlagen: "@
            } else {
                "bind und rescan fehlgeschlagen: "@
            };
            assert(m == p + x);
            assert((p + x).subrange(m.len() - x.len(), m.len() as int) =~= x);
        }
    }
}

/// `Bound` is only reported after a probe that showed the nvidia driver bound.
pub proof fn law_rebind_bound_only_after_bound_probe(s: RebindState, e: RebindEventView)
    requires
        event_fits(s, e),
    ensures
        rebind_transition(s, e).1 == RebindActionView::Finish(RebindOutcome::Bound) ==> (
        s == RebindState::BindClearOverride || (e is Probed && probed(e).nvidia_bound)),
        rebind_transition(s, e).0 == RebindState::BindClearOverride ==> (s == RebindState::BindVerify
            && e is Probed && probed(e).nvidia_bound),
{
}

/// A bind is only attempted on a device that was found present and reachable:
/// the binding branch is entered from the first check or from the check after
/// a ghost removal, and only with such a probe.
pub proof fn law_rebind_bind_needs_reachable_device(s: RebindState, e: RebindEventView)
    requires
        event_fits(s, e),
        s != RebindState::BindPrepare,
        rebind_transition(s, e).0 == RebindState::BindPrepare,
    ensures
        e is Probed,
        probed(e).present,
        probed(e).responsive,
        !probed(e).nvidia_bound,
{
}

/// A bind that fails (the write is refused, or the driver is still not bound
/// afterwards) falls back to a PCI bus rescan.
pub proof fn law_rebind_failed_bind_falls_back_to_rescan(write_error: Seq<char>, after: DeviceStatus)
    ensures
        rebind_transition(RebindState::BindWrite, RebindEventView::WriteFailed(write_error)) == (
            RebindState::FallbackRescan,
            RebindActionView::Rescan,
        ),
        !after.nvidia_bound ==> rebind_transition(RebindState::BindVerify, RebindEventView::Probed(after))
            == (RebindState::FallbackRescan, RebindActionView::Rescan),
{
}

/// A device that is not on the bus is no ghost and needs no recovery.
pub proof fn law_missing_device_needs_nothing(p: DeviceProbe)
    requires
        !p.vendor_exists,
    ensures
        !is_ghost(status_of(p)),
        !rebind_needed(status_of(p)),
{
}

} // verus!
