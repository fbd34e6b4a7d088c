use evo_toolkit::rebind::{
    autoprobe_enabled, autoprobe_value, companion_audio_address, device_status, driver_link_is_nvidia,
    enable_needs_write, is_device_responsive, is_ghost_device, is_nvidia_driver_bound,
    is_pci_device_present, needs_rebind, rebind_step, sysfs_device_attr, vendor_is_responsive,
    DeviceProbe, DeviceStatus, RebindAction, RebindEvent, RebindResult, RebindState,
};

/// What sysfs shows for an address that is not on the bus: no attributes.
fn probe_of_missing(pci_address: &str) -> DeviceProbe {
    assert_eq!(
        sysfs_device_attr(pci_address, "vendor"),
        format!("/sys/bus/pci/devices/{pci_address}/vendor")
    );
    DeviceProbe { vendor_exists: false, vendor: None, driver_exists: false, driver_link: None }
}

fn probe(vendor: &str, driver: Option<&str>) -> DeviceProbe {
    DeviceProbe {
        vendor_exists: true,
        vendor: Some(vendor.to_string()),
        driver_exists: driver.is_some(),
        driver_link: driver.map(|d| d.to_string()),
    }
}

#[test]
fn test_needs_rebind_nonexistent_device() {
    assert!(!needs_rebind(&probe_of_missing("9999:99:99.9")));
}

#[test]
fn test_is_pci_device_present_nonexistent() {
    assert!(!is_pci_device_present(&probe_of_missing("9999:99:99.9")));
}

#[test]
fn test_is_nvidia_driver_bound_nonexistent() {
    assert!(!is_nvidia_driver_bound(&probe_of_missing("9999:99:99.9")));
}

#[test]
fn test_is_device_responsive_nonexistent() {
    assert!(!is_device_responsive(&probe_of_missing("9999:99:99.9")));
}

#[test]
fn test_is_ghost_device_nonexistent() {
    // Not present is no ghost (a ghost is present but unreachable).
    assert!(!is_ghost_device(&probe_of_missing("9999:99:99.9")));
}

#[test]
fn test_rebind_result_equality() {
    assert_eq!(RebindResult::AlreadyBound, RebindResult::AlreadyBound);
    assert_eq!(RebindResult::Bound, RebindResult::Bound);
    assert_eq!(RebindResult::GhostRemoved, RebindResult::GhostRemoved);
    assert_ne!(RebindResult::Bound, RebindResult::AlreadyBound);
}

#[test]
fn test_try_rebind_nonexistent_device() {
    let (s, a) = rebind_step(RebindState::Start, &RebindEvent::Started);
    assert_eq!(s, RebindState::Check);
    assert!(matches!(a, RebindAction::ProbeDevice));
    let status = device_status(&probe_of_missing("9999:99:99.9"));
    let (s, a) = rebind_step(s, &RebindEvent::Probed(status));
    assert_eq!(s, RebindState::Done);
    assert!(matches!(a, RebindAction::Finish(RebindResult::DeviceNotPresent)));
}

#[test]
fn ghost_device_is_detected() {
    let p = probe("0xffff\n", None);
    assert!(is_pci_device_present(&p));
    assert!(!is_device_responsive(&p));
    assert!(is_ghost_device(&p));
    assert!(needs_rebind(&p));
}

#[test]
fn bound_device_needs_nothing() {
    let p = probe("0x10de\n", Some("../../../../bus/pci/drivers/nvidia"));
    assert!(is_device_responsive(&p));
    assert!(is_nvidia_driver_bound(&p));
    assert!(!needs_rebind(&p));
}

#[test]
fn device_on_other_driver_needs_rebind() {
    let p = probe("0x10de", Some("../../../../bus/pci/drivers/vfio-pci"));
    assert!(!is_nvidia_driver_bound(&p));
    assert!(needs_rebind(&p));
}

#[test]
fn attribute_helpers() {
    assert_eq!(companion_audio_address("0000:05:00.0"), Some("0000:05:00.1".to_string()));
    assert_eq!(companion_audio_address("0000:05:00.3"), None);
    assert!(vendor_is_responsive("0x10de\n"));
    assert!(!vendor_is_responsive("0xFFFF"));
    assert!(!vendor_is_responsive(""));
    assert!(driver_link_is_nvidia("/sys/bus/pci/drivers/nvidia"));
    assert!(!driver_link_is_nvidia("/sys/bus/pci/drivers/nvidia-drm"));
    assert!(autoprobe_enabled("1\n"));
    assert!(!autoprobe_enabled(" 0 \n"));
    assert!(enable_needs_write("0\n"));
    assert!(!enable_needs_write("1\n"));
}

fn status(present: bool, responsive: bool, driver: bool, nvidia: bool) -> DeviceStatus {
    DeviceStatus { present, responsive, driver_exists: driver, nvidia_bound: nvidia }
}

#[test]
fn ghost_procedure_removes_and_rescans() {
    let mut s = RebindState::Check;
    let (n, a) = rebind_step(s, &RebindEvent::Probed(status(true, false, false, false)));
    assert!(matches!(a, RebindAction::BlockCompanionAudio));
    s = n;
    let (n, a) = rebind_step(s, &RebindEvent::Completed);
    assert!(matches!(a, RebindAction::RemoveCompanionAudio));
    s = n;
    let (n, a) = rebind_step(s, &RebindEvent::Completed);
    assert!(matches!(a, RebindAction::RemoveDevice));
    s = n;
    let (n, a) = rebind_step(s, &RebindEvent::WriteOk);
    assert!(matches!(a, RebindAction::Sleep { millis: 1000 }));
    s = n;
    let (n, a) = rebind_step(s, &RebindEvent::Completed);
    assert!(matches!(a, RebindAction::Rescan));
    s = n;
    let (n, a) = rebind_step(s, &RebindEvent::WriteOk);
    assert!(matches!(a, RebindAction::Sleep { millis: 5000 }));
    s = n;
    let (n, a) = rebind_step(s, &RebindEvent::Completed);
    assert!(matches!(a, RebindAction::ProbeDevice));
    s = n;
    let (n, a) = rebind_step(s, &RebindEvent::Probed(status(false, false, false, false)));
    assert_eq!(n, RebindState::Done);
    assert!(matches!(a, RebindAction::Finish(RebindResult::GhostRemoved)));
}

#[test]
fn failed_remove_reports_the_error() {
    let (n, a) = rebind_step(RebindState::GhostRemove, &RebindEvent::WriteFailed("EIO".to_string()));
    assert_eq!(n, RebindState::Done);
    match a {
        RebindAction::Finish(RebindResult::Failed(m)) => assert_eq!(m, "remove fehlgeschlagen: EIO"),
        _ => panic!("expected a failure"),
    }
}

#[test]
fn failed_bind_falls_back_to_rescan() {
    let (n, a) = rebind_step(RebindState::BindWrite, &RebindEvent::WriteFailed("busy".to_string()));
    assert_eq!(n, RebindState::FallbackRescan);
    assert!(matches!(a, RebindAction::Rescan));
    let (n, a) = rebind_step(n, &RebindEvent::WriteOk);
    assert!(matches!(a, RebindAction::Sleep { millis: 3000 }));
    let (n, _) = rebind_step(n, &RebindEvent::Completed);
    let (n, a) = rebind_step(n, &RebindEvent::Probed(status(true, true, false, false)));
    assert_eq!(n, RebindState::Done);
    assert!(matches!(a, RebindAction::Finish(RebindResult::RescanTriggered)));
}

#[test]
fn already_bound_device_finishes_at_once() {
    let (n, a) = rebind_step(RebindState::Check, &RebindEvent::Probed(status(true, true, true, true)));
    assert_eq!(n, RebindState::Done);
    assert!(matches!(a, RebindAction::Finish(RebindResult::AlreadyBound)));
}

#[test]
fn autoprobe_setting_reads_back() {
    assert_eq!(autoprobe_value(true), "1");
    assert_eq!(autoprobe_value(false), "0");
    assert!(autoprobe_enabled(autoprobe_value(true)));
    assert!(!autoprobe_enabled(autoprobe_value(false)));
    assert!(!autoprobe_enabled("0\n"));
}
