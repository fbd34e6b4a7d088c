use evo_toolkit::pcie::{
    device_ready, join_path, pci_device_path, upstream_reset_paths, AncestorProbe,
    LinuxSysfsPcieControl, LinuxSysfsThunderboltControl, PcieReset, ResetAction, ResetEvent,
    ResetPhase,
};
use evo_toolkit::rebind::DeviceProbe;

#[test]
fn paths() {
    assert_eq!(join_path("/a", "b"), "/a/b");
    assert_eq!(join_path("/a/", "b"), "/a/b");
    assert_eq!(join_path("/a", "/b"), "/b");
    assert_eq!(pci_device_path("0000:05:00.0"), "/sys/bus/pci/devices/0000:05:00.0");
    assert_eq!(LinuxSysfsThunderboltControl::authorized_path("0-1"), "/sys/bus/thunderbolt/devices/0-1/authorized");
}

#[test]
fn authorized_content() {
    assert!(LinuxSysfsThunderboltControl::is_authorized_content("1\n"));
    assert!(!LinuxSysfsThunderboltControl::is_authorized_content("0\n"));
    assert!(!LinuxSysfsThunderboltControl::is_authorized_content(""));
    assert_eq!(LinuxSysfsThunderboltControl::authorized_value(true), "1");
    assert_eq!(LinuxSysfsThunderboltControl::authorized_value(false), "0");
}

#[test]
fn readiness() {
    let ok = DeviceProbe {
        vendor_exists: true,
        vendor: Some("0x10de".to_string()),
        driver_exists: false,
        driver_link: None,
    };
    assert!(device_ready(&ok));
    let ghost = DeviceProbe {
        vendor_exists: true,
        vendor: Some("0xffff".to_string()),
        driver_exists: false,
        driver_link: None,
    };
    assert!(!device_ready(&ghost));
}

#[test]
fn upstream_hooks_nearest_first() {
    let ancestors = vec![
        AncestorProbe {
            name: Some("0000:04:00.0".to_string()),
            path: "/sys/devices/pci0000:00/0000:00:01.0/0000:04:00.0".to_string(),
            has_reset_subordinate: true,
            has_reset: true,
        },
        AncestorProbe {
            name: Some("0000:00:01.0".to_string()),
            path: "/sys/devices/pci0000:00/0000:00:01.0".to_string(),
            has_reset_subordinate: false,
            has_reset: true,
        },
        AncestorProbe {
            name: Some("pci0000:00".to_string()),
            path: "/sys/devices/pci0000:00".to_string(),
            has_reset_subordinate: true,
            has_reset: true,
        },
    ];
    assert_eq!(
        upstream_reset_paths(&ancestors),
        vec![
            "/sys/devices/pci0000:00/0000:00:01.0/0000:04:00.0/reset_subordinate".to_string(),
            "/sys/devices/pci0000:00/0000:00:01.0/reset".to_string(),
        ]
    );
}

#[test]
fn missing_device_fails_the_reset() {
    let control = LinuxSysfsPcieControl::default();
    assert_eq!(control.settle_millis, 2000);
    assert_eq!(control.rescan_deadline_millis, 15000);
    let mut r = control.reset("0000:05:00.0".to_string(), vec![]);
    assert_eq!(r.deadline_millis, 15000);
    assert!(matches!(r.step(&ResetEvent::Started), ResetAction::CheckDeviceExists));
    match r.step(&ResetEvent::Flag(false)) {
        ResetAction::Finish(Err(m)) => assert_eq!(m, "PCI-Device nicht vorhanden"),
        _ => panic!("expected a failure"),
    }
    assert_eq!(r.phase, ResetPhase::Done);
}

#[test]
fn device_reset_that_works() {
    let mut r = PcieReset::new("0000:05:00.0".to_string(), vec![], 500, 10000);
    r.step(&ResetEvent::Started);
    assert!(matches!(r.step(&ResetEvent::Flag(true)), ResetAction::PowerOnDevice));
    match r.step(&ResetEvent::Completed) {
        ResetAction::CheckExists { path } => {
            assert_eq!(path, "/sys/bus/pci/devices/0000:05:00.0/reset")
        }
        _ => panic!("expected the reset hook check"),
    }
    match r.step(&ResetEvent::Flag(true)) {
        ResetAction::WriteOne { path } => assert_eq!(path, "/sys/bus/pci/devices/0000:05:00.0/reset"),
        _ => panic!("expected the reset write"),
    }
    assert!(matches!(r.step(&ResetEvent::WriteOk), ResetAction::Sleep { millis: 500 }));
    assert!(matches!(r.step(&ResetEvent::Completed), ResetAction::CheckReady));
    assert!(matches!(r.step(&ResetEvent::Flag(true)), ResetAction::Finish(Ok(()))));
}

#[test]
fn upstream_fallback_then_timeout() {
    let mut r = PcieReset::new(
        "0000:05:00.0".to_string(),
        vec!["/up/reset_subordinate".to_string()],
        500,
        10000,
    );
    r.step(&ResetEvent::Started);
    r.step(&ResetEvent::Flag(true));
    r.step(&ResetEvent::Completed);
    assert!(matches!(r.step(&ResetEvent::Flag(false)), ResetAction::DetachDevice));
    assert!(matches!(r.step(&ResetEvent::Completed), ResetAction::Sleep { millis: 1000 }));
    match r.step(&ResetEvent::Completed) {
        ResetAction::PowerOnParentOf { path } => assert_eq!(path, "/up/reset_subordinate"),
        _ => panic!("expected the upstream hook"),
    }
    assert!(matches!(r.step(&ResetEvent::Completed), ResetAction::WriteOne { .. }));
    assert!(matches!(r.step(&ResetEvent::WriteOk), ResetAction::Sleep { millis: 500 }));
    match r.step(&ResetEvent::Completed) {
        ResetAction::WriteOne { path } => assert_eq!(path, "/sys/bus/pci/rescan"),
        _ => panic!("expected a rescan"),
    }
    assert!(matches!(r.step(&ResetEvent::WriteOk), ResetAction::StartClock));
    assert!(matches!(r.step(&ResetEvent::Completed), ResetAction::ReadClock));
    // Past the deadline with no hook left: the final rescan.
    match r.step(&ResetEvent::Elapsed(10000)) {
        ResetAction::WriteOne { path } => assert_eq!(path, "/sys/bus/pci/rescan"),
        _ => panic!("expected the final rescan"),
    }
    assert!(matches!(r.step(&ResetEvent::WriteOk), ResetAction::StartClock));
    assert!(matches!(r.step(&ResetEvent::Completed), ResetAction::ReadClock));
    assert!(matches!(r.step(&ResetEvent::Elapsed(200)), ResetAction::CheckReady));
    assert!(matches!(r.step(&ResetEvent::Flag(false)), ResetAction::Sleep { millis: 500 }));
    assert!(matches!(r.step(&ResetEvent::Completed), ResetAction::ReadClock));
    match r.step(&ResetEvent::Elapsed(10001)) {
        ResetAction::Finish(Err(m)) => {
            assert_eq!(m, "Device nach Reset/Rescan nicht bereit nach 10s")
        }
        _ => panic!("expected a timeout"),
    }
}
