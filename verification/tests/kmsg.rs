use evo_toolkit::kmsg::{KmsgMonitor, MonitorAction, MonitorEvent, MonitorPhase, WarningTrigger};

fn monitor() -> KmsgMonitor {
    KmsgMonitor::new("0000:05:00.0".to_string(), None)
}

#[test]
fn test_matches_cmplto_with_full_address() {
    let monitor = monitor();
    assert!(monitor.matches_cmplto(
        "pcieport 0000:00:01.0: AER: Corrected error received: 0000:05:00.0 CmpltTO"
    ));
}

#[test]
fn test_matches_cmplto_with_nvidia_prefix() {
    let monitor = monitor();
    assert!(monitor
        .matches_cmplto("nvidia 0000:05:00.0: PCIe AER Non-Fatal Error: CmpltTO detected"));
}

#[test]
fn test_no_match_different_address() {
    let monitor = monitor();
    assert!(!monitor.matches_cmplto(
        "pcieport 0000:00:01.0: AER: Corrected error received: 0000:02:00.0 CmpltTO"
    ));
}

#[test]
fn test_no_match_without_cmplto() {
    let monitor = monitor();
    assert!(!monitor.matches_cmplto("nvidia 0000:05:00.0: GPU has fallen off the bus"));
}

#[test]
fn test_no_match_empty_line() {
    let monitor = monitor();
    assert!(!monitor.matches_cmplto(""));
}

#[test]
fn test_matches_short_pci_form() {
    let monitor = monitor();
    assert!(monitor.matches_cmplto("AER error :05:00.0 CmpltTO"));
}

#[test]
fn test_matches_gpu_progress_error() {
    let mut monitor = monitor();
    monitor.gpu_index = Some("1".to_string());
    assert!(monitor.matches_gpu_progress_error(
        "nvidia-modeset: ERROR: GPU:1: Error while waiting for GPU progress: 0x0000ca7d:0 2:0:4048:4040"
    ));
}

#[test]
fn test_gpu_progress_error_wrong_gpu_index() {
    let mut monitor = monitor();
    monitor.gpu_index = Some("1".to_string());
    assert!(!monitor.matches_gpu_progress_error(
        "nvidia-modeset: ERROR: GPU:0: Error while waiting for GPU progress: 0x0000ca7d:0"
    ));
}

#[test]
fn test_gpu_progress_error_no_index_matches_any() {
    let mut monitor = monitor();
    monitor.gpu_index = None;
    assert!(monitor.matches_gpu_progress_error(
        "nvidia-modeset: ERROR: GPU:1: Error while waiting for GPU progress: 0x0000ca7d:0"
    ));
}

#[test]
fn test_gpu_progress_error_no_match_other_nvidia_errors() {
    let mut monitor = monitor();
    monitor.gpu_index = Some("1".to_string());
    assert!(!monitor
        .matches_gpu_progress_error("nvidia-modeset: ERROR: GPU:1: Idling display engine timed out"));
}

#[test]
fn test_xid_79_gpu_fallen_off_bus() {
    let monitor = monitor();
    assert_eq!(
        monitor.matches_xid_error("NVRM: Xid (PCI:0000:05:00): 79, pid=1234, GPU has fallen off the bus"),
        Some(79)
    );
}

#[test]
fn test_xid_48_ecc_error() {
    let monitor = monitor();
    assert_eq!(monitor.matches_xid_error("NVRM: Xid (PCI:0000:05:00): 48, pid=0, ECC error"), Some(48));
}

#[test]
fn test_xid_wrong_pci() {
    let monitor = monitor();
    assert_eq!(
        monitor.matches_xid_error("NVRM: Xid (PCI:0000:02:00): 79, pid=1234, GPU has fallen off the bus"),
        None
    );
}

#[test]
fn test_xid_no_nvrm() {
    let monitor = monitor();
    assert_eq!(monitor.matches_xid_error("NVRM: GPU 0000:05:00.0: RmInitAdapter failed!"), None);
}

#[test]
fn test_xid_13_graphics_engine() {
    let monitor = monitor();
    assert_eq!(
        monitor.matches_xid_error("NVRM: Xid (PCI:0000:05:00): 13, pid=5678, Graphics Engine Exception"),
        Some(13)
    );
}

#[test]
fn kmsg_new_uses_dev_kmsg_and_keeps_address() {
    let monitor = monitor();
    assert_eq!(monitor.kmsg_path, "/dev/kmsg");
    assert_eq!(monitor.pci_address, "0000:05:00.0");
    assert_eq!(monitor.gpu_index, None);
}

#[test]
fn kmsg_with_path_sets_path() {
    let m = KmsgMonitor::with_path("0000:05:00.0".to_string(), "/tmp/log".to_string(), None);
    assert_eq!(m.kmsg_path, "/tmp/log");
}

#[test]
fn kmsg_gpu_index_detected_case_insensitively_by_position() {
    let dirs = vec!["0000:01:00.0".to_string(), "0000:05:00.0".to_string()];
    let m = KmsgMonitor::new("0000:05:00.0".to_string(), Some(dirs));
    assert_eq!(m.gpu_index, Some("1".to_string()));
    let dirs = vec!["0000:0A:00.0".to_string()];
    let m = KmsgMonitor::new("0000:0a:00.0".to_string(), Some(dirs));
    assert_eq!(m.gpu_index, Some("0".to_string()));
    let m = KmsgMonitor::new("0000:05:00.0".to_string(), Some(vec!["x".to_string()]));
    assert_eq!(m.gpu_index, None);
}

#[test]
fn kmsg_classify_line_orders_checks() {
    let mut m = monitor();
    m.gpu_index = Some("1".to_string());
    assert_eq!(m.classify_line("0000:05:00.0 CmpltTO"), Some(WarningTrigger::CmpltToPattern));
    assert_eq!(
        m.classify_line("nvidia-modeset: ERROR: GPU:1: Error while waiting for GPU progress"),
        Some(WarningTrigger::GpuProgressError)
    );
    assert_eq!(
        m.classify_line("NVRM: Xid (PCI:0000:05:00): 79, pid=1"),
        Some(WarningTrigger::XidError { xid: 79 })
    );
    assert_eq!(m.classify_line("unrelated"), None);
}

#[test]
fn kmsg_xid_overflow_and_missing_digits() {
    let m = monitor();
    assert_eq!(m.matches_xid_error("NVRM: Xid (PCI:0000:05:00): 4294967296, x"), None);
    assert_eq!(m.matches_xid_error("NVRM: Xid (PCI:0000:05:00): 4294967295, x"), Some(4294967295));
    assert_eq!(m.matches_xid_error("NVRM: Xid (PCI:0000:05:00): , x"), None);
    assert_eq!(m.matches_xid_error("NVRM: Xid 0000:05:00.0 no separator"), None);
}

#[test]
fn kmsg_bare_bus_device_function_form_matches() {
    let m = KmsgMonitor::new("0000:05:00.0".to_string(), None);
    assert!(m.matches_cmplto("nvidia 05:00.0: CmpltTO"));
    assert!(!m.matches_cmplto("nvidia 06:00.0: CmpltTO"));
}

#[test]
fn kmsg_short_form_needs_last_colon_past_two_bytes() {
    let m = KmsgMonitor::new("ab:c".to_string(), None);
    assert!(!m.matches_cmplto("xx b:c CmpltTO"));
    let m = KmsgMonitor::new("abc:d".to_string(), None);
    assert!(m.matches_cmplto("zzz abc:d CmpltTO"));
}

#[test]
fn monitor_drains_old_messages_then_reports_new_ones() {
    let m = monitor();
    let cmplto = "pcieport 0000:00:01.0: AER: Corrected error received: 0000:05:00.0 CmpltTO";
    let (phase, action) = m.monitor_step(MonitorPhase::Starting, &MonitorEvent::Opened);
    assert!(phase == MonitorPhase::Draining { drained: 0 });
    assert!(matches!(action, MonitorAction::SkipNext));
    let (phase, action) = m.monitor_step(phase, &MonitorEvent::Line(cmplto.to_string()));
    assert!(phase == MonitorPhase::Draining { drained: 1 });
    assert!(matches!(action, MonitorAction::SkipNext));
    let (phase, action) = m.monitor_step(phase, &MonitorEvent::DrainTimeout);
    assert!(phase == MonitorPhase::Watching);
    assert!(matches!(action, MonitorAction::StartWatching { skipped: 1 }));
    let (phase, action) = m.monitor_step(phase, &MonitorEvent::Line(cmplto.to_string()));
    assert!(matches!(action, MonitorAction::Send(WarningTrigger::CmpltToPattern)));
    let (phase, action) = m.monitor_step(phase, &MonitorEvent::Line("unrelated".to_string()));
    assert!(matches!(action, MonitorAction::ReadNext));
    let (phase, action) = m.monitor_step(
        phase,
        &MonitorEvent::Line("NVRM: Xid (PCI:0000:05:00): 79, pid=1234, GPU has fallen off the bus".to_string()),
    );
    assert!(matches!(action, MonitorAction::Send(WarningTrigger::XidError { xid: 79 })));
    let (phase, action) = m.monitor_step(phase, &MonitorEvent::EndOfFile);
    assert!(matches!(action, MonitorAction::Sleep { millis: 1000 }));
    let (phase, action) = m.monitor_step(phase, &MonitorEvent::ReadError);
    assert!(matches!(action, MonitorAction::Sleep { millis: 100 }));
    let (phase, action) = m.monitor_step(phase, &MonitorEvent::Cancelled);
    assert!(phase == MonitorPhase::Stopped);
    assert!(matches!(action, MonitorAction::Stop));
}

#[test]
fn monitor_stops_when_the_channel_closes() {
    let m = monitor();
    let (phase, action) = m.monitor_step(MonitorPhase::Watching, &MonitorEvent::SendFailed);
    assert!(phase == MonitorPhase::Stopped);
    assert!(matches!(action, MonitorAction::Stop));
}

#[test]
fn monitor_stops_when_the_log_cannot_be_opened() {
    let m = monitor();
    let (phase, action) = m.monitor_step(MonitorPhase::Starting, &MonitorEvent::OpenFailed);
    assert!(phase == MonitorPhase::Stopped);
    assert!(matches!(action, MonitorAction::Stop));
    let (phase, action) = m.monitor_step(phase, &MonitorEvent::Line("0000:05:00.0 CmpltTO".to_string()));
    assert!(phase == MonitorPhase::Stopped);
    assert!(matches!(action, MonitorAction::Stop));
}
