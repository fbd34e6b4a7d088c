use evo_toolkit::evo::{
    connection_footer_text, connection_label_text, default_ip, default_poll,
    default_port, default_user, idle_models, model_short_name, ollama_messages, ollama_summary, service_state, services_distinct,
    status_symbol, status_text, system_rows, temperature_class, uptime_text, validate_settings,
    ConnectionState, EvoConfig, EvoMetrics, GpuInfo, OllamaInfo, PollOutcome, Poller, SystemInfo,
    TailscaleInfo, WidgetState,
};

fn system() -> SystemInfo {
    SystemInfo {
        soc: String::new(),
        gpu_arch: String::new(),
        ram_spec: String::new(),
        cpu_cores: 0,
        uptime_seconds: 0,
    }
}

fn metrics(services: &[(&str, &str)]) -> EvoMetrics {
    EvoMetrics {
        gtt_used_bytes: 0,
        gtt_total_bytes: 0,
        ram_used_bytes: 0,
        ram_total_bytes: 0,
        services: services.iter().map(|(a, b)| (a.to_string(), b.to_string())).collect(),
        gpu: GpuInfo { temperature_c: None, utilization_pct: None },
        ollama: None,
        system: system(),
        tailscale: None,
    }
}

#[test]
fn config_defaults() {
    assert_eq!(default_ip(), "");
    assert_eq!(default_port(), 8084);
    assert_eq!(default_user(), "jan");
    assert_eq!(default_poll(), 5);
    let c = EvoConfig::default_with_home("/home/u");
    assert_eq!(c.metrics_port, 8084);
    assert_eq!(c.setup_dir, "/home/u/Projekte/evo/setup");
    assert_eq!(EvoConfig::config_path(Some("/home/u/.config")), "/home/u/.config/evo-manager/config.json");
    assert_eq!(EvoConfig::config_path(None), "/tmp/evo-manager/config.json");
}

#[test]
fn metrics_url_formats_address_and_port() {
    let mut c = EvoConfig::default_with_home("/home/u");
    c.evo_ip = "192.168.1.50".to_string();
    c.metrics_port = 8084;
    assert_eq!(c.metrics_url(), "http://192.168.1.50:8084/metrics");
}

#[test]
fn warning_color_follows_services() {
    let none = WidgetState { connection: ConnectionState::Connecting, metrics: None };
    assert_eq!(none.warning_color(), "gray");
    assert_eq!(none.active_count(), (0, 0));
    let all = WidgetState {
        connection: ConnectionState::Connected,
        metrics: Some(metrics(&[("ollama", "active"), ("evo-metrics", "active")])),
    };
    assert_eq!(all.warning_color(), "green");
    let some = WidgetState {
        connection: ConnectionState::Connected,
        metrics: Some(metrics(&[("ollama", "active"), ("evo-metrics", "failed")])),
    };
    assert_eq!(some.warning_color(), "yellow");
    assert_eq!(some.active_count(), (1, 2));
    let none_active = WidgetState {
        connection: ConnectionState::Connected,
        metrics: Some(metrics(&[("ollama", "inactive")])),
    };
    assert_eq!(none_active.warning_color(), "red");
    let empty = WidgetState { connection: ConnectionState::Connected, metrics: Some(metrics(&[])) };
    assert_eq!(empty.warning_color(), "gray");
}

#[test]
fn poller_counts_failures() {
    let mut p = Poller::new();
    let ws = p.record(PollOutcome::NoAddress);
    assert_eq!(ws.connection, ConnectionState::Error("Keine IP konfiguriert".to_string()));
    for n in 1..5u32 {
        let ws = p.record(PollOutcome::Failed);
        assert_eq!(ws.connection, ConnectionState::Reconnecting(n));
    }
    let ws = p.record(PollOutcome::Failed);
    assert_eq!(ws.connection, ConnectionState::Error("EVO-X2 nicht erreichbar".to_string()));
    let ws = p.record(PollOutcome::Fetched(metrics(&[])));
    assert_eq!(ws.connection, ConnectionState::Connected);
    assert_eq!(p.consecutive_failures, 0);
}

#[test]
fn connection_texts() {
    assert_eq!(connection_label_text(&ConnectionState::Reconnecting(3)), "Reconnect #3");
    assert_eq!(connection_footer_text(&ConnectionState::Connected), "\u{25CF} Verbunden");
    assert_eq!(connection_footer_text(&ConnectionState::Error("x".to_string())), "\u{2715} x");
    let ws = WidgetState {
        connection: ConnectionState::Connected,
        metrics: Some(metrics(&[("a", "active"), ("b", "failed"), ("c", "active")])),
    };
    assert_eq!(status_text(&ws), "2/3 Services aktiv");
    let ws = WidgetState { connection: ConnectionState::Connecting, metrics: None };
    assert_eq!(status_text(&ws), "Verbinde...");
    assert_eq!(status_symbol("yellow"), "\u{26A0}");
    assert_eq!(status_symbol("gray"), "\u{25CB}");
}

#[test]
fn popup_details() {
    let m = Some(metrics(&[("ollama", "active")]));
    assert_eq!(service_state(&m, "ollama"), "active");
    assert_eq!(service_state(&m, "evo-webhook"), "unknown");
    assert_eq!(service_state(&None, "ollama"), "unknown");
    assert_eq!(model_short_name("qwen3:14b"), "qwen3");
    assert_eq!(model_short_name("plain"), "plain");
    assert_eq!(temperature_class(86), "red");
    assert_eq!(temperature_class(85), "yellow");
    assert_eq!(temperature_class(70), "green");
    assert_eq!(uptime_text(3 * 3600 + 25 * 60 + 59), "3h 25m");
}

#[test]
fn system_rows_list_known_facts() {
    let mut s = system();
    s.soc = "AMD Ryzen AI Max+ 395".to_string();
    s.cpu_cores = 32;
    s.uptime_seconds = 7200;
    let ts = Some(TailscaleInfo { ip: Some("100.64.0.1".to_string()), hostname: None });
    let rows = system_rows(&s, &ts);
    assert_eq!(
        rows,
        vec![
            ("SoC".to_string(), "AMD Ryzen AI Max+ 395".to_string()),
            ("Kerne".to_string(), "32".to_string()),
            ("Uptime".to_string(), "2h 0m".to_string()),
            ("Tailscale".to_string(), "100.64.0.1".to_string()),
        ]
    );
}

#[test]
fn ollama_lists() {
    let info = OllamaInfo {
        running_models: vec!["qwen3:14b".to_string()],
        available_models: vec!["qwen3:14b".to_string(), "llama3:8b".to_string()],
    };
    assert_eq!(idle_models(&info), vec!["llama3:8b".to_string()]);
    assert_eq!(ollama_summary(&info), "1 laufend, 2 installiert");
}

#[test]
fn settings_validation() {
    let ok = validate_settings(" 192.168.1.5 ", "evo-x2", "8084", "jan").unwrap();
    assert_eq!(ok.evo_ip, "192.168.1.5");
    assert_eq!(ok.metrics_port, 8084);
    assert_eq!(
        validate_settings("not an ip!", "", "8084", "jan").err().unwrap(),
        "\u{274C} Ungueltige LAN-IP!"
    );
    assert_eq!(
        validate_settings("", "a b", "8084", "jan").err().unwrap(),
        "\u{274C} Ungueltige Tailscale-IP!"
    );
    assert_eq!(
        validate_settings("", "", "0", "jan").err().unwrap(),
        "\u{274C} Ungueltiger Port (1-65535)!"
    );
    assert_eq!(
        validate_settings("", "", "70000", "jan").err().unwrap(),
        "\u{274C} Ungueltiger Port (1-65535)!"
    );
    assert_eq!(
        validate_settings("", "", "22", "  ").err().unwrap(),
        "\u{274C} SSH-Benutzer darf nicht leer sein!"
    );
}

#[test]
fn ollama_tab_notices() {
    let info = |running: &[&str], available: &[&str]| OllamaInfo {
        running_models: running.iter().map(|s| s.to_string()).collect(),
        available_models: available.iter().map(|s| s.to_string()).collect(),
    };
    assert_eq!(ollama_messages(&None), vec!["Ollama nicht erreichbar".to_string()]);
    assert_eq!(
        ollama_messages(&Some(info(&[], &[]))),
        vec!["Keine Modelle geladen".to_string(), "Keine Modelle installiert".to_string()]
    );
    assert_eq!(ollama_messages(&Some(info(&["a"], &["a"]))), vec!["Alle Modelle aktiv".to_string()]);
    assert_eq!(ollama_messages(&Some(info(&[], &["a"]))), vec!["Keine Modelle geladen".to_string()]);
    assert!(ollama_messages(&Some(info(&["a"], &["a", "b"]))).is_empty());
}

#[test]
fn service_names_are_checked_distinct() {
    assert!(services_distinct(&metrics(&[("a", "active"), ("b", "failed")]).services));
    assert!(services_distinct(&metrics(&[]).services));
    assert!(!services_distinct(&metrics(&[("a", "active"), ("b", "x"), ("a", "failed")]).services));
}

#[test]
fn polls_without_address_do_not_break_a_failure_run() {
    let mut p = Poller::new();
    for _ in 0..3 {
        p.record(PollOutcome::Failed);
    }
    let ws = p.record(PollOutcome::NoAddress);
    assert_eq!(ws.connection, ConnectionState::Error("Keine IP konfiguriert".to_string()));
    let ws = p.record(PollOutcome::Failed);
    assert_eq!(ws.connection, ConnectionState::Reconnecting(4));
    let ws = p.record(PollOutcome::Failed);
    assert_eq!(ws.connection, ConnectionState::Error("EVO-X2 nicht erreichbar".to_string()));
    assert_eq!(p.consecutive_failures, 5);
    p.record(PollOutcome::Fetched(metrics(&[("ollama", "active")])));
    let ws = p.record(PollOutcome::Failed);
    assert_eq!(ws.connection, ConnectionState::Reconnecting(1));
}
