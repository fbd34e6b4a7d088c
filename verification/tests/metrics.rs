use evo_toolkit::json::JsonValue;
use evo_toolkit::metrics::{
    available_models, bytes_text_to_mib, cpu_model_name, free_gtt_mib, gpu_arch, gpu_readings,
    gtt_usage, memory_from_meminfo, meminfo_fits, parse_df_output, parse_meminfo_kb, resolve_token, running_models,
    service_state_text, sysfs_u64, tailscale_info, uevent_is_amdgpu, ArchProbe, GpuProbe, TimedCache,
};

fn s(x: &str) -> JsonValue {
    JsonValue::Str(x.to_string())
}

fn obj(members: Vec<(&str, JsonValue)>) -> JsonValue {
    JsonValue::Object(members.into_iter().map(|(k, v)| (k.to_string(), v)).collect())
}

#[test]
fn meminfo_lines() {
    assert_eq!(parse_meminfo_kb("MemTotal:       131072000 kB"), 131072000);
    assert_eq!(parse_meminfo_kb("MemTotal:"), 0);
    assert_eq!(parse_meminfo_kb("MemFree: lots kB"), 0);
    let m = memory_from_meminfo("MemTotal: 1000 kB\nMemFree: 10 kB\nMemAvailable: 400 kB\n");
    assert_eq!(m.total_bytes, 1024000);
    assert_eq!(m.used_bytes, 614400);
    assert!(meminfo_fits("MemTotal: 1000 kB\nMemAvailable: 400 kB\n"));
    assert!(!meminfo_fits("MemTotal: 18014398509481984 kB\n"));
    assert!(meminfo_fits("MemFree: 18014398509481984 kB\n"));
    let m = memory_from_meminfo("MemAvailable: 400 kB\n");
    assert_eq!(m.total_bytes, 0);
    assert_eq!(m.used_bytes, 0);
}

#[test]
fn df_output() {
    let text = "Mounted on          1B-blocks         Used        Avail\n\
                /          1000000 400000 600000\n\
                /boot 0 0 0\n";
    let disks = parse_df_output(text);
    assert_eq!(disks.len(), 1);
    assert_eq!(disks[0].mount, "/");
    assert_eq!(disks[0].total_bytes, 1000000);
    assert_eq!(disks[0].used_bytes, 400000);
    assert_eq!(disks[0].available_bytes, 600000);
}

#[test]
fn cpu_and_driver() {
    let cpuinfo = "processor\t: 0\nmodel name\t: AMD RYZEN AI MAX+ 395 w/ Radeon 8060S\nflags\t: fpu\n";
    assert_eq!(cpu_model_name(cpuinfo), "AMD RYZEN AI MAX+ 395 w/ Radeon 8060S");
    assert_eq!(cpu_model_name("flags: fpu\n"), "");
    assert!(uevent_is_amdgpu("DRIVER=amdgpu\nPCI_CLASS=30000\n"));
    assert!(!uevent_is_amdgpu("DRIVER=nvidia\n"));
}

#[test]
fn gtt_figures() {
    assert_eq!(bytes_text_to_mib("2147483648\n"), Some(2048));
    assert_eq!(bytes_text_to_mib("x"), None);
    assert_eq!(free_gtt_mib(1000, 300), 700);
    assert_eq!(free_gtt_mib(300, 1000), 0);
    let probes = vec![None, Some((Some(0), Some(5))), Some((Some(4096), None)), Some((Some(1), Some(1)))];
    assert_eq!(gtt_usage(&probes), (0, 4096));
    assert_eq!(gtt_usage(&vec![None]), (0, 0));
}

#[test]
fn gpu_figures() {
    let probes = vec![
        GpuProbe { busy_percent: None, temps_millideg: vec![None] },
        GpuProbe { busy_percent: Some(37), temps_millideg: vec![None, Some(54321), Some(1000)] },
        GpuProbe { busy_percent: Some(99), temps_millideg: vec![Some(20000)] },
    ];
    let g = gpu_readings(&probes);
    assert_eq!(g.utilization_pct, Some(37));
    assert_eq!(g.temperature_c, Some(54));
    let g = gpu_readings(&vec![]);
    assert_eq!(g.utilization_pct, None);
    assert_eq!(g.temperature_c, None);
}

#[test]
fn gpu_architecture() {
    let probes = vec![
        ArchProbe { has_gtt: false, product_name: Some("card0".to_string()), uevent: None },
        ArchProbe {
            has_gtt: true,
            product_name: None,
            uevent: Some("DRIVER=amdgpu\n".to_string()),
        },
    ];
    assert_eq!(gpu_arch(&probes), Some("RDNA 3.5 (amdgpu)".to_string()));
    let named = vec![ArchProbe {
        has_gtt: true,
        product_name: Some(" Radeon 8060S \n".to_string()),
        uevent: None,
    }];
    assert_eq!(gpu_arch(&named), Some("Radeon 8060S".to_string()));
    assert_eq!(gpu_arch(&vec![]), None);
}

#[test]
fn services_and_tailscale() {
    assert_eq!(service_state_text(Some("active\n")), "active");
    assert_eq!(service_state_text(None), "unknown");
    let t = tailscale_info(Some("100.64.0.7\n"), Some("evo-x2\n")).unwrap();
    assert_eq!(t.ip, Some("100.64.0.7".to_string()));
    assert_eq!(t.hostname, Some("evo-x2".to_string()));
    assert!(tailscale_info(Some("  \n"), Some("evo-x2")).is_none());
    assert!(tailscale_info(None, Some("evo-x2")).is_none());
}

#[test]
fn ollama_replies() {
    let ps = obj(vec![(
        "models",
        JsonValue::Array(vec![
            obj(vec![
                ("name", s("qwen3:14b")),
                ("size", JsonValue::UInt(9000)),
                ("size_vram", JsonValue::UInt(8000)),
                ("details", obj(vec![("processor", s("100% GPU"))])),
                ("expires_at", s("2026-01-01T00:00:00Z")),
            ]),
            obj(vec![("name", s("no-size"))]),
            obj(vec![
                ("name", s("cpu-model")),
                ("size", JsonValue::UInt(10)),
                ("size_vram", JsonValue::Float),
            ]),
        ]),
    )]);
    let models = running_models(&ps).unwrap();
    assert_eq!(models.len(), 2);
    assert_eq!(models[0].name, "qwen3:14b");
    assert_eq!(models[0].size_bytes, 9000);
    assert_eq!(models[0].vram_bytes, 8000);
    assert_eq!(models[0].processor, "100% GPU");
    assert_eq!(models[0].expires_at, Some("2026-01-01T00:00:00Z".to_string()));
    assert_eq!(models[1].name, "cpu-model");
    assert_eq!(models[1].vram_bytes, 0);
    assert_eq!(models[1].processor, "");
    assert!(running_models(&obj(vec![])).is_none());

    let tags = obj(vec![(
        "models",
        JsonValue::Array(vec![obj(vec![("name", s("a"))]), obj(vec![]), obj(vec![("name", s("b"))])]),
    )]);
    assert_eq!(available_models(&tags), vec!["a".to_string(), "b".to_string()]);
    assert!(available_models(&JsonValue::Null).is_empty());
}

#[test]
fn cache_window() {
    let mut c: TimedCache<u32> = TimedCache::new(5);
    assert_eq!(c.get(), None);
    assert_eq!(c.lookup(0), None);
    c.set(7);
    assert_eq!(c.get(), Some(7));
    assert_eq!(c.lookup(4), Some(7));
    assert_eq!(c.lookup(5), None);
}

#[test]
fn sysfs_counters() {
    assert_eq!(sysfs_u64("  4096\n"), Some(4096));
    assert_eq!(sysfs_u64("18446744073709551615"), Some(u64::MAX));
    assert_eq!(sysfs_u64("18446744073709551616"), None);
    assert_eq!(sysfs_u64("abc"), None);
    assert_eq!(sysfs_u64(""), None);
}

#[test]
fn cache_without_lifetime_answers_nothing() {
    let mut c: TimedCache<u32> = TimedCache::new(0);
    c.set(3);
    assert_eq!(c.get(), None);
}

#[test]
fn agent_token_sources() {
    assert_eq!(resolve_token(Some("abc".to_string()), Some("/t"), Some("file")), Ok("abc".to_string()));
    assert_eq!(resolve_token(None, Some("/t"), Some("  tok\n")), Ok("tok".to_string()));
    assert_eq!(resolve_token(None, Some("/t"), None), Err("Token-Datei nicht lesbar: /t".to_string()));
    assert_eq!(resolve_token(None, None, None), Err("Weder --token noch --token-path angegeben".to_string()));
}
