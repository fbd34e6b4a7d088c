use evo_toolkit::json::JsonValue;
use evo_toolkit::router::{
    ap_wifi_commands, authorized_key_command, default_true, file_exec_command,
    file_write_command, geo_url, handshake_seen, init_password_ip, interface_status_command,
    needs_public_ip, nordvpn_result, private_key_from, reports_ok, reports_up, restore_commands,
    sanitize_identifier, sanitize_shell, scan_networks, security_scripts, security_summary, select_german_servers,
    set_password_command, setup_checks, setup_wifi_precheck, setup_wifi_result, ssh_target,
    status_from_replies, system_info_fits, transfer_fits, transfer_totals, uci_commit_command, uci_interface_script,
    uci_set_command, ubus_call_command, ubus_response, vpn_down_command, vpn_server_entry,
    vpn_up_command, wg_interface_name, wifi_connect_command, wireguard_conf_path,
    wireguard_config, wireguard_interface_names, wireless_get_command, wireless_sections,
    apply_country, apply_public_ip, deployed_server, RouterStatus, UbusRequest, UbusResponse,
    WgServerConfig,
};

fn s(x: &str) -> JsonValue {
    JsonValue::Str(x.to_string())
}

fn obj(members: Vec<(&str, JsonValue)>) -> JsonValue {
    JsonValue::Object(members.into_iter().map(|(k, v)| (k.to_string(), v)).collect())
}

#[test]
fn shell_values_lose_metacharacters() {
    assert_eq!(sanitize_shell("a'b;c$(d)|e&f`g\\h\ni\rj"), "abcdefghij");
    assert_eq!(sanitize_shell("plain text"), "plain text");
    assert_eq!(sanitize_shell(""), "");
}

#[test]
fn identifiers_are_cleaned_or_refused() {
    assert_eq!(sanitize_identifier("wg_de_frankfurt"), Ok("wg_de_frankfurt".to_string()));
    assert_eq!(sanitize_identifier("wg de;frankfurt"), Ok("wgdefrankfurt".to_string()));
    assert_eq!(sanitize_identifier("a.b-c"), Ok("ab-c".to_string()));
    assert_eq!(sanitize_identifier("wg.de"), Ok("wgde".to_string()));
    assert_eq!(sanitize_identifier("!!!"), Err("Invalid identifier: '!!!'".to_string()));
    let long = "a".repeat(65);
    assert_eq!(sanitize_identifier(&long), Err(format!("Invalid identifier: '{long}'")));
    assert_eq!(sanitize_identifier(&"a".repeat(64)), Ok("a".repeat(64)));
    assert!(default_true());
}

#[test]
fn ubus_request_and_response() {
    let r = UbusRequest::call("sess", "system", "board", obj(vec![]));
    assert_eq!(r.jsonrpc, "2.0");
    assert_eq!(r.id, 1);
    assert_eq!(r.method, "call");
    match r.params {
        JsonValue::Array(p) => {
            assert_eq!(p.len(), 4);
            assert!(matches!(&p[0], JsonValue::Str(x) if x == "sess"));
            assert!(matches!(&p[2], JsonValue::Str(x) if x == "board"));
        }
        _ => panic!("params must be an array"),
    }
    let resp = UbusResponse::with_data(obj(vec![("uptime", JsonValue::UInt(5))]));
    assert!(resp.is_ok());
    assert!(resp.data().unwrap().get("uptime").is_some());
    let bad = UbusResponse {
        jsonrpc: "2.0".to_string(),
        id: 1,
        result: Some(JsonValue::Array(vec![JsonValue::UInt(6)])),
        error: None,
    };
    assert!(!bad.is_ok());
}

#[test]
fn ubus_output_interpretation() {
    let r = ubus_response(" \n", Err("unused".to_string())).unwrap();
    assert!(matches!(r.data(), Some(JsonValue::Object(m)) if m.is_empty()));
    let r = ubus_response("{\"a\":1}", Ok(obj(vec![("a", JsonValue::UInt(1))]))).unwrap();
    assert!(r.data().unwrap().get("a").is_some());
    let e = ubus_response("garbage", Err("expected value at line 1 column 1".to_string()));
    assert_eq!(
        e.err().unwrap(),
        "JSON parse error: expected value at line 1 column 1 (output: garbage)"
    );
    let long = "x".repeat(300);
    let e = ubus_response(&long, Err("e".to_string())).err().unwrap();
    assert_eq!(e, format!("JSON parse error: e (output: {})", "x".repeat(200)));
}

#[test]
fn status_from_router_replies() {
    let dump = obj(vec![(
        "interface",
        JsonValue::Array(vec![
            obj(vec![
                ("interface", s("wan")),
                ("up", JsonValue::Bool(true)),
                ("ipv4-address", JsonValue::Array(vec![obj(vec![("address", s("192.168.1.2"))])])),
            ]),
            obj(vec![("interface", s("wg_de_frankfurt")), ("up", JsonValue::Bool(true))]),
            obj(vec![("interface", s("wwan")), ("up", JsonValue::Bool(false))]),
        ]),
    )]);
    let system = obj(vec![
        ("uptime", JsonValue::UInt(3600)),
        (
            "memory",
            obj(vec![
                ("total", JsonValue::UInt(1000)),
                ("free", JsonValue::UInt(300)),
                ("buffered", JsonValue::UInt(100)),
            ]),
        ),
    ]);
    let clients = obj(vec![("clients", obj(vec![("aa", obj(vec![])), ("bb", obj(vec![]))]))]);
    let st = status_from_replies(
        Some(&dump),
        Some(&system),
        Some(&clients),
        Some("Travel\n"),
        Some("wg0\tpeer1\t100\t200\nwg0\tpeer2\t5\tx\nshort\n"),
    );
    assert!(st.wan.connected);
    assert_eq!(st.wan.wan_type, "ethernet");
    assert_eq!(st.wan.ip, "192.168.1.2");
    assert!(st.vpn.connected);
    assert_eq!(st.vpn.server_name, "DE-de_frankfurt");
    assert_eq!(st.system.uptime, 3600);
    assert_eq!(st.system.memory_used_pct, 60);
    assert_eq!(st.wifi_ap.clients, 2);
    assert_eq!(st.wifi_ap.ssid, "Travel");
    assert_eq!(st.traffic.rx_bytes, 105);
    assert_eq!(st.traffic.tx_bytes, 200);
    assert!(needs_public_ip(&st));

    let empty = status_from_replies(None, None, None, None, None);
    assert!(!empty.wan.connected && !empty.vpn.connected);
    assert_eq!(empty.system.memory_used_pct, 0);
    assert!(!needs_public_ip(&empty));
    assert!(!needs_public_ip(&RouterStatus::default()));
}

#[test]
fn repeater_uplink_and_last_vpn_win() {
    let dump = obj(vec![(
        "interface",
        JsonValue::Array(vec![
            obj(vec![("interface", s("wg_a")), ("up", JsonValue::Bool(true))]),
            obj(vec![("interface", s("wwan")), ("up", JsonValue::Bool(true))]),
            obj(vec![("interface", s("wg_b")), ("up", JsonValue::Bool(true))]),
            obj(vec![("interface", s("wg_c")), ("up", JsonValue::Bool(false))]),
        ]),
    )]);
    let st = status_from_replies(Some(&dump), None, None, None, None);
    assert_eq!(st.wan.wan_type, "repeater");
    assert_eq!(st.wan.ip, "");
    assert_eq!(st.vpn.server_name, "DE-b");
}

#[test]
fn public_address_and_country() {
    let mut st = RouterStatus::default();
    apply_public_ip(&mut st, &obj(vec![("ip", s("203.0.113.9"))]));
    assert_eq!(st.vpn.public_ip, "203.0.113.9");
    apply_public_ip(&mut st, &obj(vec![]));
    assert_eq!(st.vpn.public_ip, "203.0.113.9");
    assert_eq!(geo_url("203.0.113.9"), "https://ipapi.co/203.0.113.9/json/");
    apply_country(&mut st, &obj(vec![("country_name", s("Germany"))]));
    assert_eq!(st.vpn.country, "Germany");
    apply_country(&mut st, &obj(vec![]));
    assert_eq!(st.vpn.country, "");
}

#[test]
fn transfer_lines() {
    assert_eq!(transfer_totals(""), (0, 0));
    assert_eq!(transfer_totals("a\tb\t+7\t 8 \n"), (7, 8));
}

#[test]
fn scan_is_sorted_strongest_first_and_stable() {
    let data = obj(vec![(
        "list",
        JsonValue::Array(vec![
            obj(vec![
                ("ssid", s("A")),
                ("signal", JsonValue::NegInt(-70)),
                ("channel", JsonValue::UInt(6)),
                ("encryption", s("psk2")),
            ]),
            obj(vec![("ssid", s("B")), ("signal", JsonValue::NegInt(-40)), ("security", s("wpa3"))]),
            obj(vec![("ssid", s("C")), ("signal", JsonValue::NegInt(-70))]),
        ]),
    )]);
    let nets = scan_networks(&data);
    let names: Vec<&str> = nets.iter().map(|n| n.ssid.as_str()).collect();
    assert_eq!(names, vec!["B", "A", "C"]);
    assert_eq!(nets[0].encryption, "wpa3");
    assert_eq!(nets[1].encryption, "psk2");
    assert_eq!(nets[1].channel, 6);
    assert_eq!(nets[2].encryption, "unknown");
    assert_eq!(nets[2].bssid, "");
    // A bare array is accepted too.
    let bare = JsonValue::Array(vec![obj(vec![("ssid", s("X"))])]);
    let nets = scan_networks(&bare);
    assert_eq!(nets.len(), 1);
    assert_eq!(nets[0].signal, 0);
    assert!(scan_networks(&JsonValue::Null).is_empty());
}

#[test]
fn vpn_server_listing() {
    assert_eq!(
        wireguard_interface_names("wg_de_frankfurt\n\n  wg_de_berlin \n"),
        vec!["wg_de_frankfurt".to_string(), "wg_de_berlin".to_string()]
    );
    let e = vpn_server_entry("wg_de_bad_homburg", true);
    assert_eq!(e.id, "wg_de_bad_homburg");
    assert_eq!(e.name, "DE-de bad homburg");
    assert_eq!(e.city, "bad homburg");
    assert_eq!(e.ip, "");
    assert!(e.active);
    assert!(reports_up("true\n"));
    assert!(!reports_up("false"));
    assert_eq!(
        interface_status_command("wg_x"),
        "ubus call network.interface.wg_x status '{}' 2>/dev/null | jsonfilter -e '@.up'"
    );
}

fn server(city: Option<&str>, station: Option<&str>, key: Option<&str>) -> JsonValue {
    let mut m: Vec<(&str, JsonValue)> = Vec::new();
    if let Some(c) = city {
        m.push((
            "locations",
            JsonValue::Array(vec![obj(vec![("country", obj(vec![("city", obj(vec![("name", s(c))]))]))])]),
        ));
    }
    if let Some(st) = station {
        m.push(("station", s(st)));
    }
    if let Some(k) = key {
        m.push((
            "technologies",
            JsonValue::Array(vec![
                obj(vec![("identifier", s("openvpn_udp"))]),
                obj(vec![
                    ("identifier", s("wireguard_udp")),
                    (
                        "metadata",
                        JsonValue::Array(vec![obj(vec![("name", s("public_key")), ("value", s(k))])]),
                    ),
                ]),
            ]),
        ));
    }
    obj(m)
}

#[test]
fn german_server_selection() {
    let servers = vec![
        server(Some("Frankfurt"), Some("1.1.1.1"), Some("K1")),
        server(Some("Frankfurt"), Some("1.1.1.2"), Some("K2")),
        server(Some("Berlin"), None, Some("K3")),
        server(Some("Berlin"), Some("2.2.2.2"), Some("K4")),
        server(None, Some("3.3.3.3"), Some("K5")),
        server(Some("Hamburg"), Some("4.4.4.4"), None),
        server(Some("Munich"), Some("5.5.5.5"), Some("K6")),
        server(Some("Cologne"), Some("6.6.6.6"), Some("K7")),
    ];
    let picked = select_german_servers(&servers).unwrap();
    let cities: Vec<&str> = picked.iter().map(|p| p.city.as_str()).collect();
    assert_eq!(cities, vec!["Frankfurt", "Berlin", "Unknown", "Munich"]);
    assert_eq!(picked[0].name, "DE-Frankfurt");
    assert_eq!(picked[0].server_ip, "1.1.1.1");
    assert_eq!(picked[0].public_key, "K1");
    assert_eq!(picked[1].server_ip, "2.2.2.2");
    // The address may also come from the first `ips` entry.
    let via_ips = obj(vec![
        ("ips", JsonValue::Array(vec![obj(vec![("ip", obj(vec![("ip", s("9.9.9.9"))]))])])),
        (
            "technologies",
            JsonValue::Array(vec![obj(vec![
                ("identifier", s("wireguard_udp")),
                ("metadata", JsonValue::Array(vec![obj(vec![("name", s("public_key")), ("value", s("KK"))])])),
            ])]),
        ),
    ]);
    let picked = select_german_servers(&vec![via_ips]).unwrap();
    assert_eq!(picked[0].server_ip, "9.9.9.9");
    assert_eq!(picked[0].city, "Unknown");
    assert_eq!(
        select_german_servers(&vec![server(Some("X"), None, None)]).err().unwrap(),
        "No suitable German WireGuard servers found"
    );
}

#[test]
fn wireguard_deployment_texts() {
    assert_eq!(wg_interface_name("Bad Homburg-Nord"), "wg_de_bad_homburg_nord");
    assert_eq!(
        wireguard_config("PRIV", "PUB", "1.2.3.4"),
        "[Interface]\nPrivateKey = PRIV\nAddress = 10.5.0.2/16\n\n[Peer]\nPublicKey = PUB\nAllowedIPs = 0.0.0.0/0\nEndpoint = 1.2.3.4:51820\nPersistentKeepalive = 25\n"
    );
    assert_eq!(wireguard_conf_path("wg_de_x"), "/etc/wireguard/wg_de_x.conf");
    let script = uci_interface_script("wg1", "PK", "PUB", "1.2.3.4");
    assert!(script.starts_with("uci set network.wg1=interface; uci set network.wg1.proto='wireguard'; "));
    assert!(script.contains("uci set network.wg1.private_key='PK'; "));
    assert!(script.contains("uci set network.wg1_peer=wireguard_wg1; "));
    assert!(script.contains("uci set network.wg1_peer.endpoint_host='1.2.3.4'; "));
    assert!(script.ends_with("uci set network.wg1_peer.route_allowed_ips='1'"));
    let srv = WgServerConfig {
        name: "DE-X".to_string(),
        city: "X".to_string(),
        server_ip: "1.2.3.4".to_string(),
        public_key: "K".to_string(),
    };
    let d = deployed_server("wg_de_x".to_string(), &srv);
    assert_eq!(d.id, "wg_de_x");
    assert_eq!(d.ip, "1.2.3.4");
    assert!(!d.active);
    let r = nordvpn_result(vec![d]);
    assert_eq!(r.servers_loaded, 1);
    assert_eq!(
        private_key_from(&obj(vec![("nordlynx_private_key", s("abc"))])),
        Ok("abc".to_string())
    );
    assert_eq!(
        private_key_from(&obj(vec![])),
        Err("No nordlynx_private_key in response".to_string())
    );
}

#[test]
fn router_commands() {
    assert_eq!(ssh_target("192.168.8.1"), "root@192.168.8.1");
    assert_eq!(ubus_call_command("system", "info", "{}"), "ubus call system info '{}'");
    assert_eq!(
        wifi_connect_command("My'Net", "pa$$word"),
        "ubus call repeater connect '{\"ssid\":\"MyNet\",\"key\":\"paword\"}'"
    );
    assert_eq!(vpn_up_command("wg_de_x"), Ok("ifup wg_de_x".to_string()));
    assert_eq!(vpn_down_command("wg;rm"), Ok("ifdown wgrm".to_string()));
    assert_eq!(vpn_up_command(";;"), Err("Invalid identifier: ';;'".to_string()));
    assert_eq!(
        uci_set_command("wireless", "default_radio0", "ssid", "Home;rm"),
        Ok("uci set wireless.default_radio0.ssid='Homerm'".to_string())
    );
    assert_eq!(
        uci_set_command("wireless", "!!", "ssid", "x"),
        Err("Invalid identifier: '!!'".to_string())
    );
    assert_eq!(uci_commit_command("network"), "uci commit network");
    assert_eq!(
        file_write_command("/etc/x.conf", "data"),
        "cat > /etc/x.conf << 'WGEOF'\ndata\nWGEOF"
    );
    assert_eq!(
        file_exec_command("/bin/sh", &vec!["-c".to_string(), "echo OK".to_string()]),
        "/bin/sh -c echo OK"
    );
    assert_eq!(file_exec_command("wg", &vec![]), "wg ");
    assert_eq!(wireless_get_command("a", "mode"), "uci get wireless.a.mode 2>/dev/null");
    assert_eq!(
        wireless_sections("wireless.a=wifi-iface\nwireless.a=wifi-iface\nwireless.b=wifi-iface\n"),
        vec!["a".to_string(), "b".to_string()]
    );
}

#[test]
fn wifi_setup() {
    let refused = setup_wifi_precheck("short").unwrap();
    assert!(!refused.success);
    assert_eq!(refused.step, "wifi-ap");
    assert_eq!(refused.message, "Password must be at least 8 characters");
    assert!(setup_wifi_precheck("longenough").is_none());
    let ifaces = obj(vec![
        ("default_radio0", obj(vec![("mode", s("ap")), ("ssid", s("old"))])),
        ("wifinet1", obj(vec![("mode", s("sta"))])),
    ]);
    let cmds = ap_wifi_commands(&ifaces, "Trip", "secret'pw");
    assert_eq!(
        cmds,
        vec![
            Ok("uci set wireless.default_radio0.ssid='Trip'".to_string()),
            Ok("uci set wireless.default_radio0.key='secretpw'".to_string()),
            Ok("uci set wireless.default_radio0.encryption='psk2+ccmp'".to_string()),
        ]
    );
    assert!(ap_wifi_commands(&JsonValue::Null, "a", "b").is_empty());
    let ok = setup_wifi_result("Trip", Ok(()));
    assert!(ok.success);
    assert_eq!(ok.message, "WiFi AP 'Trip' configured");
    let failed = setup_wifi_result("Trip", Err("SSH failed".to_string()));
    assert!(!failed.success);
    assert_eq!(failed.message, "SSH failed");
}

#[test]
fn security_and_self_test() {
    assert_eq!(security_summary(true, true).message, "Kill Switch: ON, DNS Protection: ON");
    assert_eq!(security_summary(false, true).message, "DNS Protection: ON");
    assert_eq!(security_summary(false, false).message, "");
    let mut st = RouterStatus::default();
    st.wan.connected = true;
    st.wan.wan_type = "ethernet".to_string();
    st.wan.ip = "10.0.0.2".to_string();
    st.vpn.public_ip = "203.0.113.9".to_string();
    st.vpn.country = "Germany".to_string();
    let checks = setup_checks(Err("no route".to_string()), &st);
    assert_eq!(checks.len(), 4);
    assert!(!checks[0].pass);
    assert_eq!(checks[0].error, Some("no route".to_string()));
    assert_eq!(checks[1].detail, Some("ethernet (10.0.0.2)".to_string()));
    assert!(checks[1].pass);
    assert!(!checks[2].pass);
    assert!(checks[3].pass);
    assert_eq!(checks[3].detail, Some("203.0.113.9 (Germany)".to_string()));
}

#[test]
fn recovery_commands() {
    assert_eq!(init_password_ip(""), "192.168.8.1");
    assert_eq!(init_password_ip("10.0.0.1"), "10.0.0.1");
    assert_eq!(
        set_password_command("it's"),
        "echo -e 'it'\\''s\\nit'\\''s' | passwd root"
    );
    assert_eq!(
        authorized_key_command("ssh-ed25519 AAAA me\n"),
        "mkdir -p /etc/dropbear; echo 'ssh-ed25519 AAAA me' >> /etc/dropbear/authorized_keys; chmod 600 /etc/dropbear/authorized_keys"
    );
    assert_eq!(
        restore_commands("network.wg=interface\n\n  network.wg.proto='wireguard' \n"),
        vec![
            "uci set network.wg=interface".to_string(),
            "uci set network.wg.proto='wireguard'".to_string(),
        ]
    );
    assert!(reports_ok("done\nOK\n"));
    assert!(!reports_ok("ok"));
    assert!(handshake_seen("peer: x\n  latest handshake: 3 seconds ago"));
    assert!(!handshake_seen("interface: wg0"));
}

#[test]
fn memory_and_traffic_guards() {
    let mem = |total: u64, free: u64| obj(vec![("memory", obj(vec![("total", JsonValue::UInt(total)), ("free", JsonValue::UInt(free))]))]);
    assert!(system_info_fits(&mem(1000, 250)));
    assert!(!system_info_fits(&mem(0, 0)));
    assert!(!system_info_fits(&mem(u64::MAX, 0)));
    assert!(system_info_fits(&mem(u64::MAX, u64::MAX)));
    assert!(system_info_fits(&obj(vec![("uptime", JsonValue::UInt(5))])));
    assert!(transfer_fits("wg0\tpeer\t10\t20\n"));
    let big = format!("a\tb\t{}\t1\na\tb\t1\t1\n", u64::MAX);
    assert!(!transfer_fits(&big));
    assert!(transfer_fits(&format!("a\tb\t{}\t1\n", u64::MAX)));
}

#[test]
fn sanitising_twice_changes_nothing() {
    let once = sanitize_shell("x'; rm -rf $(ls) | cat & `id`\\");
    assert_eq!(once, "x rm -rf ls  cat  id");
    assert_eq!(sanitize_shell(&once), once);
    let id = sanitize_identifier("wg de;frank$furt").unwrap();
    assert_eq!(id, "wgdefrankfurt");
    assert_eq!(sanitize_identifier(&id), Ok(id.clone()));
}

#[test]
fn security_setup_scripts() {
    assert!(security_scripts(false, false).is_empty());
    let both = security_scripts(true, true);
    assert_eq!(both.len(), 2);
    assert!(both[0].starts_with("uci set firewall.vpn_kill=rule; "));
    assert!(both[0].contains("uci set firewall.vpn_kill.target='REJECT'; uci commit firewall; "));
    assert!(both[0].ends_with("/etc/init.d/firewall reload"));
    assert!(both[1].contains("uci add_list dhcp.@dnsmasq[0].server='103.86.96.100'; "));
    assert!(both[1].ends_with("/etc/init.d/dnsmasq restart"));
    assert_eq!(security_scripts(false, true), vec![both[1].clone()]);
    assert_eq!(security_scripts(true, false), vec![both[0].clone()]);
}
